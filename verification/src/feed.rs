//! Feed data model and normalizer.
//!
//! A raw, format-specific document is normalized into a [`FetchedFeed`]:
//! entries lacking a link are excluded, absent text fields are coerced to the
//! empty string, publication dates are parsed with a fallback to the current
//! instant, and adjacent duplicate entries are collapsed.

use vstd::prelude::*;

use crate::dedup;
use crate::time_parse;
use crate::views;

verus! {

/// One entry of a raw, format-parsed feed document. Every field a feed may
/// omit is optional here; normalization decides the defaults.
pub struct RawFeedEntry {
    pub title: Option<String>,
    pub description: Option<String>,
    pub link: Option<String>,
    pub author: Option<String>,
    pub guid: Option<String>,
    pub categories: Vec<String>,
    pub pub_date: Option<String>,
}

/// A raw feed document, already fetched and format-parsed by a collaborator.
pub struct RawFeedDocument {
    pub title: String,
    pub link: String,
    pub description: String,
    pub entries: Vec<RawFeedEntry>,
}

/// A normalized feed entry: all text fields are present (absent raw fields
/// became the empty string) and the publication date is always set.
pub struct FetchedFeedItem {
    pub title: String,
    pub description: String,
    pub link: String,
    pub author: String,
    pub guid: String,
    pub categories: Vec<String>,
    pub publication_date: i64,
}

/// A normalized feed: feed-level fields copied verbatim from the raw
/// document, and the ordered, deduplicated entry sequence.
pub struct FetchedFeed {
    pub title: String,
    pub link: String,
    pub description: String,
    pub items: Vec<FetchedFeedItem>,
}

/// A source of raw feed documents, identified by its URL. Fetching and
/// format-parsing are a collaborator's concern; the URL is plain data here.
pub struct RssReader {
    pub url: String,
}

impl RssReader {
    /// A reader for the feed published at `url`.
    pub fn new(url: String) -> (r: RssReader)
        ensures
            r.url == url,
    {
        RssReader { url }
    }
}

/// Mathematical model of a raw feed entry.
pub struct RawEntryModel {
    pub title: Option<Seq<char>>,
    pub description: Option<Seq<char>>,
    pub link: Option<Seq<char>>,
    pub author: Option<Seq<char>>,
    pub guid: Option<Seq<char>>,
    pub categories: Seq<Seq<char>>,
    pub pub_date: Option<Seq<char>>,
}

/// Mathematical model of a raw feed document.
pub struct RawDocModel {
    pub title: Seq<char>,
    pub link: Seq<char>,
    pub description: Seq<char>,
    pub entries: Seq<RawEntryModel>,
}

/// Mathematical model of a normalized feed entry.
pub struct EntryModel {
    pub title: Seq<char>,
    pub description: Seq<char>,
    pub link: Seq<char>,
    pub author: Seq<char>,
    pub guid: Seq<char>,
    pub categories: Seq<Seq<char>>,
    pub publication_date: i64,
}

/// Mathematical model of a normalized feed.
pub struct FeedModel {
    pub title: Seq<char>,
    pub link: Seq<char>,
    pub description: Seq<char>,
    pub items: Seq<EntryModel>,
}

impl DeepView for RawFeedEntry {
    type V = RawEntryModel;

    open spec fn deep_view(&self) -> RawEntryModel {
        RawEntryModel {
            title: self.title.deep_view(),
            description: self.description.deep_view(),
            link: self.link.deep_view(),
            author: self.author.deep_view(),
            guid: self.guid.deep_view(),
            categories: self.categories.deep_view(),
            pub_date: self.pub_date.deep_view(),
        }
    }
}

impl DeepView for RawFeedDocument {
    type V = RawDocModel;

    open spec fn deep_view(&self) -> RawDocModel {
        RawDocModel {
            title: self.title@,
            link: self.link@,
            description: self.description@,
            entries: self.entries.deep_view(),
        }
    }
}

impl DeepView for FetchedFeedItem {
    type V = EntryModel;

    open spec fn deep_view(&self) -> EntryModel {
        EntryModel {
            title: self.title@,
            description: self.description@,
            link: self.link@,
            author: self.author@,
            guid: self.guid@,
            categories: self.categories.deep_view(),
            publication_date: self.publication_date,
        }
    }
}

impl DeepView for FetchedFeed {
    type V = FeedModel;

    open spec fn deep_view(&self) -> FeedModel {
        FeedModel {
            title: self.title@,
            link: self.link@,
            description: self.description@,
            items: self.items.deep_view(),
        }
    }
}

/// The text a possibly-absent raw field normalizes to: the text itself, or
/// the empty string when absent.
pub open spec fn opt_text(o: Option<Seq<char>>) -> Seq<char> {
    match o {
        Option::Some(s) => s,
        Option::None => Seq::empty(),
    }
}

/// The normalized entry a raw entry maps to, 1:1: text fields copied
/// verbatim with absent fields coerced to the empty string, categories kept,
/// and the publication date parsed with `now` as the fallback instant.
pub open spec fn norm_entry(raw: RawEntryModel, now: i64) -> EntryModel {
    EntryModel {
        title: opt_text(raw.title),
        description: opt_text(raw.description),
        link: opt_text(raw.link),
        author: opt_text(raw.author),
        guid: opt_text(raw.guid),
        categories: raw.categories,
        publication_date: time_parse::spec_parse_time(raw.pub_date, now),
    }
}

/// The mapped entry sequence before deduplication: raw entries lacking a
/// link are excluded entirely; the rest are mapped in source order.
pub open spec fn norm_entries(raws: Seq<RawEntryModel>, now: i64) -> Seq<EntryModel>
    decreases raws.len(),
{
    if raws.len() == 0 {
        Seq::empty()
    } else {
        let prefix = norm_entries(raws.drop_last(), now);
        if raws.last().link is Some {
            prefix.push(norm_entry(raws.last(), now))
        } else {
            prefix
        }
    }
}

/// The normalized feed a raw document maps to: feed-level fields verbatim,
/// entries mapped, filtered and deduplicated.
pub open spec fn spec_normalize(doc: RawDocModel, now: i64) -> FeedModel {
    FeedModel {
        title: doc.title,
        link: doc.link,
        description: doc.description,
        items: dedup::dedup_adjacent(norm_entries(doc.entries, now)),
    }
}

/// Coerces a possibly-absent text field to owned text, absent meaning empty.
fn text_or_empty(o: &Option<String>) -> (r: String)
    ensures
        r@ == opt_text(o.deep_view()),
{
    match o {
        Some(s) => s.clone(),
        None => String::new(),
    }
}

/// Copies a list of category strings.
pub(crate) fn clone_strings(v: &Vec<String>) -> (r: Vec<String>)
    ensures
        r.deep_view() == v.deep_view(),
{
    let mut r: Vec<String> = Vec::new();
    let mut i: usize = 0;
    while i < v.len()
        invariant
            i <= v.len(),
            r.deep_view() =~= v.deep_view().take(i as int),
        decreases v.len() - i,
    {
        let x = v[i].clone();
        let ghost gx = x;
        let ghost before = r;
        r.push(x);
        proof {
            views::lemma_deep_view_push(before, r, gx);
            assert(v.deep_view().take(i + 1 as int) =~= v.deep_view().take(i as int).push(
                v.deep_view()[i as int],
            ));
        }
        i = i + 1;
    }
    assert(v.deep_view().take(v.len() as int) =~= v.deep_view());
    r
}

impl FetchedFeedItem {
    /// Field-wise copy, used where an item must be handed out while the
    /// stored one stays in place.
    pub fn duplicate(&self) -> (r: FetchedFeedItem)
        ensures
            r.deep_view() == self.deep_view(),
    {
        FetchedFeedItem {
            title: self.title.clone(),
            description: self.description.clone(),
            link: self.link.clone(),
            author: self.author.clone(),
            guid: self.guid.clone(),
            categories: clone_strings(&self.categories),
            publication_date: self.publication_date,
        }
    }
}

impl FetchedFeed {
    /// Normalizes a raw document. Entries lacking a link never reach the
    /// output; the remaining entries are mapped 1:1 in source order with
    /// absent text fields coerced to the empty string and dates parsed with
    /// `now` as the fallback; adjacent duplicates are then collapsed; and
    /// feed-level fields are copied verbatim. This function cannot fail:
    /// malformed input degrades to defaulted fields, never to an error.
    pub fn from_document(doc: &RawFeedDocument, now: i64) -> (r: FetchedFeed)
        ensures
            r.deep_view() == spec_normalize(doc.deep_view(), now),
    {
        let ghost raws = doc.entries.deep_view();
        let mut mapped: Vec<FetchedFeedItem> = Vec::new();
        let mut i: usize = 0;
        while i < doc.entries.len()
            invariant
                i <= doc.entries.len(),
                raws == doc.entries.deep_view(),
                raws.len() == doc.entries.len(),
                mapped.deep_view() == norm_entries(raws.take(i as int), now),
            decreases doc.entries.len() - i,
        {
            let entry = &doc.entries[i];
            if entry.link.is_some() {
                let pub_date = match &entry.pub_date {
                    Some(s) => Some(s.as_str()),
                    None => None,
                };
                let item = FetchedFeedItem {
                    title: text_or_empty(&entry.title),
                    description: text_or_empty(&entry.description),
                    link: text_or_empty(&entry.link),
                    author: text_or_empty(&entry.author),
                    guid: text_or_empty(&entry.guid),
                    categories: clone_strings(&entry.categories),
                    publication_date: time_parse::parse_time(pub_date, now),
                };
                proof {
                    assert(item.deep_view() == norm_entry(raws[i as int], now));
                }
                let ghost gitem = item;
                let ghost before = mapped;
                mapped.push(item);
                proof {
                    views::lemma_deep_view_push(before, mapped, gitem);
                }
            }
            proof {
                assert(raws.take(i + 1 as int).drop_last() =~= raws.take(i as int));
                assert(raws.take(i + 1 as int).last() == raws[i as int]);
                assert(mapped.deep_view() == norm_entries(raws.take(i + 1 as int), now));
            }
            i = i + 1;
        }
        proof {
            assert(raws.take(doc.entries.len() as int) =~= raws);
        }
        let items = dedup::dedup(&mapped);
        FetchedFeed {
            title: doc.title.clone(),
            link: doc.link.clone(),
            description: doc.description.clone(),
            items,
        }
    }

    /// Normalizes a raw document against the current wall-clock instant:
    /// absent or unparseable entry dates become "now" at call time.
    pub fn from_document_now(doc: &RawFeedDocument) -> (r: FetchedFeed)
        ensures
            exists|now: i64| r.deep_view() == spec_normalize(doc.deep_view(), now),
    {
        let now = time_parse::current_timestamp();
        let r = FetchedFeed::from_document(doc, now);
        proof {
            assert(r.deep_view() == spec_normalize(doc.deep_view(), now));
        }
        r
    }
}

/// The mapped entry sequence is never longer than the raw one: exclusion
/// and 1:1 mapping only ever drop entries.
pub proof fn lemma_norm_entries_len(raws: Seq<RawEntryModel>, now: i64)
    ensures
        norm_entries(raws, now).len() <= raws.len(),
    decreases raws.len(),
{
    if raws.len() > 0 {
        lemma_norm_entries_len(raws.drop_last(), now);
    }
}

/// Raw entries lacking a link are excluded, and duplicates only collapse
/// further, so the normalized output never holds more entries than the raw
/// document.
pub proof fn lemma_normalize_entry_count(doc: RawDocModel, now: i64)
    ensures
        spec_normalize(doc, now).items.len() <= doc.entries.len(),
{
    lemma_norm_entries_len(doc.entries, now);
    dedup::lemma_dedup_adjacent_len(norm_entries(doc.entries, now));
}

/// Holds when `e` is the normalized image of some raw entry of `raws` whose
/// link is present.
pub open spec fn stems_from_linked(raws: Seq<RawEntryModel>, now: i64, e: EntryModel) -> bool {
    exists|k: int|
        0 <= k < raws.len() && (#[trigger] raws[k]).link is Some && e == norm_entry(raws[k], now)
}

/// Every entry of the mapped sequence stems from a raw entry whose link is
/// present: entries lacking a link never reach the output.
pub proof fn lemma_norm_entries_linked(raws: Seq<RawEntryModel>, now: i64)
    ensures
        forall|j: int|
            0 <= j < norm_entries(raws, now).len() ==> stems_from_linked(
                raws,
                now,
                #[trigger] norm_entries(raws, now)[j],
            ),
    decreases raws.len(),
{
    if raws.len() > 0 {
        lemma_norm_entries_linked(raws.drop_last(), now);
        let prev = norm_entries(raws.drop_last(), now);
        assert forall|j: int| 0 <= j < norm_entries(raws, now).len() implies stems_from_linked(
            raws,
            now,
            norm_entries(raws, now)[j],
        ) by {
            if j < prev.len() {
                let k = choose|k: int|
                    0 <= k < raws.drop_last().len() && (#[trigger] raws.drop_last()[k]).link is Some
                        && prev[j] == norm_entry(raws.drop_last()[k], now);
                assert(raws[k] == raws.drop_last()[k]);
                assert(raws[k].link is Some && norm_entries(raws, now)[j] == norm_entry(
                    raws[k],
                    now,
                ));
            } else {
                let k = raws.len() - 1;
                assert(raws[k].link is Some && norm_entries(raws, now)[j] == norm_entry(
                    raws[k],
                    now,
                ));
            }
        }
    }
}

/// Raw entries lacking a link are excluded entirely: every entry of the
/// normalized output is the image of some raw entry whose link is present.
pub proof fn lemma_normalize_excludes_linkless(doc: RawDocModel, now: i64)
    ensures
        forall|j: int|
            0 <= j < spec_normalize(doc, now).items.len() ==> stems_from_linked(
                doc.entries,
                now,
                #[trigger] spec_normalize(doc, now).items[j],
            ),
{
    lemma_norm_entries_linked(doc.entries, now);
    let mapped = norm_entries(doc.entries, now);
    dedup::lemma_dedup_adjacent_membership(mapped);
    assert forall|j: int| 0 <= j < spec_normalize(doc, now).items.len() implies stems_from_linked(
        doc.entries,
        now,
        spec_normalize(doc, now).items[j],
    ) by {
        let e = spec_normalize(doc, now).items[j];
        assert(mapped.contains(e));
        let k = choose|k: int| 0 <= k < mapped.len() && mapped[k] == e;
        assert(stems_from_linked(doc.entries, now, mapped[k]));
    }
}

} // verus!

