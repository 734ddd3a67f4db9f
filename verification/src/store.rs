//! Upsert engine: a relational store of persisted feed items with a unique
//! key `(feed_id, guid)` and a single, all-or-nothing batch upsert.
//!
//! Per entry, keyed by `(feed_id, guid)`: no existing row means a fresh row
//! is inserted with `created_at` and `updated_at` set to the storage-side
//! instant; an existing row is updated in place — content fields and
//! `updated_at` are overwritten, `id` and `created_at` are left untouched.

use vstd::prelude::*;

use crate::feed::EntryModel;
use crate::feed::FetchedFeedItem;
use crate::feed::clone_strings;
use crate::views;

verus! {

/// A persisted feed item row. `id` is the storage-assigned identity;
/// `(feed_id, guid)` is unique across all rows; `created_at` is immutable
/// after first insertion; `updated_at` reflects the last successful upsert
/// touching the row ("last seen", not "last changed").
pub struct FeedItem {
    pub id: u64,
    pub feed_id: i32,
    pub title: String,
    pub description: String,
    pub link: String,
    pub author: String,
    pub guid: String,
    pub categories: Vec<String>,
    pub publication_date: i64,
    pub created_at: i64,
    pub updated_at: i64,
}

/// The values an upsert writes for one entry: a normalized entry bound to
/// the feed it belongs to.
pub struct NewFeedItem {
    pub feed_id: i32,
    pub title: String,
    pub description: String,
    pub link: String,
    pub author: String,
    pub guid: String,
    pub categories: Vec<String>,
    pub publication_date: i64,
}

/// A storage failure. Only failures unrelated to the `(feed_id, guid)`
/// conflict target surface; key conflicts are resolved, never reported.
#[derive(Clone, Copy, PartialEq, Eq, Structural, Debug)]
pub enum StorageError {
    /// `feed_id` does not reference a known feed.
    ForeignKeyViolation,
    /// The connection to the store was lost.
    Connectivity,
    /// The batch lost a serialization conflict under concurrent access.
    SerializationConflict,
}

/// Mathematical model of a persisted row.
pub struct RowModel {
    pub id: u64,
    pub feed_id: i32,
    pub title: Seq<char>,
    pub description: Seq<char>,
    pub link: Seq<char>,
    pub author: Seq<char>,
    pub guid: Seq<char>,
    pub categories: Seq<Seq<char>>,
    pub publication_date: i64,
    pub created_at: i64,
    pub updated_at: i64,
}

/// Mathematical model of the values written for one entry.
pub struct NewItemModel {
    pub feed_id: i32,
    pub title: Seq<char>,
    pub description: Seq<char>,
    pub link: Seq<char>,
    pub author: Seq<char>,
    pub guid: Seq<char>,
    pub categories: Seq<Seq<char>>,
    pub publication_date: i64,
}

impl DeepView for FeedItem {
    type V = RowModel;

    open spec fn deep_view(&self) -> RowModel {
        RowModel {
            id: self.id,
            feed_id: self.feed_id,
            title: self.title@,
            description: self.description@,
            link: self.link@,
            author: self.author@,
            guid: self.guid@,
            categories: self.categories.deep_view(),
            publication_date: self.publication_date,
            created_at: self.created_at,
            updated_at: self.updated_at,
        }
    }
}

impl DeepView for NewFeedItem {
    type V = NewItemModel;

    open spec fn deep_view(&self) -> NewItemModel {
        NewItemModel {
            feed_id: self.feed_id,
            title: self.title@,
            description: self.description@,
            link: self.link@,
            author: self.author@,
            guid: self.guid@,
            categories: self.categories.deep_view(),
            publication_date: self.publication_date,
        }
    }
}

/// The write values a normalized entry yields for a given feed.
pub open spec fn new_item_of(feed_id: i32, e: EntryModel) -> NewItemModel {
    NewItemModel {
        feed_id: feed_id,
        title: e.title,
        description: e.description,
        link: e.link,
        author: e.author,
        guid: e.guid,
        categories: e.categories,
        publication_date: e.publication_date,
    }
}

/// Whether a row carries the key `(feed_id, guid)`.
pub open spec fn row_matches(r: RowModel, feed_id: i32, guid: Seq<char>) -> bool {
    r.feed_id == feed_id && r.guid == guid
}

/// Whether some row of the store carries the key.
pub open spec fn has_key(rows: Seq<RowModel>, feed_id: i32, guid: Seq<char>) -> bool {
    exists|i: int| 0 <= i < rows.len() && row_matches(#[trigger] rows[i], feed_id, guid)
}

/// No two rows share a key: the store's uniqueness invariant.
pub open spec fn keys_unique(rows: Seq<RowModel>) -> bool {
    forall|i: int, j: int|
        0 <= i < j < rows.len() ==> !(#[trigger] rows[i].feed_id == #[trigger] rows[j].feed_id
            && rows[i].guid == rows[j].guid)
}

/// Each row's id equals its position: ids are assigned in insertion order
/// and rows are never deleted.
pub open spec fn ids_positional(rows: Seq<RowModel>) -> bool {
    forall|i: int| 0 <= i < rows.len() ==> (#[trigger] rows[i]).id == i
}

/// The fresh row an insert produces: all content from the entry, both
/// timestamps set to the storage-side instant.
pub open spec fn row_inserted(id: u64, item: NewItemModel, now: i64) -> RowModel {
    RowModel {
        id: id,
        feed_id: item.feed_id,
        title: item.title,
        description: item.description,
        link: item.link,
        author: item.author,
        guid: item.guid,
        categories: item.categories,
        publication_date: item.publication_date,
        created_at: now,
        updated_at: now,
    }
}

/// The row an in-place update leaves: content fields and `updated_at`
/// overwritten from the entry; `id`, the key and `created_at` untouched.
pub open spec fn row_updated(r: RowModel, item: NewItemModel, now: i64) -> RowModel {
    RowModel {
        id: r.id,
        feed_id: r.feed_id,
        title: item.title,
        description: item.description,
        link: item.link,
        author: item.author,
        guid: r.guid,
        categories: item.categories,
        publication_date: item.publication_date,
        created_at: r.created_at,
        updated_at: now,
    }
}

/// Whether a row's content fields equal the entry's values.
pub open spec fn row_content_is(r: RowModel, item: NewItemModel) -> bool {
    &&& r.feed_id == item.feed_id
    &&& r.title == item.title
    &&& r.description == item.description
    &&& r.link == item.link
    &&& r.author == item.author
    &&& r.guid == item.guid
    &&& r.categories == item.categories
    &&& r.publication_date == item.publication_date
}

/// What one conflict-resolving write leaves in the store: an update in
/// place when the key is present, an appended fresh row otherwise.
pub open spec fn apply_item(rows: Seq<RowModel>, item: NewItemModel, now: i64) -> Seq<RowModel> {
    if has_key(rows, item.feed_id, item.guid) {
        rows.map_values(
            |r: RowModel|
                if row_matches(r, item.feed_id, item.guid) {
                    row_updated(r, item, now)
                } else {
                    r
                },
        )
    } else {
        rows.push(row_inserted(rows.len() as u64, item, now))
    }
}

/// The store a whole batch leaves, applying its entries in order.
pub open spec fn apply_batch(rows: Seq<RowModel>, items: Seq<NewItemModel>, now: i64) -> Seq<
    RowModel,
>
    decreases items.len(),
{
    if items.len() == 0 {
        rows
    } else {
        apply_item(apply_batch(rows, items.drop_last(), now), items.last(), now)
    }
}

/// The batch of write values a sequence of normalized entries yields.
pub open spec fn batch_of(feed_id: i32, entries: Seq<EntryModel>) -> Seq<NewItemModel> {
    entries.map_values(|e: EntryModel| new_item_of(feed_id, e))
}

/// Whether some entry of the batch carries this guid.
pub open spec fn guid_among(entries: Seq<EntryModel>, guid: Seq<char>) -> bool {
    exists|k: int| 0 <= k < entries.len() && (#[trigger] entries[k]).guid == guid
}

/// The rows corresponding to the input entries, in store order: every row
/// of the feed whose guid appears in the batch.
pub open spec fn selected_rows(rows: Seq<RowModel>, feed_id: i32, entries: Seq<EntryModel>) -> Seq<
    RowModel,
>
    decreases rows.len(),
{
    if rows.len() == 0 {
        Seq::empty()
    } else {
        let prefix = selected_rows(rows.drop_last(), feed_id, entries);
        if rows.last().feed_id == feed_id && guid_among(entries, rows.last().guid) {
            prefix.push(rows.last())
        } else {
            prefix
        }
    }
}

/// What one conflict-resolving write guarantees. Afterwards the key is
/// present; every row matching it carries the entry's content with
/// `updated_at == now`; when the key was already present that row keeps its
/// index, `id` and `created_at` and the row count is unchanged; when it was
/// absent a fresh row is appended whose `created_at` is `now`. Rows at other
/// keys are untouched and both store invariants are preserved.
pub proof fn lemma_apply_item(rows: Seq<RowModel>, item: NewItemModel, now: i64)
    requires
        keys_unique(rows),
    ensures
        keys_unique(apply_item(rows, item, now)),
        has_key(apply_item(rows, item, now), item.feed_id, item.guid),
        apply_item(rows, item, now).len() == if has_key(rows, item.feed_id, item.guid) {
            rows.len()
        } else {
            rows.len() + 1
        },
        forall|k: int|
            0 <= k < rows.len() && !row_matches(#[trigger] rows[k], item.feed_id, item.guid)
                ==> apply_item(rows, item, now)[k] == rows[k],
        forall|k: int|
            0 <= k < apply_item(rows, item, now).len() && row_matches(
                #[trigger] apply_item(rows, item, now)[k],
                item.feed_id,
                item.guid,
            ) ==> {
                &&& row_content_is(apply_item(rows, item, now)[k], item)
                &&& apply_item(rows, item, now)[k].updated_at == now
                &&& if has_key(rows, item.feed_id, item.guid) {
                    k < rows.len() && row_matches(rows[k], item.feed_id, item.guid) && apply_item(
                        rows,
                        item,
                        now,
                    )[k].id == rows[k].id && apply_item(rows, item, now)[k].created_at
                        == rows[k].created_at
                } else {
                    k == rows.len() && apply_item(rows, item, now)[k].created_at == now
                }
            },
{
    let res = apply_item(rows, item, now);
    if has_key(rows, item.feed_id, item.guid) {
        let w = choose|i: int|
            0 <= i < rows.len() && row_matches(#[trigger] rows[i], item.feed_id, item.guid);
        assert(row_matches(res[w], item.feed_id, item.guid));
        assert forall|a: int, b: int| 0 <= a < b < res.len() implies !(#[trigger] res[a].feed_id
            == #[trigger] res[b].feed_id && res[a].guid == res[b].guid) by {
            assert(res[a].feed_id == rows[a].feed_id && res[a].guid == rows[a].guid);
            assert(res[b].feed_id == rows[b].feed_id && res[b].guid == rows[b].guid);
        }
        assert forall|k: int|
            0 <= k < res.len() && row_matches(#[trigger] res[k], item.feed_id, item.guid) implies {
            &&& row_content_is(res[k], item)
            &&& res[k].updated_at == now
            &&& k < rows.len() && row_matches(rows[k], item.feed_id, item.guid) && res[k].id
                == rows[k].id && res[k].created_at == rows[k].created_at
        } by {
            if !row_matches(rows[k], item.feed_id, item.guid) {
                assert(res[k] == rows[k]);
            }
        }
    } else {
        assert(res == rows.push(row_inserted(rows.len() as u64, item, now)));
        assert(row_matches(res[rows.len() as int], item.feed_id, item.guid));
        assert forall|a: int, b: int| 0 <= a < b < res.len() implies !(#[trigger] res[a].feed_id
            == #[trigger] res[b].feed_id && res[a].guid == res[b].guid) by {
            if b == rows.len() {
                assert(res[a] == rows[a]);
                assert(!row_matches(rows[a], item.feed_id, item.guid));
            }
        }
        assert forall|k: int|
            0 <= k < res.len() && row_matches(#[trigger] res[k], item.feed_id, item.guid) implies k
            == rows.len() by {
            if k < rows.len() {
                assert(res[k] == rows[k]);
            }
        }
    }
}

/// Upsert idempotence law: upserting the same entry twice, at storage-side
/// instants `t1 <= t2`, leaves exactly one row carrying its key (the key is
/// present and keys stay unique); the second upsert changes neither the row
/// count nor that row's `created_at`, and its `updated_at` moves from `t1`
/// to `t2`, never decreasing.
pub proof fn lemma_upsert_idempotent(rows: Seq<RowModel>, item: NewItemModel, t1: i64, t2: i64)
    requires
        keys_unique(rows),
        t1 <= t2,
    ensures
        ({
            let r1 = apply_item(rows, item, t1);
            let r2 = apply_item(r1, item, t2);
            &&& r2.len() == r1.len()
            &&& keys_unique(r2)
            &&& has_key(r2, item.feed_id, item.guid)
            &&& forall|k: int|
                0 <= k < r2.len() && row_matches(#[trigger] r2[k], item.feed_id, item.guid) ==> {
                    &&& r2[k].created_at == r1[k].created_at
                    &&& r1[k].updated_at == t1
                    &&& r2[k].updated_at == t2
                    &&& r1[k].updated_at <= r2[k].updated_at
                }
        }),
{
    lemma_apply_item(rows, item, t1);
    lemma_apply_item(apply_item(rows, item, t1), item, t2);
}

/// Upsert update law: when a row already carries the entry's key, the
/// upsert leaves the row count unchanged and rewrites exactly that row in
/// place — its content fields take the entry's values while its `id` and
/// `created_at` are preserved — and every row at another key is untouched.
pub proof fn lemma_upsert_updates_in_place(rows: Seq<RowModel>, item: NewItemModel, now: i64)
    requires
        keys_unique(rows),
        has_key(rows, item.feed_id, item.guid),
    ensures
        apply_item(rows, item, now).len() == rows.len(),
        keys_unique(apply_item(rows, item, now)),
        has_key(apply_item(rows, item, now), item.feed_id, item.guid),
        forall|k: int|
            0 <= k < rows.len() && row_matches(#[trigger] rows[k], item.feed_id, item.guid) ==> {
                &&& row_content_is(apply_item(rows, item, now)[k], item)
                &&& apply_item(rows, item, now)[k].updated_at == now
                &&& apply_item(rows, item, now)[k].id == rows[k].id
                &&& apply_item(rows, item, now)[k].created_at == rows[k].created_at
            },
        forall|k: int|
            0 <= k < rows.len() && !row_matches(#[trigger] rows[k], item.feed_id, item.guid)
                ==> apply_item(rows, item, now)[k] == rows[k],
{
    lemma_apply_item(rows, item, now);
    assert forall|k: int|
        0 <= k < rows.len() && row_matches(#[trigger] rows[k], item.feed_id, item.guid) implies {
        &&& row_content_is(apply_item(rows, item, now)[k], item)
        &&& apply_item(rows, item, now)[k].updated_at == now
        &&& apply_item(rows, item, now)[k].id == rows[k].id
        &&& apply_item(rows, item, now)[k].created_at == rows[k].created_at
    } by {
        assert(row_matches(apply_item(rows, item, now)[k], item.feed_id, item.guid));
    }
}

impl FeedItem {
    /// Field-wise copy, used where a row must be handed out while the
    /// stored one stays in place.
    pub fn duplicate(&self) -> (r: FeedItem)
        ensures
            r.deep_view() == self.deep_view(),
    {
        FeedItem {
            id: self.id,
            feed_id: self.feed_id,
            title: self.title.clone(),
            description: self.description.clone(),
            link: self.link.clone(),
            author: self.author.clone(),
            guid: self.guid.clone(),
            categories: clone_strings(&self.categories),
            publication_date: self.publication_date,
            created_at: self.created_at,
            updated_at: self.updated_at,
        }
    }
}

impl NewFeedItem {
    /// Binds a normalized entry to the feed it is written for.
    pub fn from_fetched(feed_id: i32, item: &FetchedFeedItem) -> (r: NewFeedItem)
        ensures
            r.deep_view() == new_item_of(feed_id, item.deep_view()),
    {
        NewFeedItem {
            feed_id: feed_id,
            title: item.title.clone(),
            description: item.description.clone(),
            link: item.link.clone(),
            author: item.author.clone(),
            guid: item.guid.clone(),
            categories: clone_strings(&item.categories),
            publication_date: item.publication_date,
        }
    }
}

/// An in-memory relational store of persisted feed items, with the unique
/// constraint on `(feed_id, guid)` and a registry of known feed ids acting
/// as the foreign-key target.
pub struct FeedItemStore {
    feeds: Vec<i32>,
    rows: Vec<FeedItem>,
}

impl FeedItemStore {
    /// The model of the persisted rows, in storage order.
    pub closed spec fn rows_model(&self) -> Seq<RowModel> {
        self.rows.deep_view()
    }

    /// The model of the registered feed ids.
    pub closed spec fn feeds_model(&self) -> Seq<i32> {
        self.feeds@
    }

    /// The store's invariant: row ids equal their positions and no two rows
    /// share a `(feed_id, guid)` key.
    pub open spec fn wf(&self) -> bool {
        ids_positional(self.rows_model()) && keys_unique(self.rows_model())
    }

    /// Whether `feed_id` references a registered feed.
    pub open spec fn spec_has_feed(&self, feed_id: i32) -> bool {
        self.feeds_model().contains(feed_id)
    }

    /// An empty store: no feeds, no rows.
    pub fn new() -> (s: FeedItemStore)
        ensures
            s.wf(),
            s.rows_model() == Seq::<RowModel>::empty(),
            s.feeds_model() == Seq::<i32>::empty(),
    {
        let s = FeedItemStore { feeds: Vec::new(), rows: Vec::new() };
        proof {
            assert(s.rows_model() =~= Seq::<RowModel>::empty());
        }
        s
    }

    /// Registers a feed id as a valid foreign-key target for upserts.
    pub fn add_feed(&mut self, feed_id: i32)
        requires
            old(self).wf(),
        ensures
            final(self).wf(),
            final(self).feeds_model() == old(self).feeds_model().push(feed_id),
            final(self).rows_model() == old(self).rows_model(),
    {
        self.feeds.push(feed_id);
    }

    /// Whether `feed_id` references a registered feed.
    pub fn has_feed(&self, feed_id: i32) -> (b: bool)
        ensures
            b == self.spec_has_feed(feed_id),
    {
        let mut i: usize = 0;
        while i < self.feeds.len()
            invariant
                i <= self.feeds.len(),
                forall|k: int| 0 <= k < i ==> self.feeds@[k] != feed_id,
            decreases self.feeds.len() - i,
        {
            if self.feeds[i] == feed_id {
                return true;
            }
            i = i + 1;
        }
        false
    }

    /// The index of the row carrying `(feed_id, guid)`, when one exists.
    fn find_row_index(&self, feed_id: i32, guid: &String) -> (r: Option<usize>)
        ensures
            match r {
                Option::Some(j) => j < self.rows_model().len() && row_matches(
                    self.rows_model()[j as int],
                    feed_id,
                    guid@,
                ),
                Option::None => !has_key(self.rows_model(), feed_id, guid@),
            },
    {
        let mut i: usize = 0;
        while i < self.rows.len()
            invariant
                i <= self.rows.len(),
                forall|k: int|
                    0 <= k < i ==> !row_matches(#[trigger] self.rows_model()[k], feed_id, guid@),
            decreases self.rows.len() - i,
        {
            if self.rows[i].feed_id == feed_id && self.rows[i].guid == *guid {
                return Some(i);
            }
            i = i + 1;
        }
        None
    }

    /// Applies one conflict-resolving write: insert when the key is absent,
    /// update in place when it is present.
    fn apply_one(&mut self, item: &NewFeedItem, now: i64)
        requires
            old(self).wf(),
        ensures
            final(self).wf(),
            final(self).feeds_model() == old(self).feeds_model(),
            final(self).rows_model() == apply_item(old(self).rows_model(), item.deep_view(), now),
    {
        let ghost rows0 = self.rows_model();
        let ghost key_feed = item.deep_view().feed_id;
        let ghost key_guid = item.deep_view().guid;
        match self.find_row_index(item.feed_id, &item.guid) {
            Some(j) => {
                let row = FeedItem {
                    id: self.rows[j].id,
                    feed_id: self.rows[j].feed_id,
                    title: item.title.clone(),
                    description: item.description.clone(),
                    link: item.link.clone(),
                    author: item.author.clone(),
                    guid: self.rows[j].guid.clone(),
                    categories: clone_strings(&item.categories),
                    publication_date: item.publication_date,
                    created_at: self.rows[j].created_at,
                    updated_at: now,
                };
                let ghost grow = row;
                let ghost before = self.rows;
                self.rows[j] = row;
                proof {
                    views::lemma_deep_view_update(before, self.rows, j as int, grow);
                    assert(grow.deep_view() == row_updated(rows0[j as int], item.deep_view(), now));
                    assert(has_key(rows0, key_feed, key_guid));
                    let mapped = rows0.map_values(
                        |r: RowModel|
                            if row_matches(r, key_feed, key_guid) {
                                row_updated(r, item.deep_view(), now)
                            } else {
                                r
                            },
                    );
                    assert forall|k: int| 0 <= k < rows0.len() implies self.rows_model()[k]
                        == mapped[k] by {
                        if k != j {
                            assert(!row_matches(rows0[k], key_feed, key_guid));
                        }
                    }
                    assert(self.rows_model() =~= mapped);
                    assert forall|k: int| 0 <= k < self.rows_model().len() implies (
                    #[trigger] self.rows_model()[k]).id == k by {
                        assert(mapped[k] == if row_matches(rows0[k], key_feed, key_guid) {
                            row_updated(rows0[k], item.deep_view(), now)
                        } else {
                            rows0[k]
                        });
                    }
                    assert forall|a: int, b: int|
                        0 <= a < b < self.rows_model().len() implies !(
                    #[trigger] self.rows_model()[a].feed_id
                        == #[trigger] self.rows_model()[b].feed_id && self.rows_model()[a].guid
                        == self.rows_model()[b].guid) by {
                        assert(self.rows_model()[a].feed_id == rows0[a].feed_id
                            && self.rows_model()[a].guid == rows0[a].guid);
                        assert(self.rows_model()[b].feed_id == rows0[b].feed_id
                            && self.rows_model()[b].guid == rows0[b].guid);
                    }
                }
            },
            None => {
                let id: u64 = self.rows.len() as u64;
                let row = FeedItem {
                    id: id,
                    feed_id: item.feed_id,
                    title: item.title.clone(),
                    description: item.description.clone(),
                    link: item.link.clone(),
                    author: item.author.clone(),
                    guid: item.guid.clone(),
                    categories: clone_strings(&item.categories),
                    publication_date: item.publication_date,
                    created_at: now,
                    updated_at: now,
                };
                let ghost grow = row;
                let ghost before = self.rows;
                self.rows.push(row);
                proof {
                    views::lemma_deep_view_push(before, self.rows, grow);
                    assert(grow.deep_view() == row_inserted(
                        rows0.len() as u64,
                        item.deep_view(),
                        now,
                    ));
                    assert(!has_key(rows0, key_feed, key_guid));
                    assert(self.rows_model() == apply_item(rows0, item.deep_view(), now));
                    assert forall|a: int, b: int|
                        0 <= a < b < self.rows_model().len() implies !(
                    #[trigger] self.rows_model()[a].feed_id
                        == #[trigger] self.rows_model()[b].feed_id && self.rows_model()[a].guid
                        == self.rows_model()[b].guid) by {
                        if b == rows0.len() {
                            assert(!row_matches(rows0[a], key_feed, key_guid));
                        }
                    }
                }
            },
        }
    }

    /// Whether the guid of any input entry equals `guid`.
    fn guid_in(items: &Vec<FetchedFeedItem>, guid: &String) -> (b: bool)
        ensures
            b == guid_among(items.deep_view(), guid@),
    {
        let mut i: usize = 0;
        while i < items.len()
            invariant
                i <= items.len(),
                forall|k: int| 0 <= k < i ==> (#[trigger] items.deep_view()[k]).guid != guid@,
            decreases items.len() - i,
        {
            if items[i].guid == *guid {
                proof {
                    assert((#[trigger] items.deep_view()[i as int]).guid == guid@);
                }
                return true;
            }
            i = i + 1;
        }
        false
    }

    /// The number of persisted rows.
    pub fn row_count(&self) -> (n: usize)
        ensures
            n == self.rows_model().len(),
    {
        self.rows.len()
    }

    /// Upserts a batch of normalized entries for one feed as a single
    /// all-or-nothing operation, keyed by `(feed_id, guid)`.
    ///
    /// When `feed_id` references no registered feed, the constraint
    /// violation surfaces as an error and no entry of the batch is applied.
    /// Otherwise every entry is applied in order — a fresh row per absent
    /// key, an in-place update per present key, `updated_at` always set to
    /// `now` — and the rows corresponding to the input entries come back in
    /// storage order.
    pub fn create(&mut self, feed_id: i32, fetched_items: Vec<FetchedFeedItem>, now: i64) -> (r:
        Result<Vec<FeedItem>, StorageError>)
        requires
            old(self).wf(),
        ensures
            final(self).wf(),
            final(self).feeds_model() == old(self).feeds_model(),
            !old(self).spec_has_feed(feed_id) ==> r == Result::<
                Vec<FeedItem>,
                StorageError,
            >::Err(StorageError::ForeignKeyViolation) && final(self).rows_model() == old(
                self,
            ).rows_model(),
            old(self).spec_has_feed(feed_id) ==> {
                &&& r is Ok
                &&& final(self).rows_model() == apply_batch(
                    old(self).rows_model(),
                    batch_of(feed_id, fetched_items.deep_view()),
                    now,
                )
                &&& r->Ok_0.deep_view() == selected_rows(
                    final(self).rows_model(),
                    feed_id,
                    fetched_items.deep_view(),
                )
            },
    {
        if !self.has_feed(feed_id) {
            return Err(StorageError::ForeignKeyViolation);
        }
        let ghost rows0 = self.rows_model();
        let ghost entries = fetched_items.deep_view();
        let ghost batch = batch_of(feed_id, entries);

        let mut i: usize = 0;
        while i < fetched_items.len()
            invariant
                i <= fetched_items.len(),
                entries == fetched_items.deep_view(),
                entries.len() == fetched_items.len(),
                batch == batch_of(feed_id, entries),
                self.wf(),
                self.feeds_model() == old(self).feeds_model(),
                self.rows_model() == apply_batch(rows0, batch.take(i as int), now),
            decreases fetched_items.len() - i,
        {
            let item = NewFeedItem::from_fetched(feed_id, &fetched_items[i]);
            self.apply_one(&item, now);
            proof {
                assert(batch.take(i + 1 as int).drop_last() =~= batch.take(i as int));
                assert(batch.take(i + 1 as int).last() == batch[i as int]);
                assert(item.deep_view() == batch[i as int]);
            }
            i = i + 1;
        }
        proof {
            assert(batch.take(fetched_items.len() as int) =~= batch);
        }

        let mut result: Vec<FeedItem> = Vec::new();
        let mut j: usize = 0;
        while j < self.rows.len()
            invariant
                j <= self.rows.len(),
                entries == fetched_items.deep_view(),
                result.deep_view() == selected_rows(
                    self.rows_model().take(j as int),
                    feed_id,
                    entries,
                ),
            decreases self.rows.len() - j,
        {
            if self.rows[j].feed_id == feed_id && Self::guid_in(&fetched_items, &self.rows[j].guid) {
                let copy = self.rows[j].duplicate();
                let ghost gcopy = copy;
                let ghost before = result;
                result.push(copy);
                proof {
                    views::lemma_deep_view_push(before, result, gcopy);
                }
            }
            proof {
                let rm = self.rows_model();
                assert(rm.take(j + 1 as int).drop_last() =~= rm.take(j as int));
                assert(rm.take(j + 1 as int).last() == rm[j as int]);
                assert(result.deep_view() == selected_rows(rm.take(j + 1 as int), feed_id, entries));
            }
            j = j + 1;
        }
        proof {
            assert(self.rows_model().take(self.rows.len() as int) =~= self.rows_model());
        }
        Ok(result)
    }
}

} // verus!
