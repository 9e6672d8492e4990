//! Fragment store model: the records the engine persists for items and
//! fragments, with idempotent upserts keyed by `(source_uri,
//! target_path)`. The store is the resume key across restarts; a
//! database sink mirrors these operations outside the library.

use vstd::prelude::*;
use crate::model::FragmentState;

verus! {

/// One item row: where the item downloads from and to, how it is
/// chunked, and how many bytes of it are done.
#[derive(Clone, Debug)]
pub struct ItemRow {
    pub item_db_id: u64,
    pub source_uri: String,
    pub target_path: String,
    pub partial_path: String,
    pub total_size: Option<u64>,
    pub chunk_size: u64,
    pub supports_ranges: bool,
    pub downloaded_bytes: u64,
    pub updated_at: u64,
}

/// One fragment row: a byte interval of an item and its state.
#[derive(Clone, Copy, PartialEq, Eq, Structural, Debug)]
pub struct FragRow {
    pub frag_db_id: u64,
    pub item_db_id: u64,
    pub offset: u64,
    pub len: u64,
    pub state: FragmentState,
    pub updated_at: u64,
}

/// Item summary returned by lookups.
#[derive(Clone, Copy, PartialEq, Eq, Structural, Debug)]
pub struct ItemRecord {
    pub item_db_id: u64,
    pub downloaded_bytes: u64,
    pub total_size: Option<u64>,
}

/// Fragment summary returned by `load_fragments`.
#[derive(Clone, Copy, PartialEq, Eq, Structural, Debug)]
pub struct FragmentRecord {
    pub frag_db_id: u64,
    pub offset: u64,
    pub len: u64,
    pub state: FragmentState,
}

/// Integer encoding of a fragment state as persisted.
pub fn state_to_int(s: FragmentState) -> (r: i64)
    ensures
        r == state_as_int(s),
{
    match s {
        FragmentState::Missing => 0,
        FragmentState::Downloading => 1,
        FragmentState::Done => 2,
        FragmentState::Bad => 3,
    }
}

/// Decode a persisted state integer; unknown values read as `Missing`.
pub fn int_to_state(v: i64) -> (r: FragmentState)
    ensures
        r == int_as_state(v as int),
{
    if v == 1 {
        FragmentState::Downloading
    } else if v == 2 {
        FragmentState::Done
    } else if v == 3 {
        FragmentState::Bad
    } else {
        FragmentState::Missing
    }
}

pub open spec fn state_as_int(s: FragmentState) -> int {
    match s {
        FragmentState::Missing => 0,
        FragmentState::Downloading => 1,
        FragmentState::Done => 2,
        FragmentState::Bad => 3,
    }
}

pub open spec fn int_as_state(v: int) -> FragmentState {
    if v == 1 {
        FragmentState::Downloading
    } else if v == 2 {
        FragmentState::Done
    } else if v == 3 {
        FragmentState::Bad
    } else {
        FragmentState::Missing
    }
}

/// Law: decoding an encoded fragment state gives the state back.
pub proof fn lemma_state_int_round_trip(s: FragmentState)
    ensures
        int_as_state(state_as_int(s)) == s,
{
}

/// Whether a row belongs to the item addressed by this source and
/// target.
pub open spec fn matches_key(row: ItemRow, uri: Seq<char>, path: Seq<char>) -> bool {
    row.source_uri@ == uri && row.target_path@ == path
}

pub open spec fn has_item(items: Seq<ItemRow>, uri: Seq<char>, path: Seq<char>) -> bool {
    exists|j: int| 0 <= j < items.len() && matches_key(#[trigger] items[j], uri, path)
}

/// Index of the row with this key; meaningful only when `has_item`
/// holds, and unique under `FragmentStore::wf`.
pub open spec fn item_at(items: Seq<ItemRow>, uri: Seq<char>, path: Seq<char>) -> int {
    choose|j: int| 0 <= j < items.len() && matches_key(#[trigger] items[j], uri, path)
}

pub open spec fn record_of(row: ItemRow) -> ItemRecord {
    ItemRecord {
        item_db_id: row.item_db_id,
        downloaded_bytes: row.downloaded_bytes,
        total_size: row.total_size,
    }
}

/// The fields an upsert rewrites on an existing row: the total size is
/// coalesced (first known value wins when the caller passes none), the
/// chunk size and range support follow the caller, and the timestamp
/// advances.
pub open spec fn upserted_row(
    row: ItemRow,
    chunk_size: u64,
    total_size: Option<u64>,
    supports_ranges: bool,
    now: u64,
) -> ItemRow {
    ItemRow {
        item_db_id: row.item_db_id,
        source_uri: row.source_uri,
        target_path: row.target_path,
        partial_path: row.partial_path,
        total_size: if total_size is Some {
            total_size
        } else {
            row.total_size
        },
        chunk_size,
        supports_ranges,
        downloaded_bytes: row.downloaded_bytes,
        updated_at: now,
    }
}

/// Predicate picking the fragment rows of one item.
pub open spec fn of_item(item_db_id: u64) -> spec_fn(FragRow) -> bool {
    |f: FragRow| f.item_db_id == item_db_id
}

/// Predicate picking the fragment rows of every other item.
pub open spec fn not_of_item(item_db_id: u64) -> spec_fn(FragRow) -> bool {
    |f: FragRow| f.item_db_id != item_db_id
}

/// The fragment rows of one item, in storage order.
pub open spec fn frags_of(frags: Seq<FragRow>, item_db_id: u64) -> Seq<FragRow> {
    frags.filter(of_item(item_db_id))
}

pub open spec fn frag_record_of(f: FragRow) -> FragmentRecord {
    FragmentRecord { frag_db_id: f.frag_db_id, offset: f.offset, len: f.len, state: f.state }
}

/// `frag_record_of` as a function value, for `map_values`.
pub open spec fn frag_record_fn() -> spec_fn(FragRow) -> FragmentRecord {
    |f: FragRow| frag_record_of(f)
}

/// In-memory model of the durable store: every operation pins its
/// effect on these rows exactly; a database performs the same
/// operations outside the library.
pub struct FragmentStore {
    pub items: Vec<ItemRow>,
    pub fragments: Vec<FragRow>,
    pub next_item_id: u64,
    pub next_frag_id: u64,
}

impl FragmentStore {
    /// Well-formedness: row identifiers are unique and below the next
    /// free identifier, and item keys are unique.
    pub open spec fn wf(&self) -> bool {
        &&& forall|i: int|
            0 <= i < self.items@.len() ==> (#[trigger] self.items@[i]).item_db_id
                < self.next_item_id
        &&& forall|i: int, j: int|
            0 <= i < self.items@.len() && 0 <= j < self.items@.len() && i != j ==> (
            #[trigger] self.items@[i]).item_db_id != (#[trigger] self.items@[j]).item_db_id
        &&& forall|i: int, j: int|
            0 <= i < self.items@.len() && 0 <= j < self.items@.len() && i != j ==> !((
            #[trigger] self.items@[i]).source_uri@ == (
            #[trigger] self.items@[j]).source_uri@ && self.items@[i].target_path@
                == self.items@[j].target_path@)
        &&& forall|i: int|
            0 <= i < self.fragments@.len() ==> (#[trigger] self.fragments@[i]).frag_db_id
                < self.next_frag_id
        &&& forall|i: int, j: int|
            0 <= i < self.fragments@.len() && 0 <= j < self.fragments@.len() && i != j ==> (
            #[trigger] self.fragments@[i]).frag_db_id != (
            #[trigger] self.fragments@[j]).frag_db_id
    }

    /// An empty store.
    pub fn new() -> (r: Self)
        ensures
            r.wf(),
            r.items@.len() == 0,
            r.fragments@.len() == 0,
            r.next_item_id == 1,
            r.next_frag_id == 1,
    {
        FragmentStore { items: Vec::new(), fragments: Vec::new(), next_item_id: 1, next_frag_id: 1 }
    }

    /// Index of the row keyed by `(source_uri, target_path)`, if any.
    fn find_item(&self, source_uri: &str, target_path: &str) -> (r: Option<usize>)
        requires
            self.wf(),
        ensures
            match r {
                Some(i) => {
                    &&& i < self.items@.len()
                    &&& matches_key(self.items@[i as int], source_uri@, target_path@)
                    &&& has_item(self.items@, source_uri@, target_path@)
                    &&& i == item_at(self.items@, source_uri@, target_path@)
                },
                None => !has_item(self.items@, source_uri@, target_path@),
            },
    {
        let n = self.items.len();
        let mut i: usize = 0;
        while i < n
            invariant
                self.wf(),
                n == self.items@.len(),
                i <= n,
                forall|j: int|
                    0 <= j < i ==> !matches_key(#[trigger] self.items@[j], source_uri@,
                    target_path@),
            decreases n - i,
        {
            let row = &self.items[i];
            if crate::model::str_eq(row.source_uri.as_str(), source_uri) && crate::model::str_eq(
                row.target_path.as_str(),
                target_path,
            ) {
                proof {
                    let k = item_at(self.items@, source_uri@, target_path@);
                    assert(0 <= k < self.items@.len() && matches_key(
                        self.items@[k],
                        source_uri@,
                        target_path@,
                    ));
                    // Keys are unique under `wf`, so the found index is the
                    // chosen one.
                    assert(k == i as int);
                }
                return Some(i);
            }
            i = i + 1;
        }
        None
    }

    /// Insert-if-absent by `(source_uri, target_path)`, then update the
    /// coalesced fields. Returns the current record; `None` only when a
    /// fresh row is needed and the identifier space is exhausted.
    pub fn upsert_item(
        &mut self,
        source_uri: &str,
        target_path: &str,
        partial_path: &str,
        chunk_size: u64,
        total_size: Option<u64>,
        supports_ranges: bool,
        now: u64,
    ) -> (r: Option<ItemRecord>)
        requires
            old(self).wf(),
        ensures
            final(self).wf(),
            final(self).fragments@ == old(self).fragments@,
            final(self).next_frag_id == old(self).next_frag_id,
            has_item(old(self).items@, source_uri@, target_path@) ==> {
                let j = item_at(old(self).items@, source_uri@, target_path@);
                &&& final(self).items@ == old(self).items@.update(
                    j,
                    upserted_row(old(self).items@[j], chunk_size, total_size, supports_ranges, now),
                )
                &&& final(self).next_item_id == old(self).next_item_id
                &&& r == Some(record_of(final(self).items@[j]))
            },
            !has_item(old(self).items@, source_uri@, target_path@) && old(self).next_item_id
                < u64::MAX ==> {
                let row = final(self).items@.last();
                &&& final(self).items@.len() == old(self).items@.len() + 1
                &&& final(self).items@.subrange(0, old(self).items@.len() as int) == old(
                    self,
                ).items@
                &&& row.item_db_id == old(self).next_item_id
                &&& row.source_uri@ == source_uri@
                &&& row.target_path@ == target_path@
                &&& row.partial_path@ == partial_path@
                &&& row.total_size == total_size
                &&& row.chunk_size == chunk_size
                &&& row.supports_ranges == supports_ranges
                &&& row.downloaded_bytes == 0
                &&& row.updated_at == now
                &&& final(self).next_item_id == old(self).next_item_id + 1
                &&& r == Some(record_of(row))
            },
            !has_item(old(self).items@, source_uri@, target_path@) && old(self).next_item_id
                == u64::MAX ==> r is None && *final(self) == *old(self),
    {
        match self.find_item(source_uri, target_path) {
            Some(i) => {
                let ghost j = i as int;
                let row = self.items.remove(i);
                let updated = ItemRow {
                    item_db_id: row.item_db_id,
                    source_uri: row.source_uri,
                    target_path: row.target_path,
                    partial_path: row.partial_path,
                    total_size: match total_size {
                        Some(t) => Some(t),
                        None => row.total_size,
                    },
                    chunk_size,
                    supports_ranges,
                    downloaded_bytes: row.downloaded_bytes,
                    updated_at: now,
                };
                let rec = ItemRecord {
                    item_db_id: updated.item_db_id,
                    downloaded_bytes: updated.downloaded_bytes,
                    total_size: updated.total_size,
                };
                self.items.insert(i, updated);
                proof {
                    vstd::seq_lib::lemma_update_is_remove_insert(
                        old(self).items@,
                        j,
                        upserted_row(
                            old(self).items@[j],
                            chunk_size,
                            total_size,
                            supports_ranges,
                            now,
                        ),
                    );
                    assert(self.items@ =~= old(self).items@.update(
                        j,
                        upserted_row(
                            old(self).items@[j],
                            chunk_size,
                            total_size,
                            supports_ranges,
                            now,
                        ),
                    ));
                }
                Some(rec)
            },
            None => {
                if self.next_item_id == u64::MAX {
                    return None;
                }
                let row = ItemRow {
                    item_db_id: self.next_item_id,
                    source_uri: String::from_str(source_uri),
                    target_path: String::from_str(target_path),
                    partial_path: String::from_str(partial_path),
                    total_size,
                    chunk_size,
                    supports_ranges,
                    downloaded_bytes: 0,
                    updated_at: now,
                };
                let rec = ItemRecord {
                    item_db_id: row.item_db_id,
                    downloaded_bytes: 0,
                    total_size: row.total_size,
                };
                self.items.push(row);
                self.next_item_id = self.next_item_id + 1;
                proof {
                    assert(self.items@.subrange(0, old(self).items@.len() as int) =~= old(
                        self,
                    ).items@);
                }
                Some(rec)
            },
        }
    }

    /// The record keyed by `(source_uri, target_path)`, if present.
    pub fn get_item(&self, source_uri: &str, target_path: &str) -> (r: Option<ItemRecord>)
        requires
            self.wf(),
        ensures
            has_item(self.items@, source_uri@, target_path@) ==> r == Some(
                record_of(self.items@[item_at(self.items@, source_uri@, target_path@)]),
            ),
            !has_item(self.items@, source_uri@, target_path@) ==> r is None,
    {
        match self.find_item(source_uri, target_path) {
            Some(i) => {
                let row = &self.items[i];
                Some(
                    ItemRecord {
                        item_db_id: row.item_db_id,
                        downloaded_bytes: row.downloaded_bytes,
                        total_size: row.total_size,
                    },
                )
            },
            None => None,
        }
    }

    /// Whether any fragment row of this item exists.
    fn has_fragments(&self, item_db_id: u64) -> (r: bool)
        ensures
            r == (frags_of(self.fragments@, item_db_id).len() > 0),
    {
        let n = self.fragments.len();
        let mut i: usize = 0;
        while i < n
            invariant
                n == self.fragments@.len(),
                i <= n,
                forall|j: int| 0 <= j < i ==> (#[trigger] self.fragments@[j]).item_db_id != item_db_id,
            decreases n - i,
        {
            if self.fragments[i].item_db_id == item_db_id {
                proof {
                    broadcast use vstd::seq_lib::group_filter_ensures;

                    assert(frags_of(self.fragments@, item_db_id).contains(self.fragments@[i as int]));
                }
                return true;
            }
            i = i + 1;
        }
        proof {
            broadcast use vstd::seq_lib::group_filter_ensures;

            let kept = frags_of(self.fragments@, item_db_id);
            if kept.len() > 0 {
                // A kept row satisfies the filter and sits somewhere in the
                // scanned rows, contradicting the loop's finding.
                assert(kept[0].item_db_id == item_db_id);
                lemma_filter_subset(self.fragments@, of_item(item_db_id), 0);
            }
        }
        false
    }

    /// If the item has no fragment rows yet, insert the given
    /// `(offset, len)` ranges as `Missing`; otherwise change nothing.
    /// This preserves resume. Returns whether rows were inserted.
    pub fn ensure_fragments_for_ranges(
        &mut self,
        item_db_id: u64,
        ranges: &Vec<(u64, u64)>,
        now: u64,
    ) -> (inserted: bool)
        requires
            old(self).wf(),
        ensures
            final(self).wf(),
            final(self).items@ == old(self).items@,
            final(self).next_item_id == old(self).next_item_id,
            inserted == ensure_would_insert(
                old(self).fragments@,
                old(self).next_frag_id,
                item_db_id,
                ranges@.len() as int,
            ),
            final(self).fragments@ == ensured_frag_rows(
                old(self).fragments@,
                old(self).next_frag_id,
                item_db_id,
                ranges@,
                now,
            ),
            final(self).next_frag_id as int == ensured_next_frag_id(
                old(self).fragments@,
                old(self).next_frag_id,
                item_db_id,
                ranges@.len() as int,
            ),
            !inserted ==> *final(self) == *old(self),
    {
        let n_ranges = ranges.len() as u64;
        if self.has_fragments(item_db_id) {
            return false;
        }
        if n_ranges > u64::MAX - self.next_frag_id {
            return false;
        }
        let first_id = self.next_frag_id;
        let n = ranges.len();
        let mut k: usize = 0;
        while k < n
            invariant
                old(self).wf(),
                n == ranges@.len(),
                k <= n,
                first_id == old(self).next_frag_id,
                first_id + n <= u64::MAX,
                self.items@ == old(self).items@,
                self.next_item_id == old(self).next_item_id,
                self.next_frag_id == old(self).next_frag_id,
                self.fragments@ == old(self).fragments@ + fresh_frag_rows(
                    item_db_id,
                    ranges@.take(k as int),
                    first_id as int,
                    now,
                ),
            decreases n - k,
        {
            let (offset, len) = ranges[k];
            self.fragments.push(
                FragRow {
                    frag_db_id: first_id + k as u64,
                    item_db_id,
                    offset,
                    len,
                    state: FragmentState::Missing,
                    updated_at: now,
                },
            );
            k = k + 1;
            proof {
                assert(self.fragments@ =~= old(self).fragments@ + fresh_frag_rows(
                    item_db_id,
                    ranges@.take(k as int),
                    first_id as int,
                    now,
                ));
            }
        }
        self.next_frag_id = first_id + n_ranges;
        proof {
            assert(ranges@.take(n as int) =~= ranges@);
            assert(self.fragments@ =~= ensured_frag_rows(
                old(self).fragments@,
                old(self).next_frag_id,
                item_db_id,
                ranges@,
                now,
            ));
        }
        true
    }

    /// All fragment records of the item, ordered by offset.
    pub fn load_fragments(&self, item_db_id: u64) -> (r: Vec<FragmentRecord>)
        ensures
            sorted_by_offset(r@),
            r@.to_multiset() == frags_of(self.fragments@, item_db_id).map_values(
                frag_record_fn(),
            ).to_multiset(),
    {
        let ghost pred = of_item(item_db_id);
        let n = self.fragments.len();
        let mut acc: Vec<FragmentRecord> = Vec::new();
        let mut i: usize = 0;
        proof {
            assert(self.fragments@.take(0) =~= Seq::<FragRow>::empty());
            assert(frags_of(self.fragments@.take(0), item_db_id) =~= Seq::<FragRow>::empty());
        }
        while i < n
            invariant
                n == self.fragments@.len(),
                i <= n,
                pred == of_item(item_db_id),
                acc@ == frags_of(self.fragments@.take(i as int), item_db_id).map_values(
                    frag_record_fn(),
                ),
            decreases n - i,
        {
            let f = self.fragments[i];
            proof {
                lemma_filter_push(self.fragments@.take(i as int), self.fragments@[i as int], pred);
                assert(self.fragments@.take(i + 1) =~= self.fragments@.take(i as int).push(
                    self.fragments@[i as int],
                ));
            }
            if f.item_db_id == item_db_id {
                acc.push(
                    FragmentRecord {
                        frag_db_id: f.frag_db_id,
                        offset: f.offset,
                        len: f.len,
                        state: f.state,
                    },
                );
            }
            i = i + 1;
            proof {
                assert(acc@ =~= frags_of(self.fragments@.take(i as int), item_db_id).map_values(
                    frag_record_fn(),
                ));
            }
        }
        proof {
            assert(self.fragments@.take(n as int) =~= self.fragments@);
        }
        sort_records(&mut acc);
        acc
    }

    /// Set the state of the fragment row with this identifier; the
    /// timestamp advances with it.
    pub fn set_fragment_state(&mut self, frag_db_id: u64, state: FragmentState, now: u64)
        requires
            old(self).wf(),
        ensures
            final(self).wf(),
            final(self).items@ == old(self).items@,
            final(self).next_item_id == old(self).next_item_id,
            final(self).next_frag_id == old(self).next_frag_id,
            final(self).fragments@.len() == old(self).fragments@.len(),
            forall|i: int|
                0 <= i < old(self).fragments@.len() ==> final(self).fragments@[i] == (
                if (#[trigger] old(self).fragments@[i]).frag_db_id == frag_db_id {
                    frag_with_state(old(self).fragments@[i], state, now)
                } else {
                    old(self).fragments@[i]
                }),
    {
        let n = self.fragments.len();
        let mut i: usize = 0;
        while i < n
            invariant
                old(self).wf(),
                n == old(self).fragments@.len(),
                i <= n,
                self.items@ == old(self).items@,
                self.next_item_id == old(self).next_item_id,
                self.next_frag_id == old(self).next_frag_id,
                self.fragments@.len() == n,
                forall|j: int|
                    0 <= j < n ==> (#[trigger] self.fragments@[j]).frag_db_id == old(
                        self,
                    ).fragments@[j].frag_db_id,
                forall|j: int|
                    0 <= j < i ==> self.fragments@[j] == (
                    if (#[trigger] old(self).fragments@[j]).frag_db_id == frag_db_id {
                        frag_with_state(old(self).fragments@[j], state, now)
                    } else {
                        old(self).fragments@[j]
                    }),
                forall|j: int| i <= j < n ==> self.fragments@[j] == old(self).fragments@[j],
            decreases n - i,
        {
            let f = self.fragments[i];
            if f.frag_db_id == frag_db_id {
                self.fragments.set(i, FragRow { state, updated_at: now, ..f });
            }
            i = i + 1;
        }
    }

    /// Atomically record a fragment as done and add its bytes to the
    /// item's running total (saturating at the integer limit).
    pub fn mark_fragment_done_and_add_bytes(
        &mut self,
        frag_db_id: u64,
        item_db_id: u64,
        bytes: u64,
        now: u64,
    )
        requires
            old(self).wf(),
        ensures
            final(self).wf(),
            final(self).next_item_id == old(self).next_item_id,
            final(self).next_frag_id == old(self).next_frag_id,
            final(self).fragments@.len() == old(self).fragments@.len(),
            forall|i: int|
                0 <= i < old(self).fragments@.len() ==> final(self).fragments@[i] == (
                if (#[trigger] old(self).fragments@[i]).frag_db_id == frag_db_id {
                    frag_with_state(old(self).fragments@[i], FragmentState::Done, now)
                } else {
                    old(self).fragments@[i]
                }),
            final(self).items@.len() == old(self).items@.len(),
            forall|i: int|
                0 <= i < old(self).items@.len() ==> final(self).items@[i] == (
                if (#[trigger] old(self).items@[i]).item_db_id == item_db_id {
                    row_with_added_bytes(old(self).items@[i], bytes, now)
                } else {
                    old(self).items@[i]
                }),
    {
        self.set_fragment_state(frag_db_id, FragmentState::Done, now);
        proof {
            assert(self.fragments@ =~= old(self).fragments_with_done(frag_db_id, now));
        }
        let n = self.items.len();
        let mut i: usize = 0;
        while i < n
            invariant
                n == old(self).items@.len(),
                i <= n,
                self.wf(),
                self.fragments@ == old(self).fragments_with_done(frag_db_id, now),
                self.next_item_id == old(self).next_item_id,
                self.next_frag_id == old(self).next_frag_id,
                self.items@.len() == n,
                forall|j: int|
                    0 <= j < i ==> self.items@[j] == (
                    if (#[trigger] old(self).items@[j]).item_db_id == item_db_id {
                        row_with_added_bytes(old(self).items@[j], bytes, now)
                    } else {
                        old(self).items@[j]
                    }),
                forall|j: int| i <= j < n ==> self.items@[j] == old(self).items@[j],
            decreases n - i,
        {
            if self.items[i].item_db_id == item_db_id {
                let ghost j = i as int;
                let row = self.items.remove(i);
                let new_bytes = if bytes <= u64::MAX - row.downloaded_bytes {
                    row.downloaded_bytes + bytes
                } else {
                    u64::MAX
                };
                let updated = ItemRow {
                    item_db_id: row.item_db_id,
                    source_uri: row.source_uri,
                    target_path: row.target_path,
                    partial_path: row.partial_path,
                    total_size: row.total_size,
                    chunk_size: row.chunk_size,
                    supports_ranges: row.supports_ranges,
                    downloaded_bytes: new_bytes,
                    updated_at: now,
                };
                self.items.insert(i, updated);
                proof {
                    assert(self.items@[j] == row_with_added_bytes(old(self).items@[j], bytes, now));
                }
            }
            i = i + 1;
        }
    }

    /// Structural reset: remove every fragment row of the item.
    pub fn delete_fragments(&mut self, item_db_id: u64)
        requires
            old(self).wf(),
        ensures
            final(self).wf(),
            final(self).items@ == old(self).items@,
            final(self).next_item_id == old(self).next_item_id,
            final(self).next_frag_id == old(self).next_frag_id,
            final(self).fragments@ == old(self).fragments@.filter(not_of_item(item_db_id)),
    {
        let ghost pred = not_of_item(item_db_id);
        let n = self.fragments.len();
        let mut kept: Vec<FragRow> = Vec::new();
        let mut i: usize = 0;
        proof {
            assert(self.fragments@.take(0) =~= Seq::<FragRow>::empty());
            assert(self.fragments@.take(0).filter(pred) =~= Seq::<FragRow>::empty());
        }
        while i < n
            invariant
                old(self).wf(),
                n == self.fragments@.len(),
                self.items@ == old(self).items@,
                self.fragments@ == old(self).fragments@,
                self.next_item_id == old(self).next_item_id,
                self.next_frag_id == old(self).next_frag_id,
                i <= n,
                pred == not_of_item(item_db_id),
                kept@ == self.fragments@.take(i as int).filter(pred),
            decreases n - i,
        {
            let f = self.fragments[i];
            proof {
                lemma_filter_push(self.fragments@.take(i as int), self.fragments@[i as int], pred);
                assert(self.fragments@.take(i + 1) =~= self.fragments@.take(i as int).push(
                    self.fragments@[i as int],
                ));
            }
            if f.item_db_id != item_db_id {
                kept.push(f);
            }
            i = i + 1;
            proof {
                assert(kept@ =~= self.fragments@.take(i as int).filter(pred));
            }
        }
        proof {
            assert(self.fragments@.take(n as int) =~= self.fragments@);
        }
        self.fragments = kept;
        proof {
            let out = old(self).fragments@.filter(pred);
            lemma_filter_keeps_distinct_ids(old(self).fragments@, pred);
            assert forall|a: int|
                0 <= a < out.len() implies (#[trigger] out[a]).frag_db_id
                < old(self).next_frag_id by {
                lemma_filter_subset(old(self).fragments@, pred, a);
            }
        }
    }

    /// The fragment rows after the row with this identifier is marked
    /// `Done` at time `now`.
    pub open spec fn fragments_with_done(&self, frag_db_id: u64, now: u64) -> Seq<FragRow> {
        Seq::new(
            self.fragments@.len(),
            |i: int|
                if self.fragments@[i].frag_db_id == frag_db_id {
                    frag_with_state(self.fragments@[i], FragmentState::Done, now)
                } else {
                    self.fragments@[i]
                },
        )
    }

    /// Record whether the server honours ranges for an already stored
    /// item.
    pub fn set_item_supports_ranges(&mut self, item_db_id: u64, supports_ranges: bool, now: u64)
        requires
            old(self).wf(),
        ensures
            final(self).wf(),
            final(self).fragments@ == old(self).fragments@,
            final(self).next_item_id == old(self).next_item_id,
            final(self).next_frag_id == old(self).next_frag_id,
            final(self).items@.len() == old(self).items@.len(),
            forall|i: int|
                0 <= i < old(self).items@.len() ==> final(self).items@[i] == (
                if (#[trigger] old(self).items@[i]).item_db_id == item_db_id {
                    row_with_ranges_flag(old(self).items@[i], supports_ranges, now)
                } else {
                    old(self).items@[i]
                }),
    {
        let n = self.items.len();
        let mut i: usize = 0;
        while i < n
            invariant
                n == old(self).items@.len(),
                i <= n,
                self.wf(),
                self.fragments@ == old(self).fragments@,
                self.next_item_id == old(self).next_item_id,
                self.next_frag_id == old(self).next_frag_id,
                self.items@.len() == n,
                forall|j: int|
                    0 <= j < i ==> self.items@[j] == (
                    if (#[trigger] old(self).items@[j]).item_db_id == item_db_id {
                        row_with_ranges_flag(old(self).items@[j], supports_ranges, now)
                    } else {
                        old(self).items@[j]
                    }),
                forall|j: int| i <= j < n ==> self.items@[j] == old(self).items@[j],
            decreases n - i,
        {
            if self.items[i].item_db_id == item_db_id {
                let row = self.items.remove(i);
                let updated = ItemRow {
                    item_db_id: row.item_db_id,
                    source_uri: row.source_uri,
                    target_path: row.target_path,
                    partial_path: row.partial_path,
                    total_size: row.total_size,
                    chunk_size: row.chunk_size,
                    supports_ranges,
                    downloaded_bytes: row.downloaded_bytes,
                    updated_at: now,
                };
                self.items.insert(i, updated);
            }
            i = i + 1;
        }
    }

    /// The staging path recorded for the item, if present.
    pub fn read_partial_path(&self, source_uri: &str, target_path: &str) -> (r: Option<String>)
        requires
            self.wf(),
        ensures
            has_item(self.items@, source_uri@, target_path@) ==> (r matches Some(p) && p@
                == self.items@[item_at(self.items@, source_uri@, target_path@)].partial_path@),
            !has_item(self.items@, source_uri@, target_path@) ==> r is None,
    {
        match self.find_item(source_uri, target_path) {
            Some(i) => Some(String::from_str(self.items[i].partial_path.as_str())),
            None => None,
        }
    }
}

/// A fragment row with its state and timestamp rewritten.
pub open spec fn frag_with_state(f: FragRow, state: FragmentState, now: u64) -> FragRow {
    FragRow {
        frag_db_id: f.frag_db_id,
        item_db_id: f.item_db_id,
        offset: f.offset,
        len: f.len,
        state,
        updated_at: now,
    }
}

/// An item row with `bytes` added to its running total, saturating at
/// the integer limit.
pub open spec fn row_with_added_bytes(row: ItemRow, bytes: u64, now: u64) -> ItemRow {
    ItemRow {
        item_db_id: row.item_db_id,
        source_uri: row.source_uri,
        target_path: row.target_path,
        partial_path: row.partial_path,
        total_size: row.total_size,
        chunk_size: row.chunk_size,
        supports_ranges: row.supports_ranges,
        downloaded_bytes: if row.downloaded_bytes + bytes <= u64::MAX {
            (row.downloaded_bytes + bytes) as u64
        } else {
            u64::MAX
        },
        updated_at: now,
    }
}

/// An item row with its range-support flag rewritten.
pub open spec fn row_with_ranges_flag(row: ItemRow, supports_ranges: bool, now: u64) -> ItemRow {
    ItemRow {
        item_db_id: row.item_db_id,
        source_uri: row.source_uri,
        target_path: row.target_path,
        partial_path: row.partial_path,
        total_size: row.total_size,
        chunk_size: row.chunk_size,
        supports_ranges,
        downloaded_bytes: row.downloaded_bytes,
        updated_at: now,
    }
}

/// The rows a successful insert appends: one `Missing` row per range,
/// with consecutive identifiers from `first_id`.
pub open spec fn fresh_frag_rows(
    item_db_id: u64,
    ranges: Seq<(u64, u64)>,
    first_id: int,
    now: u64,
) -> Seq<FragRow> {
    Seq::new(
        ranges.len(),
        |k: int|
            FragRow {
                frag_db_id: (first_id + k) as u64,
                item_db_id,
                offset: ranges[k].0,
                len: ranges[k].1,
                state: FragmentState::Missing,
                updated_at: now,
            },
    )
}

/// `ensure_fragments_for_ranges` inserts only when the item has no
/// fragment rows yet and identifiers remain for every range.
pub open spec fn ensure_would_insert(
    frags: Seq<FragRow>,
    next_frag_id: u64,
    item_db_id: u64,
    n_ranges: int,
) -> bool {
    frags_of(frags, item_db_id).len() == 0 && next_frag_id + n_ranges <= u64::MAX
}

/// The fragment rows after `ensure_fragments_for_ranges`.
pub open spec fn ensured_frag_rows(
    frags: Seq<FragRow>,
    next_frag_id: u64,
    item_db_id: u64,
    ranges: Seq<(u64, u64)>,
    now: u64,
) -> Seq<FragRow> {
    if ensure_would_insert(frags, next_frag_id, item_db_id, ranges.len() as int) {
        frags + fresh_frag_rows(item_db_id, ranges, next_frag_id as int, now)
    } else {
        frags
    }
}

/// The next free fragment identifier after `ensure_fragments_for_ranges`.
pub open spec fn ensured_next_frag_id(
    frags: Seq<FragRow>,
    next_frag_id: u64,
    item_db_id: u64,
    n_ranges: int,
) -> int {
    if ensure_would_insert(frags, next_frag_id, item_db_id, n_ranges) {
        next_frag_id + n_ranges
    } else {
        next_frag_id as int
    }
}

/// Fragment records in non-decreasing offset order.
pub open spec fn sorted_by_offset(s: Seq<FragmentRecord>) -> bool {
    forall|i: int, j: int| 0 <= i < j < s.len() ==> s[i].offset <= s[j].offset
}

/// Sort fragment records by offset (insertion sort); the records are
/// rearranged, never changed.
fn sort_records(v: &mut Vec<FragmentRecord>)
    ensures
        sorted_by_offset(final(v)@),
        final(v)@.to_multiset() == old(v)@.to_multiset(),
{
    let n = v.len();
    if n <= 1 {
        return;
    }
    let mut i: usize = 1;
    while i < n
        invariant
            n == v@.len(),
            1 <= i <= n,
            v@.to_multiset() == old(v)@.to_multiset(),
            forall|a: int, b: int| 0 <= a < b < i ==> v@[a].offset <= v@[b].offset,
        decreases n - i,
    {
        let mut j: usize = i;
        while j > 0 && v[j - 1].offset > v[j].offset
            invariant
                n == v@.len(),
                j <= i < n,
                v@.to_multiset() == old(v)@.to_multiset(),
                forall|a: int, b: int|
                    0 <= a < b <= i && b != j ==> v@[a].offset <= v@[b].offset,
            decreases j,
    {
            let x = v[j - 1];
            let y = v[j];
            proof {
                broadcast use vstd::seq_lib::to_multiset_update;
                broadcast use vstd::seq_lib::group_to_multiset_ensures;
                broadcast use vstd::multiset::group_multiset_axioms;

                let s0 = v@;
                let s1 = s0.update(j - 1, s0[j as int]);
                let s2 = s1.update(j as int, s0[j - 1]);
                assert(s0.contains(s0[j - 1]));
                assert(s0.to_multiset().count(s0[j - 1]) > 0);
                assert(s1[j as int] == s0[j as int]);
                assert(s1.to_multiset() == s0.to_multiset().insert(s0[j as int]).remove(
                    s0[j - 1],
                ));
                assert(s2.to_multiset() == s1.to_multiset().insert(s0[j - 1]).remove(
                    s0[j as int],
                ));
                assert(s2.to_multiset() =~= s0.to_multiset());
            }
            v.set(j - 1, y);
            v.set(j, x);
            j = j - 1;
        }
        i = i + 1;
    }
}

/// `push` and `filter` commute: the pushed element stays exactly when
/// it satisfies the predicate.
pub proof fn lemma_filter_push<A>(s: Seq<A>, x: A, pred: spec_fn(A) -> bool)
    ensures
        s.push(x).filter(pred) == if pred(x) {
            s.filter(pred).push(x)
        } else {
            s.filter(pred)
        },
{
    reveal(Seq::filter);
    assert(s.push(x).drop_last() =~= s);
    assert(s.push(x).last() == x);
}

/// Every element of a filtered sequence sits somewhere in the original.
pub proof fn lemma_filter_subset<A>(s: Seq<A>, pred: spec_fn(A) -> bool, i: int)
    requires
        0 <= i < s.filter(pred).len(),
    ensures
        exists|j: int| 0 <= j < s.len() && s[j] == s.filter(pred)[i],
    decreases s.len(),
{
    reveal(Seq::filter);
    if s.len() > 0 {
        let sub = s.drop_last().filter(pred);
        if pred(s.last()) && i == s.filter(pred).len() - 1 {
            assert(s[s.len() - 1] == s.filter(pred)[i]);
        } else {
            lemma_filter_subset(s.drop_last(), pred, i);
            let j = choose|j: int| 0 <= j < s.drop_last().len() && s.drop_last()[j] == sub[i];
            assert(s[j] == s.filter(pred)[i]);
        }
    }
}

/// Filtering keeps fragment identifiers pairwise distinct.
pub proof fn lemma_filter_keeps_distinct_ids(s: Seq<FragRow>, pred: spec_fn(FragRow) -> bool)
    requires
        forall|i: int, j: int|
            0 <= i < s.len() && 0 <= j < s.len() && i != j ==> (#[trigger] s[i]).frag_db_id != (
            #[trigger] s[j]).frag_db_id,
    ensures
        forall|a: int, b: int|
            0 <= a < s.filter(pred).len() && 0 <= b < s.filter(pred).len() && a != b ==> (
            #[trigger] s.filter(pred)[a]).frag_db_id != (#[trigger] s.filter(pred)[b]).frag_db_id,
    decreases s.len(),
{
    reveal(Seq::filter);
    if s.len() > 0 {
        let head = s.drop_last();
        assert(forall|i: int, j: int|
            0 <= i < head.len() && 0 <= j < head.len() && i != j ==> (
            #[trigger] head[i]).frag_db_id != (#[trigger] head[j]).frag_db_id);
        lemma_filter_keeps_distinct_ids(head, pred);
        let sub = head.filter(pred);
        let out = s.filter(pred);
        if pred(s.last()) {
            assert forall|a: int, b: int|
                0 <= a < out.len() && 0 <= b < out.len() && a != b implies (
            #[trigger] out[a]).frag_db_id != (#[trigger] out[b]).frag_db_id by {
                if a < out.len() - 1 && b < out.len() - 1 {
                    assert(out[a] == sub[a] && out[b] == sub[b]);
                } else {
                    let c = if a < b {
                        a
                    } else {
                        b
                    };
                    assert(out[c] == sub[c]);
                    lemma_filter_subset(head, pred, c);
                    let w = choose|w: int| 0 <= w < head.len() && head[w] == sub[c];
                    assert(s[w] == sub[c]);
                    assert(s[w].frag_db_id != s[s.len() - 1].frag_db_id);
                }
            }
        }
    }
}

/// Law: ensuring the same ranges twice yields the same persisted set;
/// the second call is a no-op because the first left records behind.
pub proof fn lemma_ensure_fragments_idempotent(
    frags: Seq<FragRow>,
    next_frag_id: u64,
    item_db_id: u64,
    ranges: Seq<(u64, u64)>,
    now1: u64,
    now2: u64,
)
    requires
        ranges.len() > 0,
    ensures
        ({
            let frags1 = ensured_frag_rows(frags, next_frag_id, item_db_id, ranges, now1);
            let next1 = ensured_next_frag_id(frags, next_frag_id, item_db_id, ranges.len() as int);
            ensured_frag_rows(frags1, next1 as u64, item_db_id, ranges, now2) == frags1
        }),
{
    broadcast use vstd::seq_lib::group_filter_ensures;

    let frags1 = ensured_frag_rows(frags, next_frag_id, item_db_id, ranges, now1);
    if ensure_would_insert(frags, next_frag_id, item_db_id, ranges.len() as int) {
        let fresh = fresh_frag_rows(item_db_id, ranges, next_frag_id as int, now1);
        assert(frags1[frags.len() as int] == fresh[0]);
        assert(frags1.contains(fresh[0]));
        let w = choose|w: int| 0 <= w < frags1.len() && frags1[w] == fresh[0];
        assert(frags_of(frags1, item_db_id).contains(frags1[w]));
        assert(frags_of(frags1, item_db_id).len() > 0);
    }
}

/// Law: re-storing a fragment set that is already persisted leaves the
/// persisted state unchanged, whatever ranges are offered.
pub proof fn lemma_restore_stable(
    frags: Seq<FragRow>,
    next_frag_id: u64,
    item_db_id: u64,
    ranges: Seq<(u64, u64)>,
    now: u64,
)
    requires
        frags_of(frags, item_db_id).len() > 0,
    ensures
        ensured_frag_rows(frags, next_frag_id, item_db_id, ranges, now) == frags,
        ensured_next_frag_id(frags, next_frag_id, item_db_id, ranges.len() as int)
            == next_frag_id as int,
{
}

} // verus!
