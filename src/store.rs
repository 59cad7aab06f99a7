//! The content store: entries anchored to positions on the trunk, kept
//! consistent with the trunk as headers are connected and rolled back.
use vstd::prelude::*;
use crate::trunk::{
    BlockHash, BlockHeader, ChainDBTrunk, TrunkError, extend_error, on_trunk, trunk_wf, lemma_height_unique,
};

verus! {

/// A point on the trunk: a header's hash and its height.
#[derive(Clone, Copy, Debug, PartialEq, Eq)]
pub struct TrunkPosition {
    pub hash: BlockHash,
    pub height: u32,
}

/// A content record, valid for as long as its anchor stays on the trunk.
#[derive(Clone, Copy, Debug, PartialEq, Eq)]
pub struct ContentEntry {
    pub id: u64,
    pub anchor: TrunkPosition,
}

/// Why the store refused an operation.
#[derive(Clone, Copy, Debug, PartialEq, Eq, Structural)]
pub enum StoreError {
    /// The trunk refused the header.
    Rejected(TrunkError),
    /// The header is on the trunk but is not its tip, so it cannot be rolled back.
    NotTip,
    /// There is no tip to anchor an entry to.
    EmptyTrunk,
    /// A header was announced at another height than the trunk's next one.
    HeightMismatch,
}

/// What a store holds: its trunk and its entries, in insertion order.
pub struct StoreView {
    pub trunk: Seq<BlockHeader>,
    pub entries: Seq<ContentEntry>,
}

/// `e` is anchored to a header that stands on `trunk` at the anchor's height.
pub open spec fn anchor_valid(trunk: Seq<BlockHeader>, e: ContentEntry) -> bool {
    e.anchor.height < trunk.len() && trunk[e.anchor.height as int].hash == e.anchor.hash
}

/// A consistent store: a well-formed trunk, and every entry anchored on it.
pub open spec fn store_wf(v: StoreView) -> bool {
    &&& trunk_wf(v.trunk)
    &&& forall|i: int| 0 <= i < v.entries.len() ==> anchor_valid(v.trunk, #[trigger] v.entries[i])
}

/// Keeps the entries that are not anchored to `hash`.
pub open spec fn not_anchored_at(hash: BlockHash) -> spec_fn(ContentEntry) -> bool {
    |e: ContentEntry| e.anchor.hash != hash
}

/// Keeps the entries whose content identifier is not `id`.
pub open spec fn not_with_id(id: u64) -> spec_fn(ContentEntry) -> bool {
    |e: ContentEntry| e.id != id
}

/// The store after `unwind_tip(h)`, and what the call returns.
pub open spec fn unwind_spec(v: StoreView, h: BlockHeader) -> (StoreView, Result<(), StoreError>) {
    if v.trunk.len() > 0 && v.trunk.last().hash == h.hash {
        (
            StoreView {
                trunk: v.trunk.drop_last(),
                entries: v.entries.filter(not_anchored_at(h.hash)),
            },
            Ok(()),
        )
    } else if on_trunk(v.trunk, h.hash) {
        (v, Err(StoreError::NotTip))
    } else {
        (v, Ok(()))
    }
}

/// The store after `unwind_tip` of each header of `hs` in turn.
pub open spec fn unwind_all(v: StoreView, hs: Seq<BlockHeader>) -> StoreView
    decreases hs.len(),
{
    if hs.len() == 0 {
        v
    } else {
        unwind_all(unwind_spec(v, hs[0]).0, hs.subrange(1, hs.len() as int))
    }
}

/// An element survives a filter iff it was there and passes the predicate.
proof fn lemma_filter_contains_iff<A>(s: Seq<A>, p: spec_fn(A) -> bool, x: A)
    ensures
        s.filter(p).contains(x) <==> (s.contains(x) && p(x)),
    decreases s.len(),
{
    reveal(Seq::filter);
    if s.len() > 0 {
        let t = s.drop_last();
        lemma_filter_contains_iff(t, p, x);
        assert(s == t.push(s.last()));
        if t.contains(x) {
            let j = choose|j: int| 0 <= j < t.len() && t[j] == x;
            assert(s[j] == x);
        }
        if s.contains(x) && x != s.last() {
            let j = choose|j: int| 0 <= j < s.len() && s[j] == x;
            assert(t[j] == x);
        }
        if p(s.last()) {
            let f = t.filter(p);
            assert(f.push(s.last())[f.len() as int] == s.last());
            if f.contains(x) {
                let j = choose|j: int| 0 <= j < f.len() && f[j] == x;
                assert(f.push(s.last())[j] == x);
            }
            if f.push(s.last()).contains(x) && x != s.last() {
                let j = choose|j: int| 0 <= j < f.len() + 1 && f.push(s.last())[j] == x;
                assert(f[j] == x);
            }
        }
        assert(s.len() - 1 < s.len() && s[s.len() - 1] == s.last());
    }
}

/// Unwinding keeps a store consistent.
proof fn lemma_unwind_wf(v: StoreView, h: BlockHeader)
    requires
        store_wf(v),
    ensures
        store_wf(unwind_spec(v, h).0),
{
    if v.trunk.len() > 0 && v.trunk.last().hash == h.hash {
        let w = unwind_spec(v, h).0;
        let n = v.trunk.len();
        assert forall|i: int| 0 <= i < w.entries.len() implies anchor_valid(w.trunk, #[trigger] w.entries[i]) by {
            let e = w.entries[i];
            assert(w.entries.contains(e));
            lemma_filter_contains_iff(v.entries, not_anchored_at(h.hash), e);
            let j = choose|j: int| 0 <= j < v.entries.len() && v.entries[j] == e;
            assert(anchor_valid(v.trunk, v.entries[j]));
            assert(e.anchor.height != n - 1);
        }
    }
}

/// Rolling back the newest headers of the trunk, newest first, takes away
/// exactly the entries anchored above the new tip; every entry anchored at or
/// below it stays.
pub proof fn lemma_reorg_consistency(v: StoreView, hs: Seq<BlockHeader>)
    requires
        store_wf(v),
        hs.len() <= v.trunk.len(),
        forall|i: int| 0 <= i < hs.len() ==> #[trigger] hs[i] == v.trunk[v.trunk.len() - 1 - i],
    ensures
        unwind_all(v, hs).trunk == v.trunk.take(v.trunk.len() - hs.len()),
        forall|e: ContentEntry|
            #[trigger] unwind_all(v, hs).entries.contains(e) <==> (v.entries.contains(e)
                && e.anchor.height < v.trunk.len() - hs.len()),
    decreases hs.len(),
{
    if hs.len() == 0 {
        assert(v.trunk.take(v.trunk.len() as int) == v.trunk);
        assert forall|e: ContentEntry| v.entries.contains(e) implies e.anchor.height < v.trunk.len() by {
            let j = choose|j: int| 0 <= j < v.entries.len() && v.entries[j] == e;
            assert(anchor_valid(v.trunk, v.entries[j]));
        }
    } else {
        let n = v.trunk.len();
        let h = hs[0];
        assert(h == v.trunk[n - 1]);
        let w = unwind_spec(v, h).0;
        lemma_unwind_wf(v, h);
        let rest = hs.subrange(1, hs.len() as int);
        assert forall|i: int| 0 <= i < rest.len() implies #[trigger] rest[i] == w.trunk[w.trunk.len() - 1 - i] by {
            assert(rest[i] == hs[i + 1]);
        }
        lemma_reorg_consistency(w, rest);
        assert(w.trunk.take(w.trunk.len() - rest.len()) == v.trunk.take(n - hs.len()));
        assert forall|e: ContentEntry|
            #[trigger] unwind_all(v, hs).entries.contains(e) <==> (v.entries.contains(e)
                && e.anchor.height < n - hs.len()) by {
            lemma_filter_contains_iff(v.entries, not_anchored_at(h.hash), e);
            if v.entries.contains(e) {
                let j = choose|j: int| 0 <= j < v.entries.len() && v.entries[j] == e;
                assert(anchor_valid(v.trunk, v.entries[j]));
                if e.anchor.hash == h.hash {
                    lemma_height_unique(v.trunk, h.hash, n - 1);
                    lemma_height_unique(v.trunk, h.hash, e.anchor.height as int);
                }
            }
        }
    }
}

/// Rolling back the same header twice leaves the store as rolling it back once.
pub proof fn lemma_unwind_idempotent(v: StoreView, h: BlockHeader)
    requires
        store_wf(v),
    ensures
        unwind_spec(unwind_spec(v, h).0, h).0 == unwind_spec(v, h).0,
        unwind_spec(unwind_spec(v, h).0, h).1 == unwind_spec(v, h).1,
{
    if v.trunk.len() > 0 && v.trunk.last().hash == h.hash {
        let w = unwind_spec(v, h).0;
        let n = v.trunk.len();
        assert forall|i: int| 0 <= i < w.trunk.len() implies w.trunk[i].hash != h.hash by {
            assert(v.trunk[i] == w.trunk[i]);
            assert(v.trunk[n - 1].hash == h.hash);
        }
    }
}

/// Which entries a removal drops.
enum Removal {
    Anchor(BlockHash),
    Id(u64),
}

/// The entries a removal keeps.
spec fn kept_by(d: Removal) -> spec_fn(ContentEntry) -> bool {
    match d {
        Removal::Anchor(h) => not_anchored_at(h),
        Removal::Id(id) => not_with_id(id),
    }
}

fn keeps(d: &Removal, e: &ContentEntry) -> (r: bool)
    ensures
        r == kept_by(*d)(*e),
{
    match d {
        Removal::Anchor(h) => !e.anchor.hash.same(h),
        Removal::Id(id) => e.id != *id,
    }
}

/// The entries of `es` that `d` keeps, in their order.
fn filter_entries(es: &Vec<ContentEntry>, d: &Removal) -> (r: Vec<ContentEntry>)
    ensures
        r@ == es@.filter(kept_by(*d)),
{
    let ghost p = kept_by(*d);
    let mut kept: Vec<ContentEntry> = Vec::new();
    let mut i: usize = 0;
    while i < es.len()
        invariant
            i <= es@.len(),
            kept@ == es@.take(i as int).filter(p),
            p == kept_by(*d),
        decreases es@.len() - i,
    {
        let e = es[i];
        proof {
            reveal(Seq::filter);
            assert(es@.take(i + 1).drop_last() == es@.take(i as int));
            assert(es@.take(i + 1).last() == e);
        }
        if keeps(d, &e) {
            kept.push(e);
        }
        i = i + 1;
    }
    assert(es@.take(es@.len() as int) == es@);
    kept
}

/// The store of content entries and the trunk they are anchored to.
pub struct ContentStore {
    trunk: ChainDBTrunk,
    entries: Vec<ContentEntry>,
}

impl View for ContentStore {
    type V = StoreView;

    closed spec fn view(&self) -> StoreView {
        StoreView { trunk: self.trunk@, entries: self.entries@ }
    }
}

impl ContentStore {
    pub open spec fn wf(&self) -> bool {
        store_wf(self@)
    }

    /// An empty store over an empty trunk.
    pub fn new() -> (r: ContentStore)
        ensures
            r.wf(),
            r@.trunk == Seq::<BlockHeader>::empty(),
            r@.entries == Seq::<ContentEntry>::empty(),
    {
        ContentStore { trunk: ChainDBTrunk::new(), entries: Vec::new() }
    }

    /// An empty store over `trunk`, such as one rebuilt from the chain
    /// database at startup.
    pub fn with_trunk(trunk: ChainDBTrunk) -> (r: ContentStore)
        requires
            trunk.wf(),
        ensures
            r.wf(),
            r@.trunk == trunk@,
            r@.entries == Seq::<ContentEntry>::empty(),
    {
        ContentStore { trunk, entries: Vec::new() }
    }

    /// The trunk, for read-only queries.
    pub fn trunk(&self) -> (r: &ChainDBTrunk)
        ensures
            r@ == self@.trunk,
            self.wf() ==> r.wf(),
    {
        &self.trunk
    }

    /// The entries, in insertion order.
    pub fn entries(&self) -> (r: &Vec<ContentEntry>)
        ensures
            r@ == self@.entries,
    {
        &self.entries
    }

    /// True iff an entry with content identifier `id` is in the store.
    pub fn contains(&self, id: u64) -> (r: bool)
        ensures
            r == exists|i: int| 0 <= i < self@.entries.len() && #[trigger] self@.entries[i].id == id,
    {
        let mut i: usize = 0;
        while i < self.entries.len()
            invariant
                i <= self.entries@.len(),
                forall|j: int| 0 <= j < i ==> self.entries@[j].id != id,
            decreases self.entries@.len() - i,
        {
            if self.entries[i].id == id {
                assert(self@.entries[i as int].id == id);
                return true;
            }
            i = i + 1;
        }
        false
    }

    /// Records `header` as the new tip, at the next height, so that entries
    /// inserted from now on are anchored to it.
    pub fn add_header(&mut self, header: &BlockHeader) -> (r: Result<u32, StoreError>)
        requires
            old(self).wf(),
        ensures
            final(self).wf(),
            final(self)@.entries == old(self)@.entries,
            r.is_err() == extend_error(old(self)@.trunk, *header).is_some(),
            r.is_err() ==> r == Err::<u32, StoreError>(StoreError::Rejected(extend_error(old(self)@.trunk, *header).unwrap()))
                && final(self)@.trunk == old(self)@.trunk,
            r.is_ok() ==> final(self)@.trunk == old(self)@.trunk.push(*header)
                && r.unwrap() as nat == old(self)@.trunk.len(),
    {
        match self.trunk.extend(*header) {
            Ok(height) => {
                assert forall|i: int| 0 <= i < self.entries@.len() implies anchor_valid(self.trunk@, #[trigger] self.entries@[i]) by {
                    assert(anchor_valid(old(self)@.trunk, old(self)@.entries[i]));
                }
                Ok(height)
            },
            Err(e) => Err(StoreError::Rejected(e)),
        }
    }

    /// Adds an entry with content identifier `id`, anchored to the current tip.
    pub fn insert(&mut self, id: u64) -> (r: Result<TrunkPosition, StoreError>)
        requires
            old(self).wf(),
        ensures
            final(self).wf(),
            final(self)@.trunk == old(self)@.trunk,
            old(self)@.trunk.len() == 0 ==> r == Err::<TrunkPosition, StoreError>(StoreError::EmptyTrunk)
                && final(self)@.entries == old(self)@.entries,
            old(self)@.trunk.len() > 0 ==> r == Ok::<TrunkPosition, StoreError>(TrunkPosition {
                hash: old(self)@.trunk.last().hash,
                height: (old(self)@.trunk.len() - 1) as u32,
            }) && final(self)@.entries == old(self)@.entries.push(ContentEntry { id, anchor: r.unwrap() }),
    {
        match self.trunk.get_tip() {
            None => Err(StoreError::EmptyTrunk),
            Some(tip) => {
                let height = self.trunk.len();
                let anchor = TrunkPosition { hash: tip.hash, height };
                self.entries.push(ContentEntry { id, anchor });
                assert forall|i: int| 0 <= i < self.entries@.len() implies anchor_valid(self.trunk@, #[trigger] self.entries@[i]) by {
                    if i < old(self)@.entries.len() {
                        assert(anchor_valid(old(self)@.trunk, old(self)@.entries[i]));
                    }
                }
                Ok(anchor)
            },
        }
    }

    /// Removes every entry with content identifier `id`, keeping the order
    /// of the others; returns how many were removed.
    pub fn remove(&mut self, id: u64) -> (r: usize)
        requires
            old(self).wf(),
        ensures
            final(self).wf(),
            final(self)@.trunk == old(self)@.trunk,
            final(self)@.entries == old(self)@.entries.filter(not_with_id(id)),
            r == old(self)@.entries.len() - final(self)@.entries.len(),
    {
        let kept = filter_entries(&self.entries, &Removal::Id(id));
        proof {
            let p = not_with_id(id);
            assert forall|k: int| 0 <= k < kept@.len() implies anchor_valid(self.trunk@, #[trigger] kept@[k]) by {
                let e = kept@[k];
                assert(kept@.contains(e));
                lemma_filter_contains_iff(self.entries@, p, e);
                let j = choose|j: int| 0 <= j < self.entries@.len() && self.entries@[j] == e;
                assert(anchor_valid(old(self)@.trunk, old(self)@.entries[j]));
            }
        }
        let removed = self.entries.len() - kept.len();
        self.entries = kept;
        removed
    }

    /// Rolls back `header` if it is the tip: removes every entry anchored to
    /// it and makes the previous header the tip. A header that is not on the
    /// trunk, such as one rolled back already, leaves the store as it is; one
    /// that is on the trunk below the tip is refused.
    pub fn unwind_tip(&mut self, header: &BlockHeader) -> (r: Result<(), StoreError>)
        requires
            old(self).wf(),
        ensures
            final(self).wf(),
            (final(self)@, r) == unwind_spec(old(self)@, *header),
    {
        proof {
            lemma_unwind_wf(self@, *header);
        }
        let is_tip = match self.trunk.get_tip() {
            Some(tip) => tip.hash.same(&header.hash),
            None => false,
        };
        if !is_tip {
            if self.trunk.is_on_trunk(header.hash) {
                return Err(StoreError::NotTip);
            }
            return Ok(());
        }
        let kept = filter_entries(&self.entries, &Removal::Anchor(header.hash));
        self.entries = kept;
        self.trunk.retract();
        Ok(())
    }
}

} // verus!
