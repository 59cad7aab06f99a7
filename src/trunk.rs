//! The canonical header chain (the trunk) and the read-only queries on it.
use vstd::prelude::*;

verus! {

/// A block's double-SHA-256 identifier, in its internal byte order.
#[derive(Clone, Copy, Debug, PartialEq, Eq, Hash)]
pub struct BlockHash {
    pub bytes: [u8; 32],
}

impl BlockHash {
    /// True iff the two hashes are the same.
    pub fn same(&self, other: &BlockHash) -> (r: bool)
        ensures
            r == (*self == *other),
    {
        let mut i: usize = 0;
        while i < 32
            invariant
                i <= 32,
                forall|j: int| 0 <= j < i ==> self.bytes[j] == other.bytes[j],
            decreases 32 - i,
        {
            if self.bytes[i] != other.bytes[i] {
                return false;
            }
            i = i + 1;
        }
        proof {
            broadcast use vstd::array::group_array_axioms;
            assert(self.bytes =~= other.bytes);
        }
        true
    }
}

/// A block header as far as the trunk needs it: its identity and its parent.
#[derive(Clone, Copy, Debug, PartialEq, Eq)]
pub struct BlockHeader {
    pub hash: BlockHash,
    pub prev_hash: BlockHash,
}

/// Why the trunk refused to grow by a header.
#[derive(Clone, Copy, Debug, PartialEq, Eq, Structural)]
pub enum TrunkError {
    /// The header is already on the trunk.
    Duplicate,
    /// The header does not name the current tip as its parent.
    NotConnected,
    /// The next height would not fit in a `u32`.
    Full,
}

/// The largest number of headers a trunk holds: every height fits in a `u32`.
pub const MAX_TRUNK_LEN: usize = 0xffff_ffff;

/// The canonical chain, genesis first: the header at index `i` has height `i`.
pub struct ChainDBTrunk {
    headers: Vec<BlockHeader>,
}

/// True iff `hash` identifies a header of `s`.
pub open spec fn on_trunk(s: Seq<BlockHeader>, hash: BlockHash) -> bool {
    exists|i: int| 0 <= i < s.len() && s[i].hash == hash
}

/// A sequence of headers that can be a trunk: distinct hashes, each header
/// linked to its predecessor, and every height representable.
pub open spec fn trunk_wf(s: Seq<BlockHeader>) -> bool {
    &&& s.len() <= MAX_TRUNK_LEN
    &&& forall|i: int, j: int| 0 <= i < s.len() && 0 <= j < s.len() && i != j ==> s[i].hash != s[j].hash
    &&& forall|i: int| 0 < i < s.len() ==> #[trigger] s[i].prev_hash == s[i - 1].hash
}

/// The height at which `hash` stands on `s`, if it does.
pub open spec fn height_in(s: Seq<BlockHeader>, hash: BlockHash) -> Option<nat> {
    if on_trunk(s, hash) {
        Some((choose|i: int| 0 <= i < s.len() && s[i].hash == hash) as nat)
    } else {
        None
    }
}

/// The trunk's height: that of its tip, 0 when it is empty.
pub open spec fn trunk_height(s: Seq<BlockHeader>) -> nat {
    if s.len() == 0 { 0 } else { (s.len() - 1) as nat }
}

/// Why `extend` refuses `h` on `s`, if it does.
pub open spec fn extend_error(s: Seq<BlockHeader>, h: BlockHeader) -> Option<TrunkError> {
    if on_trunk(s, h.hash) {
        Some(TrunkError::Duplicate)
    } else if s.len() > 0 && h.prev_hash != s.last().hash {
        Some(TrunkError::NotConnected)
    } else if s.len() >= MAX_TRUNK_LEN {
        Some(TrunkError::Full)
    } else {
        None
    }
}

/// On a well-formed trunk a hash stands at exactly one height.
pub proof fn lemma_height_unique(s: Seq<BlockHeader>, hash: BlockHash, i: int)
    requires
        trunk_wf(s),
        0 <= i < s.len(),
        s[i].hash == hash,
    ensures
        height_in(s, hash) == Some(i as nat),
{
}

/// A header connected at height `n` stays on every trunk that grows from
/// there, and the height reported for it is `n`.
pub proof fn lemma_trunk_view_consistency(s: Seq<BlockHeader>, h: BlockHeader, t: Seq<BlockHeader>)
    requires
        trunk_wf(s),
        extend_error(s, h).is_none(),
        trunk_wf(t),
        t.len() > s.len(),
        t.take(s.len() + 1 as int) == s.push(h),
    ensures
        trunk_wf(s.push(h)),
        on_trunk(t, h.hash),
        height_in(t, h.hash) == Some(s.len()),
{
    let n = s.len() as int;
    assert(t.take(n + 1)[n] == t[n]);
    lemma_height_unique(t, h.hash, n);
    let u = s.push(h);
    assert forall|i: int, j: int| 0 <= i < u.len() && 0 <= j < u.len() && i != j implies u[i].hash != u[j].hash by {
        assert(u[i] == t.take(n + 1)[i] && t.take(n + 1)[i] == t[i]);
        assert(u[j] == t.take(n + 1)[j] && t.take(n + 1)[j] == t[j]);
    }
    assert forall|i: int| 0 < i < u.len() implies #[trigger] u[i].prev_hash == u[i - 1].hash by {
        assert(u[i] == t.take(n + 1)[i] && t.take(n + 1)[i] == t[i]);
        assert(u[i - 1] == t.take(n + 1)[i - 1] && t.take(n + 1)[i - 1] == t[i - 1]);
    }
}

/// Every prefix of a well-formed trunk is well-formed.
proof fn lemma_prefix_wf(s: Seq<BlockHeader>, n: int)
    requires
        0 <= n <= s.len(),
        trunk_wf(s),
    ensures
        trunk_wf(s.take(n)),
{
    let t = s.take(n);
    assert forall|i: int, j: int| 0 <= i < t.len() && 0 <= j < t.len() && i != j implies t[i].hash != t[j].hash by {
        assert(t[i] == s[i] && t[j] == s[j]);
    }
    assert forall|i: int| 0 < i < t.len() implies #[trigger] t[i].prev_hash == t[i - 1].hash by {
        assert(t[i] == s[i] && t[i - 1] == s[i - 1]);
    }
}

impl View for ChainDBTrunk {
    type V = Seq<BlockHeader>;

    closed spec fn view(&self) -> Seq<BlockHeader> {
        self.headers@
    }
}

impl ChainDBTrunk {
    pub open spec fn wf(&self) -> bool {
        trunk_wf(self@)
    }

    /// An empty trunk.
    pub fn new() -> (r: ChainDBTrunk)
        ensures
            r.wf(),
            r@ == Seq::<BlockHeader>::empty(),
    {
        ChainDBTrunk { headers: Vec::new() }
    }

    /// The trunk made of `headers`, genesis first, as the chain database holds
    /// them; the first header that cannot extend the ones before it is
    /// refused with its error.
    pub fn from_headers(headers: &Vec<BlockHeader>) -> (r: Result<ChainDBTrunk, TrunkError>)
        ensures
            r.is_ok() ==> r.unwrap().wf() && r.unwrap()@ == headers@,
            r.is_ok() == trunk_wf(headers@),
    {
        let mut trunk = ChainDBTrunk::new();
        let mut i: usize = 0;
        while i < headers.len()
            invariant
                i <= headers@.len(),
                trunk.wf(),
                trunk@ == headers@.take(i as int),
            decreases headers@.len() - i,
        {
            let ghost before = trunk@;
            match trunk.extend(headers[i]) {
                Ok(_) => {},
                Err(e) => {
                    proof {
                        if trunk_wf(headers@) {
                            let t = headers@.take(i as int + 1);
                            lemma_prefix_wf(headers@, i as int + 1);
                            assert(t == before.push(headers@[i as int]));
                            assert(t[i as int] == headers@[i as int]);
                            if on_trunk(before, headers@[i as int].hash) {
                                let j = choose|j: int| 0 <= j < before.len() && before[j].hash == headers@[i as int].hash;
                                assert(t[j] == before[j]);
                            }
                            if before.len() > 0 {
                                assert(t[i as int - 1] == before.last());
                            }
                        }
                    }
                    return Err(e);
                },
            }
            assert(headers@.take(i as int + 1) == before.push(headers@[i as int]));
            i = i + 1;
        }
        assert(headers@.take(headers@.len() as int) == headers@);
        Ok(trunk)
    }

    /// The height the next connected header gets: the number of headers.
    pub fn next_height(&self) -> (r: usize)
        ensures
            r == self@.len(),
    {
        self.headers.len()
    }

    /// Position of `hash` on the trunk, if it is there.
    fn find(&self, hash: BlockHash) -> (r: Option<usize>)
        requires
            self.wf(),
        ensures
            r.is_some() == on_trunk(self@, hash),
            r.is_some() ==> height_in(self@, hash) == Some(r.unwrap() as nat),
            r.is_some() ==> r.unwrap() < self@.len() && self@[r.unwrap() as int].hash == hash,
    {
        let mut i: usize = 0;
        while i < self.headers.len()
            invariant
                self.wf(),
                i <= self.headers@.len(),
                forall|j: int| 0 <= j < i ==> self.headers@[j].hash != hash,
            decreases self.headers@.len() - i,
        {
            if self.headers[i].hash.same(&hash) {
                proof {
                    lemma_height_unique(self@, hash, i as int);
                }
                return Some(i);
            }
            assert(self.headers@[i as int].hash != hash);
            i = i + 1;
        }
        None
    }

    /// True iff the header identified by `hash` is on the trunk.
    pub fn is_on_trunk(&self, hash: BlockHash) -> (r: bool)
        requires
            self.wf(),
        ensures
            r == on_trunk(self@, hash),
    {
        self.find(hash).is_some()
    }

    /// The height of the header identified by `hash`, absent if it is not on
    /// the trunk.
    pub fn get_height(&self, hash: BlockHash) -> (r: Option<u32>)
        requires
            self.wf(),
        ensures
            r.is_some() == on_trunk(self@, hash),
            r.is_some() ==> height_in(self@, hash) == Some(r.unwrap() as nat),
            r.is_some() ==> self@[r.unwrap() as int].hash == hash,
    {
        match self.find(hash) {
            Some(i) => Some(i as u32),
            None => None,
        }
    }

    /// The header identified by `hash`, if it is on the trunk.
    pub fn get_header(&self, hash: BlockHash) -> (r: Option<BlockHeader>)
        requires
            self.wf(),
        ensures
            r.is_some() == on_trunk(self@, hash),
            r.is_some() ==> r.unwrap() == self@[height_in(self@, hash).unwrap() as int],
            r.is_some() ==> r.unwrap().hash == hash,
    {
        match self.find(hash) {
            Some(i) => Some(self.headers[i]),
            None => None,
        }
    }

    /// The current best header, absent when the trunk is empty.
    pub fn get_tip(&self) -> (r: Option<BlockHeader>)
        ensures
            r == (if self@.len() == 0 { None } else { Some(self@.last()) }),
    {
        if self.headers.len() == 0 {
            None
        } else {
            Some(self.headers[self.headers.len() - 1])
        }
    }

    /// The trunk's height: that of its tip, 0 when it is empty.
    pub fn len(&self) -> (r: u32)
        requires
            self.wf(),
        ensures
            r as nat == trunk_height(self@),
    {
        if self.headers.len() == 0 {
            0
        } else {
            (self.headers.len() - 1) as u32
        }
    }

    /// Makes `header` the new tip, at the next height, unless it is already on
    /// the trunk, does not extend the tip, or the height would not fit.
    pub fn extend(&mut self, header: BlockHeader) -> (r: Result<u32, TrunkError>)
        requires
            old(self).wf(),
        ensures
            final(self).wf(),
            r.is_err() == extend_error(old(self)@, header).is_some(),
            r.is_err() ==> r == Err::<u32, TrunkError>(extend_error(old(self)@, header).unwrap())
                && final(self)@ == old(self)@,
            r.is_ok() ==> final(self)@ == old(self)@.push(header) && r.unwrap() as nat == old(self)@.len(),
    {
        if self.is_on_trunk(header.hash) {
            return Err(TrunkError::Duplicate);
        }
        let n = self.headers.len();
        if n > 0 && !header.prev_hash.same(&self.headers[n - 1].hash) {
            return Err(TrunkError::NotConnected);
        }
        if n >= MAX_TRUNK_LEN {
            return Err(TrunkError::Full);
        }
        self.headers.push(header);
        proof {
            let s = self@;
            assert forall|i: int, j: int| 0 <= i < s.len() && 0 <= j < s.len() && i != j implies s[i].hash != s[j].hash by {
                if i == n as int {
                    assert(old(self)@[j].hash != header.hash);
                } else if j == n as int {
                    assert(old(self)@[i].hash != header.hash);
                }
            }
        }
        Ok(n as u32)
    }

    /// Removes the tip; an empty trunk stays empty.
    pub fn retract(&mut self) -> (r: Option<BlockHeader>)
        requires
            old(self).wf(),
        ensures
            final(self).wf(),
            old(self)@.len() == 0 ==> r.is_none() && final(self)@ == old(self)@,
            old(self)@.len() > 0 ==> r == Some(old(self)@.last()) && final(self)@ == old(self)@.drop_last(),
    {
        self.headers.pop()
    }
}

} // verus!
