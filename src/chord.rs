//! The Chord state of one node: its successor list, predecessor and finger table,
//! with lookup, notification, stabilization, successor-list maintenance, and the
//! virtual nodes it holds.

use vstd::prelude::*;

use vstd::arithmetic::power2::pow2;

use crate::did::{between_spec, dist, ring, Did};
use crate::error::Error;
use crate::vnode::{
    copy_strings, lemma_stored, stored, unique_vids, VirtualNode, VirtualNodeView,
};

verus! {

/// The number of fingers: one per bit of an identifier.
pub const FINGER_COUNT: usize = 160;

/// The default bound on the successor list.
pub const DEFAULT_SUCCESSORS: usize = 3;

/// Clockwise distance from `base` to `x`.
pub open spec fn ring_dist(base: Did, x: Did) -> int {
    dist(base.value(), x.value())
}

/// Walking clockwise from `a`, `x` is reached strictly before `b`.
pub open spec fn between(a: Did, x: Did, b: Did) -> bool {
    between_spec(a.value(), x.value(), b.value())
}

/// Identifiers in strictly increasing clockwise distance from `base`, none equal to it.
pub open spec fn ordered_from(base: Did, s: Seq<Did>) -> bool {
    &&& forall|i: int| 0 <= i < s.len() ==> s[i] != base
    &&& forall|i: int, j: int|
        0 <= i < j < s.len() ==> ring_dist(base, #[trigger] s[i]) < ring_dist(base, #[trigger] s[j])
}

/// Two identifiers at the same distance from a third are equal.
pub proof fn lemma_dist_injective(base: Did, x: Did, y: Did)
    ensures
        (ring_dist(base, x) == ring_dist(base, y)) <==> (x == y),
        0 <= ring_dist(base, x) < crate::did::ring(),
        (ring_dist(base, x) == 0) <==> (x == base),
{
    base.lemma_value_range();
    x.lemma_value_range();
    y.lemma_value_range();
    x.lemma_value_injective(y);
    x.lemma_value_injective(base);
}

/// What a Chord state is.
pub struct ChordView {
    pub did: Did,
    pub successors: Seq<Did>,
    pub max_successors: nat,
    pub predecessor: Option<Did>,
    pub finger: Seq<Option<Did>>,
    pub storage: Seq<VirtualNodeView>,
}

impl ChordView {
    /// The successor list is bounded, free of this node, and ordered by distance;
    /// the predecessor is another node; the finger table has one entry per bit.
    pub open spec fn wf(self) -> bool {
        &&& self.max_successors >= 1
        &&& self.successors.len() <= self.max_successors
        &&& ordered_from(self.did, self.successors)
        &&& (self.predecessor matches Some(p) ==> p != self.did)
        &&& self.finger.len() == FINGER_COUNT
        &&& unique_vids(self.storage)
    }

    /// This node holds the virtual nodes for `vid`: it lies after the predecessor and up
    /// to this node; a node that knows no predecessor holds everything.
    pub open spec fn responsible(self, vid: Did) -> bool {
        match self.predecessor {
            None => true,
            Some(p) => between(p, vid, self.did) || vid == self.did,
        }
    }

    /// `after` is this state with `blob` appended to the blobs for `vid`.
    pub open spec fn appended(self, after: ChordView, vid: Did, blob: String) -> bool {
        &&& after.wf()
        &&& after.did == self.did
        &&& after.successors == self.successors
        &&& after.max_successors == self.max_successors
        &&& after.predecessor == self.predecessor
        &&& after.finger == self.finger
        &&& stored(after.storage, vid) == stored(self.storage, vid).push(blob)
        &&& forall|v: Did| v != vid ==> stored(after.storage, v) == stored(self.storage, v)
    }

    /// `y` is listed, or the list is full and every listed node is nearer than `y`.
    pub open spec fn covers(self, y: Did) -> bool {
        ||| self.successors.contains(y)
        ||| (self.successors.len() == self.max_successors && forall|i: int|
            0 <= i < self.successors.len() ==> ring_dist(self.did, #[trigger] self.successors[i])
                < ring_dist(self.did, y))
    }

    /// The state after `candidate` says it precedes this node: it becomes the predecessor
    /// if there is none, or if it lies between the current one and this node.
    pub open spec fn notified(self, candidate: Did) -> ChordView {
        ChordView {
            predecessor: if candidate != self.did && (self.predecessor is None || between(
                self.predecessor->Some_0,
                candidate,
                self.did,
            )) {
                Some(candidate)
            } else {
                self.predecessor
            },
            ..self
        }
    }

    /// The successor list after learning of `x`: unchanged if `x` is this node or
    /// already listed, else `x` put in its place by distance, cut to the bound.
    pub open spec fn learned(self, x: Did, new_list: Seq<Did>) -> bool {
        if x == self.did || self.successors.contains(x) {
            new_list == self.successors
        } else {
            exists|p: int|
                0 <= p <= self.successors.len() && (forall|i: int|
                    0 <= i < p ==> ring_dist(self.did, #[trigger] self.successors[i]) < ring_dist(
                        self.did,
                        x,
                    )) && (forall|i: int|
                    p <= i < self.successors.len() ==> ring_dist(self.did, x) < ring_dist(
                        self.did,
                        #[trigger] self.successors[i],
                    )) && new_list == self.successors.insert(p, x).take(
                    if self.successors.len() + 1 > self.max_successors {
                        self.max_successors as int
                    } else {
                        self.successors.len() + 1int
                    },
                )
        }
    }
}

/// `c` is a known node: a successor or a finger.
pub open spec fn known(v: ChordView, c: Did) -> bool {
    v.successors.contains(c) || v.finger.contains(Some(c))
}

/// `r` is the known node that most closely precedes `target`, or this node if none does.
pub open spec fn closest_preceding(v: ChordView, target: Did, r: Did) -> bool {
    &&& r == v.did || (known(v, r) && between(v.did, r, target))
    &&& forall|c: Did|
        known(v, c) && between(v.did, c, target) ==> ring_dist(v.did, c) <= ring_dist(
            v.did,
            r,
        )
}

/// Putting `x` at its place `p` by distance and cutting to the bound keeps the list
/// ordered, lists `x` unless nearer nodes fill it, and keeps covering what it covered.
#[verifier::rlimit(50)]
proof fn lemma_inserted(v1: ChordView, x: Did, p: int, n: Seq<Did>)
    requires
        v1.wf(),
        x != v1.did,
        !v1.successors.contains(x),
        0 <= p <= v1.successors.len(),
        forall|i: int| 0 <= i < p ==> ring_dist(v1.did, #[trigger] v1.successors[i]) < ring_dist(v1.did, x),
        forall|i: int|
            p <= i < v1.successors.len() ==> ring_dist(v1.did, x) < ring_dist(
                v1.did,
                #[trigger] v1.successors[i],
            ),
        n == v1.successors.insert(p, x).take(
            if v1.successors.len() + 1 > v1.max_successors {
                v1.max_successors as int
            } else {
                v1.successors.len() + 1int
            },
        ),
    ensures
        (ChordView { successors: n, ..v1 }).wf(),
        v1.learned(x, n),
        forall|y: Did| #[trigger] n.contains(y) ==> v1.successors.contains(y) || y == x,
        (ChordView { successors: n, ..v1 }).covers(x),
        forall|y: Did| #[trigger] v1.covers(y) ==> (ChordView { successors: n, ..v1 }).covers(y),
{
    let s = v1.successors;
    let base = v1.did;
    let ins = s.insert(p, x);
    let v2 = ChordView { successors: n, ..v1 };
    let k = v1.max_successors as int;
    assert(ordered_from(base, ins)) by {
        assert forall|i: int, j: int| 0 <= i < j < ins.len() implies ring_dist(
            base,
            #[trigger] ins[i],
        ) < ring_dist(base, #[trigger] ins[j]) by {
            if j < p {
            } else if j == p {
            } else if i < p {
                assert(ins[j] == s[j - 1]);
            } else if i == p {
                assert(ins[j] == s[j - 1]);
            } else {
                assert(ins[i] == s[i - 1]);
                assert(ins[j] == s[j - 1]);
            }
        }
    }
    assert(ordered_from(base, n)) by {
        assert forall|i: int, j: int| 0 <= i < j < n.len() implies ring_dist(
            base,
            #[trigger] n[i],
        ) < ring_dist(base, #[trigger] n[j]) by {
            assert(n[i] == ins[i] && n[j] == ins[j]);
        }
        assert forall|i: int| 0 <= i < n.len() implies #[trigger] n[i] != base by {
            assert(n[i] == ins[i]);
        }
    }
    assert(v1.learned(x, n));
    assert forall|y: Did| #[trigger] n.contains(y) implies s.contains(y) || y == x by {
        let j = choose|j: int| 0 <= j < n.len() && n[j] == y;
        assert(n[j] == ins[j]);
        if j < p {
            assert(s[j] == y);
        } else if j > p {
            assert(s[j - 1] == y);
        }
    }
    if p < n.len() {
        assert(n[p] == x);
    } else {
        assert(n =~= s);
    }
    assert(v2.covers(x));
    assert forall|y: Did| #[trigger] v1.covers(y) implies v2.covers(y) by {
        if s.contains(y) {
            let j = choose|j: int| 0 <= j < s.len() && s[j] == y;
            let jj = if j < p {
                j
            } else {
                j + 1
            };
            assert(ins[jj] == y);
            if jj < n.len() {
                assert(n[jj] == y);
            } else {
                assert forall|i: int| 0 <= i < n.len() implies ring_dist(base, #[trigger] n[i])
                    < ring_dist(base, y) by {
                    assert(n[i] == ins[i]);
                }
            }
        } else {
            assert forall|i: int| 0 <= i < n.len() implies ring_dist(base, #[trigger] n[i])
                < ring_dist(base, y) by {
                assert(n[i] == ins[i]);
                if i < p {
                    assert(ins[i] == s[i]);
                } else if i == p {
                    assert(ring_dist(base, s[p]) < ring_dist(base, y));
                } else {
                    assert(ins[i] == s[i - 1]);
                }
            }
        }
    }
}

/// Where a lookup goes: found here, or to be forwarded to a closer node.
#[derive(Clone, Copy, Debug, PartialEq, Eq, Structural)]
pub enum Lookup {
    /// The successor of the target.
    Found(Did),
    /// Ask `next` for the successor of `target`.
    Forward { next: Did, target: Did },
}

/// The routing state of one node.
#[derive(Debug)]
pub struct ChordState {
    did: Did,
    successors: Vec<Did>,
    max_successors: usize,
    predecessor: Option<Did>,
    finger: Vec<Option<Did>>,
    storage: Vec<VirtualNode>,
}

impl View for ChordState {
    type V = ChordView;

    closed spec fn view(&self) -> ChordView {
        ChordView {
            did: self.did,
            successors: self.successors@,
            max_successors: self.max_successors as nat,
            predecessor: self.predecessor,
            finger: self.finger@,
            storage: self.storage@.map_values(|n: VirtualNode| n@),
        }
    }
}

impl ChordState {
    /// A node alone: no successors, no predecessor, empty fingers.
    pub fn new(did: Did, max_successors: usize) -> (r: ChordState)
        requires
            max_successors >= 1,
        ensures
            r@.wf(),
            r@.did == did,
            r@.max_successors == max_successors,
            r@.successors.len() == 0,
            r@.predecessor is None,
            r@.finger == Seq::new(FINGER_COUNT as nat, |i: int| None::<Did>),
            r@.storage.len() == 0,
    {
        let mut finger: Vec<Option<Did>> = Vec::new();
        let mut i: usize = 0;
        while i < FINGER_COUNT
            invariant
                i <= FINGER_COUNT,
                finger@ == Seq::new(i as nat, |k: int| None::<Did>),
            decreases FINGER_COUNT - i,
        {
            finger.push(None);
            i = i + 1;
            assert(finger@ =~= Seq::new(i as nat, |k: int| None::<Did>));
        }
        ChordState {
            did,
            successors: Vec::new(),
            max_successors,
            predecessor: None,
            finger,
            storage: Vec::new(),
        }
    }

    /// A node alone, keeping up to three successors.
    pub fn with_default_bound(did: Did) -> (r: ChordState)
        ensures
            r@.wf(),
            r@.did == did,
            r@.max_successors == DEFAULT_SUCCESSORS,
            r@.successors.len() == 0,
            r@.predecessor is None,
            r@.storage.len() == 0,
    {
        ChordState::new(did, DEFAULT_SUCCESSORS)
    }

    /// This node's identifier.
    pub fn did(&self) -> (r: Did)
        ensures
            r == self@.did,
    {
        self.did
    }

    /// The successor list, nearest first.
    pub fn successors(&self) -> (r: Vec<Did>)
        ensures
            r@ == self@.successors,
    {
        self.successors.clone()
    }

    /// The predecessor, if known.
    pub fn predecessor(&self) -> (r: Option<Did>)
        ensures
            r == self@.predecessor,
    {
        self.predecessor
    }

    /// The finger for bit `i`, if known.
    pub fn finger(&self, i: usize) -> (r: Option<Did>)
        requires
            self@.wf(),
            i < FINGER_COUNT,
        ensures
            r == self@.finger[i as int],
    {
        self.finger[i]
    }

    /// Joins the ring through `seed`: the successor list becomes `[seed]`, and the
    /// predecessor and the fingers are forgotten. Joining through this node itself
    /// changes nothing.
    pub fn join(&mut self, seed: Did) -> (r: bool)
        requires
            old(self)@.wf(),
        ensures
            final(self)@.wf(),
            r == (seed != old(self)@.did),
            r ==> final(self)@ == (ChordView {
                successors: seq![seed],
                predecessor: None,
                finger: Seq::new(FINGER_COUNT as nat, |i: int| None::<Did>),
                ..old(self)@
            }),
            !r ==> final(self)@ == old(self)@,
    {
        if seed == self.did {
            return false;
        }
        let mut successors: Vec<Did> = Vec::new();
        successors.push(seed);
        self.successors = successors;
        self.predecessor = None;
        let mut i: usize = 0;
        while i < FINGER_COUNT
            invariant
                i <= FINGER_COUNT,
                self.finger@.len() == FINGER_COUNT,
                forall|k: int| 0 <= k < i ==> self.finger@[k] is None,
                self.did == old(self).did,
                self.max_successors == old(self).max_successors,
                self.successors@ == seq![seed],
                self.predecessor is None,
                self.storage@ == old(self).storage@,
            decreases FINGER_COUNT - i,
        {
            self.finger.set(i, None);
            i = i + 1;
        }
        assert(self.finger@ =~= Seq::new(FINGER_COUNT as nat, |i: int| None::<Did>));
        true
    }

    /// Hears that `candidate` believes it precedes this node: it becomes the
    /// predecessor if there is none, or if it lies between the current one and this node.
    /// This node itself is never taken.
    pub fn notify(&mut self, candidate: Did)
        requires
            old(self)@.wf(),
        ensures
            final(self)@.wf(),
            final(self)@ == old(self)@.notified(candidate),
    {
        if candidate == self.did {
            return ;
        }
        let take = match self.predecessor {
            None => true,
            Some(p) => Did::between(&p, &candidate, &self.did),
        };
        if take {
            self.predecessor = Some(candidate);
        }
    }

    /// Learns of `x`: puts it in the successor list by distance, unless it is this node
    /// or already listed, and keeps the list within its bound.
    pub fn add_successor(&mut self, x: Did)
        requires
            old(self)@.wf(),
        ensures
            final(self)@.wf(),
            old(self)@.learned(x, final(self)@.successors),
            final(self)@ == (ChordView { successors: final(self)@.successors, ..old(self)@ }),
            forall|y: Did|
                #![trigger final(self)@.successors.contains(y)]
                final(self)@.successors.contains(y) ==> old(self)@.successors.contains(y) || y == x,
            x != old(self)@.did ==> final(self)@.covers(x),
            forall|y: Did| #![trigger old(self)@.covers(y)] old(self)@.covers(y) ==> final(self)@.covers(y),
    {
        if x == self.did {
            return ;
        }
        let ghost base = self.did;
        let ghost s = self.successors@;
        let dx = self.did.distance(&x);
        let mut p: usize = 0;
        let mut placed = false;
        while p < self.successors.len() && !placed
            invariant
                self@ == old(self)@,
                s == self.successors@,
                old(self)@.wf(),
                x != base,
                base == self.did,
                p <= s.len(),
                dx.value() == ring_dist(base, x),
                forall|i: int| 0 <= i < p ==> ring_dist(base, #[trigger] s[i]) < ring_dist(base, x),
                placed ==> p < s.len() && ring_dist(base, x) < ring_dist(base, s[p as int]),
            decreases s.len() - p + (if placed { 0int } else { 1int }),
        {
            let dp = self.did.distance(&self.successors[p]);
            if dp == dx {
                proof {
                    dp.lemma_value_injective(dx);
                    lemma_dist_injective(base, s[p as int], x);
                    assert(s.contains(x));
                }
                return ;
            }
            proof {
                dp.lemma_value_injective(dx);
            }
            if dx.lt(&dp) {
                placed = true;
            } else {
                p = p + 1;
            }
        }
        proof {
            assert forall|i: int| p <= i < s.len() implies ring_dist(base, x) < ring_dist(
                base,
                #[trigger] s[i],
            ) by {
                if i > p {
                    assert(ring_dist(base, s[p as int]) < ring_dist(base, s[i]));
                }
            }
            assert(!s.contains(x)) by {
                if s.contains(x) {
                    let j = choose|j: int| 0 <= j < s.len() && s[j] == x;
                    if j < p {
                    } else {
                    }
                }
            }
        }
        self.successors.insert(p, x);
        if self.successors.len() > self.max_successors {
            self.successors.truncate(self.max_successors);
        }
        proof {
            let n = self.successors@;
            let ins = s.insert(p as int, x);
            assert(n =~= ins.take(n.len() as int));
            lemma_inserted(old(self)@, x, p as int, n);
        }
    }

    /// Forgets `x`, a successor that has failed.
    pub fn remove_successor(&mut self, x: Did)
        requires
            old(self)@.wf(),
        ensures
            final(self)@.wf(),
            final(self)@ == (ChordView {
                successors: old(self)@.successors.filter(|y: Did| y != x),
                ..old(self)@
            }),
    {
        let ghost base = self.did;
        let mut kept: Vec<Did> = Vec::new();
        let mut i: usize = 0;
        while i < self.successors.len()
            invariant
                self@ == old(self)@,
                old(self)@.wf(),
                base == self.did,
                i <= self.successors@.len(),
                kept@ == self.successors@.take(i as int).filter(|y: Did| y != x),
                kept@.len() <= i,
                ordered_from(base, kept@),
                forall|k: int|
                    0 <= k < kept@.len() ==> exists|j: int|
                        0 <= j < i && #[trigger] kept@[k] == self.successors@[j],
            decreases self.successors@.len() - i,
        {
            let y = self.successors[i];
            let ghost before = kept@;
            assert(self.successors@.take(i + 1) =~= self.successors@.take(i as int).push(y));
            if y != x {
                kept.push(y);
                proof {
                    assert forall|a: int, b: int| 0 <= a < b < kept@.len() implies ring_dist(
                        base,
                        #[trigger] kept@[a],
                    ) < ring_dist(base, #[trigger] kept@[b]) by {
                        if b == kept@.len() - 1 {
                            let j = choose|j: int| 0 <= j < i && kept@[a] == self.successors@[j];
                        }
                    }
                    assert forall|k: int| 0 <= k < kept@.len() implies exists|j: int|
                        0 <= j < i + 1 && #[trigger] kept@[k] == self.successors@[j] by {
                        if k < before.len() {
                            let j = choose|j: int| 0 <= j < i && before[k] == self.successors@[j];
                            assert(kept@[k] == self.successors@[j]);
                        } else {
                            assert(kept@[k] == self.successors@[i as int]);
                        }
                    }
                }
            } else {
                proof {
                    assert forall|k: int| 0 <= k < kept@.len() implies exists|j: int|
                        0 <= j < i + 1 && #[trigger] kept@[k] == self.successors@[j] by {
                        let j = choose|j: int| 0 <= j < i && kept@[k] == self.successors@[j];
                    }
                }
            }
            proof {
                assert(self.successors@.take(i + 1).drop_last() =~= self.successors@.take(i as int));
                reveal_with_fuel(Seq::filter, 1);
                assert(self.successors@.take(i + 1).filter(|y: Did| y != x) =~= kept@);
            }
            i = i + 1;
        }
        assert(self.successors@.take(i as int) =~= self.successors@);
        self.successors = kept;
    }
}

impl ChordState {
    /// The known node that most closely precedes `target` clockwise, among the fingers
    /// and the successors; this node if none lies between it and `target`.
    pub fn closest_preceding_node(&self, target: Did) -> (r: Did)
        requires
            self@.wf(),
        ensures
            closest_preceding(self@, target, r),
    {
        let ghost v = self@;
        let mut best = self.did;
        let mut best_d = Did::new(0, 0);
        proof {
            lemma_dist_injective(self.did, self.did, self.did);
        }
        let mut i: usize = 0;
        while i < FINGER_COUNT
            invariant
                v == self@,
                v.wf(),
                i <= FINGER_COUNT,
                best_d.value() == ring_dist(v.did, best),
                best == v.did || (known(v, best) && between(v.did, best, target)),
                forall|k: int|
                    0 <= k < i && v.finger[k] is Some && between(v.did, v.finger[k]->Some_0, target)
                        ==> ring_dist(v.did, #[trigger] v.finger[k]->Some_0) <= ring_dist(v.did, best),
            decreases FINGER_COUNT - i,
        {
            if let Some(c) = self.finger[i] {
                if Did::between(&self.did, &c, &target) {
                    let d = self.did.distance(&c);
                    if best_d.lt(&d) {
                        proof {
                            assert(v.finger[i as int] == Some(c));
                            assert(known(v, c));
                        }
                        best = c;
                        best_d = d;
                    }
                }
            }
            i = i + 1;
        }
        let mut j: usize = 0;
        while j < self.successors.len()
            invariant
                v == self@,
                v.wf(),
                j <= v.successors.len(),
                best_d.value() == ring_dist(v.did, best),
                best == v.did || (known(v, best) && between(v.did, best, target)),
                forall|k: int|
                    0 <= k < FINGER_COUNT && v.finger[k] is Some && between(
                        v.did,
                        v.finger[k]->Some_0,
                        target,
                    ) ==> ring_dist(v.did, #[trigger] v.finger[k]->Some_0) <= ring_dist(v.did, best),
                forall|k: int|
                    0 <= k < j && between(v.did, v.successors[k], target) ==> ring_dist(
                        v.did,
                        #[trigger] v.successors[k],
                    ) <= ring_dist(v.did, best),
            decreases v.successors.len() - j,
        {
            let c = self.successors[j];
            if Did::between(&self.did, &c, &target) {
                let d = self.did.distance(&c);
                if best_d.lt(&d) {
                    proof {
                        assert(v.successors[j as int] == c);
                        assert(known(v, c));
                    }
                    best = c;
                    best_d = d;
                }
            }
            j = j + 1;
        }
        proof {
            assert forall|c: Did| known(v, c) && between(v.did, c, target) implies ring_dist(
                v.did,
                c,
            ) <= ring_dist(v.did, best) by {
                if v.successors.contains(c) {
                    let k = choose|k: int| 0 <= k < v.successors.len() && v.successors[k] == c;
                } else {
                    let k = choose|k: int| 0 <= k < v.finger.len() && v.finger[k] == Some(c);
                    assert(v.finger[k]->Some_0 == c);
                }
            }
        }
        best
    }

    /// Where to look for the successor of `target`: the first successor when `target`
    /// lies up to it, else forward to the closest preceding known node.
    pub fn find_successor(&self, target: Did) -> (r: Result<Lookup, Error>)
        requires
            self@.wf(),
        ensures
            self@.successors.len() == 0 ==> r == Err::<Lookup, Error>(Error::SuccessorListEmpty),
            self@.successors.len() > 0 ==> {
                let s0 = self@.successors[0];
                if between(self@.did, target, s0) || target == s0 {
                    r == Ok::<Lookup, Error>(Lookup::Found(s0))
                } else {
                    r matches Ok(Lookup::Forward { next, target: t }) && t == target
                        && closest_preceding(self@, target, next)
                }
            },
    {
        if self.successors.len() == 0 {
            return Err(Error::SuccessorListEmpty);
        }
        let s0 = self.successors[0];
        if Did::between(&self.did, &target, &s0) || target == s0 {
            Ok(Lookup::Found(s0))
        } else {
            let next = self.closest_preceding_node(target);
            Ok(Lookup::Forward { next, target })
        }
    }

    /// The point whose successor finger `i` holds: this node's identifier plus `2^i`.
    pub fn finger_target(&self, i: usize) -> (r: Did)
        requires
            i < FINGER_COUNT,
        ensures
            r.value() == (if self@.did.value() + pow2(i as nat) < ring() {
                self@.did.value() + pow2(i as nat)
            } else {
                self@.did.value() + pow2(i as nat) - ring()
            }),
    {
        self.did.add_pow2(i as u32)
    }

    /// Stores the reply to a finger lookup.
    pub fn set_finger(&mut self, i: usize, value: Option<Did>)
        requires
            old(self)@.wf(),
            i < FINGER_COUNT,
        ensures
            final(self)@.wf(),
            final(self)@ == (ChordView { finger: old(self)@.finger.update(i as int, value), ..old(self)@ }),
    {
        self.finger.set(i, value);
    }

    /// One round of stabilization, given what the first successor reports as its
    /// predecessor: a node lying between this node and the first successor becomes the
    /// first successor. Returns the node to notify, the first successor, if any.
    pub fn stabilize(&mut self, reported: Option<Did>) -> (r: Option<Did>)
        requires
            old(self)@.wf(),
        ensures
            final(self)@.wf(),
            match reported {
                Some(x) if old(self)@.successors.len() > 0 && between(
                    old(self)@.did,
                    x,
                    old(self)@.successors[0],
                ) => old(self)@.learned(x, final(self)@.successors) && final(self)@ == (ChordView {
                    successors: final(self)@.successors,
                    ..old(self)@
                }),
                _ => final(self)@ == old(self)@,
            },
            final(self)@.successors.len() == 0 ==> r is None,
            final(self)@.successors.len() > 0 ==> r == Some(final(self)@.successors[0]),
    {
        if self.successors.len() == 0 {
            return None;
        }
        if let Some(x) = reported {
            if Did::between(&self.did, &x, &self.successors[0]) {
                self.add_successor(x);
            }
        }
        if self.successors.len() == 0 {
            None
        } else {
            Some(self.successors[0])
        }
    }

    /// Learns every node of a successor's own list, keeping the bound.
    pub fn merge_successors(&mut self, list: &[Did])
        requires
            old(self)@.wf(),
        ensures
            final(self)@.wf(),
            final(self)@.did == old(self)@.did,
            final(self)@.predecessor == old(self)@.predecessor,
            final(self)@.finger == old(self)@.finger,
            final(self)@.max_successors == old(self)@.max_successors,
            forall|y: Did|
                #![trigger final(self)@.successors.contains(y)]
                final(self)@.successors.contains(y) ==> old(self)@.successors.contains(y)
                    || list@.contains(y),
            forall|i: int|
                0 <= i < list@.len() && #[trigger] list@[i] != old(self)@.did
                    ==> final(self)@.covers(list@[i]),
            forall|y: Did| #![trigger old(self)@.covers(y)] old(self)@.covers(y) ==> final(self)@.covers(y),
    {
        let mut i: usize = 0;
        while i < list.len()
            invariant
                i <= list@.len(),
                self@.wf(),
                self@.did == old(self)@.did,
                self@.predecessor == old(self)@.predecessor,
                self@.finger == old(self)@.finger,
                self@.max_successors == old(self)@.max_successors,
                forall|y: Did|
                    #![trigger self@.successors.contains(y)]
                    self@.successors.contains(y) ==> old(self)@.successors.contains(y)
                        || list@.take(i as int).contains(y),
                forall|j: int|
                    0 <= j < i && #[trigger] list@[j] != old(self)@.did ==> self@.covers(list@[j]),
                forall|y: Did| #![trigger old(self)@.covers(y)] old(self)@.covers(y) ==> self@.covers(y),
            decreases list@.len() - i,
        {
            let ghost before = self@.successors;
            let ghost vb = self@;
            self.add_successor(list[i]);
            proof {
                assert forall|j: int| 0 <= j < i + 1 && #[trigger] list@[j] != old(self)@.did implies self@.covers(list@[j]) by {
                    if j < i {
                        assert(vb.covers(list@[j]));
                    }
                }
                assert forall|y: Did| #[trigger] old(self)@.covers(y) implies self@.covers(y) by {
                    assert(vb.covers(y));
                }
                assert forall|y: Did| #[trigger] self@.successors.contains(y) implies old(
                    self,
                )@.successors.contains(y) || list@.take(i + 1).contains(y) by {
                    if before.contains(y) {
                        if !old(self)@.successors.contains(y) {
                            let k = choose|k: int| 0 <= k < i && list@.take(i as int)[k] == y;
                            assert(list@.take(i + 1)[k] == y);
                        }
                    } else {
                        assert(list@.take(i + 1)[i as int] == y);
                    }
                }
            }
            i = i + 1;
        }
        assert(list@.take(list@.len() as int) =~= list@);
    }
}

/// Hearing the same notification twice changes nothing more than hearing it once.
pub proof fn lemma_notify_idempotent(v: ChordView, candidate: Did)
    requires
        v.wf(),
    ensures
        v.notified(candidate).notified(candidate) == v.notified(candidate),
{
}

/// In a steady ring, a node's first successor is another node, its successors come in
/// strictly increasing clockwise distance, and it lies between its predecessor and its
/// first successor (or these two are the same node). The first successor must not lie
/// strictly between the predecessor and the node: such a state is still stabilizing.
pub proof fn lemma_steady_state(v: ChordView)
    requires
        v.wf(),
        v.successors.len() > 0,
        v.predecessor matches Some(p) ==> !between(p, v.successors[0], v.did),
    ensures
        v.successors[0] != v.did,
        forall|i: int, j: int|
            0 <= i < j < v.successors.len() ==> ring_dist(v.did, #[trigger] v.successors[i])
                < ring_dist(v.did, #[trigger] v.successors[j]),
        v.predecessor matches Some(p) ==> between(p, v.did, v.successors[0]) || v.successors[0]
            == p,
{
    if let Some(p) = v.predecessor {
        let s0 = v.successors[0];
        if s0 != p {
            lemma_dist_injective(p, v.did, s0);
            lemma_dist_injective(p, v.did, p);
            lemma_dist_injective(p, s0, p);
            p.lemma_value_injective(s0);
            p.lemma_value_injective(v.did);
        }
    }
}

/// Where a virtual-node operation is served.
#[derive(Debug, PartialEq, Eq)]
pub enum Served {
    /// Here; for a fetch, the blobs held.
    Local(Vec<String>),
    /// Elsewhere, along this lookup.
    Remote(Lookup),
}

impl ChordState {
    /// Whether this node holds the virtual nodes for `vid`.
    pub fn is_responsible(&self, vid: Did) -> (r: bool)
        ensures
            r == self@.responsible(vid),
    {
        match self.predecessor {
            None => true,
            Some(p) => Did::between(&p, &vid, &self.did) || vid == self.did,
        }
    }

    fn find_vnode(&self, vid: Did) -> (r: Option<usize>)
        ensures
            r matches Some(i) ==> i < self@.storage.len() && self@.storage[i as int].did == vid,
            r is None ==> forall|i: int|
                0 <= i < self@.storage.len() ==> (#[trigger] self@.storage[i]).did != vid,
    {
        let mut i: usize = 0;
        while i < self.storage.len()
            invariant
                i <= self.storage@.len(),
                forall|k: int| 0 <= k < i ==> (#[trigger] self@.storage[k]).did != vid,
            decreases self.storage@.len() - i,
        {
            if self.storage[i].did == vid {
                return Some(i);
            }
            i = i + 1;
        }
        None
    }

    /// Appends `blob` to the virtual node `vid` when this node holds it; otherwise
    /// tells where to send it.
    pub fn store_append(&mut self, vid: Did, blob: String) -> (r: Result<Served, Error>)
        requires
            old(self)@.wf(),
        ensures
            final(self)@.wf(),
            old(self)@.responsible(vid) ==> (r matches Ok(Served::Local(d)) && d@.len() == 0
                && old(self)@.appended(final(self)@, vid, blob)),
            !old(self)@.responsible(vid) ==> final(self)@ == old(self)@ && match r {
                Ok(Served::Remote(l)) => old(self)@.successors.len() > 0,
                Err(e) => e == Error::SuccessorListEmpty && old(self)@.successors.len() == 0,
                _ => false,
            },
    {
        if !self.is_responsible(vid) {
            return match self.find_successor(vid) {
                Ok(l) => Ok(Served::Remote(l)),
                Err(e) => Err(e),
            };
        }
        let ghost before = self@.storage;
        proof {
            lemma_stored(before, vid);
        }
        match self.find_vnode(vid) {
            Some(i) => {
                let mut node = self.storage.remove(i);
                let ghost old_node = node@;
                node.data.push(blob);
                self.storage.insert(i, node);
                proof {
                    let after = self@.storage;
                    assert(after =~= before.update(i as int, VirtualNodeView { did: vid, data: old_node.data.push(blob) }));
                    assert(unique_vids(after));
                    lemma_stored(after, vid);
                    assert(after[i as int].did == vid);
                    assert forall|v: Did| v != vid implies stored(after, v) == stored(before, v) by {
                        lemma_stored(after, v);
                        lemma_stored(before, v);
                        if exists|k: int| 0 <= k < before.len() && before[k].did == v {
                            let k = choose|k: int| 0 <= k < before.len() && before[k].did == v;
                            assert(after[k].did == v);
                        } else {
                            assert forall|k: int| 0 <= k < after.len() implies (#[trigger] after[k]).did != v by {
                                if k != i {
                                    assert(after[k] == before[k]);
                                }
                            }
                        }
                    }
                }
            },
            None => {
                let node = VirtualNode::new(vid, blob);
                self.storage.push(node);
                proof {
                    let after = self@.storage;
                    assert(after =~= before.push(VirtualNodeView { did: vid, data: seq![blob] }));
                    assert(unique_vids(after));
                    lemma_stored(after, vid);
                    assert(after[before.len() as int].did == vid);
                    assert(stored(before, vid) =~= Seq::<String>::empty());
                    assert(stored(after, vid) =~= stored(before, vid).push(blob));
                    assert forall|v: Did| v != vid implies stored(after, v) == stored(before, v) by {
                        lemma_stored(after, v);
                        lemma_stored(before, v);
                        if exists|k: int| 0 <= k < before.len() && before[k].did == v {
                            let k = choose|k: int| 0 <= k < before.len() && before[k].did == v;
                            assert(after[k].did == v);
                        } else {
                            assert forall|k: int| 0 <= k < after.len() implies (#[trigger] after[k]).did != v by {
                                if k < before.len() {
                                    assert(after[k] == before[k]);
                                }
                            }
                        }
                    }
                }
            },
        }
        Ok(Served::Local(Vec::new()))
    }

    /// The blobs of the virtual node `vid` when this node holds it (none if it holds
    /// nothing for `vid`); otherwise where to ask.
    pub fn fetch(&self, vid: Did) -> (r: Result<Served, Error>)
        requires
            self@.wf(),
        ensures
            self@.responsible(vid) ==> (r matches Ok(Served::Local(d)) && d@ == stored(
                self@.storage,
                vid,
            )),
            !self@.responsible(vid) ==> match r {
                Ok(Served::Remote(l)) => self@.successors.len() > 0,
                Err(e) => e == Error::SuccessorListEmpty && self@.successors.len() == 0,
                _ => false,
            },
    {
        if !self.is_responsible(vid) {
            return match self.find_successor(vid) {
                Ok(l) => Ok(Served::Remote(l)),
                Err(e) => Err(e),
            };
        }
        proof {
            lemma_stored(self@.storage, vid);
        }
        match self.find_vnode(vid) {
            Some(i) => Ok(Served::Local(copy_strings(&self.storage[i].data))),
            None => Ok(Served::Local(Vec::new())),
        }
    }
}

/// A blob appended at the node responsible for `vid` is among what a later fetch of
/// `vid` there returns, after any earlier blobs.
pub proof fn lemma_append_then_fetch(before: ChordView, after: ChordView, vid: Did, blob: String)
    requires
        before.wf(),
        before.responsible(vid),
        before.appended(after, vid, blob),
    ensures
        after.responsible(vid),
        stored(after.storage, vid).contains(blob),
        stored(after.storage, vid).take(stored(before.storage, vid).len() as int) == stored(
            before.storage,
            vid,
        ),
{
    let n = stored(before.storage, vid).len();
    assert(stored(after.storage, vid)[n as int] == blob);
    assert(stored(after.storage, vid).take(n as int) =~= stored(before.storage, vid));
}

/// Blobs appended at the responsible node one after the other, from any origins, are
/// all among what a later fetch of `vid` there returns, in the order they came.
pub proof fn lemma_two_appends_then_fetch(
    first: ChordView,
    mid: ChordView,
    last: ChordView,
    vid: Did,
    a: String,
    b: String,
)
    requires
        first.wf(),
        first.responsible(vid),
        first.appended(mid, vid, a),
        mid.appended(last, vid, b),
    ensures
        last.responsible(vid),
        stored(last.storage, vid) == stored(first.storage, vid).push(a).push(b),
        stored(last.storage, vid).contains(a),
        stored(last.storage, vid).contains(b),
{
    let n = stored(first.storage, vid).len();
    assert(stored(last.storage, vid)[n as int] == a);
    assert(stored(last.storage, vid)[n + 1int] == b);
}

/// Two nodes that joined through each other and heard each other's notification are
/// each other's successor and predecessor, and a further round of stabilization, in
/// which each reports its predecessor to the other, changes neither.
pub proof fn lemma_two_node_stabilization(one: ChordView, two: ChordView)
    requires
        one.wf(),
        two.wf(),
        one.did != two.did,
        one.successors == seq![two.did],
        two.successors == seq![one.did],
        one.predecessor is None,
        two.predecessor is None,
    ensures
        one.notified(two.did).predecessor == Some(two.did),
        two.notified(one.did).predecessor == Some(one.did),
        one.notified(two.did).successors == seq![two.did],
        two.notified(one.did).successors == seq![one.did],
        !between(one.did, two.notified(one.did).predecessor->Some_0, one.successors[0]),
        !between(two.did, one.notified(two.did).predecessor->Some_0, two.successors[0]),
{
}

/// Three nodes on a ring, each knowing only its successor: the first forwards a lookup
/// for the third to the second, which finds the third as its own successor. The
/// payload reaches the third after two hops.
pub proof fn lemma_three_node_route(first: ChordView, second: ChordView, third: Did)
    requires
        first.wf(),
        second.wf(),
        first.successors == seq![second.did],
        forall|i: int| 0 <= i < first.finger.len() ==> #[trigger] first.finger[i] is None,
        second.successors == seq![third],
        first.did != second.did,
        third != first.did,
        third != second.did,
        between(first.did, second.did, third),
    ensures
        !(between(first.did, third, first.successors[0]) || third == first.successors[0]),
        forall|r: Did| closest_preceding(first, third, r) ==> r == second.did,
        closest_preceding(first, third, second.did),
        between(second.did, third, second.successors[0]) || third == second.successors[0],
{
    lemma_dist_injective(first.did, second.did, third);
    lemma_dist_injective(first.did, first.did, second.did);
    assert(first.successors[0] == second.did);
    assert(known(first, second.did)) by {
        assert(first.successors[0] == second.did);
    }
    assert forall|c: Did| known(first, c) implies c == second.did by {
        if first.finger.contains(Some(c)) {
            let k = choose|k: int| 0 <= k < first.finger.len() && first.finger[k] == Some(c);
            assert(first.finger[k] is None);
        } else {
            let k = choose|k: int| 0 <= k < first.successors.len() && first.successors[k] == c;
        }
    }
    assert forall|r: Did| closest_preceding(first, third, r) implies r == second.did by {
        if r == first.did {
            assert(ring_dist(first.did, second.did) <= ring_dist(first.did, r));
        }
    }
}

} // verus!
