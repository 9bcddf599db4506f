//! Virtual nodes: append-only sequences of blobs addressed by an identifier derived
//! from a topic or service name, held by the node responsible for that identifier.

use vstd::prelude::*;
use vstd::string::StringSliceAdditionalSpecFns;

use crate::did::Did;
use crate::ecc::{did_of, keccak256, keccak256_of};

verus! {

/// The identifier of a name: the first 20 bytes of the Keccak-256 of its UTF-8 bytes.
pub open spec fn vid_of(name: Seq<u8>) -> Did {
    did_of(keccak256_of(name).take(20))
}

/// What a virtual node is.
pub struct VirtualNodeView {
    pub did: Did,
    pub data: Seq<String>,
}

/// An identifier and the blobs appended to it, in order.
#[derive(Debug, PartialEq, Eq)]
pub struct VirtualNode {
    /// The identifier.
    pub did: Did,
    /// The blobs, oldest first.
    pub data: Vec<String>,
}

impl View for VirtualNode {
    type V = VirtualNodeView;

    open spec fn view(&self) -> VirtualNodeView {
        VirtualNodeView { did: self.did, data: self.data@ }
    }
}

/// A copy of a sequence of strings.
pub fn copy_strings(v: &Vec<String>) -> (r: Vec<String>)
    ensures
        r@ == v@,
{
    let mut out: Vec<String> = Vec::new();
    let mut i: usize = 0;
    while i < v.len()
        invariant
            i <= v@.len(),
            out@ == v@.take(i as int),
        decreases v@.len() - i,
    {
        out.push(v[i].clone());
        assert(v@.take(i + 1) =~= v@.take(i as int).push(v@[i as int]));
        i = i + 1;
    }
    assert(v@.take(v@.len() as int) =~= v@);
    out
}

impl VirtualNode {
    /// The identifier of a topic or service name.
    pub fn gen_did(name: &str) -> (r: Did)
        ensures
            r == vid_of(name.spec_bytes()),
    {
        let h = keccak256(name.as_bytes());
        let head = &h.as_slice()[0..20];
        assert(head@ =~= h@.take(20));
        let d = Did::from_bytes(head);
        d
    }

    /// A virtual node holding one blob.
    pub fn new(did: Did, blob: String) -> (r: VirtualNode)
        ensures
            r@ == (VirtualNodeView { did, data: seq![blob] }),
    {
        let mut data: Vec<String> = Vec::new();
        data.push(blob);
        assert(data@ =~= seq![blob]);
        VirtualNode { did, data }
    }

    /// A copy of this virtual node.
    pub fn duplicate(&self) -> (r: VirtualNode)
        ensures
            r@ == self@,
    {
        VirtualNode { did: self.did, data: copy_strings(&self.data) }
    }

    /// Appends the blobs of another virtual node for the same identifier, keeping the
    /// order of each; nothing is deduplicated.
    pub fn merge(&mut self, other: VirtualNode)
        requires
            old(self).did == other.did,
        ensures
            final(self)@ == (VirtualNodeView { did: old(self).did, data: old(self)@.data + other@.data }),
    {
        let mut i: usize = 0;
        let ghost start = self.data@;
        while i < other.data.len()
            invariant
                i <= other.data@.len(),
                self.did == old(self).did,
                self.data@ == start + other.data@.take(i as int),
                start == old(self).data@,
            decreases other.data@.len() - i,
        {
            self.data.push(other.data[i].clone());
            assert(other.data@.take(i + 1) =~= other.data@.take(i as int).push(other.data@[i as int]));
            i = i + 1;
        }
        assert(other.data@.take(other.data@.len() as int) =~= other.data@);
    }

    /// The blobs from position `index` on.
    pub fn messages_from(&self, index: usize) -> (r: Vec<String>)
        ensures
            index <= self.data@.len() ==> r@ == self.data@.skip(index as int),
            index > self.data@.len() ==> r@.len() == 0,
    {
        let mut out: Vec<String> = Vec::new();
        let mut i: usize = index;
        if i >= self.data.len() {
            return out;
        }
        while i < self.data.len()
            invariant
                index <= i <= self.data@.len(),
                out@ == self.data@.subrange(index as int, i as int),
            decreases self.data@.len() - i,
        {
            out.push(self.data[i].clone());
            assert(self.data@.subrange(index as int, i + 1) =~= self.data@.subrange(
                index as int,
                i as int,
            ).push(self.data@[i as int]));
            i = i + 1;
        }
        assert(self.data@.subrange(index as int, i as int) =~= self.data@.skip(index as int));
        out
    }
}

/// The blobs held for `vid` in a store: those of its first entry for `vid`, or none.
pub open spec fn stored(s: Seq<VirtualNodeView>, vid: Did) -> Seq<String>
    decreases s.len(),
{
    if s.len() == 0 {
        Seq::empty()
    } else if s[0].did == vid {
        s[0].data
    } else {
        stored(s.drop_first(), vid)
    }
}

/// No two entries of a store share an identifier.
pub open spec fn unique_vids(s: Seq<VirtualNodeView>) -> bool {
    forall|i: int, j: int| 0 <= i < j < s.len() ==> (#[trigger] s[i]).did != (#[trigger] s[j]).did
}

pub proof fn lemma_stored_at(s: Seq<VirtualNodeView>, i: int)
    requires
        unique_vids(s),
        0 <= i < s.len(),
    ensures
        stored(s, s[i].did) == s[i].data,
    decreases i,
{
    if i > 0 {
        assert(s[0].did != s[i].did);
        assert(unique_vids(s.drop_first())) by {
            assert forall|a: int, b: int| 0 <= a < b < s.drop_first().len() implies (
            #[trigger] s.drop_first()[a]).did != (#[trigger] s.drop_first()[b]).did by {
                assert(s.drop_first()[a] == s[a + 1]);
                assert(s.drop_first()[b] == s[b + 1]);
            }
        }
        lemma_stored_at(s.drop_first(), i - 1);
    }
}

pub proof fn lemma_stored_absent(s: Seq<VirtualNodeView>, vid: Did)
    requires
        forall|i: int| 0 <= i < s.len() ==> (#[trigger] s[i]).did != vid,
    ensures
        stored(s, vid) == Seq::<String>::empty(),
    decreases s.len(),
{
    if s.len() > 0 {
        assert(s[0].did != vid);
        assert forall|i: int| 0 <= i < s.drop_first().len() implies (
        #[trigger] s.drop_first()[i]).did != vid by {
            assert(s.drop_first()[i] == s[i + 1]);
        }
        lemma_stored_absent(s.drop_first(), vid);
    }
}

/// What `stored` gives in a store with unique identifiers: the entry for `vid`, or none.
pub proof fn lemma_stored(s: Seq<VirtualNodeView>, vid: Did)
    requires
        unique_vids(s),
    ensures
        (exists|i: int| 0 <= i < s.len() && s[i].did == vid) ==> (forall|i: int|
            0 <= i < s.len() && #[trigger] s[i].did == vid ==> stored(s, vid) == s[i].data),
        (forall|i: int| 0 <= i < s.len() ==> (#[trigger] s[i]).did != vid) ==> stored(s, vid)
            == Seq::<String>::empty(),
{
    assert forall|i: int| 0 <= i < s.len() && #[trigger] s[i].did == vid implies stored(s, vid)
        == s[i].data by {
        lemma_stored_at(s, i);
    }
    if forall|i: int| 0 <= i < s.len() ==> (#[trigger] s[i]).did != vid {
        lemma_stored_absent(s, vid);
    }
}

} // verus!
