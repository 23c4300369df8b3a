//! Containers for chunks that know how many bytes they hold.

use std::collections::BTreeMap;
use std::collections::VecDeque;

use vstd::prelude::*;

use crate::text::texts;
use vstd::utf8::*;

use crate::transport::oversized_transfer::codec::utf8_byte_len;
use crate::transport::oversized_transfer::receiver::chunk_view;

verus! {

broadcast use {
    vstd::std_specs::btree::group_btree_axioms,
    vstd::std_specs::vecdeque::group_vec_dequeue_axioms,
};

/// Length of some text in bytes.
pub open spec fn text_bytes(text: Seq<char>) -> nat {
    encode_utf8(text).len()
}

/// Length of several texts in bytes.
pub open spec fn seq_bytes(texts: Seq<Seq<char>>) -> nat
    decreases texts.len(),
{
    if texts.len() == 0 {
        0
    } else {
        seq_bytes(texts.drop_last()) + text_bytes(texts.last())
    }
}

/// Length in bytes of all texts of a finite map.
pub open spec fn map_bytes(texts: Map<u64, Seq<char>>) -> nat
    decreases texts.dom().len(),
{
    if texts.dom().finite() && texts.dom().len() > 0 {
        let k = texts.dom().choose();
        text_bytes(texts[k]) + map_bytes(texts.remove(k))
    } else {
        0
    }
}

/// The byte counts of two sequences add up.
pub proof fn seq_bytes_append(a: Seq<Seq<char>>, b: Seq<Seq<char>>)
    ensures
        seq_bytes(a + b) == seq_bytes(a) + seq_bytes(b),
    decreases b.len(),
{
    if b.len() == 0 {
        assert(a + b =~= a);
    } else {
        assert((a + b).drop_last() =~= a + b.drop_last());
        seq_bytes_append(a, b.drop_last());
    }
}

/// The byte count of a single text.
pub proof fn seq_bytes_single(t: Seq<char>)
    ensures
        seq_bytes(seq![t]) == text_bytes(t),
{
    assert(seq![t].drop_last() =~= Seq::<Seq<char>>::empty());
    assert(seq_bytes(Seq::<Seq<char>>::empty()) == 0);
}

/// Taking any one text out of a map leaves the byte count of the others.
pub proof fn map_bytes_remove(m: Map<u64, Seq<char>>, k: u64)
    requires
        m.dom().finite(),
        m.contains_key(k),
    ensures
        map_bytes(m) == text_bytes(m[k]) + map_bytes(m.remove(k)),
    decreases m.dom().len(),
{
    assert(m.dom().contains(k));
    assert(m.dom().len() > 0) by {
        if m.dom().len() == 0 {
            assert(m.dom() =~= Set::<u64>::empty());
        }
    }
    let c = m.dom().choose();
    assert(m.dom().contains(c));
    if c != k {
        let without_c = m.remove(c);
        let without_k = m.remove(k);
        map_bytes_remove(without_c, k);
        map_bytes_remove(without_k, c);
        assert(without_c.remove(k) =~= without_k.remove(c));
    }
}

/// Adding a text adds its byte count.
pub proof fn map_bytes_insert(m: Map<u64, Seq<char>>, k: u64, t: Seq<char>)
    requires
        m.dom().finite(),
        !m.contains_key(k),
    ensures
        map_bytes(m.insert(k, t)) == map_bytes(m) + text_bytes(t),
{
    map_bytes_remove(m.insert(k, t), k);
    assert(m.insert(k, t).remove(k) =~= m);
}

proof fn seq_bytes_bound(texts: Seq<Seq<char>>)
    requires
        forall|i: int| 0 <= i < texts.len() ==> text_bytes(#[trigger] texts[i]) <= usize::MAX,
    ensures
        seq_bytes(texts) <= texts.len() * usize::MAX,
    decreases texts.len(),
{
    if texts.len() > 0 {
        seq_bytes_bound(texts.drop_last());
        assert(text_bytes(texts[texts.len() - 1]) <= usize::MAX);
        assert(texts.len() * usize::MAX == (texts.len() - 1) * usize::MAX + usize::MAX)
            by (nonlinear_arith);
    } else {
        assert(texts.len() * usize::MAX == 0) by (nonlinear_arith)
            requires
                texts.len() == 0,
        ;
    }
}

proof fn map_bytes_bound(m: Map<u64, Seq<char>>)
    requires
        forall|k: u64| #[trigger] m.contains_key(k) ==> text_bytes(m[k]) <= usize::MAX,
    ensures
        map_bytes(m) <= m.dom().len() * usize::MAX,
    decreases m.dom().len(),
{
    let n = m.dom().len();
    if m.dom().finite() && n > 0 {
        let c = m.dom().choose();
        assert(m.dom().contains(c));
        assert(m.contains_key(c));
        let rest = m.remove(c);
        assert forall|k: u64| #[trigger] rest.contains_key(k) implies text_bytes(rest[k])
            <= usize::MAX by {
            assert(m.contains_key(k));
        }
        map_bytes_bound(rest);
        assert(n * usize::MAX == (n - 1) * usize::MAX + usize::MAX) by (nonlinear_arith);
    } else {
        assert(n * usize::MAX >= 0) by (nonlinear_arith)
            requires
                n >= 0,
        ;
    }
}

proof fn product_fits(n: nat)
    requires
        n <= usize::MAX,
    ensures
        n * usize::MAX + usize::MAX <= u128::MAX,
{
    assert(n * usize::MAX <= 0xffff_ffff_ffff_ffff * 0xffff_ffff_ffff_ffff) by (nonlinear_arith)
        requires
            0 <= n <= usize::MAX,
            usize::MAX <= 0xffff_ffff_ffff_ffff,
    ;
}

/// Chunks in order of delivery.
pub struct ChunkQueue {
    items: VecDeque<String>,
    bytes: u128,
}

impl View for ChunkQueue {
    type V = Seq<Seq<char>>;

    closed spec fn view(&self) -> Seq<Seq<char>> {
        texts(self.items@)
    }
}

impl ChunkQueue {
    #[verifier::type_invariant]
    spec fn counted(&self) -> bool {
        &&& self.bytes == seq_bytes(texts(self.items@))
        &&& forall|i: int|
            0 <= i < self.items@.len() ==> text_bytes((#[trigger] self.items@[i])@) <= usize::MAX
    }

    /// An empty queue.
    pub fn new() -> (r: Self)
        ensures
            r@ == Seq::<Seq<char>>::empty(),
    {
        let items: VecDeque<String> = VecDeque::new();
        assert(texts(items@) =~= Seq::<Seq<char>>::empty());
        ChunkQueue { items, bytes: 0 }
    }

    /// Number of chunks.
    pub fn len(&self) -> (r: usize)
        ensures
            r == self@.len(),
    {
        self.items.len()
    }

    /// Number of bytes.
    pub fn bytes(&self) -> (r: u128)
        ensures
            r == seq_bytes(self@),
    {
        proof {
            use_type_invariant(self);
        }
        self.bytes
    }

    /// Appends a chunk.
    pub fn push(&mut self, data: String)
        ensures
            final(self)@ == old(self)@.push(data@),
    {
        proof {
            use_type_invariant(&*self);
        }
        let mut whole = ChunkQueue::new();
        core::mem::swap(self, &mut whole);
        let ghost before = whole;
        let ChunkQueue { mut items, bytes } = whole;
        let size: usize = utf8_byte_len(data.as_str());
        proof {
            let n = items@.len();
            assert forall|i: int| 0 <= i < n implies text_bytes(
                #[trigger] texts(items@)[i],
            ) <= usize::MAX by {
                assert(text_bytes(items@[i]@) <= usize::MAX);
            }
            seq_bytes_bound(texts(items@));
            assert(items.len() == n);
            product_fits(n);
        }
        items.push_back(data);
        proof {
            assert(texts(items@) =~= before@.push(data@));
            assert(before@.push(data@).drop_last() =~= before@);
        }
        *self = ChunkQueue { items, bytes: bytes + size as u128 };
    }

    /// Takes the first chunk.
    pub fn pop_front(&mut self) -> (r: Option<String>)
        ensures
            match r {
                Some(data) => old(self)@.len() > 0 && data@ == old(self)@[0] && final(self)@
                    == old(self)@.drop_first(),
                None => old(self)@.len() == 0 && final(self)@ == old(self)@,
            },
    {
        proof {
            use_type_invariant(&*self);
        }
        let mut whole = ChunkQueue::new();
        core::mem::swap(self, &mut whole);
        let ghost before = whole;
        let ChunkQueue { mut items, bytes } = whole;
        let ghost held = texts(items@);
        match items.pop_front() {
            Some(data) => {
                let size: usize = utf8_byte_len(data.as_str());
                proof {
                    assert(texts(items@) =~= held.drop_first());
                    assert(held =~= seq![data@] + held.drop_first());
                    seq_bytes_append(seq![data@], held.drop_first());
                    seq_bytes_single(data@);
                }
                *self = ChunkQueue { items, bytes: bytes - size as u128 };
                Some(data)
            },
            None => {
                assert(texts(items@) =~= held);
                *self = ChunkQueue { items, bytes };
                None
            },
        }
    }
}

/// Chunks by index.
pub struct ChunkBuffer {
    items: BTreeMap<u64, String>,
    bytes: u128,
}

impl View for ChunkBuffer {
    type V = Map<u64, Seq<char>>;

    closed spec fn view(&self) -> Map<u64, Seq<char>> {
        chunk_view(self.items@)
    }
}

impl ChunkBuffer {
    #[verifier::type_invariant]
    spec fn counted(&self) -> bool {
        &&& self.items@.dom().finite()
        &&& self.bytes == map_bytes(chunk_view(self.items@))
        &&& forall|k: u64| #[trigger]
            self.items@.contains_key(k) ==> text_bytes(self.items@[k]@) <= usize::MAX
    }

    /// There are finitely many chunks.
    pub proof fn is_finite(&self)
        ensures
            self@.dom().finite(),
    {
        assert(self.items@.dom().finite());
        assert(self@.dom() =~= self.items@.dom());
    }

    /// An empty buffer.
    pub fn new() -> (r: Self)
        ensures
            r@ == Map::<u64, Seq<char>>::empty(),
    {
        let items: BTreeMap<u64, String> = BTreeMap::new();
        assert(chunk_view(items@) =~= Map::<u64, Seq<char>>::empty());
        ChunkBuffer { items, bytes: 0 }
    }

    /// Number of chunks.
    pub fn len(&self) -> (r: usize)
        ensures
            r == self@.len(),
            self@.dom().finite(),
    {
        proof {
            use_type_invariant(self);
            assert(self@.dom() =~= self.items@.dom());
        }
        self.items.len()
    }

    /// Number of bytes.
    pub fn bytes(&self) -> (r: u128)
        ensures
            r == map_bytes(self@),
    {
        proof {
            use_type_invariant(self);
        }
        self.bytes
    }

    /// Whether there is a chunk with this index.
    pub fn contains(&self, index: u64) -> (r: bool)
        ensures
            r == self@.contains_key(index),
    {
        self.items.contains_key(&index)
    }

    /// Adds a chunk.
    pub fn insert(&mut self, index: u64, data: String)
        requires
            !old(self)@.contains_key(index),
        ensures
            final(self)@ == old(self)@.insert(index, data@),
    {
        proof {
            use_type_invariant(&*self);
        }
        let mut whole = ChunkBuffer::new();
        core::mem::swap(self, &mut whole);
        let ghost before = whole;
        let ChunkBuffer { mut items, bytes } = whole;
        let size: usize = utf8_byte_len(data.as_str());
        let n: usize = items.len();
        proof {
            let m = before@;
            assert(m.dom() =~= items@.dom());
            assert forall|k: u64| #[trigger] m.contains_key(k) implies text_bytes(m[k])
                <= usize::MAX by {
                assert(items@.contains_key(k));
            }
            map_bytes_bound(m);
            product_fits(n as nat);
            map_bytes_insert(m, index, data@);
        }
        let _ = items.insert(index, data);
        assert(chunk_view(items@) =~= before@.insert(index, data@));
        *self = ChunkBuffer { items, bytes: bytes + size as u128 };
    }

    /// Takes the chunk with this index.
    pub fn remove(&mut self, index: u64) -> (r: Option<String>)
        ensures
            final(self)@ == old(self)@.remove(index),
            match r {
                Some(data) => old(self)@.contains_key(index) && data@ == old(self)@[index],
                None => !old(self)@.contains_key(index),
            },
    {
        proof {
            use_type_invariant(&*self);
        }
        let mut whole = ChunkBuffer::new();
        core::mem::swap(self, &mut whole);
        let ghost before = whole;
        let ChunkBuffer { mut items, bytes } = whole;
        assert(before@.dom() =~= items@.dom());
        match items.remove(&index) {
            Some(data) => {
                let size: usize = utf8_byte_len(data.as_str());
                proof {
                    map_bytes_remove(before@, index);
                    assert(chunk_view(items@) =~= before@.remove(index));
                }
                *self = ChunkBuffer { items, bytes: bytes - size as u128 };
                Some(data)
            },
            None => {
                assert(chunk_view(items@) =~= before@.remove(index));
                assert(before@.remove(index) =~= before@);
                *self = ChunkBuffer { items, bytes };
                None
            },
        }
    }
}

/// Index of the next chunk: at most one beyond the largest index there is.
pub struct ChunkCursor {
    index: u128,
}

impl View for ChunkCursor {
    type V = int;

    closed spec fn view(&self) -> int {
        self.index as int
    }
}

impl ChunkCursor {
    #[verifier::type_invariant]
    spec fn in_range(&self) -> bool {
        self.index <= u64::MAX + 1
    }

    /// The first index.
    pub fn start() -> (r: Self)
        ensures
            r@ == 0,
    {
        ChunkCursor { index: 0 }
    }

    /// The index.
    pub fn get(&self) -> (r: u128)
        ensures
            r == self@,
            r <= u64::MAX + 1,
    {
        proof {
            use_type_invariant(self);
        }
        self.index
    }

    /// Moves to the next index.
    pub fn advance(&mut self)
        requires
            old(self)@ <= u64::MAX,
        ensures
            final(self)@ == old(self)@ + 1,
    {
        self.index = self.index + 1;
    }
}

} // verus!
