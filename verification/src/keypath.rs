//! The dotted key-path buffer used during flattened descent, and key
//! prettification.

use vstd::prelude::*;
use crate::fmtbuf::OptimizedBuf;

verus! {

/// A key as shown: every underscore replaced with a hyphen. Length is kept.
pub open spec fn prettified(k: Seq<u8>) -> Seq<u8> {
    Seq::new(
        k.len(),
        |i: int|
            if k[i] == 0x5F {
                0x2Du8
            } else {
                k[i]
            },
    )
}

/// Appends the prettified form of `key` to `buf`.
pub fn key_prettify(key: &[u8], buf: &mut Vec<u8>)
    ensures
        final(buf)@ == old(buf)@ + prettified(key@),
{
    let mut i: usize = 0;
    while i < key.len()
        invariant
            0 <= i <= key@.len(),
            buf@ == old(buf)@ + prettified(key@).take(i as int),
        decreases key@.len() - i,
    {
        let b = key[i];
        if b == 0x5F {
            buf.push(0x2D);
        } else {
            buf.push(b);
        }
        proof {
            assert(old(buf)@ + prettified(key@).take(i + 1) =~= (old(buf)@ + prettified(
                key@,
            ).take(i as int)).push(prettified(key@)[i as int]));
        }
        i = i + 1;
    }
    proof {
        assert(prettified(key@).take(key@.len() as int) =~= prettified(key@));
    }
}

/// The path after pushing `key`: a dot joins it to a non-empty path.
pub open spec fn push_spec(p: Seq<u8>, k: Seq<u8>) -> Seq<u8> {
    if p.len() == 0 {
        prettified(k)
    } else {
        p + seq![0x2Eu8] + prettified(k)
    }
}

/// How many bytes pushing `key` onto a path of the given emptiness adds.
pub open spec fn push_delta(p: Seq<u8>, k: Seq<u8>) -> int {
    if p.len() == 0 {
        k.len() as int
    } else {
        k.len() + 1int
    }
}

/// The path after removing its last `n` bytes; everything goes if fewer
/// than `n` are held.
pub open spec fn pop_spec(p: Seq<u8>, n: int) -> Seq<u8> {
    if n >= p.len() {
        Seq::empty()
    } else {
        p.take(p.len() - n)
    }
}

/// The dotted chain of the ancestor keys during flattened descent. Pushes
/// and pops nest exactly with the recursion that produces them.
pub struct KeyPrefix {
    /// The path bytes.
    pub value: OptimizedBuf,
}

impl View for KeyPrefix {
    type V = Seq<u8>;

    open spec fn view(&self) -> Seq<u8> {
        self.value@
    }
}

impl KeyPrefix {
    /// The container invariant.
    pub open spec fn wf(self) -> bool {
        self.value.wf()
    }

    /// An empty path.
    pub fn new() -> (r: KeyPrefix)
        ensures
            r.wf(),
            r@ == Seq::<u8>::empty(),
    {
        KeyPrefix { value: OptimizedBuf::new() }
    }

    /// The number of bytes held.
    pub fn len(&self) -> (r: usize)
        requires
            self@.len() <= usize::MAX,
        ensures
            r == self@.len(),
    {
        self.value.len()
    }

    /// True if the path is empty.
    pub fn is_empty(&self) -> (r: bool)
        ensures
            r == (self@.len() == 0),
    {
        self.value.is_empty()
    }

    /// Appends the whole path to `buf`.
    pub fn format(&self, buf: &mut Vec<u8>)
        ensures
            final(buf)@ == old(buf)@ + self@,
    {
        self.value.append_to(buf);
    }

    /// Pushes a key: a dot when the path is not empty, then the prettified
    /// key. Returns the number of bytes appended.
    pub fn push(&mut self, key: &[u8]) -> (n: usize)
        requires
            old(self).wf(),
            key@.len() < usize::MAX,
        ensures
            final(self).wf(),
            final(self)@ == push_spec(old(self)@, key@),
            n as int == push_delta(old(self)@, key@),
    {
        let was_empty = self.value.is_empty();
        if !was_empty {
            self.value.push(0x2E);
        }
        let mut i: usize = 0;
        let ghost mid = self.value@;
        while i < key.len()
            invariant
                0 <= i <= key@.len(),
                self.value.wf(),
                self.value@ == mid + prettified(key@).take(i as int),
            decreases key@.len() - i,
        {
            let b = key[i];
            if b == 0x5F {
                self.value.push(0x2D);
            } else {
                self.value.push(b);
            }
            proof {
                assert(mid + prettified(key@).take(i + 1) =~= (mid + prettified(key@).take(
                    i as int,
                )) + seq![prettified(key@)[i as int]]);
            }
            i = i + 1;
        }
        proof {
            assert(prettified(key@).take(key@.len() as int) =~= prettified(key@));
            if old(self)@.len() == 0 {
                assert(mid + prettified(key@) =~= push_spec(old(self)@, key@));
            } else {
                assert(mid + prettified(key@) =~= push_spec(old(self)@, key@));
            }
        }
        if was_empty {
            key.len()
        } else {
            key.len() + 1
        }
    }

    /// Removes the last `n` bytes of the path, or all of it if fewer are
    /// held.
    pub fn pop(&mut self, n: usize)
        requires
            old(self).wf(),
        ensures
            final(self).wf(),
            final(self)@ == pop_spec(old(self)@, n as int),
    {
        self.value.truncate_last(n);
    }
}

/// One push undone by one pop of its delta restores the path exactly.
pub proof fn lemma_push_pop_exact(p: Seq<u8>, k: Seq<u8>)
    ensures
        pop_spec(push_spec(p, k), push_delta(p, k)) == p,
{
    if p.len() == 0 {
        assert(pop_spec(push_spec(p, k), push_delta(p, k)) =~= p);
    } else {
        assert(pop_spec(push_spec(p, k), push_delta(p, k)) =~= p);
    }
}

/// Pops compose: removing `a` bytes and then `b` bytes removes `a + b`.
pub proof fn lemma_pop_compose(q: Seq<u8>, a: int, b: int)
    requires
        a >= 0,
        b >= 0,
    ensures
        pop_spec(pop_spec(q, a), b) == pop_spec(q, a + b),
{
    assert(pop_spec(pop_spec(q, a), b) =~= pop_spec(q, a + b));
}

/// The path after pushing every key of `keys`, first key first.
pub open spec fn push_all(p: Seq<u8>, keys: Seq<Seq<u8>>) -> Seq<u8>
    decreases keys.len(),
{
    if keys.len() == 0 {
        p
    } else {
        push_all(push_spec(p, keys[0]), keys.skip(1))
    }
}

/// Key-path push/pop exactness: after any sequence of nested pushes, the
/// matching pops in reverse order remove exactly the pushed deltas, so the
/// path equals what it was before the first push. By `lemma_pop_compose`
/// the reversed pops amount to one pop of the total growth, which this
/// lemma shows restores the original path.
pub proof fn lemma_nested_push_pop(p: Seq<u8>, keys: Seq<Seq<u8>>)
    ensures
        push_all(p, keys).len() >= p.len(),
        pop_spec(push_all(p, keys), push_all(p, keys).len() - p.len()) == p,
    decreases keys.len(),
{
    if keys.len() == 0 {
        assert(pop_spec(p, 0) =~= p);
    } else {
        let q = push_spec(p, keys[0]);
        lemma_nested_push_pop(q, keys.skip(1));
        let total = push_all(p, keys);
        assert(pop_spec(total, total.len() - q.len()) == q);
        lemma_pop_compose(total, total.len() - q.len(), q.len() - p.len());
        assert(pop_spec(q, q.len() - p.len()) =~= p);
    }
}

} // verus!
