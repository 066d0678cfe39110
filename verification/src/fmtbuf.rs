//! Byte-buffer building blocks: slice append, a small-buffer container with
//! a bounded head segment and a growable tail segment, trailing-whitespace
//! trimming, and width padding for the timestamp column.

use vstd::prelude::*;

verus! {

/// `(a + b).take(|a|) == a` and `(a + b).skip(|a|) == b`.
pub proof fn lemma_append_take_skip(a: Seq<u8>, b: Seq<u8>)
    ensures
        (a + b).take(a.len() as int) == a,
        (a + b).skip(a.len() as int) == b,
{
    assert((a + b).take(a.len() as int) =~= a);
    assert((a + b).skip(a.len() as int) =~= b);
}

/// Appends every byte of `src` to `dst`.
pub fn extend_bytes(dst: &mut Vec<u8>, src: &[u8])
    ensures
        final(dst)@ == old(dst)@ + src@,
{
    let mut i: usize = 0;
    while i < src.len()
        invariant
            0 <= i <= src@.len(),
            dst@ == old(dst)@ + src@.take(i as int),
        decreases src@.len() - i,
    {
        dst.push(src[i]);
        proof {
            assert(old(dst)@ + src@.take(i + 1) =~= (old(dst)@ + src@.take(i as int)).push(
                src@[i as int],
            ));
        }
        i = i + 1;
    }
    proof {
        assert(src@.take(src@.len() as int) =~= src@);
    }
}

/// The capacity of the head segment of a small buffer.
pub const HEAD_CAPACITY: usize = 256;

/// A byte sequence kept in a bounded head segment followed by a growable
/// tail segment; the logical content is the head followed by the tail.
pub struct OptimizedBuf {
    /// The bounded first segment, filled before the tail is touched.
    pub head: Vec<u8>,
    /// The growable overflow segment.
    pub tail: Vec<u8>,
}

impl View for OptimizedBuf {
    type V = Seq<u8>;

    open spec fn view(&self) -> Seq<u8> {
        self.head@ + self.tail@
    }
}

impl OptimizedBuf {
    /// The head never exceeds its capacity, and the tail is used only once
    /// the head is full.
    pub open spec fn wf(self) -> bool {
        self.head@.len() <= HEAD_CAPACITY && (self.tail@.len() > 0 ==> self.head@.len()
            == HEAD_CAPACITY)
    }

    /// An empty buffer.
    pub fn new() -> (r: OptimizedBuf)
        ensures
            r.wf(),
            r@ == Seq::<u8>::empty(),
    {
        let r = OptimizedBuf { head: Vec::new(), tail: Vec::new() };
        proof {
            assert(r@ =~= Seq::<u8>::empty());
        }
        r
    }

    /// The number of bytes held.
    pub fn len(&self) -> (r: usize)
        requires
            self@.len() <= usize::MAX,
        ensures
            r == self@.len(),
    {
        self.head.len() + self.tail.len()
    }

    /// True if no byte is held.
    pub fn is_empty(&self) -> (r: bool)
        ensures
            r == (self@.len() == 0),
    {
        self.head.is_empty() && self.tail.is_empty()
    }

    /// Appends one byte.
    pub fn push(&mut self, b: u8)
        requires
            old(self).wf(),
        ensures
            final(self).wf(),
            final(self)@ == old(self)@ + seq![b],
    {
        if self.head.len() < HEAD_CAPACITY {
            self.head.push(b);
            proof {
                assert(self.tail@.len() == 0);
                assert(self@ =~= old(self)@ + seq![b]);
            }
        } else {
            self.tail.push(b);
            proof {
                assert(self@ =~= old(self)@ + seq![b]);
            }
        }
    }

    /// Appends every byte of `src`.
    pub fn extend_from_slice(&mut self, src: &[u8])
        requires
            old(self).wf(),
        ensures
            final(self).wf(),
            final(self)@ == old(self)@ + src@,
    {
        let mut i: usize = 0;
        while i < src.len()
            invariant
                0 <= i <= src@.len(),
                self.wf(),
                self@ == old(self)@ + src@.take(i as int),
            decreases src@.len() - i,
        {
            self.push(src[i]);
            proof {
                assert(old(self)@ + src@.take(i + 1) =~= (old(self)@ + src@.take(i as int))
                    + seq![src@[i as int]]);
            }
            i = i + 1;
        }
        proof {
            assert(src@.take(src@.len() as int) =~= src@);
        }
    }

    /// Removes all bytes.
    pub fn clear(&mut self)
        ensures
            final(self).wf(),
            final(self)@ == Seq::<u8>::empty(),
    {
        self.head.clear();
        self.tail.clear();
        proof {
            assert(self@ =~= Seq::<u8>::empty());
        }
    }

    /// Removes the last `n` bytes, or everything if fewer than `n` are held,
    /// working across both segments.
    pub fn truncate_last(&mut self, n: usize)
        requires
            old(self).wf(),
        ensures
            final(self).wf(),
            final(self)@ == if n >= old(self)@.len() {
                Seq::<u8>::empty()
            } else {
                old(self)@.take(old(self)@.len() - n)
            },
    {
        if n <= self.tail.len() {
            let keep = self.tail.len() - n;
            self.tail.truncate(keep);
            proof {
                if n >= old(self)@.len() {
                    assert(self@ =~= Seq::<u8>::empty());
                } else {
                    assert(self@ =~= old(self)@.take(old(self)@.len() - n));
                }
            }
        } else {
            let m = n - self.tail.len();
            self.tail.clear();
            if m >= self.head.len() {
                self.head.clear();
                proof {
                    assert(self@ =~= Seq::<u8>::empty());
                }
            } else {
                let keep = self.head.len() - m;
                self.head.truncate(keep);
                proof {
                    assert(self@ =~= old(self)@.take(old(self)@.len() - n));
                }
            }
        }
    }

    /// Appends the whole content to `dst`.
    pub fn append_to(&self, dst: &mut Vec<u8>)
        ensures
            final(dst)@ == old(dst)@ + self@,
    {
        extend_bytes(dst, self.head.as_slice());
        extend_bytes(dst, self.tail.as_slice());
        proof {
            assert(old(dst)@ + self.head@ + self.tail@ =~= old(dst)@ + (self.head@ + self.tail@));
        }
    }
}

/// True of the ASCII whitespace bytes: space, tab, line feed, form feed and
/// carriage return.
pub open spec fn is_ascii_ws(b: u8) -> bool {
    b == 0x20 || b == 0x09 || b == 0x0A || b == 0x0C || b == 0x0D
}

/// `s` with every trailing ASCII whitespace byte removed.
pub open spec fn trim_ws_suffix(s: Seq<u8>) -> Seq<u8>
    decreases s.len(),
{
    if s.len() > 0 && is_ascii_ws(s.last()) {
        trim_ws_suffix(s.drop_last())
    } else {
        s
    }
}

/// Scoped trailing-whitespace trimming: after some bytes were appended from
/// position `begin` on, removes the ASCII whitespace at the very end of the
/// buffer without ever touching the bytes before `begin`.
pub trait WithAutoTrim {
    /// Trims trailing ASCII whitespace from the span appended after `begin`.
    fn with_auto_trim(&mut self, begin: usize);
}

impl WithAutoTrim for Vec<u8> {
    fn with_auto_trim(&mut self, begin: usize)
        ensures
            begin <= old(self)@.len() ==> final(self)@ == old(self)@.take(begin as int)
                + trim_ws_suffix(old(self)@.skip(begin as int)),
            begin > old(self)@.len() ==> final(self)@ == old(self)@,
    {
        if begin > self.len() {
            return ;
        }
        loop
            invariant
                begin <= self@.len() <= old(self)@.len(),
                self@ == old(self)@.take(self@.len() as int),
                trim_ws_suffix(old(self)@.skip(begin as int)) == trim_ws_suffix(
                    self@.skip(begin as int),
                ),
            ensures
                begin <= self@.len(),
                self@ == old(self)@.take(self@.len() as int),
                trim_ws_suffix(old(self)@.skip(begin as int)) == trim_ws_suffix(
                    self@.skip(begin as int),
                ),
                self@.len() == begin || !is_ascii_ws(self@.last()),
            decreases self@.len(),
        {
            if self.len() <= begin {
                break ;
            }
            let b = self[self.len() - 1];
            if !(b == 0x20 || b == 0x09 || b == 0x0A || b == 0x0C || b == 0x0D) {
                break ;
            }
            proof {
                assert(self@.skip(begin as int).len() > 0);
                assert(self@.skip(begin as int).last() == self@.last());
                assert(self@.skip(begin as int).drop_last() =~= self@.take(
                    self@.len() - 1,
                ).skip(begin as int));
                assert(old(self)@.take(self@.len() - 1) =~= self@.take(self@.len() - 1));
            }
            self.pop();
            proof {
                assert(self@ =~= old(self)@.take(self@.len() as int));
            }
        }
        proof {
            assert(trim_ws_suffix(self@.skip(begin as int)) == self@.skip(begin as int));
            assert(self@.take(begin as int) =~= old(self)@.take(begin as int));
            assert(self@.take(begin as int) + self@.skip(begin as int) =~= self@);
        }
    }
}

/// `s` padded on the right with spaces up to width `w`; `s` itself if it is
/// already that wide.
pub open spec fn pad_right(s: Seq<u8>, w: int) -> Seq<u8> {
    if s.len() >= w {
        s
    } else {
        s + Seq::new((w - s.len()) as nat, |i: int| 0x20u8)
    }
}

/// A run of `n` dash bytes, at least one: the placeholder shown in the
/// timestamp column when a record has no timestamp.
pub open spec fn dash_run(n: int) -> Seq<u8> {
    Seq::new(if n >= 1 {
        n as nat
    } else {
        1nat
    }, |i: int| 0x2Du8)
}

/// Appends `content` left-aligned in a field of width `w`, padding with
/// spaces.
pub fn append_aligned_left(buf: &mut Vec<u8>, content: &[u8], w: usize)
    ensures
        final(buf)@ == old(buf)@ + pad_right(content@, w as int),
{
    extend_bytes(buf, content);
    let mut n = content.len();
    while n < w
        invariant
            content@.len() <= n <= vstd::math::max(w as int, content@.len() as int),
            buf@ == old(buf)@ + content@ + Seq::new((n - content@.len()) as nat, |i: int| 0x20u8),
        decreases w - n,
    {
        buf.push(0x20);
        proof {
            assert(old(buf)@ + content@ + Seq::new((n + 1 - content@.len()) as nat, |i: int| 0x20u8)
                =~= (old(buf)@ + content@ + Seq::new(
                (n - content@.len()) as nat,
                |i: int| 0x20u8,
            )).push(0x20u8));
        }
        n = n + 1;
    }
    proof {
        if content@.len() >= w as int {
            assert(buf@ =~= old(buf)@ + pad_right(content@, w as int));
        } else {
            assert(old(buf)@ + content@ + Seq::new((w - content@.len()) as nat, |i: int| 0x20u8)
                =~= old(buf)@ + (content@ + Seq::new((w - content@.len()) as nat, |i: int| 0x20u8)));
        }
    }
}

/// Appends the timestamp placeholder: `w` dashes, at least one.
pub fn append_dashes(buf: &mut Vec<u8>, w: usize)
    ensures
        final(buf)@ == old(buf)@ + dash_run(w as int),
{
    let n = if w >= 1 {
        w
    } else {
        1
    };
    let mut i: usize = 0;
    while i < n
        invariant
            0 <= i <= n,
            n == if w >= 1 { w as int } else { 1int },
            buf@ == old(buf)@ + Seq::new(i as nat, |j: int| 0x2Du8),
        decreases n - i,
    {
        buf.push(0x2D);
        proof {
            assert(old(buf)@ + Seq::new((i + 1) as nat, |j: int| 0x2Du8) =~= (old(buf)@ + Seq::new(
                i as nat,
                |j: int| 0x2Du8,
            )).push(0x2Du8));
        }
        i = i + 1;
    }
}

} // verus!
