use vstd::prelude::*;
use vstd::slice::slice_subrange;

verus! {

/// Capacity a `BufferReader` gets from `new`.
pub const DEFAULT_BUF_SIZE: usize = 8192;

/// A buffer in front of a reader `R`.
///
/// The bytes `buf[pos..cap]` were read from the reader and not yet consumed.
/// The reads themselves happen outside: the owner of the reader hands the
/// bytes it got to `fill_from`.
pub struct BufferReader<R> {
    inner: R,
    buf: Vec<u8>,
    pos: usize,
    cap: usize,
}

impl<R> BufferReader<R> {
    pub closed spec fn wf(&self) -> bool {
        self.pos <= self.cap <= self.buf@.len()
    }

    /// The bytes held and not yet consumed.
    pub closed spec fn buffered(&self) -> Seq<u8> {
        self.buf@.subrange(self.pos as int, self.cap as int)
    }

    /// The size of the internal buffer.
    pub closed spec fn spec_capacity(&self) -> nat {
        self.buf@.len()
    }

    /// The reader behind the buffer.
    pub closed spec fn reader(&self) -> R {
        self.inner
    }

    pub fn new(inner: R) -> (r: Self)
        ensures
            r.wf(),
            r.spec_capacity() == DEFAULT_BUF_SIZE,
            r.buffered().len() == 0,
            r.reader() == inner,
    {
        BufferReader::with_capacity(DEFAULT_BUF_SIZE, inner)
    }

    pub fn with_capacity(capacity: usize, inner: R) -> (r: Self)
        ensures
            r.wf(),
            r.spec_capacity() == capacity,
            r.buffered().len() == 0,
            r.reader() == inner,
    {
        let mut buf: Vec<u8> = Vec::new();
        let mut k: usize = 0;
        while k < capacity
            invariant
                k <= capacity,
                buf@.len() == k,
            decreases capacity - k,
        {
            buf.push(0);
            k += 1;
        }
        BufferReader { inner, buf, pos: 0, cap: 0 }
    }

    /// The reader behind the buffer; reading from it directly skips the buffered bytes.
    pub fn get_mut(&mut self) -> (r: &mut R)
        ensures
            *r == old(self).reader(),
            final(self).reader() == *final(r),
            final(self).buffered() == old(self).buffered(),
            final(self).spec_capacity() == old(self).spec_capacity(),
            old(self).wf() ==> final(self).wf(),
    {
        &mut self.inner
    }

    /// The bytes held and not yet consumed.
    pub fn buffer(&self) -> (r: &[u8])
        requires
            self.wf(),
        ensures
            r@ == self.buffered(),
    {
        slice_subrange(self.buf.as_slice(), self.pos, self.cap)
    }

    pub fn capacity(&self) -> (r: usize)
        ensures
            r == self.spec_capacity(),
    {
        self.buf.len()
    }

    pub fn into_inner(self) -> (r: R)
        ensures
            r == self.reader(),
    {
        self.inner
    }

    /// Drops all buffered bytes.
    pub fn discard_buffer(&mut self)
        ensures
            final(self).wf(),
            final(self).buffered().len() == 0,
            final(self).spec_capacity() == old(self).spec_capacity(),
            final(self).reader() == old(self).reader(),
    {
        self.pos = 0;
        self.cap = 0;
    }

    /// Marks the first `amt` buffered bytes (at most all of them) as consumed.
    pub fn consume(&mut self, amt: usize)
        requires
            old(self).wf(),
        ensures
            final(self).wf(),
            final(self).buffered() == old(self).buffered().skip(
                if amt < old(self).buffered().len() {
                    amt as int
                } else {
                    old(self).buffered().len() as int
                },
            ),
            final(self).spec_capacity() == old(self).spec_capacity(),
            final(self).reader() == old(self).reader(),
    {
        if amt < self.cap - self.pos {
            self.pos = self.pos + amt;
        } else {
            self.pos = self.cap;
        }
        proof {
            assert(self.buffered() =~= old(self).buffered().skip(
                if amt < old(self).buffered().len() {
                    amt as int
                } else {
                    old(self).buffered().len() as int
                },
            ));
        }
    }

    /// The buffer is used up and must be filled before the next read from it.
    pub fn needs_fill(&self) -> (r: bool)
        requires
            self.wf(),
        ensures
            r == (self.buffered().len() == 0),
    {
        self.pos >= self.cap
    }

    /// A read of `want` bytes skips the buffer: nothing is buffered and the
    /// request is at least as large as the buffer.
    pub fn bypasses_buffer(&self, want: usize) -> (r: bool)
        requires
            self.wf(),
        ensures
            r == (self.buffered().len() == 0 && want >= self.spec_capacity()),
    {
        self.pos == self.cap && want >= self.buf.len()
    }

    /// Replaces the buffered bytes by `data`, freshly read from the reader.
    pub fn fill_from(&mut self, data: &[u8])
        requires
            data@.len() <= old(self).spec_capacity(),
        ensures
            final(self).wf(),
            final(self).buffered() == data@,
            final(self).spec_capacity() == old(self).spec_capacity(),
            final(self).reader() == old(self).reader(),
    {
        let mut k: usize = 0;
        while k < data.len()
            invariant
                k <= data@.len(),
                data@.len() <= self.buf@.len(),
                self.buf@.len() == old(self).buf@.len(),
                self.inner == old(self).inner,
                forall|j: int| 0 <= j < k ==> #[trigger] self.buf@[j] == data@[j],
            decreases data@.len() - k,
        {
            self.buf.set(k, data[k]);
            k += 1;
        }
        self.pos = 0;
        self.cap = data.len();
        proof {
            assert(self.buffered() =~= data@);
        }
    }

    /// Takes up to `max` buffered bytes out of the buffer.
    pub fn take_buffered(&mut self, max: usize) -> (r: Vec<u8>)
        requires
            old(self).wf(),
        ensures
            final(self).wf(),
            r@.len() == if max < old(self).buffered().len() {
                max as nat
            } else {
                old(self).buffered().len()
            },
            r@ == old(self).buffered().take(r@.len() as int),
            final(self).buffered() == old(self).buffered().skip(r@.len() as int),
            final(self).spec_capacity() == old(self).spec_capacity(),
            final(self).reader() == old(self).reader(),
    {
        let avail = self.cap - self.pos;
        let n = if max < avail {
            max
        } else {
            avail
        };
        let mut out: Vec<u8> = Vec::new();
        let mut k: usize = 0;
        while k < n
            invariant
                self.wf(),
                self == old(self),
                n <= self.cap - self.pos,
                k <= n,
                out@ == self.buffered().take(k as int),
            decreases n - k,
        {
            out.push(self.buf[self.pos + k]);
            proof {
                assert(self.buffered().take(k + 1) =~= self.buffered().take(k as int).push(
                    self.buffered()[k as int],
                ));
            }
            k += 1;
        }
        self.consume(n);
        out
    }
}

/// What one read from a reader came back with.
#[derive(Clone, Copy, Debug, PartialEq, Eq, Structural)]
pub enum ReadOutcome {
    /// `n` bytes were read; zero means the end of the input.
    Bytes(usize),
    /// The read was interrupted and may be retried.
    Interrupted,
    /// The read failed.
    Failed,
}

/// What `read_exact` does next.
#[derive(Clone, Copy, Debug, PartialEq, Eq, Structural)]
pub enum ReadExactStep {
    /// Read again; this many bytes are filled so far.
    Continue(usize),
    /// All wanted bytes are filled.
    Done,
    /// The input ended before all wanted bytes were filled.
    UnexpectedEof,
    /// Pass the read's error on.
    Fail,
}

/// One step of filling `want` bytes of which `filled` are filled: an
/// interrupted read is retried, an empty read ends the input early, and a
/// read of `n` bytes fills `n` more.
pub fn default_read_exact_step(filled: usize, want: usize, outcome: ReadOutcome) -> (r: ReadExactStep)
    requires
        filled <= want,
    ensures
        match outcome {
            ReadOutcome::Failed => r == ReadExactStep::Fail,
            ReadOutcome::Interrupted => if filled == want {
                r == ReadExactStep::Done
            } else {
                r == ReadExactStep::Continue(filled)
            },
            ReadOutcome::Bytes(n) => if filled == want {
                r == ReadExactStep::Done
            } else if n == 0 {
                r == ReadExactStep::UnexpectedEof
            } else if n >= want - filled {
                r == ReadExactStep::Done
            } else {
                r == ReadExactStep::Continue((filled + n) as usize)
            },
        },
{
    if filled == want {
        return match outcome {
            ReadOutcome::Failed => ReadExactStep::Fail,
            _ => ReadExactStep::Done,
        };
    }
    match outcome {
        ReadOutcome::Failed => ReadExactStep::Fail,
        ReadOutcome::Interrupted => ReadExactStep::Continue(filled),
        ReadOutcome::Bytes(n) => {
            if n == 0 {
                ReadExactStep::UnexpectedEof
            } else if n >= want - filled {
                ReadExactStep::Done
            } else {
                ReadExactStep::Continue(filled + n)
            }
        },
    }
}

} // verus!
