//! A fixed-capacity byte queue between one producer (foreground code) and one
//! consumer (the transmit interrupt), and the transmitter built on it.
use vstd::prelude::*;

verus! {

use vstd::utf8::{encode_utf8, encode_utf8_first_scalar};

/// A capacity the queue can have: a power of two, from 2 (one slot always
/// stays free) to 2^31.
pub open spec fn valid_capacity(n: usize) -> bool {
    &&& 2 <= n <= 0x8000_0000
    &&& (n as u32) & ((n - 1) as u32) == 0
}

/// The low bits of an index that pick its slot, for a power-of-two capacity `c`.
proof fn lemma_slot_bound(x: u32, c: u32)
    requires
        c >= 1,
    ensures
        x & ((c - 1) as u32) < c,
{
    assert(x & ((c - 1) as u32) < c) by (bit_vector)
        requires
            c >= 1,
    ;
}

/// Fewer than `c` consecutive indices fall in distinct slots.
proof fn lemma_slots_distinct(r: u32, j: u32, k: u32, c: u32)
    requires
        c >= 1,
        c & ((c - 1) as u32) == 0,
        j < k < c,
    ensures
        ((r + j) as u32) & ((c - 1) as u32) != ((r + k) as u32) & ((c - 1) as u32),
{
    assert(((r + j) as u32) & ((c - 1) as u32) != ((r + k) as u32) & ((c - 1) as u32))
        by (bit_vector)
        requires
            c >= 1,
            c & ((c - 1) as u32) == 0,
            j < k,
            k < c,
    ;
}

/// The write index would meet the read index in the same slot exactly when
/// the queue holds one byte less than its capacity.
proof fn lemma_full(r: u32, w: u32, c: u32)
    requires
        c >= 1,
        c & ((c - 1) as u32) == 0,
        c <= 0x8000_0000,
        ((w - r) as u32) < c,
    ensures
        (((w + 1) as u32) & ((c - 1) as u32) == r & ((c - 1) as u32)) <==> ((w - r) as u32) + 1
            == c,
{
    assert((((w + 1) as u32) & ((c - 1) as u32) == r & ((c - 1) as u32)) <==> ((w - r) as u32)
        + 1 == c) by (bit_vector)
        requires
            c >= 1,
            c & ((c - 1) as u32) == 0,
            c <= 0x8000_0000,
            ((w - r) as u32) < c,
    ;
}

/// Index arithmetic modulo 2^32.
proof fn lemma_wrap(r: u32, w: u32, i: u32)
    requires
        i < 0x8000_0000,
    ensures
        (((r + 1) as u32) + i) as u32 == (r + (i + 1)) as u32,
        ((w - r) as u32) < 0xffff_ffff ==> (((w + 1) as u32) - r) as u32 == ((w - r) as u32) + 1,
        ((w - r) as u32) >= 1 ==> (w - ((r + 1) as u32)) as u32 == ((w - r) as u32) - 1,
        (r + ((w - r) as u32)) as u32 == w,
        ((w - r) as u32 == 0) <==> w == r,
        w < 0xffff_ffff ==> (w + 1) as u32 == w + 1,
        w == 0xffff_ffff ==> (w + 1) as u32 == 0,
{
    assert(((w - r) as u32 == 0) <==> w == r) by (bit_vector);
    assert(w < 0xffff_ffff ==> (w + 1) as u32 == w + 1) by (bit_vector);
    assert(w == 0xffff_ffff ==> (w + 1) as u32 == 0) by (bit_vector);
    assert((((r + 1) as u32) + i) as u32 == (r + (i + 1)) as u32) by (bit_vector)
        requires
            i < 0x8000_0000,
    ;
    assert(((w - r) as u32) < 0xffff_ffff ==> (((w + 1) as u32) - r) as u32 == ((w - r) as u32)
        + 1) by (bit_vector);
    assert(((w - r) as u32) >= 1 ==> (w - ((r + 1) as u32)) as u32 == ((w - r) as u32) - 1)
        by (bit_vector);
    assert((r + ((w - r) as u32)) as u32 == w) by (bit_vector);
}

proof fn lemma_mask(n: usize)
    requires
        valid_capacity(n),
    ensures
        (n as u32) as int == n,
        ((n as u32) - 1) as u32 == (n - 1) as u32,
        (n as u32) & (((n as u32) - 1) as u32) == 0,
{
}

/// A queue of bytes in a fixed array of `N` slots. The two indices only ever
/// grow (wrapping at 2^32) and pick their slot by their low bits; the queue is
/// empty when they are equal, and full when one more byte would bring the write
/// index into the read index's slot, so `N - 1` bytes fit.
pub struct RingBuffer<const N: usize> {
    buf: [u8; N],
    read_index: u32,
    write_index: u32,
}

impl<const N: usize> RingBuffer<N> {
    /// How many bytes the queue holds.
    spec fn count(&self) -> u32 {
        (self.write_index - self.read_index) as u32
    }

    /// The slot of an index.
    spec fn slot(x: u32) -> int {
        (x & ((N - 1) as u32)) as int
    }

    #[verifier::type_invariant]
    spec fn inv(&self) -> bool {
        &&& valid_capacity(N)
        &&& self.count() < N
    }

    /// The bytes held, oldest first.
    pub closed spec fn contents(&self) -> Seq<u8> {
        Seq::new(
            self.count() as nat,
            |i: int| self.buf@[Self::slot((self.read_index + i) as u32)],
        )
    }
}

impl<const N: usize> View for RingBuffer<N> {
    type V = Seq<u8>;

    /// The bytes held, oldest first.
    open spec fn view(&self) -> Seq<u8> {
        self.contents()
    }
}

impl<const N: usize> RingBuffer<N> {
    /// An empty queue.
    pub fn new() -> (q: RingBuffer<N>)
        requires
            valid_capacity(N),
        ensures
            q@.len() == 0,
    {
        RingBuffer { buf: [0u8; N], read_index: 0, write_index: 0 }
    }

    /// Whether the queue holds no byte.
    pub fn is_empty(&self) -> (r: bool)
        ensures
            r == (self@.len() == 0),
    {
        proof {
            lemma_wrap(self.read_index, self.write_index, 0);
        }
        self.read_index == self.write_index
    }

    /// Appends as many bytes of `data`, from its start, as fit; never waits.
    /// Returns how many were taken (0 when the queue is full).
    pub fn push_bytes(&mut self, data: &[u8]) -> (n: usize)
        ensures
            n == if data@.len() <= N - 1 - old(self)@.len() {
                data@.len() as int
            } else {
                N - 1 - old(self)@.len()
            },
            final(self)@ == old(self)@ + data@.take(n as int),
            final(self)@.len() < N,
    {
        proof {
            use_type_invariant(&*self);
            lemma_mask(N);
        }
        let m: u32 = (N - 1) as u32;
        let mut n: usize = 0;
        while n < data.len()
            invariant
                valid_capacity(N),
                m == (N - 1) as u32,
                n <= data@.len(),
                self.count() == old(self)@.len() + n,
                self@ == old(self)@ + data@.take(n as int),
            ensures
                n <= data@.len(),
                self.count() == old(self)@.len() + n,
                self@ == old(self)@ + data@.take(n as int),
                n == data@.len() || self.count() + 1 == N,
            decreases data@.len() - n,
        {
            proof {
                use_type_invariant(&*self);
                lemma_mask(N);
                lemma_full(self.read_index, self.write_index, N as u32);
                lemma_wrap(self.read_index, self.write_index, 0);
            }
            let next = self.write_index.wrapping_add(1);
            assert(next == (self.write_index + 1) as u32);
            if next & m == self.read_index & m {
                break;
            }
            let ghost before = self@;
            let ghost old_buf = self.buf@;
            let w = self.write_index;
            proof {
                lemma_slot_bound(w, N as u32);
                lemma_wrap(self.read_index, w, 0);
            }
            self.buf[(w & m) as usize] = data[n];
            proof {
                assert(self.buf@ == old_buf.update(Self::slot(w), data@[n as int]));
                assert forall|i: int| 0 <= i < self@.len() implies self@[i] == before[i] by {
                    // The bytes held sit in other slots than the one written.
                    lemma_slots_distinct(self.read_index, i as u32, self.count(), N as u32);
                    lemma_slot_bound((self.read_index + i) as u32, N as u32);
                }
                assert(self@ =~= before);
            }
            self.write_index = next;
            n = n + 1;
            proof {
                lemma_wrap(self.read_index, w, 0);
                assert(self.count() == before.len() + 1);
                assert(Self::slot((self.read_index + before.len()) as u32) == Self::slot(w));
                assert(self@ =~= before.push(data@[n - 1]));
                assert(data@.take(n as int) =~= data@.take(n - 1).push(data@[n - 1]));
                assert(self@ =~= old(self)@ + data@.take(n as int));
            }
        }
        proof {
            use_type_invariant(&*self);
        }
        n
    }

    /// Takes the oldest byte out, or `None` when the queue is empty.
    pub fn pop(&mut self) -> (r: Option<u8>)
        ensures
            old(self)@.len() == 0 ==> r.is_none() && final(self)@ == old(self)@,
            old(self)@.len() > 0 ==> r == Some(old(self)@[0]) && final(self)@
                == old(self)@.drop_first(),
    {
        proof {
            use_type_invariant(&*self);
            lemma_mask(N);
            lemma_wrap(self.read_index, self.write_index, 0);
        }
        if self.read_index == self.write_index {
            return None;
        }
        let m: u32 = (N - 1) as u32;
        let r = self.read_index;
        proof {
            lemma_slot_bound(r, N as u32);
            lemma_wrap(r, self.write_index, 0);
            lemma_wrap(self.write_index, r, 0);
        }
        let b = self.buf[(r & m) as usize];
        assert(r.wrapping_add(1) == (r + 1) as u32);
        let ghost before = self@;
        self.read_index = r.wrapping_add(1);
        proof {
            assert forall|i: int| 0 <= i < self.count() implies Self::slot((self.read_index + i) as u32)
                == #[trigger] Self::slot((r + (i + 1)) as u32) by {
                lemma_wrap(r, self.write_index, i as u32);
            }
            assert(self@ =~= before.drop_first());
        }
        Some(b)
    }
}

/// What the transmit-register-empty interrupt does next.
#[derive(Clone, Copy, Debug, PartialEq, Eq, Structural)]
pub enum Drain {
    /// Write this byte to the data register.
    Send(u8),
    /// Nothing is left to send: switch the interrupt off.
    Disarm,
}

/// What a push did, and what the caller owes the hardware.
#[derive(Clone, Copy, Debug, PartialEq, Eq, Structural)]
pub struct PushOutcome {
    /// How many bytes of the data were queued.
    pub written: usize,
    /// Whether the transmit interrupt must now be switched on.
    pub arm: bool,
    /// A byte to write to the data register at once (the hardware was ready).
    pub send_now: Option<u8>,
}

/// A serial transmitter: bytes wait in a queue that the transmit interrupt
/// drains. The interrupt is armed only while there may be bytes to send:
/// whenever it is not armed, the queue is empty.
pub struct Transmitter<const N: usize> {
    queue: RingBuffer<N>,
    armed: bool,
}

impl<const N: usize> Transmitter<N> {
    /// Well-formed: whenever the interrupt is off, the queue is empty.
    pub closed spec fn wf(&self) -> bool {
        self.armed || self.queue@.len() == 0
    }

    /// Whether the transmit interrupt is switched on.
    pub closed spec fn armed(&self) -> bool {
        self.armed
    }

    /// The bytes waiting to be sent, oldest first.
    pub closed spec fn pending(&self) -> Seq<u8> {
        self.queue@
    }
}

impl<const N: usize> View for Transmitter<N> {
    type V = Seq<u8>;

    /// The bytes waiting to be sent, oldest first.
    open spec fn view(&self) -> Seq<u8> {
        self.pending()
    }
}

impl<const N: usize> Transmitter<N> {
    /// A transmitter with nothing queued and its interrupt off.
    pub fn new() -> (t: Transmitter<N>)
        requires
            valid_capacity(N),
        ensures
            t.wf(),
            t@.len() == 0,
            !t.armed(),
    {
        Transmitter { queue: RingBuffer::new(), armed: false }
    }

    /// Queues as many bytes of `data` as fit, without waiting. When the queue
    /// goes from empty to holding bytes while the interrupt is off, the
    /// interrupt is armed, once; never while it is already armed. If the
    /// hardware is ready (`tx_ready`), the oldest byte is handed over at once.
    pub fn push_bytes(&mut self, data: &[u8], tx_ready: bool) -> (r: PushOutcome)
        requires
            old(self).wf(),
        ensures
            final(self).wf(),
            r.written == if data@.len() <= N - 1 - old(self)@.len() {
                data@.len() as int
            } else {
                N - 1 - old(self)@.len()
            },
            r.arm == (!old(self).armed() && r.written > 0),
            r.arm ==> old(self)@.len() == 0,
            !old(self).armed() && data@.len() > 0 ==> r.arm,
            final(self).armed() == (old(self).armed() || r.written > 0),
            ({
                let queued = old(self)@ + data@.take(r.written as int);
                if tx_ready && queued.len() > 0 {
                    r.send_now == Some(queued[0]) && final(self)@ == queued.drop_first()
                } else {
                    r.send_now.is_none() && final(self)@ == queued
                }
            }),
    {
        proof {
            use_type_invariant(&self.queue);
        }
        let arm = !self.armed && data.len() > 0 && N > 1;
        if arm {
            self.armed = true;
        }
        let written = self.queue.push_bytes(data);
        let send_now = if tx_ready {
            self.queue.pop()
        } else {
            None
        };
        PushOutcome { written, arm, send_now }
    }

    /// Queues as many bytes of the UTF-8 encoding of `s` as fit, exactly as
    /// `push_bytes` does with those bytes.
    pub fn write_str(&mut self, s: &str, tx_ready: bool) -> (r: PushOutcome)
        requires
            old(self).wf(),
        ensures
            final(self).wf(),
            r.written == if encode_utf8(s@).len() <= N - 1 - old(self)@.len() {
                encode_utf8(s@).len() as int
            } else {
                N - 1 - old(self)@.len()
            },
            r.arm == (!old(self).armed() && r.written > 0),
            r.arm ==> old(self)@.len() == 0,
            !old(self).armed() && s@.len() > 0 ==> r.arm,
            final(self).armed() == (old(self).armed() || r.written > 0),
            ({
                let queued = old(self)@ + encode_utf8(s@).take(r.written as int);
                if tx_ready && queued.len() > 0 {
                    r.send_now == Some(queued[0]) && final(self)@ == queued.drop_first()
                } else {
                    r.send_now.is_none() && final(self)@ == queued
                }
            }),
    {
        proof {
            if s@.len() > 0 {
                encode_utf8_first_scalar(s@);
            }
        }
        self.push_bytes(s.as_bytes(), tx_ready)
    }

    /// The transmit-register-empty interrupt: hands out the oldest byte, or,
    /// with nothing left, disarms.
    pub fn on_tx_empty(&mut self) -> (r: Drain)
        requires
            old(self).wf(),
        ensures
            final(self).wf(),
            old(self)@.len() == 0 ==> r == Drain::Disarm && !final(self).armed() && final(self)@
                == old(self)@,
            old(self)@.len() > 0 ==> r == Drain::Send(old(self)@[0]) && final(self)@ == old(
                self,
            )@.drop_first() && final(self).armed() == old(self).armed(),
    {
        match self.queue.pop() {
            Some(b) => Drain::Send(b),
            None => {
                self.armed = false;
                Drain::Disarm
            },
        }
    }
}

} // verus!
