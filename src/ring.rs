//! The circular capture buffer. A producer that software cannot throttle
//! writes samples around a fixed region; the one consumer takes packets out
//! in order and learns of an overrun when it fell more than a full rotation
//! behind.

use vstd::prelude::*;

verus! {

/// Why a capture buffer could not be made, or a read could not be served.
#[derive(Clone, Copy, Debug, PartialEq, Eq, Structural)]
pub enum RingError {
    /// The capacity is zero or not a multiple of the packet length.
    InvalidCapacity,
    /// The consumer fell behind by more than the whole buffer.
    Overrun,
    /// The producer reported a transfer fault.
    TransferFault,
}

/// What a read that did not fail did.
#[derive(Clone, Copy, Debug, PartialEq, Eq, Structural)]
pub enum ReadStatus {
    /// The destination was filled with the next samples in order.
    Ready,
    /// Not enough samples were produced yet; nothing changed.
    Pending,
}

/// The abstract state of a capture buffer: every sample the producer ever
/// wrote, and how many of them the consumer has passed.
pub struct RingModel {
    pub capacity: nat,
    pub packet: nat,
    pub produced: Seq<u16>,
    pub read: nat,
    pub armed: bool,
    pub faulted: bool,
}

impl RingModel {
    pub open spec fn valid(self) -> bool {
        &&& self.capacity > 0
        &&& self.packet > 0
        &&& self.capacity % self.packet == 0
        &&& self.read <= self.produced.len()
    }

    /// Samples written but not yet consumed.
    pub open spec fn lag(self) -> int {
        self.produced.len() - self.read
    }

    /// The producer writes `s`; before it is armed, nothing is written.
    pub open spec fn push(self, s: u16) -> RingModel {
        if self.armed {
            RingModel { produced: self.produced.push(s), ..self }
        } else {
            self
        }
    }

    /// The producer writes the samples of `s` in order.
    pub open spec fn push_all(self, s: Seq<u16>) -> RingModel {
        if self.armed {
            RingModel { produced: self.produced + s, ..self }
        } else {
            self
        }
    }

    /// What a read of `n` samples reports.
    pub open spec fn read_result(self, n: nat) -> Result<ReadStatus, RingError> {
        if self.lag() > self.capacity {
            Err(RingError::Overrun)
        } else if self.faulted {
            Err(RingError::TransferFault)
        } else if self.lag() < n {
            Ok(ReadStatus::Pending)
        } else {
            Ok(ReadStatus::Ready)
        }
    }

    /// The samples a successful read of `n` hands out.
    pub open spec fn next_samples(self, n: nat) -> Seq<u16> {
        self.produced.subrange(self.read as int, self.read + n as int)
    }

    /// The state after a read of `n`: advanced only when it was served.
    pub open spec fn after_read(self, n: nat) -> RingModel {
        if self.read_result(n) == Ok::<ReadStatus, RingError>(ReadStatus::Ready) {
            RingModel { read: self.read + n, ..self }
        } else {
            self
        }
    }

    /// Resynchronisation: skip to what the producer wrote last and forget a
    /// fault; the producer itself keeps running.
    pub open spec fn clear(self) -> RingModel {
        RingModel { read: self.produced.len(), faulted: false, ..self }
    }
}

/// A capture buffer of fixed capacity, read one packet at a time.
pub struct RingBuffer {
    buf: Vec<u16>,
    packet: usize,
    written: u64,
    read: u64,
    armed: bool,
    faulted: bool,
    produced: Ghost<Seq<u16>>,
}

impl View for RingBuffer {
    type V = RingModel;

    closed spec fn view(&self) -> RingModel {
        RingModel {
            capacity: self.buf@.len(),
            packet: self.packet as nat,
            produced: self.produced@,
            read: self.read as nat,
            armed: self.armed,
            faulted: self.faulted,
        }
    }
}

/// Two positions less than a rotation apart sit in different slots.
proof fn lemma_distinct_slots(k: int, w: int, c: int)
    requires
        0 <= k < w,
        w - k < c,
    ensures
        k % c != w % c,
{
    vstd::arithmetic::div_mod::lemma_fundamental_div_mod(k, c);
    vstd::arithmetic::div_mod::lemma_fundamental_div_mod(w, c);
    if k % c == w % c {
        assert(w - k == c * (w / c) - c * (k / c));
        vstd::arithmetic::mul::lemma_mul_is_distributive_sub(c, w / c, k / c);
        if w / c - k / c >= 1 {
            vstd::arithmetic::mul::lemma_mul_inequality(1, w / c - k / c, c);
        } else {
            vstd::arithmetic::mul::lemma_mul_inequality(w / c - k / c, 0, c);
        }
    }
}

impl RingBuffer {
    /// The internal invariant: the slots hold the last rotation of what was
    /// produced, each sample at its position modulo the capacity.
    pub closed spec fn wf(&self) -> bool {
        &&& self@.valid()
        &&& self.written as nat == self.produced@.len()
        &&& forall|k: int|
            #![trigger self.produced@[k]]
            0 <= k < self.written && self.written - self.buf@.len() <= k ==> self.buf@[k
                % self.buf@.len() as int] == self.produced@[k]
    }

    /// A buffer of `capacity` samples read in packets of `packet` samples;
    /// refused unless the capacity is a nonzero multiple of the packet.
    pub fn new(capacity: usize, packet: usize) -> (r: Result<RingBuffer, RingError>)
        ensures
            r is Err <==> (capacity == 0 || packet == 0 || capacity % packet != 0),
            match r {
                Ok(rb) => rb.wf() && rb@ == (RingModel {
                    capacity: capacity as nat,
                    packet: packet as nat,
                    produced: Seq::empty(),
                    read: 0,
                    armed: false,
                    faulted: false,
                }),
                Err(e) => e == RingError::InvalidCapacity,
            },
    {
        if capacity == 0 || packet == 0 || capacity % packet != 0 {
            return Err(RingError::InvalidCapacity);
        }
        let mut buf: Vec<u16> = Vec::new();
        let mut i: usize = 0;
        while i < capacity
            invariant
                i <= capacity,
                buf@.len() == i,
            decreases capacity - i,
        {
            buf.push(0);
            i = i + 1;
        }
        Ok(RingBuffer {
            buf,
            packet,
            written: 0,
            read: 0,
            armed: false,
            faulted: false,
            produced: Ghost(Seq::empty()),
        })
    }

    /// The number of samples one read hands out.
    pub fn packet_len(&self) -> (r: usize)
        requires
            self.wf(),
        ensures
            r == self@.packet,
    {
        self.packet
    }

    /// The number of samples the buffer holds.
    pub fn capacity(&self) -> (r: usize)
        requires
            self.wf(),
        ensures
            r == self@.capacity,
    {
        self.buf.len()
    }

    /// Arms the producer; it then writes without end.
    pub fn start(&mut self)
        requires
            old(self).wf(),
        ensures
            final(self).wf(),
            final(self)@ == (RingModel { armed: true, ..old(self)@ }),
    {
        self.armed = true;
    }

    /// The producer's side: write one sample into the next slot, over the
    /// oldest one once the buffer has come round. Ignored before `start`.
    pub fn push(&mut self, sample: u16)
        requires
            old(self).wf(),
            old(self)@.produced.len() < u64::MAX,
        ensures
            final(self).wf(),
            final(self)@ == old(self)@.push(sample),
    {
        if !self.armed {
            return;
        }
        let c = self.buf.len() as u64;
        let slot = (self.written % c) as usize;
        self.buf.set(slot, sample);
        let ghost w = self.written as int;
        let ghost old_buf = old(self).buf@;
        self.produced = Ghost(self.produced@.push(sample));
        self.written = self.written + 1;
        assert forall|k: int|
            #![trigger self.produced@[k]]
            0 <= k < self.written && self.written - self.buf@.len() <= k implies self.buf@[k
                % self.buf@.len() as int] == self.produced@[k] by {
            if k < w {
                lemma_distinct_slots(k, w, c as int);
                assert(old(self).produced@[k] == self.produced@[k]);
            }
        }
    }

    /// The producer's side: a transfer fault, reported to the next read.
    pub fn report_fault(&mut self)
        requires
            old(self).wf(),
        ensures
            final(self).wf(),
            final(self)@ == (RingModel { faulted: true, ..old(self)@ }),
    {
        self.faulted = true;
    }

    /// Fills `dst` with the next `dst.len()` samples in order when that many
    /// were produced and none of them was overwritten; otherwise reports an
    /// overrun (first) or a pending fault, changing nothing.
    pub fn read_exact(&mut self, dst: &mut [u16]) -> (r: Result<ReadStatus, RingError>)
        requires
            old(self).wf(),
        ensures
            final(self).wf(),
            r == old(self)@.read_result(old(dst)@.len()),
            final(self)@ == old(self)@.after_read(old(dst)@.len()),
            final(dst)@.len() == old(dst)@.len(),
            r == Ok::<ReadStatus, RingError>(ReadStatus::Ready) ==> final(dst)@ == old(
                self,
            )@.next_samples(old(dst)@.len()),
            r != Ok::<ReadStatus, RingError>(ReadStatus::Ready) ==> final(dst)@ == old(dst)@,
    {
        let cap = self.buf.len();
        let c = cap as u64;
        let lag = self.written - self.read;
        if lag > c {
            return Err(RingError::Overrun);
        }
        if self.faulted {
            return Err(RingError::TransferFault);
        }
        let n = dst.len();
        if lag < n as u64 {
            return Ok(ReadStatus::Pending);
        }
        let ghost start = self.read as int;
        let mut i: usize = 0;
        while i < n
            invariant
                self.wf(),
                *self == *old(self),
                i <= n,
                n == dst@.len(),
                n <= lag,
                lag == self.written - self.read,
                lag <= c,
                c == self.buf@.len(),
                cap == c,
                start == self.read,
                forall|j: int| 0 <= j < i ==> dst@[j] == self.produced@[start + j],
            decreases n - i,
        {
            let pos = self.read + i as u64;
            assert(pos % c < c);
            let slot = (pos % c) as usize;
            assert(self.produced@[pos as int] == self.buf@[pos as int % c as int]);
            dst[i] = self.buf[slot];
            assert(dst@[i as int] == self.produced@[start + i]);
            i = i + 1;
        }
        assert(dst@ =~= old(self)@.next_samples(n as nat));
        self.read = self.read + n as u64;
        Ok(ReadStatus::Ready)
    }

    /// Resynchronises after an error: what was missed is dropped, the next
    /// read starts from the newest sample, and the producer is not re-armed.
    pub fn clear(&mut self)
        requires
            old(self).wf(),
        ensures
            final(self).wf(),
            final(self)@ == old(self)@.clear(),
    {
        self.read = self.written;
        self.faulted = false;
    }
}

impl RingBuffer {
    /// A well-formed buffer has a valid model.
    pub proof fn lemma_valid(&self)
        requires
            self.wf(),
        ensures
            self@.valid(),
    {
    }
}

/// A packet never exceeds the capacity it divides.
proof fn lemma_packet_fits(m: RingModel)
    requires
        m.valid(),
    ensures
        m.packet <= m.capacity,
{
    if m.packet > m.capacity {
        vstd::arithmetic::div_mod::lemma_small_mod(m.capacity, m.packet);
    }
}

/// A consumer keeping pace: for each block the producer writes, one read of
/// a packet follows, is served, and hands out exactly that block.
pub open spec fn paced(m: RingModel, blocks: Seq<Seq<u16>>) -> bool
    decreases blocks.len(),
{
    if blocks.len() == 0 {
        true
    } else {
        let m1 = m.push_all(blocks[0]);
        &&& m1.read_result(m.packet) == Ok::<ReadStatus, RingError>(ReadStatus::Ready)
        &&& m1.next_samples(m.packet) == blocks[0]
        &&& paced(m1.after_read(m.packet), blocks.drop_first())
    }
}

/// Liveness: when the producer writes one packet between two reads and the
/// consumer starts caught up (after `start` or `clear`), every read
/// over any number of rotations is served in order and none reports an
/// overrun.
pub proof fn lemma_keeping_pace_never_overruns(m: RingModel, blocks: Seq<Seq<u16>>)
    requires
        m.valid(),
        m.armed,
        !m.faulted,
        m.lag() == 0,
        forall|i: int| 0 <= i < blocks.len() ==> #[trigger] blocks[i].len() == m.packet,
    ensures
        paced(m, blocks),
    decreases blocks.len(),
{
    lemma_packet_fits(m);
    if blocks.len() > 0 {
        let m1 = m.push_all(blocks[0]);
        assert(m1.next_samples(m.packet) =~= blocks[0]);
        let m2 = m1.after_read(m.packet);
        let rest = blocks.drop_first();
        assert forall|i: int| 0 <= i < rest.len() implies #[trigger] rest[i].len() == m.packet by {
            assert(rest[i] == blocks[i + 1]);
        }
        lemma_keeping_pace_never_overruns(m2, rest);
    }
}

/// Overrun and recovery: a consumer that falls more than a rotation behind
/// is told so by its next read, even with a fault pending; after `clear`, a
/// packet written afterwards is read back whole, with the producer never
/// re-armed.
pub proof fn lemma_overrun_then_recover(m: RingModel, late: Seq<u16>, fresh: Seq<u16>)
    requires
        m.valid(),
        m.armed,
        m.lag() + late.len() > m.capacity,
        fresh.len() == m.packet,
    ensures
        m.push_all(late).read_result(m.packet) == Err::<ReadStatus, RingError>(RingError::Overrun),
        m.push_all(late).clear().push_all(fresh).read_result(m.packet) == Ok::<
            ReadStatus,
            RingError,
        >(ReadStatus::Ready),
        m.push_all(late).clear().push_all(fresh).next_samples(m.packet) == fresh,
{
    lemma_packet_fits(m);
    let m2 = m.push_all(late).clear().push_all(fresh);
    assert(m2.next_samples(m.packet) =~= fresh);
}

} // verus!
