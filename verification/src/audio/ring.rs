//! The ring buffer through which samples pass from the input to the output. A sample is held as
//! the bits of its floating-point number; those of silence are all zero.
use vstd::prelude::*;
use ringbuf::{HeapRb, Rb};

verus! {

/// The bits of a sample of silence.
pub const SILENCE: u32 = 0;

/// How many samples are kept of a direct echo.
pub const ECHO_SAMPLES: usize = 96000;

/// How many samples are processed at once.
pub const FRAME_SAMPLES: usize = 480;

/// The highest sample rate for which the samples of a second are counted exactly.
pub const MAX_COUNTED_RATE: u32 = 16777216;

/// A ring buffer of samples, of the `ringbuf` crate.
#[verifier::external_body]
pub struct Ring {
    ring: HeapRb<u32>,
}

/// The samples in a ring buffer, from the oldest to the newest.
pub uninterp spec fn ring_samples(ring: Ring) -> Seq<u32>;

/// How many samples fit into a ring buffer.
pub uninterp spec fn ring_capacity(ring: Ring) -> nat;

/// `HeapRb::new`: an empty ring buffer with room for a number of samples.
#[verifier::external_body]
fn ring_new(capacity: usize) -> (r: Ring)
    requires
        0 < capacity <= usize::MAX / 16,
    ensures
        ring_samples(r) == Seq::<u32>::empty(),
        ring_capacity(r) == capacity,
{
    Ring { ring: HeapRb::new(capacity) }
}

/// `Rb::push`: puts a sample behind the newest where there is room, and says whether there was.
#[verifier::external_body]
fn ring_push(ring: &mut Ring, sample: u32) -> (r: bool)
    ensures
        r == (ring_samples(*old(ring)).len() < ring_capacity(*old(ring))),
        ring_samples(*final(ring)) == (if r {
            ring_samples(*old(ring)).push(sample)
        } else {
            ring_samples(*old(ring))
        }),
        ring_capacity(*final(ring)) == ring_capacity(*old(ring)),
{
    ring.ring.push(sample).is_ok()
}

/// `Rb::pop`: takes the oldest sample out, where there is one.
#[verifier::external_body]
fn ring_pop(ring: &mut Ring) -> (r: Option<u32>)
    ensures
        match r {
            Some(sample) => {
                &&& ring_samples(*old(ring)).len() > 0
                &&& sample == ring_samples(*old(ring))[0]
                &&& ring_samples(*final(ring)) == ring_samples(*old(ring)).drop_first()
            },
            None => {
                &&& ring_samples(*old(ring)).len() == 0
                &&& ring_samples(*final(ring)) == ring_samples(*old(ring))
            },
        },
        ring_capacity(*final(ring)) == ring_capacity(*old(ring)),
{
    ring.ring.pop()
}

/// A number of samples of silence.
pub open spec fn silence(n: nat) -> Seq<u32> {
    Seq::new(n, |i: int| SILENCE)
}

/// The samples of a ring buffer after more came in: those that do not fit are lost.
pub open spec fn fed(samples: Seq<u32>, capacity: nat, data: Seq<u32>) -> Seq<u32> {
    if samples.len() + data.len() <= capacity {
        samples + data
    } else if samples.len() <= capacity {
        samples + data.take(capacity - samples.len())
    } else {
        samples
    }
}

/// What comes out of a ring buffer: where it runs dry, silence.
pub open spec fn drawn(samples: Seq<u32>, n: nat) -> Seq<u32> {
    if n <= samples.len() {
        samples.take(n as int)
    } else {
        samples + silence((n - samples.len()) as nat)
    }
}

/// What stays in a ring buffer after samples came out.
pub open spec fn undrawn(samples: Seq<u32>, n: nat) -> Seq<u32> {
    if n <= samples.len() {
        samples.skip(n as int)
    } else {
        Seq::empty()
    }
}

/// The samples of one second of one channel.
pub fn latency_samples(sample_rate: u32) -> (r: usize)
    requires
        sample_rate <= MAX_COUNTED_RATE,
    ensures
        r == sample_rate,
{
    sample_rate as usize
}

impl Ring {
    /// A ring buffer with a second of silence in it, and room for one more second.
    pub fn with_latency(sample_rate: u32) -> (r: Ring)
        requires
            0 < sample_rate <= MAX_COUNTED_RATE,
        ensures
            ring_samples(r) == silence(sample_rate as nat),
            ring_capacity(r) == 2 * sample_rate,
    {
        let latency: usize = latency_samples(sample_rate);
        let mut ring = ring_new(latency * 2);
        ring.fill_silence(latency);
        assert(Seq::<u32>::empty() + silence(latency as nat) == silence(latency as nat));
        ring
    }

    /// An empty ring buffer for a direct echo.
    pub fn for_echo() -> (r: Ring)
        ensures
            ring_samples(r) == Seq::<u32>::empty(),
            ring_capacity(r) == ECHO_SAMPLES,
    {
        ring_new(ECHO_SAMPLES)
    }

    /// A ring buffer for an echo that is processed frame by frame, with a frame of silence in it.
    pub fn for_processed_echo() -> (r: Ring)
        ensures
            ring_samples(r) == silence(FRAME_SAMPLES as nat),
            ring_capacity(r) == ECHO_SAMPLES,
    {
        let mut ring = ring_new(ECHO_SAMPLES);
        ring.fill_silence(FRAME_SAMPLES);
        assert(Seq::<u32>::empty() + silence(FRAME_SAMPLES as nat) == silence(
            FRAME_SAMPLES as nat,
        ));
        ring
    }

    /// Puts silence in, for which there has to be room.
    fn fill_silence(&mut self, n: usize)
        requires
            ring_samples(*old(self)).len() + n <= ring_capacity(*old(self)),
        ensures
            ring_samples(*final(self)) == ring_samples(*old(self)) + silence(n as nat),
            ring_capacity(*final(self)) == ring_capacity(*old(self)),
    {
        let ghost start = ring_samples(*self);
        let mut i: usize = 0;
        assert(start + silence(0) == start);
        while i < n
            invariant
                i <= n,
                start == ring_samples(*old(self)),
                start.len() + n <= ring_capacity(*self),
                ring_capacity(*self) == ring_capacity(*old(self)),
                ring_samples(*self) == start + silence(i as nat),
            decreases n - i,
        {
            let fits: bool = ring_push(self, SILENCE);
            assert(fits);
            assert(start + silence((i + 1) as nat) == (start + silence(i as nat)).push(SILENCE));
            i = i + 1;
        }
    }

    /// Takes samples of the input. Returns whether some were lost, because the output is behind.
    pub fn feed(&mut self, data: &Vec<u32>) -> (r: bool)
        ensures
            ring_samples(*final(self)) == fed(
                ring_samples(*old(self)),
                ring_capacity(*old(self)),
                data@,
            ),
            ring_capacity(*final(self)) == ring_capacity(*old(self)),
            r == (data@.len() > 0 && ring_samples(*old(self)).len() + data@.len() > ring_capacity(
                *old(self),
            )),
    {
        let ghost start = ring_samples(*self);
        let ghost capacity = ring_capacity(*self);
        let mut output_fell_behind: bool = false;
        let mut i: usize = 0;
        assert(data@.take(0) == Seq::<u32>::empty());
        assert(start + Seq::<u32>::empty() == start);
        while i < data.len()
            invariant
                i <= data@.len(),
                start == ring_samples(*old(self)),
                capacity == ring_capacity(*old(self)),
                capacity == ring_capacity(*self),
                ring_samples(*self) == fed(start, capacity, data@.take(i as int)),
                output_fell_behind == (i > 0 && start.len() + i > capacity),
            decreases data@.len() - i,
        {
            let ghost before = ring_samples(*self);
            let ghost taken = data@.take(i as int);
            let ghost more = data@.take(i + 1);
            if !ring_push(self, data[i]) {
                output_fell_behind = true;
            }
            proof {
                assert(more == taken.push(data@[i as int]));
                if start.len() + more.len() <= capacity {
                    assert(start + more == (start + taken).push(data@[i as int]));
                } else if start.len() <= capacity {
                    let room = capacity - start.len();
                    assert(more.take(room) == taken.take(room));
                    if taken.len() == room {
                        assert(taken.take(room) == taken);
                    }
                }
            }
            i = i + 1;
        }
        assert(data@.take(data@.len() as int) == data@);
        output_fell_behind
    }

    /// Gives samples to the output, and whether some of them are silence because the input is
    /// behind.
    pub fn draw(&mut self, n: usize) -> (r: (Vec<u32>, bool))
        ensures
            r.0@ == drawn(ring_samples(*old(self)), n as nat),
            r.1 == (n > ring_samples(*old(self)).len()),
            ring_samples(*final(self)) == undrawn(ring_samples(*old(self)), n as nat),
            ring_capacity(*final(self)) == ring_capacity(*old(self)),
    {
        let ghost start = ring_samples(*self);
        let mut out: Vec<u32> = Vec::new();
        let mut input_fell_behind: bool = false;
        let mut i: usize = 0;
        assert(start.skip(0) == start);
        while i < n
            invariant
                i <= n,
                start == ring_samples(*old(self)),
                ring_capacity(*self) == ring_capacity(*old(self)),
                out@ == drawn(start, i as nat),
                ring_samples(*self) == undrawn(start, i as nat),
                input_fell_behind == (i > start.len()),
            decreases n - i,
        {
            let ghost before = out@;
            match ring_pop(self) {
                Some(sample) => {
                    out.push(sample);
                    assert(start.take(i + 1) == start.take(i as int).push(start[i as int]));
                    assert(start.skip(i as int).drop_first() == start.skip(i + 1));
                },
                None => {
                    input_fell_behind = true;
                    out.push(SILENCE);
                    proof {
                        let missing = (i + 1 - start.len()) as nat;
                        if i == start.len() {
                            assert(start.take(i as int) == start);
                        }
                        assert(silence(missing) == silence((missing - 1) as nat).push(SILENCE));
                        assert(drawn(start, (i + 1) as nat) == before.push(SILENCE));
                    }
                },
            }
            i = i + 1;
        }
        (out, input_fell_behind)
    }
}

/// Gathers samples into frames.
pub struct FrameBuffer {
    pub samples: Vec<u32>,
}

impl FrameBuffer {
    pub fn new() -> (r: FrameBuffer)
        ensures
            r.samples@.len() == 0,
    {
        FrameBuffer { samples: Vec::new() }
    }

    /// Takes a sample. A frame that is full then is handed out, to be processed, and a new one is
    /// begun.
    pub fn push(&mut self, sample: u32) -> (r: Option<Vec<u32>>)
        ensures
            if old(self).samples@.len() + 1 == FRAME_SAMPLES {
                &&& r matches Some(frame) && frame@ == old(self).samples@.push(sample)
                &&& final(self).samples@.len() == 0
            } else {
                &&& r is None
                &&& final(self).samples@ == old(self).samples@.push(sample)
            },
    {
        self.samples.push(sample);
        if self.samples.len() == FRAME_SAMPLES {
            let mut frame: Vec<u32> = Vec::new();
            core::mem::swap(&mut self.samples, &mut frame);
            Some(frame)
        } else {
            None
        }
    }
}

/// What goes in comes out, in order: samples that fit are drawn again after what was there.
pub proof fn samples_pass_in_order(samples: Seq<u32>, capacity: nat, data: Seq<u32>)
    requires
        samples.len() + data.len() <= capacity,
    ensures
        drawn(fed(samples, capacity, data), samples.len()) == samples,
        undrawn(fed(samples, capacity, data), samples.len()) == data,
        drawn(fed(samples, capacity, data), samples.len() + data.len()) == samples + data,
        undrawn(fed(samples, capacity, data), samples.len() + data.len()).len() == 0,
{
    assert((samples + data).take(samples.len() as int) == samples);
    assert((samples + data).skip(samples.len() as int) == data);
    assert((samples + data).take((samples + data).len() as int) == samples + data);
}

} // verus!
