//! Metric samples shown by the panel, and the sliding window that
//! smooths them. Fractional readings (percentages) are carried as their
//! IEEE-754 `binary32` bit patterns.

use vstd::prelude::*;
use std::time::Instant;
use crate::floatbits::ZERO_BITS;

verus! {

#[verifier::external_type_specification]
#[verifier::external_body]
pub struct ExInstant(std::time::Instant);

/// `Instant::now`: a reading of the monotonic clock. Nothing is stated of
/// it; it depends on the time.
#[verifier::external_body]
pub(crate) fn instant_now() -> Instant {
    Instant::now()
}

/// Smoothed processor utilisation.
#[derive(Clone, Copy, Debug, PartialEq)]
pub struct CpuSample {
    /// Utilisation in percent (`0..=100`), as `f32` bits.
    pub percent_bits: u32,
    /// Number of cores the figure was averaged over.
    pub cores: u32,
    /// When the sample was taken.
    pub sampled_at: Instant,
}

impl Default for CpuSample {
    /// A zero reading over one core, taken now.
    fn default() -> (r: Self)
        ensures
            r.percent_bits == ZERO_BITS,
            r.cores == 1,
    {
        CpuSample { percent_bits: ZERO_BITS, cores: 1, sampled_at: instant_now() }
    }
}

/// Graphics utilisation; `presentable` tells whether `percent_bits` holds
/// a real reading (otherwise the panel shows `GPU --`).
#[derive(Debug, PartialEq)]
pub struct GpuSample {
    /// A real number could be read.
    pub presentable: bool,
    /// Utilisation in percent, as `f32` bits; meaningful only when
    /// `presentable`.
    pub percent_bits: u32,
    /// Friendly name of the primary rendering adapter.
    pub adapter_name: Option<String>,
    /// When the sample was taken.
    pub sampled_at: Instant,
}

impl Clone for GpuSample {
    fn clone(&self) -> (r: Self)
        ensures
            r == *self,
    {
        let adapter_name = match &self.adapter_name {
            Some(n) => Some(n.clone()),
            None => None,
        };
        GpuSample {
            presentable: self.presentable,
            percent_bits: self.percent_bits,
            adapter_name,
            sampled_at: self.sampled_at,
        }
    }
}

impl Default for GpuSample {
    /// A reading that is not presentable, taken now.
    fn default() -> (r: Self)
        ensures
            !r.presentable,
            r.percent_bits == ZERO_BITS,
            r.adapter_name is None,
    {
        GpuSample { presentable: false, percent_bits: ZERO_BITS, adapter_name: None, sampled_at: instant_now() }
    }
}

/// Memory in use.
#[derive(Clone, Copy, Debug, PartialEq)]
pub struct RamSample {
    /// Physical memory in bytes.
    pub total_bytes: u64,
    /// Memory in use in bytes.
    pub used_bytes: u64,
    /// Share in use in percent, as `f32` bits.
    pub percent_bits: u32,
    /// When the sample was taken.
    pub sampled_at: Instant,
}

impl Default for RamSample {
    /// An empty reading, taken now.
    fn default() -> (r: Self)
        ensures
            r.total_bytes == 0,
            r.used_bytes == 0,
            r.percent_bits == ZERO_BITS,
    {
        RamSample { total_bytes: 0, used_bytes: 0, percent_bits: ZERO_BITS, sampled_at: instant_now() }
    }
}

/// Network throughput in bytes per second.
#[derive(Clone, Copy, Debug, PartialEq)]
pub struct NetSample {
    /// No active interface produces meaningful throughput.
    pub link_down: bool,
    /// Download rate.
    pub rx_bytes_per_sec: u64,
    /// Upload rate.
    pub tx_bytes_per_sec: u64,
    /// When the sample was taken.
    pub sampled_at: Instant,
}

impl Default for NetSample {
    /// A link-down sample with zero rates, taken now.
    fn default() -> (r: Self)
        ensures
            r.link_down,
            r.rx_bytes_per_sec == 0,
            r.tx_bytes_per_sec == 0,
    {
        NetSample { link_down: true, rx_bytes_per_sec: 0, tx_bytes_per_sec: 0, sampled_at: instant_now() }
    }
}

/// The window of the last samples that a rolling mean is taken over: at
/// most `capacity` of them, oldest first.
#[derive(Debug)]
pub struct RollingMean {
    capacity: usize,
    buf: Vec<u32>,
}

impl Clone for RollingMean {
    fn clone(&self) -> (r: Self)
        ensures
            r.capacity_spec() == self.capacity_spec(),
            r.samples() == self.samples(),
    {
        proof {
            use_type_invariant(self);
        }
        let mut buf: Vec<u32> = Vec::new();
        let mut i: usize = 0;
        while i < self.buf.len()
            invariant
                i <= self.buf@.len(),
                buf@ == self.buf@.subrange(0, i as int),
            decreases self.buf@.len() - i,
        {
            buf.push(self.buf[i]);
            i += 1;
        }
        assert(buf@ =~= self.buf@);
        RollingMean { capacity: self.capacity, buf }
    }
}

impl RollingMean {
    /// How many samples the window holds at most.
    pub closed spec fn capacity_spec(&self) -> nat {
        self.capacity as nat
    }

    /// The samples held, oldest first, as `f32` bits.
    pub closed spec fn samples(&self) -> Seq<u32> {
        self.buf@
    }

    #[verifier::type_invariant]
    closed spec fn within_capacity(&self) -> bool {
        1 <= self.capacity && self.buf@.len() <= self.capacity
    }

    /// A window of `capacity` samples (at least one).
    pub fn new(capacity: usize) -> (r: Self)
        ensures
            r.capacity_spec() == if capacity == 0 { 1 } else { capacity as nat },
            r.samples() == Seq::<u32>::empty(),
    {
        let cap: usize = if capacity == 0 { 1 } else { capacity };
        RollingMean { capacity: cap, buf: Vec::new() }
    }

    /// Add a sample, dropping the oldest when the window is full.
    pub fn push(&mut self, sample_bits: u32)
        ensures
            final(self).capacity_spec() == old(self).capacity_spec(),
            old(self).samples().len() == old(self).capacity_spec() ==> final(self).samples()
                == old(self).samples().drop_first().push(sample_bits),
            old(self).samples().len() < old(self).capacity_spec() ==> final(self).samples()
                == old(self).samples().push(sample_bits),
            1 <= final(self).samples().len() <= final(self).capacity_spec(),
    {
        proof {
            use_type_invariant(&*self);
        }
        let mut buf: Vec<u32> = Vec::new();
        std::mem::swap(&mut buf, &mut self.buf);
        if buf.len() == self.capacity {
            buf.remove(0);
        }
        buf.push(sample_bits);
        self.buf = buf;
    }

    /// The samples held, oldest first.
    pub fn samples_slice(&self) -> (r: &[u32])
        ensures
            r@ == self.samples(),
    {
        self.buf.as_slice()
    }

    /// Forget every sample.
    pub fn clear(&mut self)
        ensures
            final(self).capacity_spec() == old(self).capacity_spec(),
            final(self).samples() == Seq::<u32>::empty(),
    {
        proof {
            use_type_invariant(&*self);
        }
        self.buf = Vec::new();
    }

    /// How many samples are held.
    pub fn len(&self) -> (r: usize)
        ensures
            r == self.samples().len(),
    {
        self.buf.len()
    }

    /// No sample is held.
    pub fn is_empty(&self) -> (r: bool)
        ensures
            r <==> self.samples().len() == 0,
    {
        self.buf.len() == 0
    }
}

} // verus!
