//! Memory figures: byte counts as the device reports them, and their
//! conversion to mebibytes.

use vstd::prelude::*;

verus! {

/// Number of bytes in one mebibyte.
pub const BYTES_PER_MIB: u64 = 1_048_576;

/// Whole mebibytes contained in `bytes`; the remainder is dropped.
pub open spec fn mib_of(bytes: nat) -> nat {
    bytes / 1_048_576
}

/// Converts a byte count to mebibytes, truncating.
pub fn bytes_to_mib(bytes: u64) -> (mib: u64)
    ensures
        mib as nat == mib_of(bytes as nat),
        mib == bytes / 1_048_576,
{
    bytes / BYTES_PER_MIB
}

/// Memory that one process holds on the device, as far as the driver tells.
#[derive(Clone, Copy, Debug, PartialEq, Eq, Structural)]
pub enum MemoryReading {
    /// The driver reported this many bytes.
    Used(u64),
    /// The driver does not track the figure for this process.
    Unavailable,
}

impl MemoryReading {
    /// Mebibytes shown for this reading: an unavailable one counts as zero.
    pub open spec fn mib(self) -> nat {
        match self {
            MemoryReading::Used(bytes) => mib_of(bytes as nat),
            MemoryReading::Unavailable => 0,
        }
    }

    /// Mebibytes shown for this reading.
    pub fn to_mib(self) -> (mib: u64)
        ensures
            mib as nat == self.mib(),
    {
        match self {
            MemoryReading::Used(bytes) => bytes_to_mib(bytes),
            MemoryReading::Unavailable => 0,
        }
    }
}

/// Device memory capacity in bytes.
#[derive(Clone, Copy, Debug, PartialEq, Eq, Structural)]
pub struct MemorySample {
    pub total: u64,
    pub used: u64,
    pub free: u64,
}

/// Device memory capacity in whole mebibytes.
#[derive(Clone, Copy, Debug, PartialEq, Eq, Structural)]
pub struct MemoryUsage {
    pub total_mib: u64,
    pub used_mib: u64,
    pub free_mib: u64,
}

impl MemorySample {
    /// The three figures in mebibytes, each truncated on its own.
    pub open spec fn usage(self) -> MemoryUsage {
        MemoryUsage {
            total_mib: (self.total / 1_048_576) as u64,
            used_mib: (self.used / 1_048_576) as u64,
            free_mib: (self.free / 1_048_576) as u64,
        }
    }

    /// Converts the three figures to mebibytes.
    pub fn to_usage(&self) -> (usage: MemoryUsage)
        ensures
            usage == self.usage(),
            usage.total_mib as nat == mib_of(self.total as nat),
            usage.used_mib as nat == mib_of(self.used as nat),
            usage.free_mib as nat == mib_of(self.free as nat),
    {
        MemoryUsage {
            total_mib: bytes_to_mib(self.total),
            used_mib: bytes_to_mib(self.used),
            free_mib: bytes_to_mib(self.free),
        }
    }
}

} // verus!
