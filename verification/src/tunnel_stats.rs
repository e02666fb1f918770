//! Counts of tunnels and of the bytes they carried.

use vstd::prelude::*;

verus! {

/// The statistics of the tunnels. The counters wrap round like machine
/// integers.
pub struct TunnelStats {
    pub active_tunnels: u32,
    pub total_tunnels: u64,
    pub bytes_in: u64,
    pub bytes_out: u64,
}

impl TunnelStats {
    /// Statistics with every counter at zero.
    pub fn new() -> (stats: TunnelStats)
        ensures
            stats.active_tunnels == 0,
            stats.total_tunnels == 0,
            stats.bytes_in == 0,
            stats.bytes_out == 0,
    {
        TunnelStats { active_tunnels: 0, total_tunnels: 0, bytes_in: 0, bytes_out: 0 }
    }

    /// Counts a tunnel that was started.
    pub fn tunnel_started(&mut self)
        ensures
            final(self).active_tunnels as int == (old(self).active_tunnels + 1) % 0x1_0000_0000,
            final(self).total_tunnels as int == (old(self).total_tunnels + 1)
                % 0x1_0000_0000_0000_0000,
            final(self).bytes_in == old(self).bytes_in,
            final(self).bytes_out == old(self).bytes_out,
    {
        self.active_tunnels = if self.active_tunnels == u32::MAX {
            0
        } else {
            self.active_tunnels + 1
        };
        self.total_tunnels = if self.total_tunnels == u64::MAX {
            0
        } else {
            self.total_tunnels + 1
        };
    }

    /// Counts a tunnel that was closed after `bytes_in` bytes came in and
    /// `bytes_out` bytes went out.
    pub fn tunnel_closed(&mut self, bytes_in: u64, bytes_out: u64)
        ensures
            final(self).active_tunnels as int == (old(self).active_tunnels + 0x1_0000_0000 - 1)
                % 0x1_0000_0000,
            final(self).total_tunnels == old(self).total_tunnels,
            final(self).bytes_in as int == (old(self).bytes_in + bytes_in)
                % 0x1_0000_0000_0000_0000,
            final(self).bytes_out as int == (old(self).bytes_out + bytes_out)
                % 0x1_0000_0000_0000_0000,
    {
        self.active_tunnels = if self.active_tunnels == 0 {
            u32::MAX
        } else {
            self.active_tunnels - 1
        };
        self.bytes_in = wrapping_sum(self.bytes_in, bytes_in);
        self.bytes_out = wrapping_sum(self.bytes_out, bytes_out);
    }
}

/// The sum of two counters, wrapping round.
pub fn wrapping_sum(a: u64, b: u64) -> (sum: u64)
    ensures
        sum as int == (a + b) % 0x1_0000_0000_0000_0000,
{
    if a <= u64::MAX - b {
        a + b
    } else {
        a - (u64::MAX - b) - 1
    }
}

} // verus!
