use vstd::prelude::*;

verus! {

/// Space on one disk, in bytes.
pub struct DiskSpace {
    pub total: u64,
    pub available: u64,
}

/// What the GPU reported; a reading that failed counts as 0.
pub struct GpuReading {
    /// Utilization in percent.
    pub utilization: Option<u32>,
    /// Memory in use, in bytes.
    pub memory_used: Option<u64>,
}

/// One sample of the machine's load.
pub struct SystemReading {
    /// Memory, in bytes.
    pub ram_total: u64,
    pub ram_used: u64,
    pub disks: Vec<DiskSpace>,
    /// `None` when there is no NVIDIA driver or no first GPU.
    pub gpu: Option<GpuReading>,
}

/// The system panel's figures, kept as whole numbers of bytes and percent.
pub struct SystemStatsBackend {
    pub ram_used: u64,
    pub ram_total: u64,
    pub disk_used: u64,
    pub disk_total: u64,
    pub gpu_utilization: u32,
    pub gpu_memory_used: u64,
}

/// Total space over all disks.
pub open spec fn disk_total_of(disks: Seq<DiskSpace>) -> int
    decreases disks.len(),
{
    if disks.len() == 0 {
        0
    } else {
        disk_total_of(disks.drop_last()) + disks.last().total
    }
}

/// Used space over all disks: each disk's total less what is available.
pub open spec fn disk_used_of(disks: Seq<DiskSpace>) -> int
    decreases disks.len(),
{
    if disks.len() == 0 {
        0
    } else {
        disk_used_of(disks.drop_last()) + disks.last().total - disks.last().available
    }
}

/// The running sums, taken disk by disk (used: add the total, then take off
/// what is available), never leave the range of `u64`.
pub open spec fn disk_sums_fit(disks: Seq<DiskSpace>) -> bool
    decreases disks.len(),
{
    disks.len() == 0 || {
        let rest = disks.drop_last();
        let d = disks.last();
        &&& disk_sums_fit(rest)
        &&& disk_total_of(rest) + d.total <= u64::MAX
        &&& disk_used_of(rest) + d.total <= u64::MAX
        &&& d.available <= disk_used_of(rest) + d.total
    }
}

proof fn lemma_disk_sums_fit_prefix(disks: Seq<DiskSpace>, i: int)
    requires
        disk_sums_fit(disks),
        0 <= i <= disks.len(),
    ensures
        disk_sums_fit(disks.take(i)),
    decreases disks.len(),
{
    if i == disks.len() {
        assert(disks.take(i) =~= disks);
    } else {
        assert(disks.take(i) =~= disks.drop_last().take(i));
        lemma_disk_sums_fit_prefix(disks.drop_last(), i);
    }
}

/// The GPU utilization shown: 0 when it could not be read.
pub open spec fn gpu_utilization_of(gpu: Option<GpuReading>) -> u32 {
    match gpu {
        Some(g) => match g.utilization {
            Some(u) => u,
            None => 0,
        },
        None => 0,
    }
}

/// The GPU memory in use shown: 0 when it could not be read.
pub open spec fn gpu_memory_of(gpu: Option<GpuReading>) -> u64 {
    match gpu {
        Some(g) => match g.memory_used {
            Some(m) => m,
            None => 0,
        },
        None => 0,
    }
}

/// The share `used` of `total` that is shown; `None` stands for 0 %, which is
/// shown when the total is 0.
pub open spec fn share_of(used: u64, total: u64) -> Option<(u64, u64)> {
    if total > 0 {
        Some((used, total))
    } else {
        None
    }
}

impl Default for SystemStatsBackend {
    /// All figures 0.
    fn default() -> (stats: Self)
        ensures
            stats.ram_used == 0,
            stats.ram_total == 0,
            stats.disk_used == 0,
            stats.disk_total == 0,
            stats.gpu_utilization == 0,
            stats.gpu_memory_used == 0,
    {
        SystemStatsBackend {
            ram_used: 0,
            ram_total: 0,
            disk_used: 0,
            disk_total: 0,
            gpu_utilization: 0,
            gpu_memory_used: 0,
        }
    }
}

impl SystemStatsBackend {
    /// Takes in a new sample: memory as read, disks summed over all disks,
    /// and the GPU figures or 0 where they could not be read.
    pub fn update_stats(&mut self, reading: &SystemReading)
        requires
            disk_sums_fit(reading.disks@),
        ensures
            final(self).ram_used == reading.ram_used,
            final(self).ram_total == reading.ram_total,
            final(self).disk_total == disk_total_of(reading.disks@),
            final(self).disk_used == disk_used_of(reading.disks@),
            final(self).gpu_utilization == gpu_utilization_of(reading.gpu),
            final(self).gpu_memory_used == gpu_memory_of(reading.gpu),
    {
        let disks = &reading.disks;
        let n = disks.len();
        let mut total: u64 = 0;
        let mut used: u64 = 0;
        let mut i: usize = 0;
        assert(disks@.take(0) =~= Seq::<DiskSpace>::empty());
        while i < n
            invariant
                n == disks@.len(),
                i <= n,
                disk_sums_fit(disks@),
                total == disk_total_of(disks@.take(i as int)),
                used == disk_used_of(disks@.take(i as int)),
            decreases n - i,
        {
            proof {
                lemma_disk_sums_fit_prefix(disks@, i + 1);
                assert(disks@.take(i + 1).drop_last() =~= disks@.take(i as int));
                assert(disks@.take(i + 1).last() == disks@[i as int]);
            }
            let d = &disks[i];
            total = total + d.total;
            used = used + d.total - d.available;
            i = i + 1;
        }
        assert(disks@.take(n as int) =~= disks@);
        let (gpu_utilization, gpu_memory_used) = match &reading.gpu {
            Some(g) => {
                let u = match g.utilization {
                    Some(u) => u,
                    None => 0,
                };
                let m = match g.memory_used {
                    Some(m) => m,
                    None => 0,
                };
                (u, m)
            },
            None => (0, 0),
        };
        self.ram_used = reading.ram_used;
        self.ram_total = reading.ram_total;
        self.disk_total = total;
        self.disk_used = used;
        self.gpu_utilization = gpu_utilization;
        self.gpu_memory_used = gpu_memory_used;
    }

    /// The memory share to show.
    pub fn ram_share(&self) -> (share: Option<(u64, u64)>)
        ensures
            share == share_of(self.ram_used, self.ram_total),
    {
        if self.ram_total > 0 {
            Some((self.ram_used, self.ram_total))
        } else {
            None
        }
    }

    /// The disk share to show.
    pub fn disk_share(&self) -> (share: Option<(u64, u64)>)
        ensures
            share == share_of(self.disk_used, self.disk_total),
    {
        if self.disk_total > 0 {
            Some((self.disk_used, self.disk_total))
        } else {
            None
        }
    }
}

/// Whether a list of disks can be summed without leaving the range of `u64`.
pub fn disk_sums_in_range(disks: &Vec<DiskSpace>) -> (fits: bool)
    ensures
        fits == disk_sums_fit(disks@),
{
    let n = disks.len();
    let mut total: u64 = 0;
    let mut used: u64 = 0;
    let mut i: usize = 0;
    assert(disks@.take(0) =~= Seq::<DiskSpace>::empty());
    while i < n
        invariant
            n == disks@.len(),
            i <= n,
            disk_sums_fit(disks@.take(i as int)),
            total == disk_total_of(disks@.take(i as int)),
            used == disk_used_of(disks@.take(i as int)),
        decreases n - i,
    {
        assert(disks@.take(i + 1).drop_last() =~= disks@.take(i as int));
        assert(disks@.take(i + 1).last() == disks@[i as int]);
        let d = &disks[i];
        if total > u64::MAX - d.total || used > u64::MAX - d.total || d.available > used
            + d.total {
            proof {
                if disk_sums_fit(disks@) {
                    lemma_disk_sums_fit_prefix(disks@, i + 1);
                }
            }
            return false;
        }
        total = total + d.total;
        used = used + d.total - d.available;
        i = i + 1;
    }
    assert(disks@.take(n as int) =~= disks@);
    true
}

} // verus!
