//! The health sampler: what one sampling of the machine yields, the snapshot
//! computed from it, the overload signal and the report.
//!
//! All amounts are whole numbers. A load average is counted in thousandths
//! (a load of 1.5 is 1 500), and so is the used fraction of a disk. A ratio is
//! held against a threshold by cross-multiplication, so the signal is exact.

use crate::decimal::{decimal, decimal_string, thousandths, thousandths_string};
use vstd::prelude::*;
use vstd::string::*;

verus! {

/// The capacity below which a disk is left out of every scan: 10 GiB.
pub const DISK_FLOOR: u64 = 10737418240;

/// The per-core load, in thousandths, above which the machine is overloaded.
pub const LOAD_LIMIT: u64 = 800;

/// Seconds in one hour.
pub const SECONDS_PER_HOUR: u64 = 3600;

/// One disk, as sampled: sizes in bytes.
#[derive(Clone, Copy, Debug, PartialEq, Eq)]
pub struct DiskReading {
    pub total: u64,
    pub available: u64,
    pub removable: bool,
}

/// What one sampling of the machine yields.
#[derive(Debug)]
pub struct Readings {
    /// The disks, in the order in which the machine lists them.
    pub disks: Vec<DiskReading>,
    /// The five-minute load average in thousandths. A machine that cannot
    /// tell its load reports a negative number.
    pub load: i64,
    /// The number of physical cores.
    pub cores: usize,
    /// Memory in use, in bytes.
    pub ram_used: u64,
    /// Memory installed, in bytes.
    pub ram_total: u64,
    /// Seconds since the machine started.
    pub uptime: u64,
}

/// A snapshot of the machine, as a mathematical value.
pub struct SysView {
    /// The first disk that is low on space, if any: its index, kept to 8 bits.
    pub disk: Option<u8>,
    /// For each disk worth reporting: bytes used, bytes in all, and the used
    /// fraction in thousandths.
    pub disk_info: Seq<(u64, u64, u64)>,
    /// The load average and the load average per core, both in thousandths.
    pub cpu_avg: (u64, u64),
    /// Memory in use and memory installed, in bytes.
    pub ram: (u64, u64),
    /// Seconds since the machine started.
    pub uptime: u64,
    /// The disks as they were sampled.
    pub disks: Seq<DiskReading>,
}

/// `part / whole` is greater than 0.85. With nothing as the whole, any part
/// at all is too much.
pub open spec fn exceeds_85_percent(part: int, whole: int) -> bool {
    100 * part > 85 * whole
}

/// The low-space predicate of a disk: it holds 10 GiB or more, and
/// `available / total` is greater than 0.85. Removable or not makes no
/// difference here.
pub open spec fn low_space(d: DiskReading) -> bool {
    d.total >= DISK_FLOOR && exceeds_85_percent(d.available as int, d.total as int)
}

/// `i` is the index of the first disk of `disks` that is low on space.
pub open spec fn is_first_low_space(disks: Seq<DiskReading>, i: int) -> bool {
    &&& 0 <= i < disks.len()
    &&& low_space(disks[i])
    &&& forall|j: int| 0 <= j < i ==> !low_space(#[trigger] disks[j])
}

/// The low-space flag of a list of disks: the index of the first one that is
/// low on space, kept to its lowest 8 bits, or `None` where none is.
pub open spec fn low_space_flag(disks: Seq<DiskReading>) -> Option<u8> {
    if exists|i: int| is_first_low_space(disks, i) {
        Some(((choose|i: int| is_first_low_space(disks, i)) % 256) as u8)
    } else {
        None
    }
}

/// Whether a disk is worth a line of the report: it holds 10 GiB or more and
/// is not removable.
pub open spec fn reported(d: DiskReading) -> bool {
    d.total >= DISK_FLOOR && !d.removable
}

/// The bytes in use on a disk. A disk that claims more free space than it
/// has in all counts as unused.
pub open spec fn used_space(d: DiskReading) -> u64 {
    if d.available <= d.total {
        (d.total - d.available) as u64
    } else {
        0
    }
}

/// The report entry of a disk: bytes used, bytes in all, and the used
/// fraction in thousandths, rounded down.
pub open spec fn usage(d: DiskReading) -> (u64, u64, u64) {
    (used_space(d), d.total, (used_space(d) * 1000 / (d.total as int)) as u64)
}

/// The report entries of a list of disks: those of the disks worth
/// reporting, in their order.
pub open spec fn disk_report(disks: Seq<DiskReading>) -> Seq<(u64, u64, u64)> {
    disks.filter_map(
        |d: DiskReading|
            if reported(d) {
                Some(usage(d))
            } else {
                None
            },
    )
}

/// The number of cores that the load is shared among: a machine that reports
/// none is taken to have one.
pub open spec fn sharing_cores(cores: int) -> int {
    if cores <= 0 {
        1
    } else {
        cores
    }
}

/// The load pair of a snapshot, in thousandths: the load average as sampled,
/// and the same divided by the number of cores, rounded up. A negative
/// sample stands for no sample, and both are zero.
pub open spec fn load_pair(load: int, cores: int) -> (u64, u64) {
    if load < 0 {
        (0, 0)
    } else {
        (load as u64, ((load + sharing_cores(cores) - 1) / sharing_cores(cores)) as u64)
    }
}

/// The snapshot that a sampling yields.
pub open spec fn snapshot_of(r: Readings) -> SysView {
    SysView {
        disk: low_space_flag(r.disks@),
        disk_info: disk_report(r.disks@),
        cpu_avg: load_pair(r.load as int, r.cores as int),
        ram: (r.ram_used, r.ram_total),
        uptime: r.uptime,
        disks: r.disks@,
    }
}

/// The overload signal of a snapshot. A machine is overloaded where any of
/// these holds: more than 0.85 of its memory is in use; its load per core is
/// above 0.8; one of its disks is low on space.
pub open spec fn overloaded(v: SysView) -> bool {
    ||| exceeds_85_percent(v.ram.0 as int, v.ram.1 as int)
    ||| v.cpu_avg.1 > LOAD_LIMIT
    ||| low_space_flag(v.disks) is Some
}

/// A number of bytes in the unit of the report: divided by 1 073.7, rounded
/// down.
pub open spec fn report_unit(num: int) -> int {
    num * 10 / 10737
}

/// The warning that opens the report where a disk is low on space.
pub open spec fn warning_text(disk: Option<u8>) -> Seq<char> {
    match disk {
        Some(i) => "\\*warn: disk space low on drive index: "@ + decimal(i as nat) + "\n"@,
        None => Seq::empty(),
    }
}

/// The report's text for one disk.
pub open spec fn disk_text(entry: (u64, u64, u64)) -> Seq<char> {
    decimal(report_unit(entry.0 as int) as nat) + " MiB / "@ + decimal(
        report_unit(entry.1 as int) as nat,
    ) + " MiB "@ + thousandths(entry.2 as nat) + "%"@
}

/// The report's text for the disks, one after the other with nothing between
/// them.
pub open spec fn disks_text(info: Seq<(u64, u64, u64)>) -> Seq<char>
    decreases info.len(),
{
    if info.len() == 0 {
        Seq::empty()
    } else {
        disks_text(info.drop_last()) + disk_text(info.last())
    }
}

/// The report of a snapshot.
pub open spec fn report_text(v: SysView) -> Seq<char> {
    warning_text(v.disk) + "disks: \n"@ + disks_text(v.disk_info) + "\nload average: "@
        + thousandths(v.cpu_avg.0 as nat) + " \ncpu average: "@ + thousandths(v.cpu_avg.1 as nat)
        + "% system uptime: "@ + decimal((v.uptime / SECONDS_PER_HOUR) as nat) + " hrs"@
}

/// Whether `part / whole` is greater than 0.85.
pub fn over_85_percent(part: u64, whole: u64) -> (over: bool)
    ensures
        over == exceeds_85_percent(part as int, whole as int),
{
    (part as u128) * 100 > (whole as u128) * 85
}

/// A snapshot of the machine. It is computed as a whole from one sampling
/// and replaced as a whole by the next.
pub struct Sys {
    disk: Option<u8>,
    disk_info: Vec<(u64, u64, u64)>,
    cpu_avg: (u64, u64),
    ram: (u64, u64),
    uptime: u64,
    disks: Vec<DiskReading>,
}

/// The part of a snapshot that is shown to the outside.
#[derive(Debug, PartialEq, Eq)]
pub struct SysDisplay {
    pub disk: Option<u8>,
    pub disk_info: Vec<(u64, u64, u64)>,
    pub cpu_avg: (u64, u64),
    pub ram: (u64, u64),
    pub uptime: u64,
}

impl View for Sys {
    type V = SysView;

    closed spec fn view(&self) -> SysView {
        SysView {
            disk: self.disk,
            disk_info: self.disk_info@,
            cpu_avg: self.cpu_avg,
            ram: self.ram,
            uptime: self.uptime,
            disks: self.disks@,
        }
    }
}

impl Sys {
    /// The snapshot of a sampling.
    pub fn new(readings: Readings) -> (sys: Sys)
        ensures
            sys@ == snapshot_of(readings),
    {
        Sys {
            disk: Self::check_disk(&readings.disks),
            disk_info: Self::disk_info(&readings.disks),
            cpu_avg: Self::cpu_average(readings.load, readings.cores),
            ram: Self::get_ram(&readings),
            uptime: Self::uptime(&readings),
            disks: readings.disks,
        }
    }

    /// Replaces the snapshot by that of a new sampling. Nothing of the old
    /// one is kept.
    pub fn refresh(&mut self, readings: Readings)
        ensures
            final(self)@ == snapshot_of(readings),
    {
        self.disk = Self::check_disk(&readings.disks);
        self.disk_info = Self::disk_info(&readings.disks);
        self.cpu_avg = Self::cpu_average(readings.load, readings.cores);
        self.ram = Self::get_ram(&readings);
        self.uptime = Self::uptime(&readings);
        self.disks = readings.disks;
    }

    /// The overload signal of the snapshot. The disks are scanned anew.
    pub fn sys_health_check(&self) -> (unhealthy: bool)
        ensures
            unhealthy == overloaded(self@),
    {
        over_85_percent(self.ram.0, self.ram.1) || self.cpu_avg.1 > LOAD_LIMIT || Self::check_disk(
            &self.disks,
        ).is_some()
    }

    /// The load pair for a load average and a number of cores.
    pub fn cpu_average(load: i64, cores: usize) -> (pair: (u64, u64))
        ensures
            pair == load_pair(load as int, cores as int),
    {
        if load < 0 {
            return (0, 0);
        }
        let shared: u128 = if cores == 0 {
            1
        } else {
            cores as u128
        };
        let raw = load as u128;
        let per_core = (raw + shared - 1) / shared;
        assert(per_core <= raw) by (nonlinear_arith)
            requires
                shared >= 1,
                raw >= 0,
                per_core == (raw + shared - 1) / (shared as int),
        ;
        (load as u64, per_core as u64)
    }

    /// Seconds since the machine started, as sampled.
    pub fn uptime(readings: &Readings) -> (seconds: u64)
        ensures
            seconds == readings.uptime,
    {
        readings.uptime
    }

    /// Memory in use and memory installed, as sampled.
    pub fn get_ram(readings: &Readings) -> (ram: (u64, u64))
        ensures
            ram == (readings.ram_used, readings.ram_total),
    {
        (readings.ram_used, readings.ram_total)
    }

    /// A number of bytes in the unit of the report.
    pub fn make_mb(num: u64) -> (scaled: u64)
        ensures
            scaled == report_unit(num as int),
    {
        ((num as u128) * 10 / 10737) as u64
    }

    /// The low-space flag of a list of disks.
    pub fn check_disk(disks: &Vec<DiskReading>) -> (flag: Option<u8>)
        ensures
            flag == low_space_flag(disks@),
    {
        let mut i: usize = 0;
        while i < disks.len()
            invariant
                i <= disks@.len(),
                forall|j: int| 0 <= j < i ==> !low_space(#[trigger] disks@[j]),
            decreases disks@.len() - i,
        {
            let d = &disks[i];
            if d.total >= DISK_FLOOR && over_85_percent(d.available, d.total) {
                proof {
                    lemma_first_low_space(disks@, i as int);
                }
                return Some((i % 256) as u8);
            }
            i = i + 1;
        }
        proof {
            lemma_no_low_space(disks@);
        }
        None
    }

    /// The report entries of a list of disks.
    pub fn disk_info(disks: &Vec<DiskReading>) -> (response: Vec<(u64, u64, u64)>)
        ensures
            response@ == disk_report(disks@),
    {
        let mut response: Vec<(u64, u64, u64)> = Vec::new();
        let ghost pick = |d: DiskReading|
            if reported(d) {
                Some(usage(d))
            } else {
                None
            };
        let mut i: usize = 0;
        while i < disks.len()
            invariant
                i <= disks@.len(),
                response@ == disks@.take(i as int).filter_map(pick),
                pick == |d: DiskReading|
                    if reported(d) {
                        Some(usage(d))
                    } else {
                        None
                    },
            decreases disks@.len() - i,
        {
            let d = &disks[i];
            proof {
                assert(disks@.take(i + 1).drop_last() =~= disks@.take(i as int));
            }
            if d.total >= DISK_FLOOR && !d.removable {
                let used: u64 = if d.available <= d.total {
                    d.total - d.available
                } else {
                    0
                };
                let fraction = (used as u128) * 1000 / (d.total as u128);
                assert(fraction <= 1000) by (nonlinear_arith)
                    requires
                        used <= d.total,
                        d.total > 0,
                        fraction == (used as int) * 1000 / (d.total as int),
                ;
                response.push((used, d.total, fraction as u64));
                assert(response@ =~= disks@.take(i + 1).filter_map(pick));
            }
            i = i + 1;
        }
        assert(disks@.take(i as int) =~= disks@);
        response
    }

    /// The report of the snapshot, as text.
    pub fn render(&self) -> (text: String)
        ensures
            text@ == report_text(self@),
    {
        let mut text = String::new();
        match self.disk {
            Some(i) => {
                text.append("\\*warn: disk space low on drive index: ");
                text.append(decimal_string(i as u128).as_str());
                text.append("\n");
            },
            None => {},
        }
        text.append("disks: \n");
        let ghost head = text@;
        let mut i: usize = 0;
        while i < self.disk_info.len()
            invariant
                i <= self.disk_info@.len(),
                text@ == head + disks_text(self.disk_info@.take(i as int)),
            decreases self.disk_info@.len() - i,
        {
            let entry = &self.disk_info[i];
            let ghost before = text@;
            text.append(decimal_string(Self::make_mb(entry.0) as u128).as_str());
            text.append(" MiB / ");
            text.append(decimal_string(Self::make_mb(entry.1) as u128).as_str());
            text.append(" MiB ");
            text.append(thousandths_string(entry.2).as_str());
            text.append("%");
            proof {
                let upto = self.disk_info@.take(i + 1);
                assert(upto.drop_last() =~= self.disk_info@.take(i as int));
                assert(text@ =~= before + disk_text(self.disk_info@[i as int]));
                assert(text@ =~= head + disks_text(upto));
            }
            i = i + 1;
        }
        assert(self.disk_info@.take(i as int) =~= self.disk_info@);
        text.append("\nload average: ");
        text.append(thousandths_string(self.cpu_avg.0).as_str());
        text.append(" \ncpu average: ");
        text.append(thousandths_string(self.cpu_avg.1).as_str());
        text.append("% system uptime: ");
        text.append(decimal_string((self.uptime / SECONDS_PER_HOUR) as u128).as_str());
        text.append(" hrs");
        text
    }

    /// Gives up the snapshot for the part of it that is shown to the outside.
    pub fn into_display(self) -> (shown: SysDisplay)
        ensures
            shown.disk == self@.disk,
            shown.disk_info@ == self@.disk_info,
            shown.cpu_avg == self@.cpu_avg,
            shown.ram == self@.ram,
            shown.uptime == self@.uptime,
    {
        SysDisplay {
            disk: self.disk,
            disk_info: self.disk_info,
            cpu_avg: self.cpu_avg,
            ram: self.ram,
            uptime: self.uptime,
        }
    }
}

/// A list of disks has one first low disk at most: whoever finds it has
/// found the flag.
pub proof fn lemma_first_low_space(disks: Seq<DiskReading>, i: int)
    requires
        is_first_low_space(disks, i),
    ensures
        low_space_flag(disks) == Some((i % 256) as u8),
{
    let k = choose|k: int| is_first_low_space(disks, k);
    assert(is_first_low_space(disks, k));
    if k < i {
        assert(!low_space(disks[k]));
    }
    if i < k {
        assert(!low_space(disks[i]));
    }
}

/// Where no disk is low on space, no flag is raised.
pub proof fn lemma_no_low_space(disks: Seq<DiskReading>)
    requires
        forall|j: int| 0 <= j < disks.len() ==> !low_space(#[trigger] disks[j]),
    ensures
        low_space_flag(disks) is None,
{
    if exists|i: int| is_first_low_space(disks, i) {
        let k = choose|k: int| is_first_low_space(disks, k);
        assert(!low_space(disks[k]));
    }
}

/// The flag is raised exactly where some disk is low on space.
pub proof fn lemma_flag_iff_some_disk_low(disks: Seq<DiskReading>)
    ensures
        low_space_flag(disks) is Some <==> exists|i: int|
            0 <= i < disks.len() && low_space(#[trigger] disks[i]),
{
    if exists|i: int| 0 <= i < disks.len() && low_space(#[trigger] disks[i]) {
        let w = choose|i: int| 0 <= i < disks.len() && low_space(#[trigger] disks[i]);
        lemma_least_low_space(disks, w);
    }
}

/// If the disk at `w` is low on space, some disk at `w` or before it is the
/// first that is.
proof fn lemma_least_low_space(disks: Seq<DiskReading>, w: int)
    requires
        0 <= w < disks.len(),
        low_space(disks[w]),
    ensures
        exists|i: int| is_first_low_space(disks, i),
    decreases w,
{
    if exists|j: int| 0 <= j < w && low_space(#[trigger] disks[j]) {
        let j = choose|j: int| 0 <= j < w && low_space(#[trigger] disks[j]);
        lemma_least_low_space(disks, j);
    } else {
        assert(is_first_low_space(disks, w));
    }
}

/// The load per core of a snapshot is above the limit exactly where the
/// sampled load is more than 0.8 for each core: rounding up loses nothing,
/// and a load that could not be sampled is never above the limit.
pub proof fn lemma_load_limit_exact(load: int, cores: int)
    requires
        load <= i64::MAX,
    ensures
        load_pair(load, cores).1 > LOAD_LIMIT <==> load > LOAD_LIMIT * sharing_cores(cores),
{
    let c = sharing_cores(cores);
    if load >= 0 {
        let q = (load + c - 1) / c;
        assert(0 <= q <= load && (q > 800 <==> load > 800 * c)) by (nonlinear_arith)
            requires
                c >= 1,
                load >= 0,
                q == (load + c - 1) / c,
        ;
    } else {
        assert(LOAD_LIMIT * c >= 0) by (nonlinear_arith)
            requires
                c >= 1,
        ;
    }
}

/// A disk below 10 GiB raises no flag, whatever its free space.
pub proof fn lemma_small_disk_never_low(d: DiskReading)
    requires
        d.total < DISK_FLOOR,
    ensures
        !low_space(d),
{
}

/// The signal of a fresh snapshot, said of the sampling itself: the machine
/// is overloaded exactly where more than 0.85 of its memory is in use, or
/// its load is more than 0.8 for each core, or one of its disks is low on
/// space.
pub proof fn lemma_overload_of_readings(r: Readings)
    ensures
        overloaded(snapshot_of(r)) <==> (exceeds_85_percent(r.ram_used as int, r.ram_total as int)
            || r.load > LOAD_LIMIT * sharing_cores(r.cores as int) || exists|i: int|
            0 <= i < r.disks@.len() && low_space(#[trigger] r.disks@[i])),
{
    lemma_load_limit_exact(r.load as int, r.cores as int);
    lemma_flag_iff_some_disk_low(r.disks@);
}

} // verus!
