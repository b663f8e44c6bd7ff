//! Reads the machine through `sysinfo`: its disks, its memory, its cores and
//! its uptime. What is read is handed on as plain readings. Nothing is
//! claimed of what the machine says at any moment; what is claimed is that
//! the disks handed on are those that the handle holds.

use crate::health::{DiskReading, Readings};
use sysinfo::{Disk, Disks, System};
use vstd::prelude::*;

verus! {

#[verifier::external_type_specification]
#[verifier::external_body]
pub struct ExDisk(Disk);

#[verifier::external_type_specification]
#[verifier::external_body]
pub struct ExDisks(Disks);

#[verifier::external_type_specification]
#[verifier::external_body]
pub struct ExSystem(System);

/// What a handle on the disks holds: its disks in the order of its list,
/// each as a reading of its size, its free space and whether it is
/// removable.
pub uninterp spec fn listed(disks: Disks) -> Seq<DiskReading>;

/// `System::new_all`: a handle on the machine with everything loaded.
#[verifier::external_body]
fn system_new_all() -> System {
    System::new_all()
}

/// `System::refresh_all`: reads everything anew. Nothing is claimed of what
/// the handle holds afterwards.
#[verifier::external_body]
fn system_refresh_all(sys: &mut System) {
    sys.refresh_all()
}

/// `System::available_memory`: the memory that is available, in bytes, as
/// the handle last read it. Nothing is claimed of the number.
#[verifier::external_body]
fn system_available_memory(sys: &System) -> u64 {
    sys.available_memory()
}

/// `System::total_memory`: the memory installed, in bytes, as the handle
/// last read it. Nothing is claimed of the number.
#[verifier::external_body]
fn system_total_memory(sys: &System) -> u64 {
    sys.total_memory()
}

/// `System::uptime`: seconds since the machine started, computed at each
/// call. Nothing is claimed of the number.
#[verifier::external_body]
fn system_uptime() -> u64 {
    System::uptime()
}

/// `System::physical_core_count`: the number of physical cores, or `None`
/// where the machine does not tell. Nothing is claimed of the number.
#[verifier::external_body]
fn system_physical_core_count() -> Option<usize> {
    System::physical_core_count()
}

/// `Disks::new_with_refreshed_list`: a handle on the disks with their list
/// loaded.
#[verifier::external_body]
fn disks_new_with_refreshed_list() -> Disks {
    Disks::new_with_refreshed_list()
}

/// `Disks::refresh`, asked to forget the disks that are no longer listed:
/// reads the disks anew. Nothing is claimed of what the handle holds
/// afterwards.
#[verifier::external_body]
fn disks_refresh(disks: &mut Disks) {
    disks.refresh(true)
}

/// `Disks::list`, each disk handed out as a reading by `Disk::total_space`,
/// `Disk::available_space` and `Disk::is_removable`: the disks in the order
/// of the list, as the handle last read them. The claim is that these are
/// what the handle holds, and so the same from call to call for as long as
/// the handle is not refreshed; nothing is claimed of the numbers.
#[verifier::external_body]
fn disks_list(disks: &Disks) -> (readings: Vec<DiskReading>)
    ensures
        readings@ == listed(*disks),
{
    disks.list().iter().map(
        |disk|
            DiskReading {
                total: disk.total_space(),
                available: disk.available_space(),
                removable: disk.is_removable(),
            },
    ).collect()
}

/// The memory in use on a machine: what is installed less what is
/// available. A machine that claims more available than installed has none
/// in use.
pub open spec fn in_use(total: u64, available: u64) -> u64 {
    if available <= total {
        (total - available) as u64
    } else {
        0
    }
}

/// The memory in use, from what is installed and what is available.
pub fn memory_in_use(total: u64, available: u64) -> (used: u64)
    ensures
        used == in_use(total, available),
{
    if available <= total {
        total - available
    } else {
        0
    }
}

/// The handles through which the machine is read.
pub struct Sampler {
    disks: Disks,
    sys: System,
}

impl Sampler {
    /// The disks as the handles hold them since they were last read.
    pub closed spec fn disks(&self) -> Seq<DiskReading> {
        listed(self.disks)
    }

    /// Takes hold of the machine and reads it for the first time.
    pub fn new() -> Sampler {
        let mut sys = system_new_all();
        let disks = disks_new_with_refreshed_list();
        system_refresh_all(&mut sys);
        Sampler { disks, sys }
    }

    /// Reads the machine anew, all of it.
    pub fn refresh(&mut self) {
        system_refresh_all(&mut self.sys);
        disks_refresh(&mut self.disks);
    }

    /// What the machine said when it was last read. The disks are those
    /// that the handles hold. `load` is the five-minute load average in
    /// thousandths, which is measured by the caller and handed on as it is.
    /// The memory in use is what is installed less what is available,
    /// whatever the two are, and so never more than what is installed. A
    /// machine that does not tell its cores is taken to have none.
    pub fn readings(&self, load: i64) -> (readings: Readings)
        ensures
            readings.disks@ == self.disks(),
            readings.load == load,
            exists|available: u64|
                readings.ram_used == #[trigger] in_use(readings.ram_total, available),
            readings.ram_used <= readings.ram_total,
    {
        let total = system_total_memory(&self.sys);
        let available = system_available_memory(&self.sys);
        let readings = Readings {
            disks: disks_list(&self.disks),
            load,
            cores: match system_physical_core_count() {
                Some(cores) => cores,
                None => 0,
            },
            ram_used: memory_in_use(total, available),
            ram_total: total,
            uptime: system_uptime(),
        };
        assert(readings.ram_used == in_use(readings.ram_total, available));
        readings
    }
}

} // verus!
