//! The `russell.profile.v1` machine chart: host, CPU, chassis, GPU and
//! network opt-in records, and the profile schema check.

use vstd::prelude::*;
use crate::error::CoreError;
use crate::text::str_eq;

verus! {

/// Schema tag of profile files.
pub const PROFILE_SCHEMA: &'static str = "russell.profile.v1";

/// Operating system.
#[derive(Debug, Clone)]
pub struct OsInfo {
    /// OS family, e.g. `linux`.
    pub family: String,
    /// Distribution, e.g. `ubuntu`.
    pub distro: String,
    /// Distribution version.
    pub version: String,
    /// Kernel release.
    pub kernel: String,
}

/// CPU.
#[derive(Debug, Clone)]
pub struct CpuInfo {
    /// Vendor.
    pub vendor: String,
    /// Model name.
    pub model: String,
    /// Physical cores.
    pub cores: u32,
    /// Hardware threads.
    pub threads: u32,
}

/// Chassis / firmware.
#[derive(Debug, Clone)]
pub struct ChassisInfo {
    /// Vendor.
    pub vendor: String,
    /// Product name.
    pub product: String,
    /// BIOS version.
    pub bios: String,
}

/// The host machine.
#[derive(Debug, Clone)]
pub struct HostInfo {
    /// Operating system.
    pub os: OsInfo,
    /// Chassis.
    pub chassis: ChassisInfo,
    /// CPU.
    pub cpu: CpuInfo,
    /// Memory in MiB.
    pub memory_mib: u64,
    /// Swap in MiB.
    pub swap_mib: u64,
}

/// One GPU.
#[derive(Debug, Clone)]
pub struct GpuInfo {
    /// PCI address.
    pub pci: String,
    /// PCI vendor ID.
    pub vendor_id: String,
    /// Marketing name.
    pub name: String,
    /// GFX target, if known.
    pub gfx: Option<String>,
    /// Role (e.g. `compute`, `display`).
    pub role: String,
}

/// What the operator allows to leave the machine.
#[derive(Debug, Clone, Copy, PartialEq, Eq, Structural)]
pub struct NetworkOptIns {
    /// LLM traffic may leave the host.
    pub llm_egress: bool,
    /// The skill registry may be fetched.
    pub skill_registry_egress: bool,
}

fn empty_string() -> (r: String)
    ensures
        r@.len() == 0,
{
    String::new()
}

impl Default for OsInfo {
    /// All fields empty.
    fn default() -> (r: Self)
        ensures
            r.family@.len() == 0 && r.distro@.len() == 0 && r.version@.len() == 0 && r.kernel@.len() == 0,
    {
        OsInfo { family: empty_string(), distro: empty_string(), version: empty_string(), kernel: empty_string() }
    }
}

impl Default for CpuInfo {
    /// Empty names, zero cores and threads.
    fn default() -> (r: Self)
        ensures
            r.vendor@.len() == 0 && r.model@.len() == 0 && r.cores == 0 && r.threads == 0,
    {
        CpuInfo { vendor: empty_string(), model: empty_string(), cores: 0, threads: 0 }
    }
}

impl Default for ChassisInfo {
    /// All fields empty.
    fn default() -> (r: Self)
        ensures
            r.vendor@.len() == 0 && r.product@.len() == 0 && r.bios@.len() == 0,
    {
        ChassisInfo { vendor: empty_string(), product: empty_string(), bios: empty_string() }
    }
}

impl Default for HostInfo {
    /// Empty records, no memory or swap.
    fn default() -> (r: Self)
        ensures
            r.os.distro@.len() == 0 && r.cpu.model@.len() == 0 && r.memory_mib == 0 && r.swap_mib == 0,
    {
        HostInfo {
            os: OsInfo::default(),
            chassis: ChassisInfo::default(),
            cpu: CpuInfo::default(),
            memory_mib: 0,
            swap_mib: 0,
        }
    }
}

impl Default for GpuInfo {
    /// All fields empty, no GFX target.
    fn default() -> (r: Self)
        ensures
            r.pci@.len() == 0 && r.name@.len() == 0 && r.gfx is None && r.role@.len() == 0,
    {
        GpuInfo { pci: empty_string(), vendor_id: empty_string(), name: empty_string(), gfx: None, role: empty_string() }
    }
}

impl Default for NetworkOptIns {
    /// Nothing leaves the machine.
    fn default() -> (r: Self)
        ensures
            !r.llm_egress && !r.skill_registry_egress,
    {
        NetworkOptIns { llm_egress: false, skill_registry_egress: false }
    }
}

/// A loaded profile's schema must be this build's; otherwise the error
/// names the expected and the found tag.
pub fn check_profile_schema(found: &str) -> (r: Result<(), CoreError>)
    ensures
        found@ == PROFILE_SCHEMA@ ==> r is Ok,
        found@ != PROFILE_SCHEMA@ ==> (r matches Err(CoreError::UnknownSchema { expected, found: f })
            && expected@ == PROFILE_SCHEMA@ && f@ == found@),
{
    if str_eq(found, PROFILE_SCHEMA) {
        Ok(())
    } else {
        Err(CoreError::UnknownSchema { expected: PROFILE_SCHEMA, found: found.to_owned() })
    }
}

} // verus!
