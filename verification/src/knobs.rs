//! Constrained resource knobs.
//!
//! Arbitrary values such as 13 GB of memory or 250 GB of disk are rejected:
//! constrained values are what makes packing, pricing and hot pools predictable.
//! This module is the single source of truth for what is allowed.
//!
//! CPU is counted in thousandths of a shared vCPU.

use crate::numeral::{decimal, digit, digit_char, to_decimal};
use vstd::prelude::*;
use vstd::string::*;

verus! {

/// Auto-stop idle window bounds, in seconds.
pub const AUTO_STOP_MIN_S: u32 = 30;

pub const AUTO_STOP_MAX_S: u32 = 3600;

/// The default cheap path: 1 vCPU / 2 GB / 8 GB / 120 s.
pub const DEFAULT_CPU_MILLI: u32 = 1000;

pub const DEFAULT_MEMORY_MB: u32 = 2048;

pub const DEFAULT_DISK_GB: u32 = 8;

pub const DEFAULT_AUTO_STOP_S: u32 = 120;

/// Allowed shared-vCPU values: 0.5, 1, 2 and 4.
pub open spec fn allowed_cpu(milli: u32) -> bool {
    milli == 500 || milli == 1000 || milli == 2000 || milli == 4000
}

/// Allowed memory values in MB: 1, 2, 4, 8 and 16 GB.
pub open spec fn allowed_memory(mb: u32) -> bool {
    mb == 1024 || mb == 2048 || mb == 4096 || mb == 8192 || mb == 16384
}

/// Allowed writable disk values in GB.
pub open spec fn allowed_disk(gb: u32) -> bool {
    gb == 8 || gb == 16 || gb == 32 || gb == 64
}

/// A resource shape.
#[derive(Debug, Clone, Copy, PartialEq, Eq, Structural)]
pub struct Resources {
    pub cpu_milli: u32,
    pub memory_mb: u32,
    pub disk_gb: u32,
}

/// A shape as requested: every part may be left out, so that an empty request
/// yields the default cheap path.
#[derive(Debug, Clone, Copy, PartialEq, Eq, Structural)]
pub struct ResourcesRequest {
    pub cpu_milli: Option<u32>,
    pub memory_mb: Option<u32>,
    pub disk_gb: Option<u32>,
}

impl Default for Resources {
    fn default() -> (r: Self)
        ensures
            r == (Resources {
                cpu_milli: DEFAULT_CPU_MILLI,
                memory_mb: DEFAULT_MEMORY_MB,
                disk_gb: DEFAULT_DISK_GB,
            }),
    {
        Resources {
            cpu_milli: DEFAULT_CPU_MILLI,
            memory_mb: DEFAULT_MEMORY_MB,
            disk_gb: DEFAULT_DISK_GB,
        }
    }
}

impl Default for ResourcesRequest {
    fn default() -> (r: Self)
        ensures
            r == (ResourcesRequest { cpu_milli: None, memory_mb: None, disk_gb: None }),
    {
        ResourcesRequest { cpu_milli: None, memory_mb: None, disk_gb: None }
    }
}

/// The digits of a number of thousandths below one, without trailing zeros.
pub open spec fn fraction(m: nat) -> Seq<char> {
    if m % 10 != 0 {
        seq![digit_char(m / 100), digit_char(m / 10 % 10), digit_char(m % 10)]
    } else if m / 10 % 10 != 0 {
        seq![digit_char(m / 100), digit_char(m / 10 % 10)]
    } else {
        seq![digit_char(m / 100)]
    }
}

/// A number of thousandths as a decimal number: `0.5`, `1`, `2.25`.
pub open spec fn milli_text(m: nat) -> Seq<char> {
    if m % 1000 == 0 {
        decimal(m / 1000)
    } else {
        decimal(m / 1000) + seq!['.'] + fraction(m % 1000)
    }
}

/// Write a number of thousandths as a decimal number.
pub fn show_milli(m: u32) -> (r: String)
    ensures
        r@ == milli_text(m as nat),
{
    let mut s = to_decimal((m / 1000) as u64);
    let f: u64 = (m % 1000) as u64;
    if f != 0 {
        let ghost start = s@;
        s.push('.');
        s.push(digit(f / 100));
        if f % 100 != 0 {
            s.push(digit(f / 10 % 10));
            if f % 10 != 0 {
                s.push(digit(f % 10));
            }
        }
        assert(f % 100 == 0 <==> f % 10 == 0 && f / 10 % 10 == 0);
        assert(s@ =~= start + seq!['.'] + fraction(f as nat));
    }
    s
}

/// The shape a request asks for, with the defaults filled in.
pub open spec fn filled(req: ResourcesRequest) -> Resources {
    Resources {
        cpu_milli: match req.cpu_milli {
            Some(v) => v,
            None => DEFAULT_CPU_MILLI,
        },
        memory_mb: match req.memory_mb {
            Some(v) => v,
            None => DEFAULT_MEMORY_MB,
        },
        disk_gb: match req.disk_gb {
            Some(v) => v,
            None => DEFAULT_DISK_GB,
        },
    }
}

/// The message for a CPU value outside the allowed set.
pub open spec fn cpu_refusal(milli: u32) -> Seq<char> {
    "cpu="@ + milli_text(milli as nat)
        + " is not allowed; choose one of [0.5, 1.0, 2.0, 4.0] shared vCPU"@
}

/// The message for a memory value outside the allowed set.
pub open spec fn memory_refusal(mb: u32) -> Seq<char> {
    "memory_mb="@ + decimal(mb as nat)
        + " is not allowed; choose one of [1024, 2048, 4096, 8192, 16384] MB (1/2/4/8/16 GB)"@
}

/// The message for a disk value outside the allowed set.
pub open spec fn disk_refusal(gb: u32) -> Seq<char> {
    "disk_gb="@ + decimal(gb as nat) + " is not allowed; choose one of [8, 16, 32, 64] GB"@
}

/// The message for the first part of a shape (CPU, then memory, then disk) that
/// is not an allowed value.
pub open spec fn shape_refusal(r: Resources) -> Option<Seq<char>> {
    if !allowed_cpu(r.cpu_milli) {
        Some(cpu_refusal(r.cpu_milli))
    } else if !allowed_memory(r.memory_mb) {
        Some(memory_refusal(r.memory_mb))
    } else if !allowed_disk(r.disk_gb) {
        Some(disk_refusal(r.disk_gb))
    } else {
        None
    }
}

impl Resources {
    /// Every part is an allowed value.
    pub open spec fn allowed(self) -> bool {
        allowed_cpu(self.cpu_milli) && allowed_memory(self.memory_mb) && allowed_disk(self.disk_gb)
    }

    /// The shape that `req` asks for, or the message for the first part that is
    /// not an allowed value.
    pub fn validate(req: &ResourcesRequest) -> (r: Result<Resources, String>)
        ensures
            r is Ok <==> filled(*req).allowed(),
            r matches Ok(v) ==> v == filled(*req),
            (match r {
                Ok(_) => None,
                Err(m) => Some(m@),
            }) == shape_refusal(filled(*req)),
    {
        let cpu_milli: u32 = req.cpu_milli.unwrap_or(DEFAULT_CPU_MILLI);
        let memory_mb: u32 = req.memory_mb.unwrap_or(DEFAULT_MEMORY_MB);
        let disk_gb: u32 = req.disk_gb.unwrap_or(DEFAULT_DISK_GB);
        if !(cpu_milli == 500 || cpu_milli == 1000 || cpu_milli == 2000 || cpu_milli == 4000) {
            let mut m = String::from_str("cpu=");
            m.append(show_milli(cpu_milli).as_str());
            m.append(" is not allowed; choose one of [0.5, 1.0, 2.0, 4.0] shared vCPU");
            return Err(m);
        }
        if !(memory_mb == 1024 || memory_mb == 2048 || memory_mb == 4096 || memory_mb == 8192
            || memory_mb == 16384) {
            let mut m = String::from_str("memory_mb=");
            m.append(to_decimal(memory_mb as u64).as_str());
            m.append(
                " is not allowed; choose one of [1024, 2048, 4096, 8192, 16384] MB (1/2/4/8/16 GB)",
            );
            return Err(m);
        }
        if !(disk_gb == 8 || disk_gb == 16 || disk_gb == 32 || disk_gb == 64) {
            let mut m = String::from_str("disk_gb=");
            m.append(to_decimal(disk_gb as u64).as_str());
            m.append(" is not allowed; choose one of [8, 16, 32, 64] GB");
            return Err(m);
        }
        Ok(Resources { cpu_milli, memory_mb, disk_gb })
    }

    /// Human label, e.g. "2 shared vCPU". Only one half is shown with a fraction.
    pub fn cpu_label(&self) -> (r: String)
        ensures
            r@ == (if self.cpu_milli == 500 {
                "0.5 shared vCPU"@
            } else {
                decimal((self.cpu_milli / 1000) as nat) + " shared vCPU"@
            }),
    {
        if self.cpu_milli == 500 {
            String::from_str("0.5 shared vCPU")
        } else {
            let mut s = to_decimal((self.cpu_milli / 1000) as u64);
            s.append(" shared vCPU");
            s
        }
    }
}

/// The message for an idle window out of range.
pub open spec fn auto_stop_refusal(s: u32) -> Seq<char> {
    "auto_stop_seconds="@ + decimal(s as nat) + " out of range; must be 30..=3600"@
}

/// The idle window a request asks for.
pub open spec fn auto_stop_of(seconds: Option<u32>) -> u32 {
    match seconds {
        Some(s) => s,
        None => DEFAULT_AUTO_STOP_S,
    }
}

/// Validate the auto-stop idle window.
pub fn validate_auto_stop(seconds: Option<u32>) -> (r: Result<u32, String>)
    ensures
        r is Ok <==> AUTO_STOP_MIN_S <= auto_stop_of(seconds) <= AUTO_STOP_MAX_S,
        r matches Ok(s) ==> s == auto_stop_of(seconds),
        r matches Err(m) ==> m@ == auto_stop_refusal(auto_stop_of(seconds)),
{
    let s: u32 = seconds.unwrap_or(DEFAULT_AUTO_STOP_S);
    if s < AUTO_STOP_MIN_S || s > AUTO_STOP_MAX_S {
        let mut m = String::from_str("auto_stop_seconds=");
        m.append(to_decimal(s as u64).as_str());
        m.append(" out of range; must be 30..=3600");
        return Err(m);
    }
    Ok(s)
}

/// A request with nothing in it is the default cheap path, and it is allowed.
pub proof fn law_empty_request_is_default()
    ensures
        filled(ResourcesRequest { cpu_milli: None, memory_mb: None, disk_gb: None }).allowed(),
        filled(ResourcesRequest { cpu_milli: None, memory_mb: None, disk_gb: None }) == (
        Resources {
            cpu_milli: DEFAULT_CPU_MILLI,
            memory_mb: DEFAULT_MEMORY_MB,
            disk_gb: DEFAULT_DISK_GB,
        }),
{
}

} // verus!
