//! The HIP backend: devices the HIP runtime reports.
use vstd::prelude::*;
use crate::text::{chars_of, string_from, append_str, contains, str_contains, trim, trim_chars};
use crate::num::{parse_unsigned, parse_u32_radix};
use crate::gpu::GpuInfo;

verus! {

/// The HIP backend (`amdhip64`).
pub struct HipBackend;

/// What HIP reports of one device.
pub struct HipDevice {
    /// The device ordinal.
    pub ordinal: i32,
    pub name: String,
    pub total_global_mem: usize,
    pub max_threads_per_block: i32,
    pub warp_size: i32,
}

/// The target graphics version guessed from a marketing name.
pub open spec fn gfx_for_name(name: Seq<char>) -> Seq<char> {
    if contains(name, "780M"@) || contains(name, "8060S"@) || contains(name, "Radeon(TM) Graphics"@) {
        "gfx1151"@
    } else if contains(name, "7900"@) || contains(name, "RX 7900"@) {
        "gfx1100"@
    } else if contains(name, "9070"@) || contains(name, "RX 90"@) {
        "gfx1201"@
    } else {
        "unknown"@
    }
}

/// A GPU that shares system memory (an APU), by its name and target.
pub open spec fn shares_system_memory(name: Seq<char>, gfx: Seq<char>) -> bool {
    gfx == "gfx1151"@ || contains(name, "Radeon(TM) Graphics"@) || contains(name, "780M"@)
        || contains(name, "860M"@) || contains(name, "880M"@)
}

/// The system memory type for an SMBIOS code, DDR5 when unknown.
pub open spec fn smbios_shared_name(code: Option<u32>) -> Seq<char> {
    match code {
        Some(26) => "DDR4"@,
        Some(34) => "DDR5"@,
        Some(32) => "LPDDR3"@,
        Some(33) => "LPDDR4"@,
        Some(35) => "LPDDR5"@,
        _ => "DDR5"@,
    }
}

/// The memory type of a HIP device: shared system memory (on Windows its SMBIOS
/// type, elsewhere DDR4/DDR5), DDR4 for Vega APUs, GDDR6 otherwise.
pub open spec fn hip_vram_type(name: Seq<char>, gfx: Seq<char>, on_windows: bool, smbios: Option<u32>) -> Seq<char> {
    if shares_system_memory(name, gfx) {
        if on_windows {
            smbios_shared_name(smbios) + " (Shared)"@
        } else {
            "DDR4/DDR5 (Shared)"@
        }
    } else if contains(name, "Vega"@) && (contains(name, "Graphics"@) || contains(name, "8"@)
        || contains(name, "11"@)) {
        "DDR4 (Shared)"@
    } else {
        "GDDR6"@
    }
}

/// `a / b` rounded toward zero, as `i32` division does.
pub open spec fn trunc_div(a: int, b: int) -> int {
    let q = (if a >= 0 { a } else { -a }) / (if b >= 0 { b } else { -b });
    if (a >= 0) == (b > 0) {
        q
    } else {
        -q
    }
}

/// `g` is the GPU made from device `d` with memory type `vram_type`.
pub open spec fn hip_gpu(g: GpuInfo, d: HipDevice, vram_type: Seq<char>) -> bool {
    &&& g.index == d.ordinal as u32
    &&& g.market_name@ == d.name@
    &&& g.vendor_id == 0x1002
    &&& g.vendor_name@ == "Advanced Micro Devices, Inc. [AMD/ATI]"@
    &&& g.device_id == 0
    &&& g.subsystem_id == 0
    &&& g.rev_id == 0
    &&& g.asic_serial@.len() == 0
    &&& g.num_cu == (if d.warp_size != 0 {
        trunc_div(d.max_threads_per_block as int, d.warp_size as int) as u32
    } else {
        0
    })
    &&& g.gfx_version@ == gfx_for_name(d.name@)
    &&& g.vram_type@ == vram_type
    &&& g.vram_total_mb == (d.total_global_mem / 1048576usize) as u32
    &&& g.vram_used_mb == 0
    &&& g.vram_pinned_mb == 0
    &&& g.vram_vendor@.len() == 0
    &&& g.bdf@.len() == 0
    &&& g.pcie_width == 0
    &&& g.pcie_speed_gt == 0
    &&& g.driver_version@.len() == 0
    &&& g.vbios_version@.len() == 0
    &&& crate::gpu::no_readings(g)
    &&& g.backend@ == "hip"@
}

impl HipBackend {
    /// The target graphics version guessed from a marketing name.
    pub fn gfx_for_name(name: &str) -> (r: &'static str)
        ensures
            r@ == gfx_for_name(name@),
    {
        let v = chars_of(name);
        if str_contains(&v, "780M") || str_contains(&v, "8060S") || str_contains(&v, "Radeon(TM) Graphics") {
            "gfx1151"
        } else if str_contains(&v, "7900") || str_contains(&v, "RX 7900") {
            "gfx1100"
        } else if str_contains(&v, "9070") || str_contains(&v, "RX 90") {
            "gfx1201"
        } else {
            "unknown"
        }
    }

    /// Whether the device shares system memory (then its memory type is the
    /// system's, which on Windows is queried).
    pub fn shares_system_memory(name: &str, gfx: &str) -> (r: bool)
        ensures
            r == shares_system_memory(name@, gfx@),
    {
        let v = chars_of(name);
        crate::text::chars_eq(&chars_of(gfx), &chars_of("gfx1151")) || str_contains(&v, "Radeon(TM) Graphics")
            || str_contains(&v, "780M") || str_contains(&v, "860M") || str_contains(&v, "880M")
    }

    /// The SMBIOS memory type code a memory query printed: its trimmed text as a
    /// `u32`.
    pub fn parse_smbios(text: &str) -> (r: Option<u32>)
        ensures
            match r {
                Some(x) => parse_unsigned(trim(text@), 10, u32::MAX as nat) == Some(x as nat),
                None => parse_unsigned(trim(text@), 10, u32::MAX as nat) is None,
            },
    {
        parse_u32_radix(&trim_chars(&chars_of(text)), 10)
    }

    /// The memory type of a device; `smbios` is the system memory type code
    /// (only consulted on Windows for devices that share system memory).
    pub fn vram_type(name: &str, gfx: &str, on_windows: bool, smbios: Option<u32>) -> (r: String)
        ensures
            r@ == hip_vram_type(name@, gfx@, on_windows, smbios),
    {
        if Self::shares_system_memory(name, gfx) {
            if on_windows {
                let mut s = string_from(match smbios {
                    Some(26) => "DDR4",
                    Some(34) => "DDR5",
                    Some(32) => "LPDDR3",
                    Some(33) => "LPDDR4",
                    Some(35) => "LPDDR5",
                    _ => "DDR5",
                });
                append_str(&mut s, " (Shared)");
                return s;
            }
            return string_from("DDR4/DDR5 (Shared)");
        }
        let v = chars_of(name);
        if str_contains(&v, "Vega") && (str_contains(&v, "Graphics") || str_contains(&v, "8")
            || str_contains(&v, "11")) {
            string_from("DDR4 (Shared)")
        } else {
            string_from("GDDR6")
        }
    }

    /// Compute units as threads per block over the warp size (0 for a zero warp
    /// size). The quotient `i32::MIN / -1` does not exist.
    pub fn num_cu(max_threads: i32, warp: i32) -> (r: u32)
        requires
            !(max_threads == i32::MIN && warp == -1),
        ensures
            r == (if warp != 0 {
                trunc_div(max_threads as int, warp as int) as u32
            } else {
                0
            }),
    {
        if warp == 0 {
            return 0;
        }
        let a: i64 = if max_threads >= 0 { max_threads as i64 } else { -(max_threads as i64) };
        let b: i64 = if warp >= 0 { warp as i64 } else { -(warp as i64) };
        let q: i64 = a / b;
        let s: i64 = if (max_threads >= 0) == (warp > 0) { q } else { -q };
        #[verifier::truncate]
        (s as u32)
    }

    /// The GPU made from device `d` with memory type `vram_type`.
    pub fn gpu_from_device(d: &HipDevice, vram_type: String) -> (g: GpuInfo)
        requires
            !(d.max_threads_per_block == i32::MIN && d.warp_size == -1),
        ensures
            hip_gpu(g, *d, vram_type@),
    {
        GpuInfo {
            index: d.ordinal as u32,
            market_name: d.name.clone(),
            vendor_id: 0x1002,
            vendor_name: string_from("Advanced Micro Devices, Inc. [AMD/ATI]"),
            device_id: 0,
            subsystem_id: 0,
            rev_id: 0,
            asic_serial: String::new(),
            num_cu: Self::num_cu(d.max_threads_per_block, d.warp_size),
            gfx_version: string_from(Self::gfx_for_name(d.name.as_str())),
            vram_type: vram_type,
            vram_total_mb: (d.total_global_mem / (1024 * 1024)) as u32,
            vram_used_mb: 0,
            vram_pinned_mb: 0,
            vram_vendor: String::new(),
            bdf: String::new(),
            pcie_width: 0,
            pcie_speed_gt: 0,
            driver_version: String::new(),
            vbios_version: String::new(),
            temp_edge_mc: None,
            temp_hotspot_mc: None,
            temp_vram_mc: None,
            gfx_clock_mhz: None,
            mem_clock_mhz: None,
            gfx_util_percent: None,
            power_mw: None,
            power_cap_mw: None,
            backend: string_from("hip"),
            processes: Vec::new(),
        }
    }
}

} // verus!
