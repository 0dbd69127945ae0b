//! The Windows backends: ADL sensors, WMI video controllers, DXGI memory
//! statistics and per-process GPU memory counters.
use vstd::prelude::*;
use crate::text::{
    has_char, first_index, find_char, starts_with, str_starts_with, str_contains, chars_of, string_of, string_from, append_str, chars_eq, slice_chars, trim, trim_chars,
    occurs_at, contains, lower_text,
};
use crate::num::{parse_unsigned, parse_u32_radix};
use crate::gpu::{GpuInfo, ProcessInfo, no_readings};
use crate::num::{signed_digits, signed_dec_string, radix_digits, radix_chars};
use crate::backend::DiscoverError;
use crate::http::opt_string_view;

verus! {

// ----------------------------------------------------------------------
// Hexadecimal fields in device identifiers
// ----------------------------------------------------------------------

/// An ASCII hexadecimal digit (`char::is_ascii_hexdigit`).
pub open spec fn is_hex_digit(c: char) -> bool {
    ('0' <= c <= '9') || ('a' <= c <= 'f') || ('A' <= c <= 'F')
}

/// The number of hexadecimal digits at the start of `h`.
pub open spec fn hex_run(h: Seq<char>) -> nat
    decreases h.len(),
{
    if h.len() == 0 || !is_hex_digit(h[0]) {
        0
    } else {
        1 + hex_run(h.drop_first())
    }
}

/// `i` is the first position at which `key` occurs in `s` (`str::find`).
pub open spec fn is_first_occurrence(s: Seq<char>, key: Seq<char>, i: int) -> bool {
    occurs_at(s, key, i) && forall|t: int| 0 <= t < i ==> !occurs_at(s, key, t)
}

/// The first position of `key` in `s` (meaningful when it occurs).
pub open spec fn first_occurrence(s: Seq<char>, key: Seq<char>) -> int {
    choose|i: int| is_first_occurrence(s, key, i)
}

/// Where the digits after a key end: at the first character that is no
/// hexadecimal digit, or after `limit` characters when all of them are digits.
pub open spec fn hex_field_end(h: Seq<char>, limit: nat) -> nat {
    if hex_run(h) < h.len() {
        hex_run(h)
    } else if h.len() < limit {
        h.len()
    } else {
        limit
    }
}

/// The hexadecimal number that follows the first `key` in `s`: the digits up to
/// the first character that is no hexadecimal digit (at most `limit` when all
/// the rest are digits), read as a `u32`.
pub open spec fn hex_after_key(s: Seq<char>, key: Seq<char>, limit: nat) -> Option<nat> {
    if contains(s, key) {
        let h = s.skip(first_occurrence(s, key) + key.len());
        parse_unsigned(h.take(hex_field_end(h, limit) as int), 16, u32::MAX as nat)
    } else {
        None
    }
}

/// Whether `c` is an ASCII hexadecimal digit.
fn is_hex_digit_char(c: char) -> (b: bool)
    ensures
        b == is_hex_digit(c),
{
    ('0' <= c && c <= '9') || ('a' <= c && c <= 'f') || ('A' <= c && c <= 'F')
}

/// The first position of `p` in `v`.
pub fn find_substring(v: &Vec<char>, p: &Vec<char>) -> (r: Option<usize>)
    ensures
        match r {
            Some(i) => is_first_occurrence(v@, p@, i as int) && i == first_occurrence(v@, p@),
            None => !contains(v@, p@),
        },
{
    let mut i: usize = 0;
    loop
        invariant
            i <= v.len(),
            forall|t: int| 0 <= t < i ==> !occurs_at(v@, p@, t),
        ensures
            forall|t: int| 0 <= t <= v.len() ==> !occurs_at(v@, p@, t),
        decreases v.len() - i,
    {
        if p.len() <= v.len() - i && chars_eq(&slice_chars(v, i, i + p.len()), p) {
            assert(is_first_occurrence(v@, p@, i as int));
            proof {
                let j = first_occurrence(v@, p@);
                assert(is_first_occurrence(v@, p@, j));
                if j < i {
                } else if j > i {
                }
            }
            return Some(i);
        }
        if i == v.len() {
            break;
        }
        i = i + 1;
    }
    None
}

/// The hexadecimal number after the first `key` in `s`, as `hex_after_key`.
pub fn hex_after(s: &str, key: &str, limit: usize) -> (r: Option<u32>)
    ensures
        match r {
            Some(x) => hex_after_key(s@, key@, limit as nat) == Some(x as nat),
            None => hex_after_key(s@, key@, limit as nat) is None,
        },
{
    let v = chars_of(s);
    let k = chars_of(key);
    match find_substring(&v, &k) {
        None => None,
        Some(i) => {
            assert(occurs_at(v@, k@, i as int));
            assert(i + k@.len() <= v@.len());
            assert(i + k.len() <= v.len());
            let start = i + k.len();
            let n = v.len();
            let ghost h = v@.skip(start as int);
            let mut e = start;
            while e < n && is_hex_digit_char(v[e])
                invariant
                    start <= e <= n == v.len(),
                    h == v@.skip(start as int),
                    hex_run(h) == (e - start) + hex_run(v@.skip(e as int)),
                decreases n - e,
            {
                assert(v@.skip(e as int).drop_first() =~= v@.skip(e + 1));
                e = e + 1;
            }
            assert(hex_run(v@.skip(e as int)) == 0);
            let run = e - start;
            let rest = n - start;
            let end = if run < rest {
                run
            } else if rest < limit {
                rest
            } else {
                limit
            };
            let digits = slice_chars(&v, start, start + end);
            assert(digits@ =~= h.take(end as int));
            parse_u32_radix(&digits, 16)
        },
    }
}

/// Read a hexadecimal field such as `DEV_7550` out of a PnP device identifier
/// (up to eight digits).
pub fn extract_hex(s: &str, key: &str) -> (r: Option<u32>)
    ensures
        match r {
            Some(x) => hex_after_key(s@, key@, 8) == Some(x as nat),
            None => hex_after_key(s@, key@, 8) is None,
        },
{
    hex_after(s, key, 8)
}

/// The PCI device id in an ADL adapter UDID (`DEV_` and up to four digits).
pub fn extract_dev_from_udid(udid: &str) -> (r: Option<u32>)
    ensures
        match r {
            Some(x) => hex_after_key(udid@, "DEV_"@, 4) == Some(x as nat),
            None => hex_after_key(udid@, "DEV_"@, 4) is None,
        },
{
    hex_after(udid, "DEV_", 4)
}

// ----------------------------------------------------------------------
// Fixed-size C strings
// ----------------------------------------------------------------------

/// The bytes of a C string buffer before its first NUL (all of them when it has
/// none).
pub open spec fn before_nul(b: Seq<u8>) -> Seq<u8> {
    if exists|k: int| 0 <= k < b.len() && b[k] == 0 {
        b.take(choose|k: int| 0 <= k < b.len() && b[k] == 0 && forall|t: int| 0 <= t < k ==> b[t] != 0)
    } else {
        b
    }
}

/// What `String::from_utf8_lossy` makes of `bytes`.
pub uninterp spec fn utf8_lossy(bytes: Seq<u8>) -> Seq<char>;

/// `String::from_utf8_lossy`: the bytes read as UTF-8, each invalid sequence
/// replaced by U+FFFD. Valid UTF-8 reads as the characters it encodes; how
/// invalid input is replaced is left unstated and only named.
#[verifier::external_body]
fn utf8_lossy_string(bytes: &[u8]) -> (r: String)
    ensures
        r@ == utf8_lossy(bytes@),
        vstd::utf8::valid_utf8(bytes@) ==> r@ == vstd::utf8::decode_utf8(bytes@),
{
    String::from_utf8_lossy(bytes).into_owned()
}

/// A fixed-size C string field (an ADL adapter name, UDID or driver path): the
/// bytes before the first NUL, read as UTF-8 with invalid sequences replaced,
/// without surrounding white space.
pub fn cstr_to_string(arr: &Vec<u8>) -> (r: String)
    ensures
        r@ == trim(utf8_lossy(before_nul(arr@))),
{
    let mut k: usize = 0;
    let mut head: Vec<u8> = Vec::new();
    while k < arr.len() && arr[k] != 0
        invariant
            k <= arr.len(),
            head@ == arr@.take(k as int),
            forall|t: int| 0 <= t < k ==> arr@[t] != 0,
        decreases arr.len() - k,
    {
        head.push(arr[k]);
        assert(arr@.take(k + 1) =~= arr@.take(k as int).push(arr@[k as int]));
        k = k + 1;
    }
    proof {
        if k < arr.len() {
            let c = choose|j: int| 0 <= j < arr@.len() && arr@[j] == 0 && forall|t: int| 0 <= t < j ==> arr@[t] != 0;
            assert(c == k) by {
                if c < k {
                } else if c > k {
                    assert(arr@[k as int] == 0);
                }
            };
        } else {
            assert(arr@.take(k as int) =~= arr@);
        }
    }
    assert(head@ =~= before_nul(arr@));
    let s = utf8_lossy_string(head.as_slice());
    string_of(&trim_chars(&chars_of(s.as_str())))
}

// ----------------------------------------------------------------------
// Memory types
// ----------------------------------------------------------------------

/// The name of an SMBIOS memory type code.
pub open spec fn smbios_name(t: u32) -> Seq<char> {
    if t == 12 {
        "SDRAM"@
    } else if t == 13 {
        "RDRAM"@
    } else if t == 19 {
        "DDR"@
    } else if t == 20 {
        "DDR2"@
    } else if t == 21 {
        "DDR2 FB-DIMM"@
    } else if t == 24 {
        "DDR3"@
    } else if t == 26 {
        "DDR4"@
    } else if t == 30 {
        "LPDDR"@
    } else if t == 31 {
        "LPDDR2"@
    } else if t == 32 {
        "LPDDR3"@
    } else if t == 33 {
        "LPDDR4"@
    } else if t == 34 {
        "DDR5"@
    } else if t == 35 {
        "LPDDR5"@
    } else {
        "Unknown"@
    }
}

/// The name of an SMBIOS memory type code (`Win32_PhysicalMemory.SMBIOSMemoryType`).
pub fn smbios_to_str(t: u32) -> (r: &'static str)
    ensures
        r@ == smbios_name(t),
{
    match t {
        12 => "SDRAM",
        13 => "RDRAM",
        19 => "DDR",
        20 => "DDR2",
        21 => "DDR2 FB-DIMM",
        24 => "DDR3",
        26 => "DDR4",
        30 => "LPDDR",
        31 => "LPDDR2",
        32 => "LPDDR3",
        33 => "LPDDR4",
        34 => "DDR5",
        35 => "LPDDR5",
        _ => "Unknown",
    }
}

/// The system memory type named by the text a memory-type query printed: its
/// trimmed text read as a `u32` code of a known type.
pub open spec fn system_ram_from(text: Seq<char>) -> Option<Seq<char>> {
    match parse_unsigned(trim(text), 10, u32::MAX as nat) {
        Some(t) => if smbios_name(t as u32) != "Unknown"@ {
            Some(smbios_name(t as u32))
        } else {
            None
        },
        None => None,
    }
}

/// The system memory type from the printed SMBIOS memory type code, if known.
pub fn system_ram_type_from_output(text: &str) -> (r: Option<String>)
    ensures
        match r {
            Some(t) => system_ram_from(text@) == Some(t@),
            None => system_ram_from(text@) is None,
        },
{
    let v = trim_chars(&chars_of(text));
    match parse_u32_radix(&v, 10) {
        Some(t) => {
            let name = smbios_to_str(t);
            if chars_eq(&chars_of(name), &chars_of("Unknown")) {
                None
            } else {
                Some(string_from(name))
            }
        },
        None => None,
    }
}

/// PCI device ids of integrated GPUs (APUs) that share system memory.
pub open spec fn igpu_dev(dev: u32) -> bool {
    dev == 0x164E || dev == 0x15E8 || dev == 0x15BF || dev == 0x1586 || dev == 0x1681 || dev
        == 0x1636 || dev == 0x15D8 || dev == 0x9874 || dev == 0x15DD || dev == 0x1718
}

/// Whether `dev` is an integrated GPU that shares system memory.
pub fn is_igpu_dev(dev: u32) -> (r: bool)
    ensures
        r == igpu_dev(dev),
{
    dev == 0x164E || dev == 0x15E8 || dev == 0x15BF || dev == 0x1586 || dev == 0x1681 || dev
        == 0x1636 || dev == 0x15D8 || dev == 0x9874 || dev == 0x15DD || dev == 0x1718
}

/// The memory type of PCI device `dev`: an integrated GPU shares system memory
/// (its type when known, else by generation); a discrete GPU by its device id.
pub open spec fn vram_type_text(dev: u32, system_ram: Option<Seq<char>>) -> Seq<char> {
    if igpu_dev(dev) {
        match system_ram {
            Some(t) => t + " (Shared)"@,
            None => if dev == 0x164E || dev == 0x15BF || dev == 0x1586 || dev == 0x15E8 {
                "DDR5 (Shared)"@
            } else if dev == 0x15DD || dev == 0x1636 || dev == 0x1681 {
                "DDR4 (Shared)"@
            } else {
                "DDR4/DDR5 (Shared)"@
            },
        }
    } else if dev == 0x6863 || dev == 0x6864 || dev == 0x6867 || dev == 0x686C || dev == 0x687F
        || dev == 0x6860 || dev == 0x6861 {
        "HBM2"@
    } else if dev == 0x7360 || dev == 0x73A0 || dev == 0x73AB {
        "HBM2e"@
    } else if dev == 0x67DF || dev == 0x67EF || dev == 0x67FF || dev == 0x6FDF || dev == 0x699F
        || dev == 0x67C0 || dev == 0x67E0 {
        "GDDR5"@
    } else {
        "GDDR6"@
    }
}

/// The memory type of PCI device `dev`. `system_ram` is the system memory type,
/// which is only consulted for integrated GPUs.
pub fn vram_type_for_dev(dev: u32, system_ram: Option<String>) -> (r: String)
    ensures
        r@ == vram_type_text(dev, crate::http::opt_string_view(system_ram)),
{
    if is_igpu_dev(dev) {
        match system_ram {
            Some(t) => {
                let mut s = t;
                append_str(&mut s, " (Shared)");
                return s;
            },
            None => {},
        }
        if dev == 0x164E || dev == 0x15BF || dev == 0x1586 || dev == 0x15E8 {
            return string_from("DDR5 (Shared)");
        }
        if dev == 0x15DD || dev == 0x1636 || dev == 0x1681 {
            return string_from("DDR4 (Shared)");
        }
        return string_from("DDR4/DDR5 (Shared)");
    }
    if dev == 0x6863 || dev == 0x6864 || dev == 0x6867 || dev == 0x686C || dev == 0x687F || dev
        == 0x6860 || dev == 0x6861 {
        string_from("HBM2")
    } else if dev == 0x7360 || dev == 0x73A0 || dev == 0x73AB {
        string_from("HBM2e")
    } else if dev == 0x67DF || dev == 0x67EF || dev == 0x67FF || dev == 0x6FDF || dev == 0x699F
        || dev == 0x67C0 || dev == 0x67E0 {
        string_from("GDDR5")
    } else {
        string_from("GDDR6")
    }
}

/// The target graphics version of a PCI device id, for the devices that the
/// HIP name table also knows; `"unknown"` otherwise.
pub open spec fn gfx_for_dev(dev: u32) -> Seq<char> {
    if dev == 0x7550 || dev == 0x7551 {
        "gfx1201"@
    } else if dev == 0x744C {
        "gfx1100"@
    } else if dev == 0x1586 || dev == 0x15BF {
        "gfx1151"@
    } else {
        "unknown"@
    }
}

/// The target graphics version guessed from a PCI device id.
pub fn guess_gfx(dev_id: u32) -> (r: String)
    ensures
        r@ == gfx_for_dev(dev_id),
{
    if dev_id == 0x7550 || dev_id == 0x7551 {
        string_from("gfx1201")
    } else if dev_id == 0x744C {
        string_from("gfx1100")
    } else if dev_id == 0x1586 || dev_id == 0x15BF {
        string_from("gfx1151")
    } else {
        string_from("unknown")
    }
}

/// The memory type recorded in the registry for adapter `idx`: no registry
/// source is read, so there is none.
pub fn registry_vram_type(_idx: usize) -> (r: Option<String>)
    ensures
        r is None,
{
    None
}

// ----------------------------------------------------------------------
// WMI video controllers
// ----------------------------------------------------------------------

/// The WMI backend: AMD video controllers listed by `Win32_VideoController`.
pub struct WmiBackend;

/// One video controller as the query lists it; a field is absent when missing or
/// of another JSON type.
pub struct WmiRow {
    pub name: Option<String>,
    pub pnp_device_id: Option<String>,
    pub driver_version: Option<String>,
    pub adapter_ram: Option<u64>,
}

/// The plain values of a row.
pub type WmiRowView = (Option<Seq<char>>, Option<Seq<char>>, Option<Seq<char>>, Option<u64>);

impl View for WmiRow {
    type V = WmiRowView;

    open spec fn view(&self) -> WmiRowView {
        (
            opt_string_view(self.name),
            opt_string_view(self.pnp_device_id),
            opt_string_view(self.driver_version),
            self.adapter_ram,
        )
    }
}

#[verifier::external_type_specification]
#[verifier::external_body]
pub struct ExJsonError(serde_json::Error);

/// What `serde_json` makes of `text` read as an array of objects, keeping of each
/// element the string fields `k1`, `k2`, `k3` and the unsigned field `k4`:
/// `None` when the text is not JSON, `Some(None)` when it is no array.
pub uninterp spec fn json_object_fields(
    text: Seq<char>,
    k1: Seq<char>,
    k2: Seq<char>,
    k3: Seq<char>,
    k4: Seq<char>,
) -> Option<Option<Seq<WmiRowView>>>;

/// `serde_json::from_str::<Value>` then `as_array`, and of each element
/// `get(k).and_then(as_str)` for `k1`..`k3` and `get(k4).and_then(as_u64)`.
/// The result is named, not stated.
#[verifier::external_body]
fn json_rows(text: &str, k1: &str, k2: &str, k3: &str, k4: &str) -> (r: Result<
    Option<Vec<WmiRow>>,
    serde_json::Error,
>)
    ensures
        match r {
            Ok(Some(rows)) => json_object_fields(text@, k1@, k2@, k3@, k4@) == Some(
                Some(rows@.map_values(|w: WmiRow| w@)),
            ),
            Ok(None) => json_object_fields(text@, k1@, k2@, k3@, k4@) == Some(
                None::<Seq<WmiRowView>>,
            ),
            Err(_) => json_object_fields(text@, k1@, k2@, k3@, k4@) is None,
        },
{
    let v: serde_json::Value = serde_json::from_str(text)?;
    let arr = match v.as_array() {
        Some(a) => a,
        None => return Ok(None),
    };
    let s = |x: &serde_json::Value, k: &str| x.get(k).and_then(|y| y.as_str()).map(|y| y.to_string());
    Ok(Some(arr.iter().map(|x| WmiRow {
        name: s(x, k1),
        pnp_device_id: s(x, k2),
        driver_version: s(x, k3),
        adapter_ram: x.get(k4).and_then(|y| y.as_u64()),
    }).collect()))
}

/// The query output made into a JSON array: trimmed; refused when empty or
/// `null`; a single object is put in brackets.
pub open spec fn wmi_json_text(out: Seq<char>) -> Option<Seq<char>> {
    let t = trim(out);
    if t.len() == 0 || t == "null"@ {
        None
    } else if t[0] == '[' {
        Some(t)
    } else {
        Some("["@ + t + "]"@)
    }
}

/// The rows the query output lists: `None` when it is no JSON, `Some(None)` when
/// it is no array.
pub open spec fn wmi_rows_of(out: Seq<char>) -> Option<Option<Seq<WmiRowView>>> {
    json_object_fields(
        wmi_json_text(out)->0,
        "Name"@,
        "PNPDeviceID"@,
        "DriverVersion"@,
        "AdapterRAM"@,
    )
}

/// A view of an optional string, with a default.
pub open spec fn or_text(o: Option<Seq<char>>, d: Seq<char>) -> Seq<char> {
    match o {
        Some(x) => x,
        None => d,
    }
}

/// A number, with a default.
pub open spec fn or_num(o: Option<nat>, d: nat) -> nat {
    match o {
        Some(x) => x,
        None => d,
    }
}

/// `g` is the GPU that row `row` at position `i` describes.
pub open spec fn wmi_gpu(g: GpuInfo, i: int, row: WmiRowView, system_ram: Option<Seq<char>>) -> bool {
    let pnp = or_text(row.1, ""@);
    let dev = or_num(hex_after_key(pnp, "DEV_"@, 8), 0);
    let ram: nat = match row.3 {
        Some(x) => x as nat,
        None => 0,
    };
    &&& g.index == i as u32
    &&& g.market_name@ == or_text(row.0, "AMD GPU"@)
    &&& g.vendor_id == 0x1002
    &&& g.vendor_name@ == "Advanced Micro Devices, Inc. [AMD/ATI]"@
    &&& g.device_id == dev
    &&& g.subsystem_id == or_num(hex_after_key(pnp, "SUBSYS_"@, 8), 0)
    &&& g.rev_id == or_num(hex_after_key(pnp, "REV_"@, 8), 0)
    &&& g.asic_serial@.len() == 0
    &&& g.num_cu == 0
    &&& g.gfx_version@ == gfx_for_dev(dev as u32)
    &&& g.vram_type@ == vram_type_text(dev as u32, system_ram)
    &&& g.vram_total_mb == (ram / 1024 / 1024) as u32
    &&& g.vram_used_mb == 0
    &&& g.vram_pinned_mb == 0
    &&& g.vram_vendor@.len() == 0
    &&& g.bdf@ == pnp
    &&& g.pcie_width == 0
    &&& g.pcie_speed_gt == 0
    &&& g.driver_version@ == or_text(row.2, ""@)
    &&& g.vbios_version@.len() == 0
    &&& g.backend@ == "wmi"@
    &&& no_readings(g)
}

/// A copy of an optional string.
pub fn copy_opt_string(o: &Option<String>) -> (r: Option<String>)
    ensures
        opt_string_view(r) == opt_string_view(*o),
{
    match o {
        Some(s) => Some(s.clone()),
        None => None,
    }
}

/// An optional string, with a default.
fn text_or(o: &Option<String>, d: &str) -> (r: String)
    ensures
        r@ == or_text(opt_string_view(*o), d@),
{
    match o {
        Some(s) => s.clone(),
        None => string_from(d),
    }
}

/// An optional hexadecimal field, with 0 as default.
fn num_or_zero(o: Option<u32>) -> (r: u32)
    ensures
        r == match o {
            Some(x) => x,
            None => 0u32,
        },
{
    match o {
        Some(x) => x,
        None => 0,
    }
}

impl WmiBackend {
    /// The query output as a JSON array, or why there is no GPU.
    pub fn json_text(out: &str) -> (r: Result<String, DiscoverError>)
        ensures
            match r {
                Ok(t) => wmi_json_text(out@) == Some(t@),
                Err(e) => wmi_json_text(out@) is None && e == DiscoverError::NoWmiGpu,
            },
    {
        let t = trim_chars(&chars_of(out));
        if t.len() == 0 || chars_eq(&t, &chars_of("null")) {
            return Err(DiscoverError::NoWmiGpu);
        }
        if t[0] == '[' {
            return Ok(string_of(&t));
        }
        let mut s = string_from("[");
        crate::text::append_chars(&mut s, &t);
        append_str(&mut s, "]");
        Ok(s)
    }

    /// The rows the query printed: `NoWmiGpu` for empty output, `Json` for output
    /// that is no JSON, `NoWmiEntries` when it is no array.
    pub fn parse_output(out: &str) -> (r: Result<Vec<WmiRow>, DiscoverError>)
        ensures
            match r {
                Ok(rows) => wmi_json_text(out@) is Some && wmi_rows_of(out@) == Some(
                    Some(rows@.map_values(|w: WmiRow| w@)),
                ),
                Err(e) => {
                    ||| (wmi_json_text(out@) is None && e == DiscoverError::NoWmiGpu)
                    ||| (wmi_json_text(out@) is Some && wmi_rows_of(out@) is None && e
                        == DiscoverError::Json)
                    ||| (wmi_json_text(out@) is Some && wmi_rows_of(out@) == Some(
                        None::<Seq<WmiRowView>>,
                    ) && e == DiscoverError::NoWmiEntries)
                },
            },
    {
        let text = Self::json_text(out)?;
        match json_rows(text.as_str(), "Name", "PNPDeviceID", "DriverVersion", "AdapterRAM") {
            Ok(Some(rows)) => Ok(rows),
            Ok(None) => Err(DiscoverError::NoWmiEntries),
            Err(_) => Err(DiscoverError::Json),
        }
    }

    /// The PCI device id of a row (0 when its PnP id has none).
    pub fn row_device(row: &WmiRow) -> (r: u32)
        ensures
            r == or_num(hex_after_key(or_text(row@.1, ""@), "DEV_"@, 8), 0),
    {
        let pnp = text_or(&row.pnp_device_id, "");
        num_or_zero(extract_hex(pnp.as_str(), "DEV_"))
    }

    /// Whether any row is an integrated GPU, whose memory type is the system's.
    pub fn needs_system_ram(rows: &Vec<WmiRow>) -> (r: bool)
        ensures
            r == exists|i: int|
                0 <= i < rows.len() && igpu_dev(
                    or_num(hex_after_key(or_text(#[trigger] rows@[i]@.1, ""@), "DEV_"@, 8), 0) as u32,
                ),
    {
        let mut i: usize = 0;
        while i < rows.len()
            invariant
                i <= rows.len(),
                forall|j: int|
                    0 <= j < i ==> !igpu_dev(
                        or_num(hex_after_key(or_text(#[trigger] rows@[j]@.1, ""@), "DEV_"@, 8), 0)
                            as u32,
                    ),
            decreases rows.len() - i,
        {
            if is_igpu_dev(Self::row_device(&rows[i])) {
                return true;
            }
            i = i + 1;
        }
        false
    }

    /// The GPU described by row `row` at position `i`.
    pub fn gpu_from_row(i: usize, row: &WmiRow, system_ram: Option<String>) -> (g: GpuInfo)
        ensures
            wmi_gpu(g, i as int, row@, opt_string_view(system_ram)),
    {
        let pnp = text_or(&row.pnp_device_id, "");
        let dev = num_or_zero(extract_hex(pnp.as_str(), "DEV_"));
        let sub = num_or_zero(extract_hex(pnp.as_str(), "SUBSYS_"));
        let rev = num_or_zero(extract_hex(pnp.as_str(), "REV_"));
        let ram: u64 = match row.adapter_ram {
            Some(x) => x,
            None => 0,
        };
        let vt = match registry_vram_type(i) {
            Some(t) => t,
            None => vram_type_for_dev(dev, system_ram),
        };
        GpuInfo {
            index: i as u32,
            market_name: text_or(&row.name, "AMD GPU"),
            vendor_id: 0x1002,
            vendor_name: string_from("Advanced Micro Devices, Inc. [AMD/ATI]"),
            device_id: dev as u64,
            subsystem_id: sub,
            rev_id: rev,
            asic_serial: String::new(),
            num_cu: 0,
            gfx_version: guess_gfx(dev),
            vram_type: vt,
            vram_total_mb: (ram / 1024 / 1024) as u32,
            vram_used_mb: 0,
            vram_pinned_mb: 0,
            vram_vendor: String::new(),
            bdf: pnp,
            pcie_width: 0,
            pcie_speed_gt: 0,
            driver_version: text_or(&row.driver_version, ""),
            vbios_version: String::new(),
            temp_edge_mc: None,
            temp_hotspot_mc: None,
            temp_vram_mc: None,
            gfx_clock_mhz: None,
            mem_clock_mhz: None,
            gfx_util_percent: None,
            power_mw: None,
            power_cap_mw: None,
            backend: string_from("wmi"),
            processes: Vec::new(),
        }
    }

    /// One GPU per row, in order; no rows means no AMD entry.
    pub fn gpus_from_rows(rows: &Vec<WmiRow>, system_ram: Option<String>) -> (r: Result<
        Vec<GpuInfo>,
        DiscoverError,
    >)
        ensures
            match r {
                Ok(gs) => rows.len() > 0 && gs.len() == rows.len() && forall|i: int|
                    0 <= i < rows.len() ==> wmi_gpu(
                        #[trigger] gs@[i],
                        i,
                        rows@[i]@,
                        opt_string_view(system_ram),
                    ),
                Err(e) => rows.len() == 0 && e == DiscoverError::NoWmiEntries,
            },
    {
        if rows.len() == 0 {
            return Err(DiscoverError::NoWmiEntries);
        }
        let mut gs: Vec<GpuInfo> = Vec::new();
        let mut i: usize = 0;
        while i < rows.len()
            invariant
                i <= rows.len(),
                gs.len() == i,
                forall|j: int|
                    0 <= j < i ==> wmi_gpu(
                        #[trigger] gs@[j],
                        j,
                        rows@[j]@,
                        opt_string_view(system_ram),
                    ),
            decreases rows.len() - i,
        {
            let g = Self::gpu_from_row(i, &rows[i], copy_opt_string(&system_ram));
            gs.push(g);
            i = i + 1;
        }
        Ok(gs)
    }
}

// ----------------------------------------------------------------------
// ADL adapters and sensors
// ----------------------------------------------------------------------

/// The ADL backend: sensors from the AMD Display Library's PMLog interface.
pub struct WindowsAdlBackend;

/// One adapter as ADL lists it (strings already read up to their NUL and trimmed).
pub struct AdlAdapter {
    pub adapter_index: i32,
    pub udid: String,
    pub bus_number: i32,
    pub device_number: i32,
    pub function_number: i32,
    pub vendor_id: i32,
    pub adapter_name: String,
    pub driver_path: String,
}

/// The vendor ids ADL gives AMD adapters (`0x1002`, the decimal misreading `1002`, `0x3EA`).
pub open spec fn adl_amd_vendor(v: i32) -> bool {
    v == 0x1002 || v == 1002 || v == 0x3EA
}

/// Whether `v` is an AMD vendor id as ADL gives it.
pub fn is_adl_amd_vendor(v: i32) -> (r: bool)
    ensures
        r == adl_amd_vendor(v),
{
    v == 0x1002 || v == 1002 || v == 0x3EA
}

/// An AMD adapter on a valid bus.
pub open spec fn adl_eligible(a: AdlAdapter) -> bool {
    adl_amd_vendor(a.vendor_id) && a.bus_number >= 0
}

/// Adapter `i` is kept: eligible, and the first eligible adapter on its bus.
pub open spec fn adl_kept(s: Seq<AdlAdapter>, i: int) -> bool {
    &&& 0 <= i < s.len()
    &&& adl_eligible(s[i])
    &&& forall|j: int| 0 <= j < i ==> !(adl_eligible(#[trigger] s[j]) && s[j].bus_number == s[i].bus_number)
}

/// Each bus is queried once: two kept adapters never share a bus.
pub proof fn law_one_adapter_per_bus(s: Seq<AdlAdapter>, i: int, j: int)
    requires
        adl_kept(s, i),
        adl_kept(s, j),
        i != j,
    ensures
        s[i].bus_number != s[j].bus_number,
{
    if i < j {
        assert(adl_eligible(s[i]));
    } else {
        assert(adl_eligible(s[j]));
    }
}

/// Whether `v` holds `x`.
fn contains_i32(v: &Vec<i32>, x: i32) -> (r: bool)
    ensures
        r == exists|k: int| 0 <= k < v.len() && v@[k] == x,
{
    let mut k: usize = 0;
    while k < v.len()
        invariant
            k <= v.len(),
            forall|t: int| 0 <= t < k ==> v@[t] != x,
        decreases v.len() - k,
    {
        if v[k] == x {
            return true;
        }
        k = k + 1;
    }
    false
}

/// The positions of the adapters to query, in order: one AMD adapter per bus
/// (ADL lists one entry per display output).
pub fn dedup_adapters(adapters: &Vec<AdlAdapter>) -> (r: Vec<usize>)
    ensures
        forall|k: int| 0 <= k < r.len() ==> adl_kept(adapters@, #[trigger] r@[k] as int),
        forall|k1: int, k2: int| 0 <= k1 < k2 < r.len() ==> r@[k1] < r@[k2],
        forall|i: int| adl_kept(adapters@, i) ==> exists|k: int| 0 <= k < r.len() && r@[k] == i,
{
    let ghost a = adapters@;
    let mut r: Vec<usize> = Vec::new();
    let mut seen: Vec<i32> = Vec::new();
    let mut i: usize = 0;
    while i < adapters.len()
        invariant
            a == adapters@,
            i <= adapters.len(),
            r.len() == seen.len(),
            forall|k: int| 0 <= k < r.len() ==> #[trigger] r@[k] < i && adl_kept(a, r@[k] as int)
                && seen@[k] == a[r@[k] as int].bus_number,
            forall|k1: int, k2: int| 0 <= k1 < k2 < r.len() ==> r@[k1] < r@[k2],
            forall|j: int| 0 <= j < i && adl_kept(a, j) ==> exists|k: int| 0 <= k < r.len() && r@[k] == j,
            forall|j: int|
                0 <= j < i && adl_eligible(#[trigger] a[j]) ==> exists|k: int|
                    0 <= k < seen.len() && seen@[k] == a[j].bus_number,
        decreases adapters.len() - i,
    {
        let ad = &adapters[i];
        if is_adl_amd_vendor(ad.vendor_id) && ad.bus_number >= 0 && !contains_i32(&seen, ad.bus_number) {
            proof {
                assert forall|j: int| 0 <= j < i implies !(adl_eligible(#[trigger] a[j]) && a[j].bus_number == a[i as int].bus_number) by {
                    if adl_eligible(a[j]) {
                        let k = choose|k: int| 0 <= k < seen.len() && seen@[k] == a[j].bus_number;
                    }
                };
                assert(adl_kept(a, i as int));
            }
            let ghost r0 = r@;
            let ghost s0 = seen@;
            r.push(i);
            seen.push(ad.bus_number);
            proof {
                assert forall|j: int| 0 <= j < i + 1 && adl_kept(a, j) implies exists|k: int| 0 <= k < r.len() && r@[k] == j by {
                    if j < i {
                        let k = choose|k: int| 0 <= k < r0.len() && r0[k] == j;
                        assert(r@[k] == j);
                    } else {
                        assert(r@[r0.len() as int] == j);
                    }
                };
                assert forall|j: int| 0 <= j < i + 1 && adl_eligible(#[trigger] a[j]) implies exists|k: int| 0 <= k < seen.len() && seen@[k] == a[j].bus_number by {
                    if j < i {
                        let k = choose|k: int| 0 <= k < s0.len() && s0[k] == a[j].bus_number;
                        assert(seen@[k] == a[j].bus_number);
                    } else {
                        assert(seen@[s0.len() as int] == a[j].bus_number);
                    }
                };
            }
        } else {
            proof {
                if adl_eligible(a[i as int]) {
                    let k = choose|k: int| 0 <= k < seen.len() && seen@[k] == a[i as int].bus_number;
                    assert(adl_eligible(a[r@[k] as int]));
                    assert(!adl_kept(a, i as int));
                }
            }
        }
        i = i + 1;
    }
    r
}

/// The value recorded for sensor `k`: the last pair with that key wins, as with
/// repeated inserts into a map.
pub open spec fn sensor_lookup(m: Seq<(u32, u32)>, k: u32) -> Option<u32>
    decreases m.len(),
{
    if m.len() == 0 {
        None
    } else if m.last().0 == k {
        Some(m.last().1)
    } else {
        sensor_lookup(m.drop_last(), k)
    }
}

/// The value recorded for sensor `k`.
pub fn sensor_get(m: &Vec<(u32, u32)>, k: u32) -> (r: Option<u32>)
    ensures
        r == sensor_lookup(m@, k),
{
    let mut i = m.len();
    assert(m@.take(m.len() as int) =~= m@);
    while i > 0
        invariant
            i <= m.len(),
            sensor_lookup(m@, k) == sensor_lookup(m@.take(i as int), k),
        decreases i,
    {
        let (key, value) = m[i - 1];
        assert(m@.take(i as int).drop_last() =~= m@.take(i - 1));
        if key == k {
            return Some(value);
        }
        i = i - 1;
    }
    assert(m@.take(0) =~= Seq::<(u32, u32)>::empty());
    None
}

/// The sensors of a PMLog query that flags each slot as supported or not: slot
/// `k` carries its value when supported.
pub fn sensors_from_flags(slots: &Vec<(i32, i32)>) -> (r: Vec<(u32, u32)>)
    requires
        slots.len() <= u32::MAX,
    ensures
        forall|k: u32|
            #![trigger sensor_lookup(r@, k)]
            sensor_lookup(r@, k) == if k < slots.len() && slots@[k as int].0 != 0 {
                Some(slots@[k as int].1 as u32)
            } else {
                None
            },
        r.len() == 0 <==> forall|k: int| 0 <= k < slots.len() ==> slots@[k].0 == 0,
{
    let mut r: Vec<(u32, u32)> = Vec::new();
    let mut i: usize = 0;
    while i < slots.len()
        invariant
            i <= slots.len(),
            slots.len() <= u32::MAX,
            forall|t: int| 0 <= t < r.len() ==> (#[trigger] r@[t]).0 < i,
            forall|k: u32|
                #![trigger sensor_lookup(r@, k)]
                sensor_lookup(r@, k) == if k < i && slots@[k as int].0 != 0 {
                    Some(slots@[k as int].1 as u32)
                } else {
                    None
                },
            r.len() == 0 <==> forall|k: int| 0 <= k < i ==> slots@[k].0 == 0,
        decreases slots.len() - i,
    {
        let (supported, value) = slots[i];
        if supported != 0 {
            let ghost before = r@;
            r.push((i as u32, value as u32));
            proof {
                assert(r@.drop_last() =~= before);
                assert forall|k: u32| #![trigger sensor_lookup(r@, k)] sensor_lookup(r@, k) == if k < i + 1 && slots@[k as int].0 != 0 {
                    Some(slots@[k as int].1 as u32)
                } else {
                    None
                } by {
                    if k != i as u32 {
                        assert(sensor_lookup(r@, k) == sensor_lookup(before, k));
                    }
                };
            }
        } else {
            proof {
                assert forall|k: u32| #![trigger sensor_lookup(r@, k)] sensor_lookup(r@, k) == if k < i + 1 && slots@[k as int].0 != 0 {
                    Some(slots@[k as int].1 as u32)
                } else {
                    None
                } by {
                    if k == i {
                        lemma_lookup_absent(r@, k);
                    }
                };
            }
        }
        i = i + 1;
    }
    r
}

/// A sensor table answers with the latest value recorded for a sensor: the
/// empty table has none, a value appended for `k` is the answer for `k`, and it
/// leaves every other sensor's answer as it was.
pub proof fn law_sensor_lookup_latest(m: Seq<(u32, u32)>, k: u32, v: u32, other: u32)
    requires
        other != k,
    ensures
        sensor_lookup(Seq::<(u32, u32)>::empty(), k) is None,
        sensor_lookup(m.push((k, v)), k) == Some(v),
        sensor_lookup(m.push((k, v)), other) == sensor_lookup(m, other),
{
    assert(m.push((k, v)).drop_last() =~= m);
}

/// A key larger than every recorded key has no value.
pub proof fn lemma_lookup_absent(m: Seq<(u32, u32)>, k: u32)
    requires
        forall|t: int| 0 <= t < m.len() ==> (#[trigger] m[t]).0 != k,
    ensures
        sensor_lookup(m, k) is None,
    decreases m.len(),
{
    if m.len() > 0 {
        assert(m[m.len() - 1].0 != k);
        lemma_lookup_absent(m.drop_last(), k);
    }
}

/// The position of the first entry whose key is 0 (the end of a PMLog record), or the length.
pub open spec fn log_end(values: Seq<(u32, u32)>) -> int {
    if exists|t: int| 0 <= t < values.len() && values[t].0 == 0 {
        choose|t: int| 0 <= t < values.len() && values[t].0 == 0 && forall|u: int| 0 <= u < t ==> values[u].0 != 0
    } else {
        values.len() as int
    }
}

/// The sensors of a PMLog record: the (sensor, value) pairs before the first
/// pair whose sensor is 0.
pub fn sensors_from_log(values: &Vec<(u32, u32)>) -> (r: Vec<(u32, u32)>)
    ensures
        0 <= log_end(values@) <= values.len(),
        r@ == values@.take(log_end(values@)),
{
    let mut r: Vec<(u32, u32)> = Vec::new();
    let mut i: usize = 0;
    while i < values.len()
        invariant
            i <= values.len(),
            r@ == values@.take(i as int),
            forall|u: int| 0 <= u < i ==> values@[u].0 != 0,
        decreases values.len() - i,
    {
        if values[i].0 == 0 {
            proof {
                let t = choose|t: int| 0 <= t < values.len() && values@[t].0 == 0 && forall|u: int| 0 <= u < t ==> values@[u].0 != 0;
                assert(t == i) by {
                    if t < i {
                    } else if t > i {
                        assert(values@[i as int].0 == 0);
                    }
                };
            }
            return r;
        }
        r.push(values[i]);
        assert(values@.take(i + 1) =~= values@.take(i as int).push(values@[i as int]));
        i = i + 1;
    }
    assert(values@.take(values.len() as int) =~= values@);
    r
}

/// The first position of a zero entry, or the length.
pub open spec fn zero_end(s: Seq<u16>) -> int {
    if exists|t: int| 0 <= t < s.len() && s[t] == 0 {
        choose|t: int| 0 <= t < s.len() && s[t] == 0 && forall|u: int| 0 <= u < t ==> s[u] != 0
    } else {
        s.len() as int
    }
}

/// The sensors to start a PMLog session with: the supported sensor list up to
/// its terminating 0, at most 255 of them (one slot stays for the terminator).
pub fn pmlog_start_sensors(supported: &Vec<u16>) -> (r: Vec<u16>)
    ensures
        0 <= zero_end(supported@) <= supported.len(),
        r@ == supported@.take(if zero_end(supported@) < 255 { zero_end(supported@) } else { 255 }),
{
    let mut r: Vec<u16> = Vec::new();
    let mut i: usize = 0;
    while i < supported.len()
        invariant
            i <= supported.len(),
            r@ == supported@.take(if i < 255 { i as int } else { 255 }),
            forall|u: int| 0 <= u < i ==> supported@[u] != 0,
        decreases supported.len() - i,
    {
        if supported[i] == 0 {
            proof {
                let t = choose|t: int| 0 <= t < supported.len() && supported@[t] == 0 && forall|u: int| 0 <= u < t ==> supported@[u] != 0;
                assert(t == i) by {
                    if t < i {
                    } else if t > i {
                        assert(supported@[i as int] == 0);
                    }
                };
            }
            return r;
        }
        if r.len() < 255 {
            r.push(supported[i]);
            assert(supported@.take(i + 1) =~= supported@.take(i as int).push(supported@[i as int]));
        }
        i = i + 1;
    }
    r
}

/// `v` thousandths of a unit per whole unit.
pub open spec fn milli_of(v: Option<u32>) -> Option<i64> {
    match v {
        Some(x) => Some((x as int * 1000) as i64),
        None => None,
    }
}

/// A reading in tenths of a watt, in milliwatts.
pub open spec fn mw_of_deciwatts(v: Option<u32>) -> Option<u64> {
    match v {
        Some(x) => Some((x as int * 100) as u64),
        None => None,
    }
}

/// The first reading present of three, in order.
pub open spec fn first_of(a: Option<u32>, b: Option<u32>, c: Option<u32>) -> Option<u32> {
    if a is Some {
        a
    } else if b is Some {
        b
    } else {
        c
    }
}

/// The PMLog sensor ids read: 1 graphics clock, 2 memory clock, 8 edge
/// temperature, 9 memory temperature, 19 graphics activity, 23 ASIC power,
/// 27 hotspot temperature, 30 graphics power, 40 bus speed, 41 bus lanes,
/// 73 board power.
pub open spec fn adl_power(m: Seq<(u32, u32)>) -> Option<u32> {
    first_of(sensor_lookup(m, 73), sensor_lookup(m, 23), sensor_lookup(m, 30))
}

/// Degrees as thousandths.
fn milli_from(v: Option<u32>) -> (r: Option<i64>)
    ensures
        r == milli_of(v),
{
    match v {
        Some(x) => Some((x as i64) * 1000),
        None => None,
    }
}

/// Tenths of a watt as milliwatts.
fn mw_from(v: Option<u32>) -> (r: Option<u64>)
    ensures
        r == mw_of_deciwatts(v),
{
    match v {
        Some(x) => Some((x as u64) * 100),
        None => None,
    }
}

/// The board power reading, else ASIC power, else graphics power.
fn adl_power_reading(m: &Vec<(u32, u32)>) -> (r: Option<u32>)
    ensures
        r == adl_power(m@),
{
    let board = sensor_get(m, 73);
    if board.is_some() {
        return board;
    }
    let asic = sensor_get(m, 23);
    if asic.is_some() {
        return asic;
    }
    sensor_get(m, 30)
}

/// The location text ADL gives a GPU: its UDID, then bus, device and function.
pub open spec fn adl_bdf_text(a: AdlAdapter) -> Seq<char> {
    a.udid@ + " bus "@ + signed_digits(a.bus_number as int) + " dev "@ + signed_digits(
        a.device_number as int,
    ) + " fn "@ + signed_digits(a.function_number as int)
}

/// `g` is the GPU made at position `idx` from adapter `a` and its sensors `m`,
/// with memory type `vram_type`.
pub open spec fn adl_gpu(g: GpuInfo, idx: u32, a: AdlAdapter, m: Seq<(u32, u32)>, vram_type: Seq<char>) -> bool {
    let dev = or_num(hex_after_key(a.udid@, "DEV_"@, 4), 0);
    &&& g.index == idx
    &&& g.market_name@ == a.adapter_name@
    &&& g.vendor_id == 0x1002
    &&& g.vendor_name@ == "AMD"@
    &&& g.device_id == dev
    &&& g.subsystem_id == 0
    &&& g.rev_id == 0
    &&& g.asic_serial@.len() == 0
    &&& g.num_cu == 0
    &&& g.gfx_version@ == gfx_for_dev(dev as u32)
    &&& g.vram_type@ == vram_type
    &&& g.vram_total_mb == 0
    &&& g.vram_used_mb == 0
    &&& g.vram_pinned_mb == 0
    &&& g.vram_vendor@.len() == 0
    &&& g.bdf@ == adl_bdf_text(a)
    &&& g.pcie_width == (match sensor_lookup(m, 41) { Some(x) => x, None => 0u32 }) as u16
    &&& g.pcie_speed_gt == (match sensor_lookup(m, 40) { Some(x) => x, None => 0u32 }) / 1000
    &&& g.driver_version@ == a.driver_path@
    &&& g.vbios_version@.len() == 0
    &&& g.temp_edge_mc == milli_of(sensor_lookup(m, 8))
    &&& g.temp_hotspot_mc == milli_of(sensor_lookup(m, 27))
    &&& g.temp_vram_mc == milli_of(sensor_lookup(m, 9))
    &&& g.gfx_clock_mhz == sensor_lookup(m, 1)
    &&& g.mem_clock_mhz == sensor_lookup(m, 2)
    &&& g.gfx_util_percent == sensor_lookup(m, 19)
    &&& g.power_mw == mw_of_deciwatts(adl_power(m))
    &&& g.power_cap_mw is None
    &&& g.backend@ == "adl-pmlog"@
    &&& g.processes@.len() == 0
}

/// A reading, 0 when absent.
fn or_zero(v: Option<u32>) -> (r: u32)
    ensures
        r == match v {
            Some(x) => x,
            None => 0u32,
        },
{
    match v {
        Some(x) => x,
        None => 0,
    }
}

impl WindowsAdlBackend {
    /// The memory type of an ADL GPU: what ADL reported, else by device id.
    pub fn vram_type(queried: Option<String>, dev: u32, system_ram: Option<String>) -> (r: String)
        ensures
            r@ == match queried {
                Some(q) => q@,
                None => vram_type_text(dev, opt_string_view(system_ram)),
            },
    {
        match queried {
            Some(q) => q,
            None => vram_type_for_dev(dev, system_ram),
        }
    }

    /// Whether a memory type string ADL reported can be used: not empty, and for
    /// the first query also not `unknown` (any case).
    pub fn memory_type_usable(s: &str, reject_unknown: bool) -> (r: bool)
        ensures
            r == (s@.len() > 0 && !(reject_unknown && lower_text(s@) == "unknown"@)),
    {
        if s.is_empty() {
            return false;
        }
        if reject_unknown {
            let lower = crate::text::to_lowercase_str(s);
            if chars_eq(&chars_of(lower.as_str()), &chars_of("unknown")) {
                return false;
            }
        }
        true
    }

    /// The GPU at position `idx` made from adapter `a`, its PMLog sensors `m`
    /// and memory type `vram_type`.
    pub fn gpu_from_sensors(idx: u32, a: &AdlAdapter, m: &Vec<(u32, u32)>, vram_type: String) -> (g: GpuInfo)
        ensures
            adl_gpu(g, idx, *a, m@, vram_type@),
    {
        let dev = num_or_zero(extract_dev_from_udid(a.udid.as_str()));
        let mut bdf = a.udid.clone();
        append_str(&mut bdf, " bus ");
        crate::text::append_str(&mut bdf, signed_dec_string(a.bus_number as i64).as_str());
        append_str(&mut bdf, " dev ");
        crate::text::append_str(&mut bdf, signed_dec_string(a.device_number as i64).as_str());
        append_str(&mut bdf, " fn ");
        crate::text::append_str(&mut bdf, signed_dec_string(a.function_number as i64).as_str());
        assert(bdf@ =~= adl_bdf_text(*a));
        GpuInfo {
            index: idx,
            market_name: a.adapter_name.clone(),
            vendor_id: 0x1002,
            vendor_name: string_from("AMD"),
            device_id: dev as u64,
            subsystem_id: 0,
            rev_id: 0,
            asic_serial: String::new(),
            num_cu: 0,
            gfx_version: guess_gfx(dev),
            vram_type: vram_type,
            vram_total_mb: 0,
            vram_used_mb: 0,
            vram_pinned_mb: 0,
            vram_vendor: String::new(),
            bdf: bdf,
            pcie_width: or_zero(sensor_get(m, 41)) as u16,
            pcie_speed_gt: or_zero(sensor_get(m, 40)) / 1000,
            driver_version: a.driver_path.clone(),
            vbios_version: String::new(),
            temp_edge_mc: milli_from(sensor_get(m, 8)),
            temp_hotspot_mc: milli_from(sensor_get(m, 27)),
            temp_vram_mc: milli_from(sensor_get(m, 9)),
            gfx_clock_mhz: sensor_get(m, 1),
            mem_clock_mhz: sensor_get(m, 2),
            gfx_util_percent: sensor_get(m, 19),
            power_mw: mw_from(adl_power_reading(m)),
            power_cap_mw: None,
            backend: string_from("adl-pmlog"),
            processes: Vec::new(),
        }
    }
}

/// A reading that replaces the previous one when present.
pub open spec fn or_keep<T>(new: Option<T>, old: Option<T>) -> Option<T> {
    if new is Some {
        new
    } else {
        old
    }
}

/// `g` after the PMLog sensors `m` were applied: each reading present replaces
/// the old one (temperatures in thousandths, power from board, ASIC or graphics
/// power in that order, bus lanes and speed in GT/s); the rest is unchanged.
pub open spec fn adl_sensors_applied(g: GpuInfo, m: Seq<(u32, u32)>) -> GpuInfo {
    GpuInfo {
        temp_edge_mc: or_keep(milli_of(sensor_lookup(m, 8)), g.temp_edge_mc),
        temp_hotspot_mc: or_keep(milli_of(sensor_lookup(m, 27)), g.temp_hotspot_mc),
        temp_vram_mc: or_keep(milli_of(sensor_lookup(m, 9)), g.temp_vram_mc),
        gfx_clock_mhz: or_keep(sensor_lookup(m, 1), g.gfx_clock_mhz),
        mem_clock_mhz: or_keep(sensor_lookup(m, 2), g.mem_clock_mhz),
        gfx_util_percent: or_keep(sensor_lookup(m, 19), g.gfx_util_percent),
        power_mw: or_keep(mw_of_deciwatts(adl_power(m)), g.power_mw),
        pcie_width: match sensor_lookup(m, 41) {
            Some(v) => v as u16,
            None => g.pcie_width,
        },
        pcie_speed_gt: match sensor_lookup(m, 40) {
            Some(v) => v / 1000,
            None => g.pcie_speed_gt,
        },
        ..g
    }
}

/// What applying PMLog sensors does to a GPU, sensor by sensor: 1 is the
/// graphics clock, 2 the memory clock, 19 the graphics activity, 8, 27 and 9 the
/// edge, hotspot and memory temperatures in degrees, 41 and 40 the PCIe width
/// and speed (MT/s, kept in GT/s), and 73, 23, 30 the power in tenths of a
/// watt, in that order of preference. A sensor that is absent leaves its field;
/// nothing else changes.
pub proof fn law_pmlog_sensor_fields(g: GpuInfo, m: Seq<(u32, u32)>)
    ensures
        ({
            let a = adl_sensors_applied(g, m);
            &&& a.gfx_clock_mhz == (match sensor_lookup(m, 1) { Some(v) => Some(v), None => g.gfx_clock_mhz })
            &&& a.mem_clock_mhz == (match sensor_lookup(m, 2) { Some(v) => Some(v), None => g.mem_clock_mhz })
            &&& a.gfx_util_percent == (match sensor_lookup(m, 19) { Some(v) => Some(v), None => g.gfx_util_percent })
            &&& a.temp_edge_mc == (match sensor_lookup(m, 8) { Some(v) => Some((v as int * 1000) as i64), None => g.temp_edge_mc })
            &&& a.temp_hotspot_mc == (match sensor_lookup(m, 27) { Some(v) => Some((v as int * 1000) as i64), None => g.temp_hotspot_mc })
            &&& a.temp_vram_mc == (match sensor_lookup(m, 9) { Some(v) => Some((v as int * 1000) as i64), None => g.temp_vram_mc })
            &&& a.pcie_width == (match sensor_lookup(m, 41) { Some(v) => v as u16, None => g.pcie_width })
            &&& a.pcie_speed_gt == (match sensor_lookup(m, 40) { Some(v) => v / 1000, None => g.pcie_speed_gt })
            &&& a.power_mw == (match sensor_lookup(m, 73) {
                Some(v) => Some((v as int * 100) as u64),
                None => match sensor_lookup(m, 23) {
                    Some(v) => Some((v as int * 100) as u64),
                    None => match sensor_lookup(m, 30) {
                        Some(v) => Some((v as int * 100) as u64),
                        None => g.power_mw,
                    },
                },
            })
            &&& a.index == g.index && a.market_name == g.market_name && a.device_id == g.device_id
            &&& a.vram_type == g.vram_type && a.vram_total_mb == g.vram_total_mb && a.vram_used_mb == g.vram_used_mb
            &&& a.backend == g.backend && a.processes == g.processes && a.power_cap_mw == g.power_cap_mw
        }),
{
}

/// A GPU made from PMLog sensors carries each reading in its own field: the
/// graphics clock from sensor 1, the memory clock from sensor 2, the activity
/// from 19, the temperatures from 8, 27 and 9, whatever the other sensors say.
pub proof fn law_pmlog_gpu_fields(g: GpuInfo, idx: u32, a: AdlAdapter, m: Seq<(u32, u32)>, vram_type: Seq<char>)
    requires
        adl_gpu(g, idx, a, m, vram_type),
    ensures
        g.gfx_clock_mhz == sensor_lookup(m, 1),
        g.mem_clock_mhz == sensor_lookup(m, 2),
        g.gfx_util_percent == sensor_lookup(m, 19),
        g.temp_edge_mc == (match sensor_lookup(m, 8) { Some(v) => Some((v as int * 1000) as i64), None => None::<i64> }),
        g.temp_hotspot_mc == (match sensor_lookup(m, 27) { Some(v) => Some((v as int * 1000) as i64), None => None::<i64> }),
        g.temp_vram_mc == (match sensor_lookup(m, 9) { Some(v) => Some((v as int * 1000) as i64), None => None::<i64> }),
        g.index == idx,
        g.market_name@ == a.adapter_name@,
{
}

impl WindowsAdlBackend {
    /// Apply PMLog sensors to a GPU another backend found.
    pub fn apply_sensors(gpu: &mut GpuInfo, m: &Vec<(u32, u32)>)
        ensures
            *final(gpu) == adl_sensors_applied(*old(gpu), m@),
    {
        match sensor_get(m, 8) {
            Some(v) => gpu.temp_edge_mc = Some((v as i64) * 1000),
            None => {},
        }
        match sensor_get(m, 27) {
            Some(v) => gpu.temp_hotspot_mc = Some((v as i64) * 1000),
            None => {},
        }
        match sensor_get(m, 9) {
            Some(v) => gpu.temp_vram_mc = Some((v as i64) * 1000),
            None => {},
        }
        match sensor_get(m, 1) {
            Some(v) => gpu.gfx_clock_mhz = Some(v),
            None => {},
        }
        match sensor_get(m, 2) {
            Some(v) => gpu.mem_clock_mhz = Some(v),
            None => {},
        }
        match sensor_get(m, 19) {
            Some(v) => gpu.gfx_util_percent = Some(v),
            None => {},
        }
        match adl_power_reading(m) {
            Some(v) => gpu.power_mw = Some((v as u64) * 100),
            None => {},
        }
        match sensor_get(m, 41) {
            Some(v) => gpu.pcie_width = v as u16,
            None => {},
        }
        match sensor_get(m, 40) {
            Some(v) => gpu.pcie_speed_gt = v / 1000,
            None => {},
        }
    }

    /// The PCI device id of the first adapter with ADL index `adapter_index`.
    pub fn entry_device(adapters: &Vec<AdlAdapter>, adapter_index: i32) -> (r: Option<u32>)
        ensures
            match r {
                Some(d) => exists|j: int|
                    0 <= j < adapters.len() && adapters@[j].adapter_index == adapter_index && (forall|
                        t: int,
                    | 0 <= t < j ==> adapters@[t].adapter_index != adapter_index) && hex_after_key(
                        adapters@[j].udid@,
                        "DEV_"@,
                        4,
                    ) == Some(d as nat),
                None => forall|j: int|
                    0 <= j < adapters.len() && adapters@[j].adapter_index == adapter_index && (forall|
                        t: int,
                    | 0 <= t < j ==> adapters@[t].adapter_index != adapter_index) ==> hex_after_key(
                        adapters@[j].udid@,
                        "DEV_"@,
                        4,
                    ) is None,
            },
    {
        let mut j: usize = 0;
        while j < adapters.len()
            invariant
                j <= adapters.len(),
                forall|t: int| 0 <= t < j ==> adapters@[t].adapter_index != adapter_index,
            decreases adapters.len() - j,
        {
            if adapters[j].adapter_index == adapter_index {
                return extract_dev_from_udid(adapters[j].udid.as_str());
            }
            j = j + 1;
        }
        None
    }

    /// Which PMLog entry belongs to GPU `i` (of device `device_id`): the entry at
    /// the same position, else the first entry whose adapter has that device id.
    pub fn entry_for_gpu(i: usize, device_id: u64, entry_devs: &Vec<Option<u32>>) -> (r: Option<usize>)
        ensures
            i < entry_devs.len() ==> r == Some(i),
            i >= entry_devs.len() ==> match r {
                Some(k) => k < entry_devs.len() && dev_is(entry_devs@[k as int], device_id)
                    && forall|t: int| 0 <= t < k ==> !dev_is(#[trigger] entry_devs@[t], device_id),
                None => forall|t: int| 0 <= t < entry_devs.len() ==> !dev_is(#[trigger] entry_devs@[t], device_id),
            },
    {
        if i < entry_devs.len() {
            return Some(i);
        }
        let mut k: usize = 0;
        while k < entry_devs.len()
            invariant
                i >= entry_devs.len(),
                k <= entry_devs.len(),
                forall|t: int| 0 <= t < k ==> !dev_is(#[trigger] entry_devs@[t], device_id),
            decreases entry_devs.len() - k,
        {
            match entry_devs[k] {
                Some(d) => {
                    if d as u64 == device_id {
                        return Some(k);
                    }
                },
                None => {},
            }
            k = k + 1;
        }
        None
    }
}

/// The memory type after ADL reported `queried`: its trimmed text replaces the
/// old one unless it is empty, `unknown` or `n/a` (any case).
pub open spec fn adl_type_applied(old: Seq<char>, queried: Option<Seq<char>>) -> Seq<char> {
    match queried {
        Some(q) => {
            let norm = trim(q);
            if lower_text(norm) != "unknown"@ && norm.len() > 0 && lower_text(norm) != "n/a"@ {
                norm
            } else {
                old
            }
        },
        None => old,
    }
}

/// `s` with `suffix` appended unless it already mentions `adl`.
pub open spec fn backend_marked(s: Seq<char>, suffix: Seq<char>) -> Seq<char> {
    if contains(s, "adl"@) {
        s
    } else {
        s + suffix
    }
}

impl WindowsAdlBackend {
    /// Use the memory type ADL reported, when it is a real one.
    pub fn apply_vram_type(gpu: &mut GpuInfo, queried: Option<String>)
        ensures
            final(gpu).vram_type@ == adl_type_applied(old(gpu).vram_type@, opt_string_view(queried)),
            *final(gpu) == (GpuInfo { vram_type: final(gpu).vram_type, ..*old(gpu) }),
    {
        match queried {
            Some(vt) => {
                let norm = trim_chars(&chars_of(vt.as_str()));
                let ns = string_of(&norm);
                let lower = crate::text::to_lowercase_str(ns.as_str());
                let lv = chars_of(lower.as_str());
                if !chars_eq(&lv, &chars_of("unknown")) && norm.len() > 0 && !chars_eq(&lv, &chars_of("n/a")) {
                    gpu.vram_type = ns;
                }
            },
            None => {},
        }
    }

    /// Record that a GPU was enriched by ADL: append `suffix` to its backend
    /// unless that already mentions `adl`.
    pub fn mark_backend(gpu: &mut GpuInfo, suffix: &str)
        ensures
            final(gpu).backend@ == backend_marked(old(gpu).backend@, suffix@),
            *final(gpu) == (GpuInfo { backend: final(gpu).backend, ..*old(gpu) }),
    {
        let b = chars_of(gpu.backend.as_str());
        if !crate::text::str_contains(&b, "adl") {
            append_str(&mut gpu.backend, suffix);
        }
    }
}

// ----------------------------------------------------------------------
// OverdriveN readings
// ----------------------------------------------------------------------

/// The performance status OverdriveN reports (clocks in 10 kHz, bus speed in MT/s).
pub struct OdnStatus {
    pub core_clock: i32,
    pub memory_clock: i32,
    pub gfx_clock: i32,
    pub activity_percent: i32,
    pub bus_speed: i32,
    pub bus_lanes: i32,
}

/// `g` after the OverdriveN temperature `temp` (thousandths of a degree) and
/// performance status `st` were applied.
pub open spec fn odn_applied(g: GpuInfo, temp: Option<i32>, st: Option<OdnStatus>) -> GpuInfo {
    let g1 = match temp {
        Some(t) => GpuInfo { temp_edge_mc: Some(t as i64), ..g },
        None => g,
    };
    match st {
        Some(s) => GpuInfo {
            gfx_clock_mhz: if s.gfx_clock > 0 {
                Some((s.gfx_clock / 100) as u32)
            } else if s.core_clock > 0 {
                Some((s.core_clock / 100) as u32)
            } else {
                g1.gfx_clock_mhz
            },
            mem_clock_mhz: if s.memory_clock > 0 {
                Some((s.memory_clock / 100) as u32)
            } else {
                g1.mem_clock_mhz
            },
            gfx_util_percent: if 0 <= s.activity_percent <= 100 {
                Some(s.activity_percent as u32)
            } else {
                g1.gfx_util_percent
            },
            pcie_speed_gt: if s.bus_speed > 0 {
                (s.bus_speed / 1000) as u32
            } else {
                g1.pcie_speed_gt
            },
            pcie_width: if s.bus_lanes > 0 {
                s.bus_lanes as u16
            } else {
                g1.pcie_width
            },
            ..g1
        },
        None => g1,
    }
}

impl WindowsAdlBackend {
    /// Apply an OverdriveN temperature and performance status (each when the
    /// query succeeded) to a GPU.
    pub fn apply_overdrive_n(gpu: &mut GpuInfo, temp: Option<i32>, st: Option<OdnStatus>)
        ensures
            *final(gpu) == odn_applied(*old(gpu), temp, st),
    {
        match temp {
            Some(t) => gpu.temp_edge_mc = Some(t as i64),
            None => {},
        }
        match st {
            Some(s) => {
                if s.gfx_clock > 0 {
                    gpu.gfx_clock_mhz = Some((s.gfx_clock / 100) as u32);
                } else if s.core_clock > 0 {
                    gpu.gfx_clock_mhz = Some((s.core_clock / 100) as u32);
                }
                if s.memory_clock > 0 {
                    gpu.mem_clock_mhz = Some((s.memory_clock / 100) as u32);
                }
                if s.activity_percent >= 0 && s.activity_percent <= 100 {
                    gpu.gfx_util_percent = Some(s.activity_percent as u32);
                }
                if s.bus_speed > 0 {
                    gpu.pcie_speed_gt = (s.bus_speed / 1000) as u32;
                }
                if s.bus_lanes > 0 {
                    gpu.pcie_width = s.bus_lanes as u16;
                }
            },
            None => {},
        }
    }

    /// The ADL adapter index to query for GPU `i` of device `device_id`: the first
    /// AMD adapter with that device id, else the `i`-th AMD adapter, else `i`.
    pub fn odn_adapter_for_gpu(i: usize, device_id: u64, adapters: &Vec<AdlAdapter>) -> (r: i32)
        ensures
            r == odn_adapter_choice(i, device_id, adapters@),
    {
        let mut j: usize = 0;
        while j < adapters.len()
            invariant
                j <= adapters.len(),
                forall|t: int| 0 <= t < j ==> !odn_matches(#[trigger] adapters@[t], device_id),
            decreases adapters.len() - j,
        {
            let a = &adapters[j];
            if is_adl_amd_vendor(a.vendor_id) {
                match extract_dev_from_udid(a.udid.as_str()) {
                    Some(d) => {
                        if d as u64 == device_id {
                            proof {
                                assert(odn_matches(adapters@[j as int], device_id));
                                lemma_first_match(adapters@, device_id, j as int);
                            }
                            return a.adapter_index;
                        }
                    },
                    None => {},
                }
            }
            j = j + 1;
        }
        proof {
            assert(!exists|t: int| 0 <= t < adapters@.len() && odn_matches(adapters@[t], device_id));
        }
        let mut seen: usize = 0;
        let mut k: usize = 0;
        while k < adapters.len()
            invariant
                k <= adapters.len(),
                seen == amd_count(adapters@.take(k as int)),
                seen <= i,
                !exists|t: int| 0 <= t < adapters@.len() && odn_matches(adapters@[t], device_id),
                forall|t: int|
                    0 <= t < k && adl_amd_vendor(#[trigger] adapters@[t].vendor_id) ==> amd_count(
                        adapters@.take(t),
                    ) < i,
            decreases adapters.len() - k,
        {
            assert(adapters@.take(k + 1).drop_last() =~= adapters@.take(k as int));
            if is_adl_amd_vendor(adapters[k].vendor_id) {
                if seen == i {
                    proof {
                        lemma_nth_amd(adapters@, i as int, k as int);
                        assert(adl_amd_vendor(adapters@[k as int].vendor_id) && amd_count(adapters@.take(k as int)) == i);
                    }
                    return adapters[k].adapter_index;
                }
                seen = seen + 1;
            }
            k = k + 1;
        }
        assert(adapters@.take(adapters.len() as int) =~= adapters@);
        #[verifier::truncate]
        (i as i32)
    }
}

/// An AMD adapter whose UDID names device `device_id`.
pub open spec fn odn_matches(a: AdlAdapter, device_id: u64) -> bool {
    adl_amd_vendor(a.vendor_id) && match hex_after_key(a.udid@, "DEV_"@, 4) {
        Some(d) => d == device_id,
        None => false,
    }
}

/// An optional device id that is `device_id`.
pub open spec fn dev_is(o: Option<u32>, device_id: u64) -> bool {
    match o {
        Some(d) => d as u64 == device_id,
        None => false,
    }
}

/// The number of AMD adapters in `s`.
pub open spec fn amd_count(s: Seq<AdlAdapter>) -> nat
    decreases s.len(),
{
    if s.len() == 0 {
        0
    } else {
        amd_count(s.drop_last()) + if adl_amd_vendor(s.last().vendor_id) {
            1nat
        } else {
            0nat
        }
    }
}

/// The adapter index OverdriveN is queried with for GPU `i`.
pub open spec fn odn_adapter_choice(i: usize, device_id: u64, s: Seq<AdlAdapter>) -> i32 {
    if exists|t: int| 0 <= t < s.len() && odn_matches(s[t], device_id) {
        s[choose|t: int| 0 <= t < s.len() && odn_matches(s[t], device_id) && forall|u: int| 0 <= u < t ==> !odn_matches(s[u], device_id)].adapter_index
    } else if exists|k: int| 0 <= k < s.len() && adl_amd_vendor(s[k].vendor_id) && amd_count(s.take(k)) == i {
        s[choose|k: int| 0 <= k < s.len() && adl_amd_vendor(s[k].vendor_id) && amd_count(s.take(k)) == i].adapter_index
    } else {
        i as i32
    }
}

/// The first match decides the choice.
proof fn lemma_first_match(s: Seq<AdlAdapter>, device_id: u64, j: int)
    requires
        0 <= j < s.len(),
        odn_matches(s[j], device_id),
        forall|t: int| 0 <= t < j ==> !odn_matches(#[trigger] s[t], device_id),
    ensures
        odn_adapter_choice_first(s, device_id) == j,
{
    let c = odn_adapter_choice_first(s, device_id);
    assert(0 <= c < s.len() && odn_matches(s[c], device_id) && forall|u: int| 0 <= u < c ==> !odn_matches(s[u], device_id));
    if c < j {
    } else if c > j {
        assert(!odn_matches(s[j], device_id));
    }
}

/// The position of the first matching adapter.
pub open spec fn odn_adapter_choice_first(s: Seq<AdlAdapter>, device_id: u64) -> int {
    choose|t: int| 0 <= t < s.len() && odn_matches(s[t], device_id) && forall|u: int| 0 <= u < t ==> !odn_matches(s[u], device_id)
}

/// Counting AMD adapters.
proof fn lemma_amd_count_mono(s: Seq<AdlAdapter>, a: int, b: int)
    requires
        0 <= a <= b <= s.len(),
    ensures
        amd_count(s.take(a)) <= amd_count(s.take(b)),
        a < b && adl_amd_vendor(s[a].vendor_id) ==> amd_count(s.take(a)) < amd_count(s.take(b)),
    decreases b - a,
{
    if a < b {
        lemma_amd_count_mono(s, a, b - 1);
        assert(s.take(b).drop_last() =~= s.take(b - 1));
        if a == b - 1 {
            assert(s.take(b).last() == s[a]);
        }
    }
}

/// The `i`-th AMD adapter is unique.
proof fn lemma_nth_amd(s: Seq<AdlAdapter>, i: int, k: int)
    requires
        0 <= k < s.len(),
        adl_amd_vendor(s[k].vendor_id),
        amd_count(s.take(k)) == i,
    ensures
        forall|k2: int| 0 <= k2 < s.len() && adl_amd_vendor(s[k2].vendor_id) && amd_count(s.take(k2)) == i ==> k2 == k,
{
    assert forall|k2: int| 0 <= k2 < s.len() && adl_amd_vendor(s[k2].vendor_id) && amd_count(s.take(k2)) == i implies k2 == k by {
        if k2 < k {
            lemma_amd_count_mono(s, k2, k);
        } else if k2 > k {
            lemma_amd_count_mono(s, k, k2);
        }
    };
}

// ----------------------------------------------------------------------
// The course of an ADL session
// ----------------------------------------------------------------------

/// Why an ADL session gave no readings.
#[derive(PartialEq, Eq, Structural, Clone, Copy, Debug)]
pub enum AdlFailure {
    /// The ADL library, its entry points or its context could not be had.
    Unavailable,
    /// ADL listed no adapter.
    NoAdapters,
    /// Neither PMLog interface gave a reading.
    NoPmlogData,
}

/// The message of each ADL failure.
pub open spec fn adl_failure_text(f: AdlFailure) -> Seq<char> {
    match f {
        AdlFailure::Unavailable => "ADL not available"@,
        AdlFailure::NoAdapters => "no adapters"@,
        AdlFailure::NoPmlogData => "no PMLog data"@,
    }
}

impl AdlFailure {
    /// The message of this failure.
    pub fn message(&self) -> (r: String)
        ensures
            r@ == adl_failure_text(*self),
    {
        match self {
            AdlFailure::Unavailable => string_from("ADL not available"),
            AdlFailure::NoAdapters => string_from("no adapters"),
            AdlFailure::NoPmlogData => string_from("no PMLog data"),
        }
    }
}

/// What an ADL session is run for: `enrich` when it completes GPUs found by
/// other backends (a failure then falls back to OverdriveN); `create` when the
/// GPU list is empty, so that each reading becomes a GPU of its own.
#[derive(PartialEq, Eq, Structural, Clone, Copy, Debug)]
pub struct AdlRun {
    pub enrich: bool,
    pub create: bool,
}

/// Where an ADL session stands.
#[derive(PartialEq, Eq, Structural, Clone, Copy, Debug)]
pub enum AdlState {
    Start(AdlRun),
    AwaitAdapters(AdlRun),
    AwaitNewQuery(AdlRun),
    AwaitLegacyQuery(AdlRun),
    Done,
}

/// What an ADL session does next.
#[derive(PartialEq, Eq, Structural, Clone, Copy, Debug)]
pub enum AdlAction {
    /// Load ADL, create its context and read the adapter table; answer with the
    /// number of adapters, or `None` when ADL cannot be had.
    LoadAdapters,
    /// Ask `ADL2_New_QueryPMLogData_Get` for every kept adapter; answer with the
    /// number of adapters that gave readings.
    NewQuery,
    /// Run the legacy PMLog start/stop session for every kept adapter; answer
    /// with the number of adapters that gave readings.
    LegacyQuery,
    /// Make the readings into GPUs (`create`) or apply them to the GPUs found.
    Apply { create: bool },
    /// The session failed and the GPUs found are completed by OverdriveN.
    Overdrive(AdlFailure),
    /// The session failed.
    Fail(AdlFailure),
}

/// The end of a failed session: OverdriveN when enriching, else the failure.
pub open spec fn adl_failed(run: AdlRun, f: AdlFailure) -> AdlAction {
    if run.enrich {
        AdlAction::Overdrive(f)
    } else {
        AdlAction::Fail(f)
    }
}

/// `r` is the step taken in `state` after the answer `answer`: load the
/// adapters; with none (or no ADL) fail; ask the new PMLog interface, and the
/// legacy one when the new gave nothing; with readings apply them, else fail.
pub open spec fn adl_step_is(state: AdlState, answer: Option<usize>, r: (AdlState, AdlAction)) -> bool {
    match state {
        AdlState::Start(run) => r == (AdlState::AwaitAdapters(run), AdlAction::LoadAdapters),
        AdlState::AwaitAdapters(run) => match answer {
            None => r == (AdlState::Done, adl_failed(run, AdlFailure::Unavailable)),
            Some(n) => if n == 0 {
                r == (AdlState::Done, adl_failed(run, AdlFailure::NoAdapters))
            } else {
                r == (AdlState::AwaitNewQuery(run), AdlAction::NewQuery)
            },
        },
        AdlState::AwaitNewQuery(run) => if answer matches Some(n) && n > 0 {
            r == (AdlState::Done, AdlAction::Apply { create: run.create })
        } else {
            r == (AdlState::AwaitLegacyQuery(run), AdlAction::LegacyQuery)
        },
        AdlState::AwaitLegacyQuery(run) => if answer matches Some(n) && n > 0 {
            r == (AdlState::Done, AdlAction::Apply { create: run.create })
        } else {
            r == (AdlState::Done, adl_failed(run, AdlFailure::NoPmlogData))
        },
        AdlState::Done => r == (AdlState::Done, AdlAction::Fail(AdlFailure::Unavailable)),
    }
}

/// One step of an ADL session.
pub fn adl_step(state: AdlState, answer: Option<usize>) -> (r: (AdlState, AdlAction))
    ensures
        adl_step_is(state, answer, r),
{
    match state {
        AdlState::Start(run) => (AdlState::AwaitAdapters(run), AdlAction::LoadAdapters),
        AdlState::AwaitAdapters(run) => {
            let f = match answer {
                None => AdlFailure::Unavailable,
                Some(n) => {
                    if n > 0 {
                        return (AdlState::AwaitNewQuery(run), AdlAction::NewQuery);
                    }
                    AdlFailure::NoAdapters
                },
            };
            (AdlState::Done, if run.enrich { AdlAction::Overdrive(f) } else { AdlAction::Fail(f) })
        },
        AdlState::AwaitNewQuery(run) => match answer {
            Some(n) if n > 0 => (AdlState::Done, AdlAction::Apply { create: run.create }),
            _ => (AdlState::AwaitLegacyQuery(run), AdlAction::LegacyQuery),
        },
        AdlState::AwaitLegacyQuery(run) => match answer {
            Some(n) if n > 0 => (AdlState::Done, AdlAction::Apply { create: run.create }),
            _ => (
                AdlState::Done,
                if run.enrich {
                    AdlAction::Overdrive(AdlFailure::NoPmlogData)
                } else {
                    AdlAction::Fail(AdlFailure::NoPmlogData)
                },
            ),
        },
        AdlState::Done => (AdlState::Done, AdlAction::Fail(AdlFailure::Unavailable)),
    }
}

/// A step ends the session exactly when it asks for no further query, and only
/// an enriching session ever falls back to OverdriveN.
pub proof fn law_adl_session(state: AdlState, answer: Option<usize>, r: (AdlState, AdlAction))
    requires
        adl_step_is(state, answer, r),
    ensures
        r.0 is Done <==> !(r.1 is LoadAdapters || r.1 is NewQuery || r.1 is LegacyQuery),
        r.1 matches AdlAction::Overdrive(_) ==> (state matches AdlState::AwaitAdapters(run) && run.enrich)
            || (state matches AdlState::AwaitLegacyQuery(run) && run.enrich),
{
}

/// The memory type of an adapter from the answers of ADL's memory queries, in
/// the order they are tried: `MemoryInfoX4` through the context (refused when
/// `unknown`), `MemoryInfoX4`, `MemoryInfo` through the context (only with one),
/// `MemoryInfo`, `MemoryInfo2` through the context; the first usable answer
/// wins (`None` for a query that failed).
pub open spec fn memory_type_choice(
    x4_ctx: Option<Seq<char>>,
    x4: Option<Seq<char>>,
    info_ctx: Option<Seq<char>>,
    info: Option<Seq<char>>,
    info2_ctx: Option<Seq<char>>,
    use_ctx: bool,
) -> Option<Seq<char>> {
    let usable = |o: Option<Seq<char>>, strict: bool| o matches Some(t) && t.len() > 0 && !(strict && lower_text(t) == "unknown"@);
    if usable(x4_ctx, true) {
        x4_ctx
    } else if usable(x4, false) {
        x4
    } else if use_ctx && usable(info_ctx, false) {
        info_ctx
    } else if usable(info, false) {
        info
    } else if usable(info2_ctx, false) {
        info2_ctx
    } else {
        None
    }
}

/// Whether an answer of a memory query can be used.
fn memory_answer_usable(o: &Option<String>, strict: bool) -> (r: bool)
    ensures
        r == (opt_string_view(*o) matches Some(t) && t.len() > 0 && !(strict && lower_text(t) == "unknown"@)),
{
    match o {
        Some(t) => WindowsAdlBackend::memory_type_usable(t.as_str(), strict),
        None => false,
    }
}

/// Choose the memory type of an adapter from the answers of ADL's memory
/// queries, in the order they are tried.
pub fn choose_memory_type(
    x4_ctx: Option<String>,
    x4: Option<String>,
    info_ctx: Option<String>,
    info: Option<String>,
    info2_ctx: Option<String>,
    use_ctx: bool,
) -> (r: Option<String>)
    ensures
        opt_string_view(r) == memory_type_choice(
            opt_string_view(x4_ctx),
            opt_string_view(x4),
            opt_string_view(info_ctx),
            opt_string_view(info),
            opt_string_view(info2_ctx),
            use_ctx,
        ),
{
    if memory_answer_usable(&x4_ctx, true) {
        x4_ctx
    } else if memory_answer_usable(&x4, false) {
        x4
    } else if use_ctx && memory_answer_usable(&info_ctx, false) {
        info_ctx
    } else if memory_answer_usable(&info, false) {
        info
    } else if memory_answer_usable(&info2_ctx, false) {
        info2_ctx
    } else {
        None
    }
}

// ----------------------------------------------------------------------
// Video memory statistics
// ----------------------------------------------------------------------

/// One memory segment of an adapter, as the kernel statistics report it.
pub struct VramSegment {
    pub commit_limit: u64,
    pub bytes_committed: u64,
    pub bytes_resident: u64,
    /// Non-zero for an aperture segment (system memory seen through the bus).
    pub aperture: u32,
}

/// A dedicated (non-aperture) segment with memory.
pub open spec fn dedicated(s: VramSegment) -> bool {
    s.aperture == 0 && s.commit_limit > 0
}

/// Totals over the dedicated segments of `segs`: resident, committed, limit.
pub open spec fn dedicated_totals(segs: Seq<VramSegment>) -> (nat, nat, nat)
    decreases segs.len(),
{
    if segs.len() == 0 {
        (0, 0, 0)
    } else {
        let t = dedicated_totals(segs.drop_last());
        let s = segs.last();
        if dedicated(s) {
            (
                (t.0 + s.bytes_resident) as nat,
                (t.1 + s.bytes_committed) as nat,
                (t.2 + s.commit_limit) as nat,
            )
        } else {
            t
        }
    }
}

/// Some segment of `segs` is dedicated.
pub open spec fn has_dedicated(segs: Seq<VramSegment>) -> bool {
    exists|k: int| 0 <= k < segs.len() && dedicated(#[trigger] segs[k])
}

/// Bytes as whole MiB, wrapped to `u32` as a cast does.
pub open spec fn mib32(b: nat) -> u32 {
    (b / 1048576) as u32
}

/// `g` after the statistics of its dedicated segments were applied: used memory
/// is the resident bytes, pinned memory what is resident beyond the committed
/// bytes, and the total is filled in from the limit when unknown.
pub open spec fn segments_applied(g: GpuInfo, segs: Seq<VramSegment>) -> GpuInfo {
    let t = dedicated_totals(segs);
    let used = mib32(t.0);
    let committed = mib32(t.1);
    if has_dedicated(segs) {
        GpuInfo {
            vram_used_mb: used,
            vram_pinned_mb: if used > committed {
                (used - committed) as u32
            } else {
                g.vram_pinned_mb
            },
            vram_total_mb: if g.vram_total_mb == 0 && t.2 > 0 {
                mib32(t.2)
            } else {
                g.vram_total_mb
            },
            ..g
        }
    } else {
        g
    }
}

/// Totals grow with more segments.
proof fn lemma_totals_take(segs: Seq<VramSegment>, k: int)
    requires
        0 <= k < segs.len(),
    ensures
        dedicated_totals(segs.take(k + 1)) == (if dedicated(segs[k]) {
            (
                (dedicated_totals(segs.take(k)).0 + segs[k].bytes_resident) as nat,
                (dedicated_totals(segs.take(k)).1 + segs[k].bytes_committed) as nat,
                (dedicated_totals(segs.take(k)).2 + segs[k].commit_limit) as nat,
            )
        } else {
            dedicated_totals(segs.take(k))
        }),
{
    assert(segs.take(k + 1).drop_last() =~= segs.take(k));
    assert(segs.take(k + 1).last() == segs[k]);
}

/// Apply an adapter's segment statistics to its GPU. The totals must fit in
/// `u64`.
pub fn apply_vram_segments(gpu: &mut GpuInfo, segs: &Vec<VramSegment>)
    requires
        dedicated_totals(segs@).0 <= u64::MAX,
        dedicated_totals(segs@).1 <= u64::MAX,
        dedicated_totals(segs@).2 <= u64::MAX,
    ensures
        *final(gpu) == segments_applied(*old(gpu), segs@),
{
    let mut resident: u64 = 0;
    let mut committed: u64 = 0;
    let mut limit: u64 = 0;
    let mut any = false;
    let mut k: usize = 0;
    assert(segs@.take(0) =~= Seq::<VramSegment>::empty());
    while k < segs.len()
        invariant
            k <= segs.len(),
            (resident as nat, committed as nat, limit as nat) == dedicated_totals(segs@.take(k as int)),
            any == exists|t: int| 0 <= t < k && dedicated(#[trigger] segs@[t]),
            dedicated_totals(segs@).0 <= u64::MAX,
            dedicated_totals(segs@).1 <= u64::MAX,
            dedicated_totals(segs@).2 <= u64::MAX,
        decreases segs.len() - k,
    {
        proof {
            lemma_totals_take(segs@, k as int);
            lemma_totals_prefix(segs@, k + 1);
        }
        let sg = &segs[k];
        if sg.aperture == 0 && sg.commit_limit > 0 {
            any = true;
            resident = resident + sg.bytes_resident;
            committed = committed + sg.bytes_committed;
            limit = limit + sg.commit_limit;
        }
        k = k + 1;
    }
    assert(segs@.take(segs.len() as int) =~= segs@);
    if any {
        let used = (resident / (1024 * 1024)) as u32;
        let com = (committed / (1024 * 1024)) as u32;
        gpu.vram_used_mb = used;
        if used > com {
            gpu.vram_pinned_mb = used - com;
        }
        if gpu.vram_total_mb == 0 && limit > 0 {
            gpu.vram_total_mb = (limit / (1024 * 1024)) as u32;
        }
    }
}

/// The totals of a prefix are at most those of the whole.
proof fn lemma_totals_prefix(segs: Seq<VramSegment>, k: int)
    requires
        0 <= k <= segs.len(),
    ensures
        dedicated_totals(segs.take(k)).0 <= dedicated_totals(segs).0,
        dedicated_totals(segs.take(k)).1 <= dedicated_totals(segs).1,
        dedicated_totals(segs.take(k)).2 <= dedicated_totals(segs).2,
    decreases segs.len() - k,
{
    if k < segs.len() {
        lemma_totals_take(segs, k);
        lemma_totals_prefix(segs, k + 1);
    } else {
        assert(segs.take(k) =~= segs);
    }
}

/// Which GPU a DXGI adapter (the `i`-th, of device `dev_id`) is: the first GPU
/// with that non-zero device id, or with no device id and index `i`.
pub open spec fn adapter_gpu_matches(g: GpuInfo, dev_id: u64, i: u32) -> bool {
    (g.device_id != 0 && g.device_id == dev_id) || (g.device_id == 0 && g.index == i)
}

/// The position of the GPU that DXGI adapter `i` (device `dev_id`) belongs to.
pub fn gpu_for_adapter(gpus: &Vec<GpuInfo>, dev_id: u64, i: u32) -> (r: Option<usize>)
    ensures
        match r {
            Some(k) => k < gpus.len() && adapter_gpu_matches(gpus@[k as int], dev_id, i) && forall|
                t: int,
            | 0 <= t < k ==> !adapter_gpu_matches(#[trigger] gpus@[t], dev_id, i),
            None => forall|t: int|
                0 <= t < gpus.len() ==> !adapter_gpu_matches(#[trigger] gpus@[t], dev_id, i),
        },
{
    let mut k: usize = 0;
    while k < gpus.len()
        invariant
            k <= gpus.len(),
            forall|t: int| 0 <= t < k ==> !adapter_gpu_matches(#[trigger] gpus@[t], dev_id, i),
        decreases gpus.len() - k,
    {
        let g = &gpus[k];
        if (g.device_id != 0 && g.device_id == dev_id) || (g.device_id == 0 && g.index == i) {
            return Some(k);
        }
        k = k + 1;
    }
    None
}

/// `n` in hexadecimal, zero-padded to eight digits (`{:08x}`).
pub open spec fn hex8(n: u32) -> Seq<char> {
    let d = radix_digits(n as nat, 16);
    Seq::new((8 - d.len()) as nat, |i: int| '0') + d
}

/// `n` in lower-case hexadecimal, padded with zeros to eight digits.
fn hex8_string(n: u32) -> (s: String)
    ensures
        s@ == hex8(n),
{
    let d = radix_chars(n as u64, 16);
    proof {
        lemma_hex_digits_len(n as nat);
    }
    let mut s = String::new();
    let mut k: usize = d.len();
    while k < 8
        invariant
            d.len() <= k <= 8,
            s@ == Seq::new((k - d.len()) as nat, |i: int| '0'),
        decreases 8 - k,
    {
        crate::text::push_char(&mut s, '0');
        assert(s@ =~= Seq::new((k + 1 - d.len()) as nat, |i: int| '0'));
        k = k + 1;
    }
    crate::text::append_chars(&mut s, &d);
    s
}

/// A `u32` has at most eight hexadecimal digits.
proof fn lemma_hex_digits_len(n: nat)
    requires
        n < 0x1_0000_0000,
    ensures
        radix_digits(n, 16).len() <= 8,
{
    reveal_with_fuel(pow16, 9);
    assert(pow16(8) == 0x1_0000_0000);
    lemma_radix_len(n, 16, 8);
}

/// A number below `radix^k` has at most `k` digits.
proof fn lemma_radix_len(n: nat, radix: nat, k: nat)
    requires
        radix == 16,
        1 <= k,
        n < pow16(k),
    ensures
        radix_digits(n, radix).len() <= k,
    decreases k,
{
    if n >= radix {
        assert(k > 1) by {
            if k == 1 {
                assert(pow16(1) == 16);
            }
        };
        assert(n / radix < pow16((k - 1) as nat)) by (nonlinear_arith)
            requires
                n < pow16(k),
                pow16(k) == 16 * pow16((k - 1) as nat),
                radix == 16,
        ;
        lemma_radix_len(n / radix, radix, (k - 1) as nat);
    }
}

/// `16^k`.
pub open spec fn pow16(k: nat) -> nat
    decreases k,
{
    if k == 0 {
        1
    } else {
        16 * pow16((k - 1) as nat)
    }
}

/// The key that names an adapter's LUID in GPU counter instance names,
/// `0x<high>_0x<low>` with eight hexadecimal digits each (two's complement for a
/// negative high part).
pub open spec fn luid_key_text(high: i32, low: u32) -> Seq<char> {
    "0x"@ + hex8(high as u32) + "_0x"@ + hex8(low)
}

/// The key of an adapter LUID.
pub fn luid_key(high: i32, low: u32) -> (s: String)
    ensures
        s@ == luid_key_text(high, low),
{
    let mut s = string_from("0x");
    append_str(&mut s, hex8_string(high as u32).as_str());
    append_str(&mut s, "_0x");
    append_str(&mut s, hex8_string(low).as_str());
    s
}

// ----------------------------------------------------------------------
// Per-process GPU memory
// ----------------------------------------------------------------------

/// `a / b` rounded toward zero, for `b > 0`.
pub open spec fn div_toward_zero(a: int, b: int) -> int {
    if a >= 0 {
        a / b
    } else {
        -((-a) / b)
    }
}

/// A counter value in bytes as whole MiB (rounded toward zero, wrapped to `u32`
/// as a cast does).
pub fn counter_mb(v: i64) -> (r: u32)
    ensures
        r == div_toward_zero(v as int, 1048576) as u32,
{
    let q: i64 = if v >= 0 {
        v / 1048576
    } else {
        let a: i128 = -(v as i128);
        let qa: i128 = a / 1048576;
        (-qa) as i64
    };
    #[verifier::truncate]
    (q as u32)
}

/// The process id in a lower-cased counter instance name `pid_<pid>_...`
/// (0 when there is none).
pub open spec fn pid_of_name(l: Seq<char>) -> nat {
    if starts_with(l, "pid_"@) {
        let rest = l.skip(4);
        let first = if has_char(rest, '_') {
            rest.take(first_index(rest, '_'))
        } else {
            rest
        };
        or_num(parse_unsigned(first, 10, u32::MAX as nat), 0)
    } else {
        0
    }
}

/// The process id in a lower-cased counter instance name.
pub fn pid_from_lower_name(lower: &str) -> (r: u32)
    ensures
        r == pid_of_name(lower@),
{
    let v = chars_of(lower);
    if !str_starts_with(&v, "pid_") {
        return 0;
    }
    proof {
        reveal_strlit("pid_");
    }
    let n = v.len();
    let rest = slice_chars(&v, 4, n);
    assert(rest@ =~= v@.skip(4));
    let m = rest.len();
    assert(rest@.subrange(0, m as int) =~= rest@);
    let first = match find_char(&rest, 0, m, '_') {
        Some(k) => slice_chars(&rest, 0, k),
        None => slice_chars(&rest, 0, m),
    };
    num_or_zero(parse_u32_radix(&first, 10))
}

/// The process id in a counter instance name, compared without case.
pub fn counter_instance_pid(name: &str) -> (r: u32)
    ensures
        r == pid_of_name(lower_text(name@)),
{
    let lower = crate::text::to_lowercase_str(name);
    pid_from_lower_name(lower.as_str())
}

/// `k` is the first position of `key` among the keys of `m`.
pub open spec fn is_first_key(m: Seq<(String, usize)>, key: Seq<char>, k: int) -> bool {
    0 <= k < m.len() && m[k].0@ == key && forall|t: int| 0 <= t < k ==> (#[trigger] m[t]).0@ != key
}

/// `new` is `old` with `key` mapped to `idx`: the entry of a known key is
/// reassigned in place, an unknown key is appended.
pub open spec fn luid_inserted(new: Seq<(String, usize)>, old: Seq<(String, usize)>, key: Seq<char>, idx: usize) -> bool {
    if exists|k: int| is_first_key(old, key, k) {
        exists|k: int| is_first_key(old, key, k) && new.len() == old.len() && new[k].1 == idx && new[k].0@ == key
            && forall|t: int| 0 <= t < old.len() && t != k ==> #[trigger] new[t] == old[t]
    } else {
        new.len() == old.len() + 1 && new.last().0@ == key && new.last().1 == idx
            && forall|t: int| 0 <= t < old.len() ==> #[trigger] new[t] == old[t]
    }
}

/// Remember that the adapter with LUID key `key` is GPU `idx`; a key seen
/// before is reassigned.
pub fn luid_map_insert(map: &mut Vec<(String, usize)>, key: String, idx: usize)
    ensures
        luid_inserted(final(map)@, old(map)@, key@, idx),
{
    let mut k: usize = 0;
    while k < map.len()
        invariant
            k <= map.len(),
            map@ == old(map)@,
            forall|t: int| 0 <= t < k ==> (#[trigger] map@[t]).0@ != key@,
        decreases map.len() - k,
    {
        if chars_eq(&chars_of(map[k].0.as_str()), &chars_of(key.as_str())) {
            let ghost m0 = map@;
            assert(is_first_key(m0, key@, k as int));
            let (name, _old) = map.remove(k);
            map.insert(k, (name, idx));
            assert(map@ =~= m0.update(k as int, (name, idx)));
            return;
        }
        k = k + 1;
    }
    proof {
        assert forall|j: int| !is_first_key(map@, key@, j) by {
            if 0 <= j < map@.len() {
                assert(map@[j].0@ != key@);
            }
        };
    }
    map.push((key, idx));
}

/// The GPU of the first map entry whose LUID key occurs in the lower-cased
/// counter instance name `lower` (`None` when no key does).
pub open spec fn luid_match(lower: Seq<char>, m: Seq<(String, usize)>) -> Option<usize>
    decreases m.len(),
{
    if m.len() == 0 {
        None
    } else if contains(lower, m[0].0@) {
        Some(m[0].1)
    } else {
        luid_match(lower, m.drop_first())
    }
}

/// The GPU a per-process counter instance belongs to: the first LUID key of the
/// map that occurs in its lower-cased name.
pub fn luid_gpu_for_counter(lower: &str, map: &Vec<(String, usize)>) -> (r: Option<usize>)
    ensures
        r == luid_match(lower@, map@),
{
    let v = chars_of(lower);
    let mut k: usize = 0;
    assert(map@.skip(0) =~= map@);
    while k < map.len()
        invariant
            k <= map.len(),
            v@ == lower@,
            luid_match(lower@, map@) == luid_match(lower@, map@.skip(k as int)),
        decreases map.len() - k,
    {
        assert(map@.skip(k as int)[0] == map@[k as int]);
        if str_contains(&v, map[k].0.as_str()) {
            return Some(map[k].1);
        }
        assert(map@.skip(k as int).drop_first() =~= map@.skip(k + 1));
        k = k + 1;
    }
    None
}

// ----------------------------------------------------------------------
// One per-process counter item
// ----------------------------------------------------------------------

/// The name of process `pid` in a process table listed in snapshot order (a
/// later entry for the same id replaces an earlier one), `Unknown` when absent.
pub open spec fn name_for_pid(t: Seq<(u32, String)>, pid: u32) -> Seq<char>
    decreases t.len(),
{
    if t.len() == 0 {
        "Unknown"@
    } else if t.last().0 == pid {
        t.last().1@
    } else {
        name_for_pid(t.drop_last(), pid)
    }
}

/// The name of process `pid`, or `Unknown`.
pub fn process_name(t: &Vec<(u32, String)>, pid: u32) -> (r: String)
    ensures
        r@ == name_for_pid(t@, pid),
{
    let mut k = t.len();
    assert(t@.take(t.len() as int) =~= t@);
    while k > 0
        invariant
            k <= t.len(),
            name_for_pid(t@, pid) == name_for_pid(t@.take(k as int), pid),
        decreases k,
    {
        assert(t@.take(k as int).last() == t@[k - 1]);
        if t[k - 1].0 == pid {
            return t[k - 1].1.clone();
        }
        assert(t@.take(k as int).drop_last() =~= t@.take(k - 1));
        k = k - 1;
    }
    string_from("Unknown")
}

/// Where a counter item with instance name `name` and value `value` (bytes)
/// is recorded: `None` when it rounds to 0 MiB, names no process (pid 0), or
/// matches no GPU of the `count`; else the GPU's position, the pid and the MiB.
pub open spec fn counter_target_of(name: Seq<char>, value: i64, map: Seq<(String, usize)>, count: nat) -> Option<(usize, u32, u32)> {
    let mb = div_toward_zero(value as int, 1048576) as u32;
    let lower = lower_text(name);
    let pid = pid_of_name(lower);
    if mb == 0 || pid == 0 {
        None
    } else {
        match luid_match(lower, map) {
            Some(i) => if i < count {
                Some((i, pid as u32, mb))
            } else {
                None
            },
            None => None,
        }
    }
}

/// Record one item of a per-process memory counter: items of 0 MiB, without a
/// process id or of no known GPU are skipped; else the GPU records the usage of
/// the process under its name in the process table (`Unknown` when absent).
pub fn record_counter(
    gpus: &mut Vec<GpuInfo>,
    name: &str,
    value: i64,
    luid_map: &Vec<(String, usize)>,
    pid_names: &Vec<(u32, String)>,
    is_shared: bool,
)
    ensures
        match counter_target_of(name@, value, luid_map@, old(gpus)@.len()) {
            None => final(gpus)@ == old(gpus)@,
            Some((i, pid, mb)) => {
                &&& final(gpus)@.len() == old(gpus)@.len()
                &&& forall|j: int| 0 <= j < old(gpus)@.len() && j != i ==> final(gpus)@[j] == old(gpus)@[j]
                &&& usage_recorded(final(gpus)@[i as int], old(gpus)@[i as int], pid, name_for_pid(pid_names@, pid), mb, is_shared)
            },
        },
{
    let mb = counter_mb(value);
    if mb == 0 {
        return;
    }
    let pid = counter_instance_pid(name);
    if pid == 0 {
        return;
    }
    let lower = crate::text::to_lowercase_str(name);
    assert(lower@ == lower_text(name@));
    match luid_gpu_for_counter(lower.as_str(), luid_map) {
        Some(i) => {
            if i < gpus.len() {
                let pname = process_name(pid_names, pid);
                let ghost g0 = gpus@;
                let mut g = gpus.remove(i);
                record_process_usage(&mut g, pid, pname, mb, is_shared);
                gpus.insert(i, g);
                assert(gpus@ =~= g0.update(i as int, g));
            }
        },
        None => {},
    }
}

/// A recorded counter item always names a process and a GPU and holds at
/// least 1 MiB.
pub proof fn law_counter_filter(name: Seq<char>, value: i64, map: Seq<(String, usize)>, count: nat)
    requires
        counter_target_of(name, value, map, count) is Some,
    ensures
        ({
            let (i, pid, mb) = counter_target_of(name, value, map, count)->0;
            &&& pid != 0
            &&& mb >= 1
            &&& i < count
        }),
{
}

/// The type of a process by its name: `G` for the desktop compositor and shell,
/// `C` for everything else.
pub open spec fn proc_type_of(name: Seq<char>) -> Seq<char> {
    if crate::text::eq_ignore_ascii_case(name, "dwm.exe"@) || crate::text::eq_ignore_ascii_case(
        name,
        "explorer.exe"@,
    ) {
        "G"@
    } else {
        "C"@
    }
}

/// Classify a process as graphics (`G`) or compute (`C`) by its name.
pub fn classify_proc_type(name: &str) -> (r: String)
    ensures
        r@ == proc_type_of(name@),
{
    let v = chars_of(name);
    if crate::text::eq_ignore_ascii_case_chars(&v, &chars_of("dwm.exe"))
        || crate::text::eq_ignore_ascii_case_chars(&v, &chars_of("explorer.exe")) {
        string_from("G")
    } else {
        string_from("C")
    }
}

/// The position of the first process with id `pid`.
pub open spec fn first_pid(ps: Seq<ProcessInfo>, pid: u32) -> int {
    choose|k: int| 0 <= k < ps.len() && ps[k].pid == pid && forall|t: int| 0 <= t < k ==> ps[t].pid != pid
}

/// `new` is `old` after a memory counter reported `val` MiB for process `pid`
/// named `name`: ignored for a shared-memory counter on a GPU with dedicated
/// memory, or when above the GPU's total; else the process's usage is raised to
/// `val`, or the process is added.
pub open spec fn usage_recorded(new: GpuInfo, old: GpuInfo, pid: u32, name: Seq<char>, val: u32, is_shared: bool) -> bool {
    if (is_shared && !contains(old.vram_type@, "Shared"@)) || (old.vram_total_mb > 0 && val > old.vram_total_mb) {
        new == old
    } else if exists|k: int| 0 <= k < old.processes@.len() && old.processes@[k].pid == pid {
        let k = first_pid(old.processes@, pid);
        let p = old.processes@[k];
        &&& new == (GpuInfo { processes: new.processes, ..old })
        &&& new.processes@ == old.processes@.update(
            k,
            ProcessInfo { mem_used_mb: if val > p.mem_used_mb { val } else { p.mem_used_mb }, ..p },
        )
    } else {
        &&& new == (GpuInfo { processes: new.processes, ..old })
        &&& new.processes@.len() == old.processes@.len() + 1
        &&& new.processes@.take(old.processes@.len() as int) == old.processes@
        &&& new.processes@.last().pid == pid
        &&& new.processes@.last().name@ == name
        &&& new.processes@.last().mem_used_mb == val
        &&& new.processes@.last().proc_type@ == proc_type_of(name)
    }
}

/// Record what a per-process memory counter reported for `gpu`.
pub fn record_process_usage(gpu: &mut GpuInfo, pid: u32, name: String, val_mb: u32, is_shared: bool)
    ensures
        usage_recorded(*final(gpu), *old(gpu), pid, name@, val_mb, is_shared),
{
    if is_shared && !str_contains(&chars_of(gpu.vram_type.as_str()), "Shared") {
        return;
    }
    if gpu.vram_total_mb > 0 && val_mb > gpu.vram_total_mb {
        return;
    }
    let ghost ps = gpu.processes@;
    let mut k: usize = 0;
    while k < gpu.processes.len()
        invariant
            k <= gpu.processes.len(),
            gpu.processes@ == ps,
            *gpu == *old(gpu),
            !((is_shared && !contains(old(gpu).vram_type@, "Shared"@)) || (old(gpu).vram_total_mb > 0 && val_mb > old(gpu).vram_total_mb)),
            forall|t: int| 0 <= t < k ==> ps[t].pid != pid,
        decreases gpu.processes.len() - k,
    {
        if gpu.processes[k].pid == pid {
            proof {
                let j = first_pid(ps, pid);
                assert(0 <= j < ps.len() && ps[j].pid == pid && forall|t: int| 0 <= t < j ==> ps[t].pid != pid);
                assert(j == k) by {
                    if j < k {
                    } else if j > k {
                        assert(ps[k as int].pid == pid);
                    }
                };
            }
            let ghost g0 = *gpu;
            let mut p = gpu.processes.remove(k);
            let ghost p0 = p;
            if val_mb > p.mem_used_mb {
                p.mem_used_mb = val_mb;
            }
            assert(p == (ProcessInfo { mem_used_mb: if val_mb > p0.mem_used_mb { val_mb } else { p0.mem_used_mb }, ..p0 }));
            gpu.processes.insert(k, p);
            assert(gpu.processes@ =~= ps.update(k as int, p));
            assert(ps[k as int].pid == pid);
            assert(*gpu == (GpuInfo { processes: gpu.processes, ..g0 }));
            return;
        }
        k = k + 1;
    }
    let proc_type = classify_proc_type(name.as_str());
    let ghost g0 = *gpu;
    let ghost nm = name@;
    gpu.processes.push(ProcessInfo { pid, name, mem_used_mb: val_mb, proc_type });
    assert(gpu.processes@.take(ps.len() as int) =~= ps);
    assert(*gpu == (GpuInfo { processes: gpu.processes, ..g0 }));
    assert(!exists|t: int| 0 <= t < ps.len() && ps[t].pid == pid);
}

/// No two processes of the list share a PID.
pub open spec fn pids_distinct(ps: Seq<ProcessInfo>) -> bool {
    forall|a: int, b: int| 0 <= a < b < ps.len() ==> ps[a].pid != ps[b].pid
}

/// Recording counters keeps one entry per process, keeps every process where it
/// was, and never lowers a process's memory use: a process's usage is the
/// largest of its readings.
pub proof fn law_usage_recorded_monotone(
    new: GpuInfo,
    old: GpuInfo,
    pid: u32,
    name: Seq<char>,
    val: u32,
    is_shared: bool,
)
    requires
        usage_recorded(new, old, pid, name, val, is_shared),
        pids_distinct(old.processes@),
    ensures
        pids_distinct(new.processes@),
        new.processes@.len() >= old.processes@.len(),
        forall|a: int|
            0 <= a < old.processes@.len() ==> (#[trigger] new.processes@[a]).pid == old.processes@[a].pid
                && new.processes@[a].mem_used_mb >= old.processes@[a].mem_used_mb,
        !((is_shared && !contains(old.vram_type@, "Shared"@)) || (old.vram_total_mb > 0 && val > old.vram_total_mb))
            ==> exists|a: int| 0 <= a < new.processes@.len() && (#[trigger] new.processes@[a]).pid == pid
            && new.processes@[a].mem_used_mb >= val,
{
    let ps = old.processes@;
    if (is_shared && !contains(old.vram_type@, "Shared"@)) || (old.vram_total_mb > 0 && val > old.vram_total_mb) {
    } else if exists|k: int| 0 <= k < ps.len() && ps[k].pid == pid {
        let k0 = choose|k: int| 0 <= k < ps.len() && ps[k].pid == pid;
        assert(forall|t: int| 0 <= t < k0 ==> ps[t].pid != pid);
        let k = first_pid(ps, pid);
        assert(0 <= k < ps.len() && ps[k].pid == pid);
        assert(new.processes@[k].pid == pid);
        assert(new.processes@[k].mem_used_mb >= val);
    } else {
        let n = new.processes@;
        assert forall|a: int, b: int| 0 <= a < b < n.len() implies n[a].pid != n[b].pid by {
            assert(n.take(ps.len() as int)[a] == n[a]);
            if b < ps.len() {
                assert(n.take(ps.len() as int)[b] == n[b]);
            } else {
                assert(n[b] == n.last());
            }
        };
        assert forall|a: int| 0 <= a < ps.len() implies (#[trigger] n[a]).pid == ps[a].pid
            && n[a].mem_used_mb >= ps[a].mem_used_mb by {
            assert(n.take(ps.len() as int)[a] == n[a]);
        };
        assert(n[n.len() - 1].pid == pid);
    }
}

/// Some GPU with shared memory has no process yet.
pub open spec fn needs_shared(gpus: Seq<GpuInfo>) -> bool {
    exists|i: int| 0 <= i < gpus.len() && contains((#[trigger] gpus[i]).vram_type@, "Shared"@) && gpus[i].processes@.len() == 0
}

/// Whether the shared-memory counters must be read too: some integrated GPU
/// (shared memory) got no process from the dedicated-memory counters.
pub fn needs_shared_usage(gpus: &Vec<GpuInfo>) -> (r: bool)
    ensures
        r == needs_shared(gpus@),
{
    let mut i: usize = 0;
    while i < gpus.len()
        invariant
            i <= gpus.len(),
            forall|t: int| 0 <= t < i ==> !(contains((#[trigger] gpus@[t]).vram_type@, "Shared"@) && gpus@[t].processes@.len() == 0),
        decreases gpus.len() - i,
    {
        if str_contains(&chars_of(gpus[i].vram_type.as_str()), "Shared") && gpus[i].processes.len() == 0 {
            return true;
        }
        i = i + 1;
    }
    false
}

} // verus!
