//! The Linux backends: the amdsmi library and the DRM sysfs tree.
use vstd::prelude::*;
use crate::text::{
    chars_of, string_from, append_str, slice_chars, trim, trim_chars, starts_with, contains,
    str_starts_with, str_contains, eq_ignore_ascii_case, eq_ignore_ascii_case_chars, split_once,
    split_once_chars,
};
use crate::num::{
    parse_unsigned, parse_u32_radix, parse_u64_radix, all_digits, digits_value, digit_value,
    digit_value_char, digits_value_range,
};
use crate::gpu::GpuInfo;
use crate::backend::DiscoverError;

verus! {

/// The amdsmi backend (`libamd_smi.so`).
pub struct LinuxAmdSmiBackend;

/// The sysfs backend: cards under `/sys/class/drm`.
pub struct LinuxSysfsBackend;

/// What one DRM entry offers: its name and the files of its `device`
/// directory (empty when unreadable).
pub struct SysfsCard {
    pub name: String,
    pub vendor: String,
    pub device: String,
    pub subsystem_device: String,
    pub mem_info_vram_total: String,
    pub mem_info_vram_used: String,
    /// `hwmon/hwmon0/temp1_input`, thousandths of a degree Celsius.
    pub temp1_input: String,
}

/// A DRM entry that is a card (`card0`, not `renderD128` or a connector of a
/// render node).
pub open spec fn card_name(name: Seq<char>) -> bool {
    starts_with(name, "card"@) && !contains(name, "render"@)
}

/// A vendor file naming AMD.
pub open spec fn amd_vendor_text(v: Seq<char>) -> bool {
    eq_ignore_ascii_case(trim(v), "0x1002"@)
}

/// `s` without any number of leading `0x` (`trim_start_matches("0x")`).
pub open spec fn strip_0x(s: Seq<char>) -> Seq<char>
    decreases s.len(),
{
    if s.len() >= 2 && s[0] == '0' && s[1] == 'x' {
        strip_0x(s.skip(2))
    } else {
        s
    }
}

/// A hexadecimal sysfs field with its `0x`, or `default` when it does not read.
pub open spec fn hex_field(text: Seq<char>, max: nat, default: nat) -> nat {
    match parse_unsigned(strip_0x(trim(text)), 16, max) {
        Some(x) => x,
        None => default,
    }
}

/// A byte count from sysfs as whole MiB, wrapped to `u32` as a cast does; 0
/// when it does not read.
pub open spec fn mb_field(text: Seq<char>) -> u32 {
    match parse_unsigned(trim(text), 10, u64::MAX as nat) {
        Some(b) => (b / 1024 / 1024) as u32,
        None => 0,
    }
}

/// A decimal number as text: an optional sign, then digits with an optional
/// `.` and fraction digits (at least one digit in all), split into whether it
/// is negative, its integer digits and its fraction digits.
pub open spec fn decimal_parts(s: Seq<char>) -> Option<(bool, Seq<char>, Seq<char>)> {
    let signed = s.len() > 0 && (s[0] == '-' || s[0] == '+');
    let neg = s.len() > 0 && s[0] == '-';
    let body = if signed {
        s.drop_first()
    } else {
        s
    };
    let (a, b) = match split_once(body, '.') {
        Some((a, b)) => (a, b),
        None => (body, Seq::<char>::empty()),
    };
    if all_digits(a, 10) && all_digits(b, 10) && a.len() + b.len() > 0 {
        Some((neg, a, b))
    } else {
        None
    }
}

/// A temperature file: the trimmed text read as a decimal number of
/// thousandths of a degree, rounded to the nearest thousandth (halves away from
/// zero); `None` when it is no decimal number or falls outside `i64`.
pub open spec fn temp_field(text: Seq<char>) -> Option<i64> {
    match decimal_parts(trim(text)) {
        Some((neg, a, b)) => {
            let mag = digits_value(a, 10) + if b.len() > 0 && digit_value(b[0]) >= 5 {
                1nat
            } else {
                0nat
            };
            if neg && mag <= 0x8000_0000_0000_0000 {
                Some((-mag) as i64)
            } else if !neg && mag <= 0x7FFF_FFFF_FFFF_FFFF {
                Some(mag as i64)
            } else {
                None
            }
        },
        None => None,
    }
}

/// Whether every character of `v` is a decimal digit.
fn all_decimal(v: &Vec<char>) -> (r: bool)
    ensures
        r == all_digits(v@, 10),
{
    let mut i: usize = 0;
    while i < v.len()
        invariant
            i <= v.len(),
            forall|j: int| 0 <= j < i ==> digit_value(#[trigger] v@[j]) < 10,
        decreases v.len() - i,
    {
        if digit_value_char(v[i]) >= 10 {
            return false;
        }
        i = i + 1;
    }
    true
}

/// `c` is an AMD card.
pub open spec fn sysfs_accepts(c: SysfsCard) -> bool {
    card_name(c.name@) && amd_vendor_text(c.vendor@)
}

/// The accepted cards of `cs`, in order.
pub open spec fn accepted_cards(cs: Seq<SysfsCard>) -> Seq<SysfsCard>
    decreases cs.len(),
{
    if cs.len() == 0 {
        seq![]
    } else if sysfs_accepts(cs.last()) {
        accepted_cards(cs.drop_last()).push(cs.last())
    } else {
        accepted_cards(cs.drop_last())
    }
}

/// The accepted cards are exactly the entries that are cards (`card…`, no
/// `render`) with an AMD vendor file, all of them, in order: the list is the
/// entries filtered by that test.
pub proof fn law_accepted_cards_are_amd_cards(cs: Seq<SysfsCard>)
    ensures
        accepted_cards(cs) == cs.filter(
            |c: SysfsCard| starts_with(c.name@, "card"@) && !contains(c.name@, "render"@)
                && eq_ignore_ascii_case(trim(c.vendor@), "0x1002"@),
        ),
    decreases cs.len(),
{
    reveal(Seq::filter);
    let pred = |c: SysfsCard| starts_with(c.name@, "card"@) && !contains(c.name@, "render"@)
        && eq_ignore_ascii_case(trim(c.vendor@), "0x1002"@);
    if cs.len() > 0 {
        law_accepted_cards_are_amd_cards(cs.drop_last());
        assert(sysfs_accepts(cs.last()) == pred(cs.last()));
    } else {
        assert(cs.filter(pred) =~= cs);
    }
}

/// Every AMD card entry gives a GPU: there are as many accepted cards as AMD
/// card entries, and appending an AMD card entry adds it at the end.
pub proof fn law_every_amd_card_counts(cs: Seq<SysfsCard>, c: SysfsCard)
    ensures
        sysfs_accepts(c) ==> accepted_cards(cs.push(c)) == accepted_cards(cs).push(c),
        !sysfs_accepts(c) ==> accepted_cards(cs.push(c)) == accepted_cards(cs),
        accepted_cards(cs).len() <= cs.len(),
    decreases cs.len(),
{
    assert(cs.push(c).drop_last() =~= cs);
    if cs.len() > 0 {
        law_every_amd_card_counts(cs.drop_last(), cs.last());
    }
}

/// `g` is the GPU at position `i` made from card `c`.
pub open spec fn sysfs_gpu(g: GpuInfo, i: int, c: SysfsCard) -> bool {
    &&& g.index == i as u32
    &&& g.market_name@ == "AMD GPU "@ + c.name@
    &&& g.vendor_id == hex_field(c.vendor@, u32::MAX as nat, 0x1002)
    &&& g.vendor_name@ == "AMD"@
    &&& g.device_id == hex_field(c.device@, u64::MAX as nat, 0)
    &&& g.subsystem_id == hex_field(c.subsystem_device@, u32::MAX as nat, 0)
    &&& g.rev_id == 0
    &&& g.asic_serial@.len() == 0
    &&& g.num_cu == 0
    &&& g.gfx_version@ == "unknown"@
    &&& g.vram_type@ == "unknown"@
    &&& g.vram_total_mb == mb_field(c.mem_info_vram_total@)
    &&& g.vram_used_mb == mb_field(c.mem_info_vram_used@)
    &&& g.vram_pinned_mb == 0
    &&& g.vram_vendor@.len() == 0
    &&& g.bdf@.len() == 0
    &&& g.pcie_width == 0
    &&& g.pcie_speed_gt == 0
    &&& g.driver_version@.len() == 0
    &&& g.vbios_version@.len() == 0
    &&& g.temp_edge_mc == temp_field(c.temp1_input@)
    &&& g.temp_hotspot_mc is None
    &&& g.temp_vram_mc is None
    &&& g.gfx_clock_mhz is None
    &&& g.mem_clock_mhz is None
    &&& g.gfx_util_percent is None
    &&& g.power_mw is None
    &&& g.power_cap_mw is None
    &&& g.backend@ == "sysfs"@
    &&& g.processes@.len() == 0
}

/// `v` without leading `0x`.
fn strip_0x_chars(v: &Vec<char>) -> (r: Vec<char>)
    ensures
        r@ == strip_0x(v@),
{
    let n = v.len();
    let mut k: usize = 0;
    assert(v@.skip(0) =~= v@);
    while n - k >= 2 && v[k] == '0' && v[k + 1] == 'x'
        invariant
            k <= n == v.len(),
            strip_0x(v@) == strip_0x(v@.skip(k as int)),
        decreases n - k,
    {
        assert(v@.skip(k as int).skip(2) =~= v@.skip(k + 2));
        k = k + 2;
    }
    let r = slice_chars(v, k, n);
    assert(r@ =~= v@.skip(k as int));
    r
}

impl LinuxSysfsBackend {
    /// Whether a DRM entry name is a card.
    pub fn is_card_entry(name: &str) -> (r: bool)
        ensures
            r == card_name(name@),
    {
        let v = chars_of(name);
        str_starts_with(&v, "card") && !str_contains(&v, "render")
    }

    /// Whether a vendor file names AMD (`0x1002`, any case, surrounding space ignored).
    pub fn is_amd_vendor(vendor: &str) -> (r: bool)
        ensures
            r == amd_vendor_text(vendor@),
    {
        let v = trim_chars(&chars_of(vendor));
        eq_ignore_ascii_case_chars(&v, &chars_of("0x1002"))
    }

    /// A 32-bit hexadecimal field, or `default`.
    pub fn hex_u32(text: &str, default: u32) -> (r: u32)
        ensures
            r == hex_field(text@, u32::MAX as nat, default as nat),
    {
        let v = strip_0x_chars(&trim_chars(&chars_of(text)));
        match parse_u32_radix(&v, 16) {
            Some(x) => x,
            None => default,
        }
    }

    /// A 64-bit hexadecimal field, or 0.
    pub fn hex_u64(text: &str) -> (r: u64)
        ensures
            r == hex_field(text@, u64::MAX as nat, 0),
    {
        let v = strip_0x_chars(&trim_chars(&chars_of(text)));
        match parse_u64_radix(&v, 16) {
            Some(x) => x,
            None => 0,
        }
    }

    /// A byte count as MiB.
    pub fn mb(text: &str) -> (r: u32)
        ensures
            r == mb_field(text@),
    {
        let v = trim_chars(&chars_of(text));
        match parse_u64_radix(&v, 10) {
            Some(b) => (b / 1024 / 1024) as u32,
            None => 0,
        }
    }

    /// A temperature in thousandths of a degree.
    pub fn temp(text: &str) -> (r: Option<i64>)
        ensures
            r == temp_field(text@),
    {
        let t = trim_chars(&chars_of(text));
        let signed = t.len() > 0 && (t[0] == '-' || t[0] == '+');
        let neg = t.len() > 0 && t[0] == '-';
        let body = if signed {
            slice_chars(&t, 1, t.len())
        } else {
            slice_chars(&t, 0, t.len())
        };
        assert(signed ==> body@ =~= t@.drop_first());
        assert(!signed ==> body@ =~= t@);
        let (a, b) = match split_once_chars(&body, '.') {
            Some((a, b)) => (a, b),
            None => (body, Vec::new()),
        };
        assert(decimal_parts(t@) is Some <==> (all_digits(a@, 10) && all_digits(b@, 10) && a@.len() + b@.len() > 0));
        if !(all_decimal(&a) && all_decimal(&b) && (a.len() > 0 || b.len() > 0)) {
            return None;
        }
        let n = a.len();
        assert(a@.subrange(0, n as int) =~= a@);
        let x = match digits_value_range(&a, 0, n, 10, 0x8000_0000_0000_0000u64) {
            Some(x) => x,
            None => return None,
        };
        let up: u64 = if b.len() > 0 && digit_value_char(b[0]) >= 5 { 1 } else { 0 };
        let mag: u64 = x + up;
        if neg {
            if mag <= 0x8000_0000_0000_0000u64 {
                let m: i128 = -(mag as i128);
                Some(m as i64)
            } else {
                None
            }
        } else if mag <= 0x7FFF_FFFF_FFFF_FFFFu64 {
            Some(mag as i64)
        } else {
            None
        }
    }

    /// Whether card `c` is an AMD card.
    pub fn accepts(c: &SysfsCard) -> (r: bool)
        ensures
            r == sysfs_accepts(*c),
    {
        Self::is_card_entry(c.name.as_str()) && Self::is_amd_vendor(c.vendor.as_str())
    }

    /// The GPU at position `i` made from card `c`.
    pub fn gpu_from_card(i: u32, c: &SysfsCard) -> (g: GpuInfo)
        ensures
            sysfs_gpu(g, i as int, *c),
    {
        let mut name = string_from("AMD GPU ");
        append_str(&mut name, c.name.as_str());
        GpuInfo {
            index: i,
            market_name: name,
            vendor_id: Self::hex_u32(c.vendor.as_str(), 0x1002),
            vendor_name: string_from("AMD"),
            device_id: Self::hex_u64(c.device.as_str()),
            subsystem_id: Self::hex_u32(c.subsystem_device.as_str(), 0),
            rev_id: 0,
            asic_serial: String::new(),
            num_cu: 0,
            gfx_version: string_from("unknown"),
            vram_type: string_from("unknown"),
            vram_total_mb: Self::mb(c.mem_info_vram_total.as_str()),
            vram_used_mb: Self::mb(c.mem_info_vram_used.as_str()),
            vram_pinned_mb: 0,
            vram_vendor: String::new(),
            bdf: String::new(),
            pcie_width: 0,
            pcie_speed_gt: 0,
            driver_version: String::new(),
            vbios_version: String::new(),
            temp_edge_mc: Self::temp(c.temp1_input.as_str()),
            temp_hotspot_mc: None,
            temp_vram_mc: None,
            gfx_clock_mhz: None,
            mem_clock_mhz: None,
            gfx_util_percent: None,
            power_mw: None,
            power_cap_mw: None,
            backend: string_from("sysfs"),
            processes: Vec::new(),
        }
    }

    /// One GPU per AMD card, numbered in order; no AMD card is an error.
    /// The cards are the DRM entries that have a `device` directory.
    pub fn gpus_from_cards(cards: &Vec<SysfsCard>) -> (r: Result<Vec<GpuInfo>, DiscoverError>)
        ensures
            match r {
                Ok(gs) => gs.len() == accepted_cards(cards@).len() && gs.len() > 0 && forall|i: int|
                    0 <= i < gs.len() ==> sysfs_gpu(#[trigger] gs@[i], i, accepted_cards(cards@)[i]),
                Err(e) => accepted_cards(cards@).len() == 0 && e == DiscoverError::NoAmdDrmCards,
            },
    {
        let mut gs: Vec<GpuInfo> = Vec::new();
        let mut k: usize = 0;
        assert(cards@.take(0) =~= Seq::<SysfsCard>::empty());
        while k < cards.len()
            invariant
                k <= cards.len(),
                gs.len() == accepted_cards(cards@.take(k as int)).len(),
                forall|i: int|
                    0 <= i < gs.len() ==> sysfs_gpu(
                        #[trigger] gs@[i],
                        i,
                        accepted_cards(cards@.take(k as int))[i],
                    ),
            decreases cards.len() - k,
        {
            proof {
                assert(cards@.take(k + 1).drop_last() =~= cards@.take(k as int));
                assert(cards@.take(k + 1).last() == cards@[k as int]);
            }
            if Self::accepts(&cards[k]) {
                let idx = gs.len();
                let g = Self::gpu_from_card(idx as u32, &cards[k]);
                gs.push(g);
            }
            k = k + 1;
        }
        assert(cards@.take(cards.len() as int) =~= cards@);
        if gs.len() == 0 {
            return Err(DiscoverError::NoAmdDrmCards);
        }
        Ok(gs)
    }
}

} // verus!
