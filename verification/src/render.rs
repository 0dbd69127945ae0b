//! The text table printed for people: one row per GPU, an optional detail line,
//! and the processes by memory use.
use vstd::prelude::*;
use crate::text::{chars_of, string_from, push_char, append_str, append_chars, utf8_len};
use crate::num::{radix_digits, radix_chars};
use crate::gpu::{GpuInfo, ProcessInfo, sort_desc, desc_pos, row_mem, lemma_desc_pos_le};
use crate::http::{truncate, truncate_text};

verus! {

/// The columns whose text comes from floating-point readings, formatted by the
/// caller: temperature (`45C`), power (`8.2W`), the VRAM use percentage, and
/// for the detail line the hotspot (`hotspot 44C `) and memory (`vram 40C `)
/// temperatures (empty when absent).
pub struct FloatColumns {
    pub temp: String,
    pub power: String,
    pub vram_pct: u32,
    pub hotspot: String,
    pub vram_temp: String,
}

/// `n` spaces.
pub open spec fn spaces(n: nat) -> Seq<char> {
    Seq::new(n, |i: int| ' ')
}

/// `s` left-aligned in a field of `w` characters (`{:<w}`).
pub open spec fn pad_right(s: Seq<char>, w: nat) -> Seq<char> {
    if s.len() < w {
        s + spaces((w - s.len()) as nat)
    } else {
        s
    }
}

/// `s` right-aligned in a field of `w` characters (`{:>w}`).
pub open spec fn pad_left(s: Seq<char>, w: nat) -> Seq<char> {
    if s.len() < w {
        spaces((w - s.len()) as nat) + s
    } else {
        s
    }
}

/// Append `n` spaces.
fn push_spaces(out: &mut String, n: usize)
    ensures
        final(out)@ == old(out)@ + spaces(n as nat),
{
    let mut k: usize = 0;
    while k < n
        invariant
            k <= n,
            out@ == old(out)@ + spaces(k as nat),
        decreases n - k,
    {
        push_char(out, ' ');
        assert(spaces((k + 1) as nat) =~= spaces(k as nat).push(' '));
        k = k + 1;
    }
}

/// The number of characters of `s`.
fn char_count(s: &str) -> (n: usize)
    ensures
        n == s@.len(),
{
    chars_of(s).len()
}

/// Append `s` left-aligned in a field of `w` characters.
pub fn push_padded(out: &mut String, s: &str, w: usize)
    ensures
        final(out)@ == old(out)@ + pad_right(s@, w as nat),
{
    append_str(out, s);
    let n = char_count(s);
    if n < w {
        push_spaces(out, w - n);
    }
}

/// Append `s` right-aligned in a field of `w` characters.
pub fn push_padded_left(out: &mut String, s: &str, w: usize)
    ensures
        final(out)@ == old(out)@ + pad_left(s@, w as nat),
{
    let n = char_count(s);
    if n < w {
        push_spaces(out, w - n);
    }
    append_str(out, s);
}

/// `n` in decimal.
fn dec(n: u64) -> (s: String)
    ensures
        s@ == radix_digits(n as nat, 10),
{
    crate::num::dec_string(n)
}

/// The line that opens the table.
pub open spec fn header_text(count: nat, ts: Seq<char>, watch: Option<u64>) -> Seq<char> {
    "AMD SMI Portable | "@ + radix_digits(count, 10) + " GPU(s) | "@ + ts + " | backend "@ + match watch {
        Some(s) => "watch "@ + radix_digits(s as nat, 10) + "s"@,
        None => "one-shot"@,
    } + " | Ctrl-C to exit"@
}

/// The line that opens the table: GPU count, time stamp and mode.
pub fn header_line(count: usize, ts: &str, watch: Option<u64>) -> (r: String)
    ensures
        r@ == header_text(count as nat, ts@, watch),
{
    let mut r = string_from("AMD SMI Portable | ");
    append_chars(&mut r, &radix_chars(count as u64, 10));
    append_str(&mut r, " GPU(s) | ");
    append_str(&mut r, ts);
    append_str(&mut r, " | backend ");
    match watch {
        Some(s) => {
            append_str(&mut r, "watch ");
            append_chars(&mut r, &radix_chars(s, 10));
            append_str(&mut r, "s");
        },
        None => append_str(&mut r, "one-shot"),
    }
    append_str(&mut r, " | Ctrl-C to exit");
    r
}

/// The ten columns of a GPU row, with their widths.
pub open spec fn row_text(
    c0: Seq<char>,
    c1: Seq<char>,
    c2: Seq<char>,
    c3: Seq<char>,
    c4: Seq<char>,
    c5: Seq<char>,
    c6: Seq<char>,
    c7: Seq<char>,
    c8: Seq<char>,
    c9: Seq<char>,
) -> Seq<char> {
    pad_right(c0, 3) + " "@ + pad_right(c1, 26) + " "@ + pad_right(c2, 8) + " "@ + pad_right(c3, 23)
        + " "@ + pad_right(c4, 9) + " "@ + pad_right(c5, 6) + " "@ + pad_right(c6, 8) + " "@
        + pad_right(c7, 6) + " "@ + pad_right(c8, 8) + " "@ + pad_right(c9, 8)
}

/// Lay out the ten columns of a GPU row.
fn row_string(
    c0: &str,
    c1: &str,
    c2: &str,
    c3: &str,
    c4: &str,
    c5: &str,
    c6: &str,
    c7: &str,
    c8: &str,
    c9: &str,
) -> (r: String)
    ensures
        r@ == row_text(c0@, c1@, c2@, c3@, c4@, c5@, c6@, c7@, c8@, c9@),
{
    let mut r = String::new();
    push_padded(&mut r, c0, 3);
    append_str(&mut r, " ");
    push_padded(&mut r, c1, 26);
    append_str(&mut r, " ");
    push_padded(&mut r, c2, 8);
    append_str(&mut r, " ");
    push_padded(&mut r, c3, 23);
    append_str(&mut r, " ");
    push_padded(&mut r, c4, 9);
    append_str(&mut r, " ");
    push_padded(&mut r, c5, 6);
    append_str(&mut r, " ");
    push_padded(&mut r, c6, 8);
    append_str(&mut r, " ");
    push_padded(&mut r, c7, 6);
    append_str(&mut r, " ");
    push_padded(&mut r, c8, 8);
    append_str(&mut r, " ");
    push_padded(&mut r, c9, 8);
    assert(r@ =~= row_text(c0@, c1@, c2@, c3@, c4@, c5@, c6@, c7@, c8@, c9@));
    r
}

/// The column titles.
pub open spec fn column_header_text() -> Seq<char> {
    row_text(
        "ID"@,
        "Name"@,
        "GFX"@,
        "VRAM (Used/Total)"@,
        "Pinned"@,
        "Temp"@,
        "GCLK"@,
        "Util"@,
        "Power"@,
        "Backend"@,
    )
}

/// The column titles.
pub fn column_header() -> (r: String)
    ensures
        r@ == column_header_text(),
{
    row_string("ID", "Name", "GFX", "VRAM (Used/Total)", "Pinned", "Temp", "GCLK", "Util", "Power", "Backend")
}

/// `n` dashes.
pub open spec fn dashes(n: nat) -> Seq<char> {
    Seq::new(n, |i: int| '-')
}

/// A rule of `n` dashes.
pub fn rule(n: usize) -> (r: String)
    ensures
        r@ == dashes(n as nat),
{
    let mut r = String::new();
    let mut k: usize = 0;
    while k < n
        invariant
            k <= n,
            r@ == dashes(k as nat),
        decreases n - k,
    {
        push_char(&mut r, '-');
        assert(dashes((k + 1) as nat) =~= dashes(k as nat).push('-'));
        k = k + 1;
    }
    r
}

/// The VRAM column: used and total with the use percentage, or the total alone
/// when nothing is in use, or `-` when the total is unknown.
pub open spec fn vram_text(g: GpuInfo, pct: u32) -> Seq<char> {
    if g.vram_total_mb > 0 {
        if g.vram_used_mb > 0 {
            radix_digits(g.vram_used_mb as nat, 10) + " / "@ + radix_digits(g.vram_total_mb as nat, 10)
                + " MB ("@ + radix_digits(pct as nat, 10) + "%)"@
        } else {
            "0 / "@ + radix_digits(g.vram_total_mb as nat, 10) + " MB"@
        }
    } else {
        "-"@
    }
}

/// The VRAM column of a GPU.
pub fn vram_column(g: &GpuInfo, pct: u32) -> (r: String)
    ensures
        r@ == vram_text(*g, pct),
{
    if g.vram_total_mb > 0 {
        if g.vram_used_mb > 0 {
            let mut r = dec(g.vram_used_mb as u64);
            append_str(&mut r, " / ");
            append_str(&mut r, dec(g.vram_total_mb as u64).as_str());
            append_str(&mut r, " MB (");
            append_str(&mut r, dec(pct as u64).as_str());
            append_str(&mut r, "%)");
            r
        } else {
            let mut r = string_from("0 / ");
            append_str(&mut r, dec(g.vram_total_mb as u64).as_str());
            append_str(&mut r, " MB");
            r
        }
    } else {
        string_from("-")
    }
}

/// An optional integer with a unit, or `-`.
pub open spec fn opt_unit_text(v: Option<u32>, unit: Seq<char>) -> Seq<char> {
    match v {
        Some(x) => radix_digits(x as nat, 10) + unit,
        None => "-"@,
    }
}

/// An optional integer with a unit, or `-`.
fn opt_unit(v: Option<u32>, unit: &str) -> (r: String)
    ensures
        r@ == opt_unit_text(v, unit@),
{
    match v {
        Some(x) => {
            let mut r = dec(x as u64);
            append_str(&mut r, unit);
            r
        },
        None => string_from("-"),
    }
}

/// The pinned-memory column.
pub open spec fn pinned_text(g: GpuInfo) -> Seq<char> {
    if g.vram_pinned_mb > 0 {
        radix_digits(g.vram_pinned_mb as nat, 10) + " MB"@
    } else {
        "-"@
    }
}

/// `s` can be cut to `n` bytes by `truncate` (the cut falls on a character
/// boundary).
pub open spec fn cuttable(s: Seq<char>, n: nat) -> bool {
    utf8_len(s) > n ==> n >= 3 && vstd::utf8::is_char_boundary(vstd::utf8::encode_utf8(s), n - 3)
}

/// The table row of `g` with the float columns `f`: index, name (cut to 26
/// bytes), target, VRAM (cut to 23), pinned, temperature, clock, activity,
/// power and backend (cut to 8).
pub open spec fn gpu_row_text(g: GpuInfo, f: FloatColumns) -> Seq<char> {
    row_text(
        radix_digits(g.index as nat, 10),
        truncate_text(g.market_name@, 26),
        g.gfx_version@,
        truncate_text(vram_text(g, f.vram_pct), 23),
        pinned_text(g),
        f.temp@,
        opt_unit_text(g.gfx_clock_mhz, "MHz"@),
        opt_unit_text(g.gfx_util_percent, "%"@),
        f.power@,
        truncate_text(g.backend@, 8),
    )
}

/// The table row of one GPU. The name and backend must be cuttable at their
/// column widths.
pub fn gpu_row(g: &GpuInfo, f: &FloatColumns) -> (r: String)
    requires
        cuttable(g.market_name@, 26),
        cuttable(g.backend@, 8),
    ensures
        r@ == gpu_row_text(*g, *f),
{
    let vram = vram_column(g, f.vram_pct);
    proof {
        lemma_vram_text_ascii(*g, f.vram_pct);
        lemma_ascii_cuttable(vram@, 23);
    }
    let name = truncate(g.market_name.as_str(), 26);
    let vram_t = truncate(vram.as_str(), 23);
    let backend = truncate(g.backend.as_str(), 8);
    let pinned = if g.vram_pinned_mb > 0 {
        let mut p = dec(g.vram_pinned_mb as u64);
        append_str(&mut p, " MB");
        p
    } else {
        string_from("-")
    };
    let id = dec(g.index as u64);
    let gclk = opt_unit(g.gfx_clock_mhz, "MHz");
    let util = opt_unit(g.gfx_util_percent, "%");
    let r = row_string(
        id.as_str(),
        name.as_str(),
        g.gfx_version.as_str(),
        vram_t.as_str(),
        pinned.as_str(),
        f.temp.as_str(),
        gclk.as_str(),
        util.as_str(),
        f.power.as_str(),
        backend.as_str(),
    );
    r
}

/// The digits of a number are ASCII.
proof fn lemma_digits_ascii(n: nat)
    ensures
        vstd::utf8::is_ascii_chars(radix_digits(n, 10)),
    decreases n,
{
    if n >= 10 {
        lemma_digits_ascii(n / 10);
        let a = radix_digits(n / 10, 10);
        let c = crate::num::digit_char(n % 10);
        assert(radix_digits(n, 10) == a.push(c));
        assert forall|i: int| 0 <= i < a.push(c).len() implies '\0' <= #[trigger] a.push(c)[i] <= '\u{7f}' by {
            if i < a.len() {
                assert(a.push(c)[i] == a[i]);
            }
        };
    }
}

/// Concatenation keeps text ASCII.
proof fn lemma_ascii_concat(a: Seq<char>, b: Seq<char>)
    requires
        vstd::utf8::is_ascii_chars(a),
        vstd::utf8::is_ascii_chars(b),
    ensures
        vstd::utf8::is_ascii_chars(a + b),
{
    assert forall|i: int| 0 <= i < (a + b).len() implies '\0' <= #[trigger] (a + b)[i] <= '\u{7f}' by {
        if i < a.len() {
            assert((a + b)[i] == a[i]);
        } else {
            assert((a + b)[i] == b[i - a.len()]);
        }
    };
}

/// An ASCII text can be cut anywhere.
proof fn lemma_ascii_cuttable(s: Seq<char>, n: nat)
    requires
        vstd::utf8::is_ascii_chars(s),
        n >= 3,
    ensures
        cuttable(s, n),
{
    vstd::utf8::is_ascii_chars_encode_utf8(s);
    vstd::utf8::encode_utf8_valid_utf8(s);
    let b = vstd::utf8::encode_utf8(s);
    if utf8_len(s) > n && n >= 3 {
        let k = n - 3;
        assert(b[k] == s[k] as u8);
        assert((s[k] as u32) < 128);
        let x: u8 = b[k];
        assert(!vstd::utf8::is_continuation_byte(x)) by (bit_vector)
            requires
                x < 128,
        ;
        vstd::utf8::is_char_boundary_iff_not_is_continuation_byte(b, k);
    }
}

/// The VRAM column is ASCII.
proof fn lemma_vram_text_ascii(g: GpuInfo, pct: u32)
    ensures
        vstd::utf8::is_ascii_chars(vram_text(g, pct)),
{
    reveal_strlit(" / ");
    reveal_strlit(" MB (");
    reveal_strlit("%)");
    reveal_strlit("0 / ");
    reveal_strlit(" MB");
    reveal_strlit("-");
    lemma_digits_ascii(g.vram_used_mb as nat);
    lemma_digits_ascii(g.vram_total_mb as nat);
    lemma_digits_ascii(pct as nat);
    let u = radix_digits(g.vram_used_mb as nat, 10);
    let t = radix_digits(g.vram_total_mb as nat, 10);
    let p = radix_digits(pct as nat, 10);
    assert(vstd::utf8::is_ascii_chars(" / "@));
    assert(vstd::utf8::is_ascii_chars(" MB ("@));
    assert(vstd::utf8::is_ascii_chars("%)"@));
    assert(vstd::utf8::is_ascii_chars("0 / "@));
    assert(vstd::utf8::is_ascii_chars(" MB"@));
    assert(vstd::utf8::is_ascii_chars("-"@));
    lemma_ascii_concat(u, " / "@);
    lemma_ascii_concat(u + " / "@, t);
    lemma_ascii_concat(u + " / "@ + t, " MB ("@);
    lemma_ascii_concat(u + " / "@ + t + " MB ("@, p);
    lemma_ascii_concat(u + " / "@ + t + " MB ("@ + p, "%)"@);
    lemma_ascii_concat("0 / "@, t);
    lemma_ascii_concat("0 / "@ + t, " MB"@);
}

/// `n` in hexadecimal, zero-padded to at least four digits (`{:04x}`).
pub open spec fn hex4(n: u32) -> Seq<char> {
    let d = radix_digits(n as nat, 16);
    if d.len() < 4 {
        Seq::new((4 - d.len()) as nat, |i: int| '0') + d
    } else {
        d
    }
}

/// `n` in hexadecimal, zero-padded to four digits.
fn hex4_string(n: u32) -> (s: String)
    ensures
        s@ == hex4(n),
{
    let d = radix_chars(n as u64, 16);
    let mut s = String::new();
    let mut k: usize = d.len();
    while k < 4
        invariant
            d.len() <= k <= 4 || (k == d.len() && d.len() >= 4),
            k >= d.len(),
            s@ == Seq::new((k - d.len()) as nat, |i: int| '0'),
        decreases 4 - k,
    {
        push_char(&mut s, '0');
        assert(s@ =~= Seq::new((k + 1 - d.len()) as nat, |i: int| '0'));
        k = k + 1;
    }
    append_chars(&mut s, &d);
    assert(d.len() >= 4 ==> s@ =~= d@);
    s
}

/// The detail line of a GPU: device id, extra temperatures, memory clock, link,
/// driver (cut to 20 bytes), memory type and free memory.
pub open spec fn verbose_text(g: GpuInfo, f: FloatColumns) -> Seq<char> {
    let free: nat = if g.vram_total_mb >= g.vram_used_mb {
        (g.vram_total_mb - g.vram_used_mb) as nat
    } else {
        0
    };
    let mclk = match g.mem_clock_mhz {
        Some(v) => "mclk "@ + radix_digits(v as nat, 10) + "MHz "@,
        None => seq![],
    };
    "    dev=0x"@ + hex4(g.device_id as u32) + " "@ + f.hotspot@ + " "@ + f.vram_temp@ + " "@ + mclk
        + " pcie=x"@ + radix_digits(g.pcie_width as nat, 10) + " "@ + radix_digits(
        g.pcie_speed_gt as nat,
        10,
    ) + "GT/s driver "@ + truncate_text(g.driver_version@, 20) + " | type: "@ + g.vram_type@
        + " free: "@ + radix_digits(free, 10) + "MB"@
}

/// The detail line of a GPU. The driver version must be cuttable at 20 bytes.
pub fn verbose_line(g: &GpuInfo, f: &FloatColumns) -> (r: String)
    requires
        cuttable(g.driver_version@, 20),
    ensures
        r@ == verbose_text(*g, *f),
{
    let free: u32 = if g.vram_total_mb >= g.vram_used_mb {
        g.vram_total_mb - g.vram_used_mb
    } else {
        0
    };
    let mut r = string_from("    dev=0x");
    append_str(&mut r, hex4_string(g.device_id as u32).as_str());
    append_str(&mut r, " ");
    append_str(&mut r, f.hotspot.as_str());
    append_str(&mut r, " ");
    append_str(&mut r, f.vram_temp.as_str());
    append_str(&mut r, " ");
    match g.mem_clock_mhz {
        Some(v) => {
            append_str(&mut r, "mclk ");
            append_str(&mut r, dec(v as u64).as_str());
            append_str(&mut r, "MHz ");
        },
        None => {},
    }
    append_str(&mut r, " pcie=x");
    append_str(&mut r, dec(g.pcie_width as u64).as_str());
    append_str(&mut r, " ");
    append_str(&mut r, dec(g.pcie_speed_gt as u64).as_str());
    append_str(&mut r, "GT/s driver ");
    append_str(&mut r, truncate(g.driver_version.as_str(), 20).as_str());
    append_str(&mut r, " | type: ");
    append_str(&mut r, g.vram_type.as_str());
    append_str(&mut r, " free: ");
    append_str(&mut r, dec(free as u64).as_str());
    append_str(&mut r, "MB");
    assert(r@ =~= verbose_text(*g, *f));
    r
}

/// The hint printed under the table unless in verbose mode.
pub open spec fn footer_text() -> Seq<char> {
    "\n(--watch 1 for realtime, --verbose for hotspot/vram temps, clocks & free VRAM, --json dump)"@
}

/// The hint printed under the table (none in verbose mode).
pub fn footer(verbose: bool) -> (r: Option<String>)
    ensures
        verbose ==> r is None,
        !verbose ==> (r matches Some(t) && t@ == footer_text()),
{
    if verbose {
        None
    } else {
        Some(string_from("\n(--watch 1 for realtime, --verbose for hotspot/vram temps, clocks & free VRAM, --json dump)"))
    }
}

// ----------------------------------------------------------------------
// The process list
// ----------------------------------------------------------------------

/// Every process of every GPU, with the GPU's index, GPU by GPU.
pub open spec fn all_processes(gs: Seq<GpuInfo>) -> Seq<(u32, ProcessInfo)>
    decreases gs.len(),
{
    if gs.len() == 0 {
        seq![]
    } else {
        all_processes(gs.drop_last()) + gs.last().processes@.map_values(
            |p: ProcessInfo| (gs.last().index, p),
        )
    }
}

/// A copy of a process record.
pub fn copy_process(p: &ProcessInfo) -> (r: ProcessInfo)
    ensures
        r == *p,
{
    ProcessInfo {
        pid: p.pid,
        name: p.name.clone(),
        mem_used_mb: p.mem_used_mb,
        proc_type: p.proc_type.clone(),
    }
}

/// Every process of every GPU, with the GPU's index.
pub fn collect_processes(gpus: &Vec<GpuInfo>) -> (r: Vec<(u32, ProcessInfo)>)
    ensures
        r@ == all_processes(gpus@),
{
    let mut r: Vec<(u32, ProcessInfo)> = Vec::new();
    let mut i: usize = 0;
    assert(gpus@.take(0) =~= Seq::<GpuInfo>::empty());
    while i < gpus.len()
        invariant
            i <= gpus.len(),
            r@ == all_processes(gpus@.take(i as int)),
        decreases gpus.len() - i,
    {
        let g = &gpus[i];
        let ghost base = r@;
        let ghost mapped = g.processes@.map_values(|p: ProcessInfo| (g.index, p));
        let mut j: usize = 0;
        while j < g.processes.len()
            invariant
                j <= g.processes.len(),
                mapped == g.processes@.map_values(|p: ProcessInfo| (g.index, p)),
                r@ == base + mapped.take(j as int),
            decreases g.processes.len() - j,
        {
            r.push((g.index, copy_process(&g.processes[j])));
            assert(mapped.take(j + 1) =~= mapped.take(j as int).push(mapped[j as int]));
            j = j + 1;
        }
        assert(mapped.take(g.processes.len() as int) =~= mapped);
        assert(gpus@.take(i + 1).drop_last() =~= gpus@.take(i as int));
        assert(gpus@.take(i + 1).last() == gpus@[i as int]);
        i = i + 1;
    }
    assert(gpus@.take(gpus.len() as int) =~= gpus@);
    r
}

/// Where a row with memory use `m` goes in `v`.
fn desc_pos_rows(v: &Vec<(u32, ProcessInfo)>, m: u32) -> (j: usize)
    ensures
        j == desc_pos(v@, |r: (u32, ProcessInfo)| row_mem(r), m),
{
    let mut j: usize = 0;
    assert(v@.skip(0) =~= v@);
    while j < v.len() && v[j].1.mem_used_mb >= m
        invariant
            j <= v.len(),
            desc_pos(v@, |r: (u32, ProcessInfo)| row_mem(r), m) == j + desc_pos(
                v@.skip(j as int),
                |r: (u32, ProcessInfo)| row_mem(r),
                m,
            ),
        decreases v.len() - j,
    {
        assert(v@.skip(j as int).drop_first() =~= v@.skip(j + 1));
        j = j + 1;
    }
    j
}

/// The rows sorted by descending memory use, equal ones in their order.
pub fn sort_rows(rows: Vec<(u32, ProcessInfo)>) -> (r: Vec<(u32, ProcessInfo)>)
    ensures
        r@ == sort_desc(rows@, |r: (u32, ProcessInfo)| row_mem(r)),
{
    let ghost orig = rows@;
    let mut ps = rows;
    let mut out: Vec<(u32, ProcessInfo)> = Vec::new();
    let mut i: usize = 0;
    assert(orig.take(0) =~= Seq::<(u32, ProcessInfo)>::empty());
    assert(orig.len() == ps.len());
    while ps.len() > 0
        invariant
            i <= orig.len(),
            orig.len() <= usize::MAX,
            ps@ == orig.skip(i as int),
            out@ == sort_desc(orig.take(i as int), |r: (u32, ProcessInfo)| row_mem(r)),
        decreases ps.len(),
    {
        assert(i < orig.len());
        let p = ps.remove(0);
        let j = desc_pos_rows(&out, p.1.mem_used_mb);
        proof {
            lemma_desc_pos_le(out@, |r: (u32, ProcessInfo)| row_mem(r), p.1.mem_used_mb);
            assert(orig.take(i + 1).drop_last() =~= orig.take(i as int));
            assert(orig.take(i + 1).last() == p);
            assert(orig.skip(i as int).drop_first() =~= orig.skip(i + 1));
        }
        out.insert(j, p);
        i = i + 1;
    }
    assert(orig.take(i as int) =~= orig);
    out
}

/// The title row of the process list.
pub open spec fn process_header_text() -> Seq<char> {
    pad_right("GPU"@, 4) + " "@ + pad_right("PID"@, 8) + " "@ + pad_right("Type"@, 6) + " "@
        + pad_right("Process Name"@, 42) + " "@ + pad_left("Memory Usage"@, 14)
}

/// The row of one process.
pub open spec fn process_row_text(r: (u32, ProcessInfo)) -> Seq<char> {
    pad_right(radix_digits(r.0 as nat, 10), 4) + " "@ + pad_right(radix_digits(r.1.pid as nat, 10), 8)
        + " "@ + pad_right(r.1.proc_type@, 6) + " "@ + pad_right(truncate_text(r.1.name@, 42), 42)
        + " "@ + pad_left(radix_digits(r.1.mem_used_mb as nat, 10), 11) + " MB"@
}

/// The row of one process. Its name must be cuttable at 42 bytes.
pub fn process_row(r: &(u32, ProcessInfo)) -> (s: String)
    requires
        cuttable(r.1.name@, 42),
    ensures
        s@ == process_row_text(*r),
{
    let mut s = String::new();
    push_padded(&mut s, dec(r.0 as u64).as_str(), 4);
    append_str(&mut s, " ");
    push_padded(&mut s, dec(r.1.pid as u64).as_str(), 8);
    append_str(&mut s, " ");
    push_padded(&mut s, r.1.proc_type.as_str(), 6);
    append_str(&mut s, " ");
    push_padded(&mut s, truncate(r.1.name.as_str(), 42).as_str(), 42);
    append_str(&mut s, " ");
    push_padded_left(&mut s, dec(r.1.mem_used_mb as u64).as_str(), 11);
    append_str(&mut s, " MB");
    assert(s@ =~= process_row_text(*r));
    s
}

/// How many process rows are shown: all in verbose mode, else at most 20.
pub open spec fn shown_count(total: nat, verbose: bool) -> nat {
    if verbose || total <= 20 {
        total
    } else {
        20
    }
}

/// The lines of the process list: nothing when no GPU has a process; else a
/// title, column titles, a rule, the rows by descending memory use (at most 20
/// unless verbose), and how many were left out.
pub open spec fn process_section_is(lines: Seq<Seq<char>>, gs: Seq<GpuInfo>, verbose: bool) -> bool {
    let rows = sort_desc(all_processes(gs), |r: (u32, ProcessInfo)| row_mem(r));
    let n = shown_count(rows.len(), verbose);
    if rows.len() == 0 {
        lines.len() == 0
    } else {
        &&& lines.len() == 3 + n + (if rows.len() > n { 1nat } else { 0nat })
        &&& lines[0] == "\nProcesses:"@
        &&& lines[1] == process_header_text()
        &&& lines[2] == dashes(76)
        &&& forall|k: int| 0 <= k < n ==> #[trigger] lines[3 + k] == process_row_text(rows[k])
        &&& rows.len() > n ==> lines[3 + n as int] == "  ... and "@ + radix_digits((rows.len() - n) as nat, 10)
            + " more processes (--verbose to show all)"@
    }
}

/// Every process row that the list shows has a name that can be cut at 42
/// bytes.
pub open spec fn shown_names_cuttable(gs: Seq<GpuInfo>, verbose: bool) -> bool {
    let rows = sort_desc(all_processes(gs), |r: (u32, ProcessInfo)| row_mem(r));
    forall|k: int| 0 <= k < shown_count(rows.len(), verbose) ==> cuttable(#[trigger] rows[k].1.name@, 42)
}

/// The lines of the process list of `gpus`. The name of every process that is
/// shown must be cuttable at 42 bytes.
pub fn process_section(gpus: &Vec<GpuInfo>, verbose: bool) -> (lines: Vec<String>)
    requires
        shown_names_cuttable(gpus@, verbose),
    ensures
        process_section_is(lines@.map_values(|l: String| l@), gpus@, verbose),
{
    let rows = sort_rows(collect_processes(gpus));
    let ghost all = all_processes(gpus@);
    proof {
        crate::gpu::lemma_sort_desc_len(all, |r: (u32, ProcessInfo)| row_mem(r));
    }
    let mut lines: Vec<String> = Vec::new();
    if rows.len() == 0 {
        assert(lines@.map_values(|l: String| l@) =~= Seq::<Seq<char>>::empty());
        return lines;
    }
    let max_show: usize = if verbose || rows.len() <= 20 {
        rows.len()
    } else {
        20
    };
    lines.push(string_from("\nProcesses:"));
    let mut h = String::new();
    push_padded(&mut h, "GPU", 4);
    append_str(&mut h, " ");
    push_padded(&mut h, "PID", 8);
    append_str(&mut h, " ");
    push_padded(&mut h, "Type", 6);
    append_str(&mut h, " ");
    push_padded(&mut h, "Process Name", 42);
    append_str(&mut h, " ");
    push_padded_left(&mut h, "Memory Usage", 14);
    assert(h@ =~= process_header_text());
    lines.push(h);
    lines.push(rule(76));
    let mut k: usize = 0;
    while k < max_show
        invariant
            k <= max_show <= rows.len(),
            rows@ == sort_desc(all, |r: (u32, ProcessInfo)| row_mem(r)),
            forall|t: int| 0 <= t < max_show ==> cuttable(#[trigger] rows@[t].1.name@, 42),
            lines.len() == 3 + k,
            lines@[0]@ == "\nProcesses:"@,
            lines@[1]@ == process_header_text(),
            lines@[2]@ == dashes(76),
            forall|t: int| 0 <= t < k ==> #[trigger] lines@[3 + t]@ == process_row_text(rows@[t]),
        decreases max_show - k,
    {
        lines.push(process_row(&rows[k]));
        k = k + 1;
    }
    if rows.len() > max_show {
        let mut m = string_from("  ... and ");
        append_str(&mut m, dec((rows.len() - max_show) as u64).as_str());
        append_str(&mut m, " more processes (--verbose to show all)");
        lines.push(m);
    }
    let ghost v = lines@.map_values(|l: String| l@);
    assert(forall|t: int| 0 <= t < lines.len() ==> v[t] == lines@[t]@);
    lines
}

} // verus!
