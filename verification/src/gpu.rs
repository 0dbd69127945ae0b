//! The record that every backend fills in for one GPU (a portable mirror of
//! amdsmi's `amdsmi_asic_info_t` and `amdsmi_pcie_info_t`), and the processes
//! that use it.
//!
//! Sensor readings are kept as integers: temperatures in thousandths of a
//! degree Celsius and power in milliwatts.
use vstd::prelude::*;
use crate::num::radix_digits;

verus! {

/// One process holding memory on a GPU.
pub struct ProcessInfo {
    pub pid: u32,
    pub name: String,
    pub mem_used_mb: u32,
    /// `"G"` (graphics) or `"C"` (compute).
    pub proc_type: String,
}

/// Everything known about one GPU.
pub struct GpuInfo {
    pub index: u32,
    /// Marketing name (`amdsmi_asic_info_t.market_name`).
    pub market_name: String,
    pub vendor_id: u32,
    pub vendor_name: String,
    pub device_id: u64,
    pub subsystem_id: u32,
    pub rev_id: u32,
    pub asic_serial: String,
    pub num_cu: u32,
    /// Target graphics version such as `"gfx1201"`.
    pub gfx_version: String,
    pub vram_type: String,
    pub vram_total_mb: u32,
    pub vram_used_mb: u32,
    pub vram_pinned_mb: u32,
    pub vram_vendor: String,
    /// PCI location such as `"0000:03:00.0"`.
    pub bdf: String,
    pub pcie_width: u16,
    pub pcie_speed_gt: u32,
    pub driver_version: String,
    pub vbios_version: String,
    /// Edge temperature, thousandths of a degree Celsius.
    pub temp_edge_mc: Option<i64>,
    /// Hotspot temperature, thousandths of a degree Celsius.
    pub temp_hotspot_mc: Option<i64>,
    /// Memory temperature, thousandths of a degree Celsius.
    pub temp_vram_mc: Option<i64>,
    pub gfx_clock_mhz: Option<u32>,
    pub mem_clock_mhz: Option<u32>,
    pub gfx_util_percent: Option<u32>,
    /// Board power, milliwatts.
    pub power_mw: Option<u64>,
    /// Power cap, milliwatts.
    pub power_cap_mw: Option<u64>,
    /// The backends that contributed, such as `"hip+wmi+adl"`.
    pub backend: String,
    pub processes: Vec<ProcessInfo>,
}

/// The text `gfx_version_str` gives for a raw target graphics version.
pub open spec fn gfx_version_text(raw: u64) -> Seq<char> {
    if raw == 0xFFFF_FFFF_FFFF_FFFF || raw == 0xFFFF_FFFF || raw == 0 {
        "unknown"@
    } else {
        "gfx"@ + radix_digits(raw as nat, 16)
    }
}

impl GpuInfo {
    /// The target graphics version as `gfx` and its lower-case hexadecimal digits
    /// (AMD encodes gfx1201 as 0x1201); `"unknown"` for 0 and the all-ones values.
    pub fn gfx_version_str(raw: u64) -> (s: String)
        ensures
            s@ == gfx_version_text(raw),
    {
        if raw == 0xFFFF_FFFF_FFFF_FFFF || raw == 0xFFFF_FFFF || raw == 0 {
            return crate::text::string_from("unknown");
        }
        let mut s = crate::text::string_from("gfx");
        crate::text::append_chars(&mut s, &crate::num::radix_chars(raw, 16));
        s
    }
}

/// No sensor has been read and no process is known yet.
pub open spec fn no_readings(g: GpuInfo) -> bool {
    &&& g.temp_edge_mc is None
    &&& g.temp_hotspot_mc is None
    &&& g.temp_vram_mc is None
    &&& g.gfx_clock_mhz is None
    &&& g.mem_clock_mhz is None
    &&& g.gfx_util_percent is None
    &&& g.power_mw is None
    &&& g.power_cap_mw is None
    &&& g.processes@.len() == 0
}

// ----------------------------------------------------------------------
// Ordering by memory use
// ----------------------------------------------------------------------

/// How many leading elements of `s` have a key of at least `m`: where a stable
/// descending insertion puts an element with key `m`.
pub open spec fn desc_pos<T>(s: Seq<T>, key: spec_fn(T) -> u32, m: u32) -> nat
    decreases s.len(),
{
    if s.len() == 0 || key(s[0]) < m {
        0
    } else {
        1 + desc_pos(s.drop_first(), key, m)
    }
}

/// `s` with `x` inserted after every element whose key is at least its own.
pub open spec fn insert_desc<T>(s: Seq<T>, key: spec_fn(T) -> u32, x: T) -> Seq<T> {
    s.insert(desc_pos(s, key, key(x)) as int, x)
}

/// `s` sorted by descending key, stably (equal keys keep their order): what
/// `sort_by(|a, b| key(b).cmp(&key(a)))` gives.
pub open spec fn sort_desc<T>(s: Seq<T>, key: spec_fn(T) -> u32) -> Seq<T>
    decreases s.len(),
{
    if s.len() == 0 {
        seq![]
    } else {
        insert_desc(sort_desc(s.drop_last(), key), key, s.last())
    }
}

/// The memory use of a process.
pub open spec fn proc_mem(p: ProcessInfo) -> u32 {
    p.mem_used_mb
}

/// The memory use of a process listed with its GPU.
pub open spec fn row_mem(r: (u32, ProcessInfo)) -> u32 {
    r.1.mem_used_mb
}

/// The insertion position is within the sequence.
pub proof fn lemma_desc_pos_le<T>(s: Seq<T>, key: spec_fn(T) -> u32, m: u32)
    ensures
        desc_pos(s, key, m) <= s.len(),
    decreases s.len(),
{
    if s.len() > 0 && key(s[0]) >= m {
        lemma_desc_pos_le(s.drop_first(), key, m);
    }
}

/// Sorting keeps the length.
pub proof fn lemma_sort_desc_len<T>(s: Seq<T>, key: spec_fn(T) -> u32)
    ensures
        sort_desc(s, key).len() == s.len(),
    decreases s.len(),
{
    if s.len() > 0 {
        lemma_sort_desc_len(s.drop_last(), key);
        lemma_desc_pos_le(sort_desc(s.drop_last(), key), key, key(s.last()));
    }
}

/// The insertion position splits a descending sequence: every element before
/// it has a key of at least `m`, the element at it (if any) a smaller key.
pub proof fn lemma_desc_pos_split<T>(s: Seq<T>, key: spec_fn(T) -> u32, m: u32)
    ensures
        desc_pos(s, key, m) <= s.len(),
        forall|i: int| 0 <= i < desc_pos(s, key, m) ==> key(#[trigger] s[i]) >= m,
        desc_pos(s, key, m) < s.len() ==> key(s[desc_pos(s, key, m) as int]) < m,
    decreases s.len(),
{
    if s.len() > 0 && key(s[0]) >= m {
        let t = s.drop_first();
        lemma_desc_pos_split(t, key, m);
        assert forall|i: int| 0 <= i < desc_pos(s, key, m) implies key(#[trigger] s[i]) >= m by {
            if i > 0 {
                assert(s[i] == t[i - 1]);
            }
        };
        if desc_pos(s, key, m) < s.len() {
            assert(s[desc_pos(s, key, m) as int] == t[desc_pos(t, key, m) as int]);
        }
    }
}

/// `s` is in descending order of `key`.
pub open spec fn is_desc<T>(s: Seq<T>, key: spec_fn(T) -> u32) -> bool {
    forall|i: int, j: int| 0 <= i < j < s.len() ==> key(#[trigger] s[i]) >= key(#[trigger] s[j])
}

/// Sorting by descending key gives a sequence in descending order: the
/// process list always shows the largest memory user first.
pub proof fn law_sort_desc_sorted<T>(s: Seq<T>, key: spec_fn(T) -> u32)
    ensures
        is_desc(sort_desc(s, key), key),
    decreases s.len(),
{
    if s.len() > 0 {
        let t = sort_desc(s.drop_last(), key);
        law_sort_desc_sorted(s.drop_last(), key);
        let x = s.last();
        let m = key(x);
        let pos = desc_pos(t, key, m) as int;
        lemma_desc_pos_split(t, key, m);
        let r = t.insert(pos, x);
        assert(sort_desc(s, key) == r);
        assert forall|i: int, j: int| 0 <= i < j < r.len() implies key(#[trigger] r[i]) >= key(#[trigger] r[j]) by {
            if j < pos {
                assert(r[i] == t[i] && r[j] == t[j]);
            } else if j == pos {
                assert(r[i] == t[i] && r[j] == x);
            } else if i < pos {
                assert(r[i] == t[i] && r[j] == t[j - 1]);
            } else if i == pos {
                assert(r[i] == x && r[j] == t[j - 1]);
                assert(key(t[pos]) < m);
                if j - 1 > pos {
                    assert(key(t[pos]) >= key(t[j - 1]));
                }
            } else {
                assert(r[i] == t[i - 1] && r[j] == t[j - 1]);
            }
        };
    }
}

/// Sorting only reorders: the sorted sequence holds the same elements, each as
/// many times.
pub proof fn law_sort_desc_permutes<T>(s: Seq<T>, key: spec_fn(T) -> u32)
    ensures
        sort_desc(s, key).to_multiset() =~= s.to_multiset(),
    decreases s.len(),
{
    broadcast use vstd::seq_lib::group_to_multiset_ensures;
    broadcast use vstd::multiset::group_multiset_axioms;
    if s.len() == 0 {
        assert(sort_desc(s, key) =~= s);
    } else {
        let init = s.drop_last();
        let t = sort_desc(init, key);
        law_sort_desc_permutes(init, key);
        let x = s.last();
        let pos = desc_pos(t, key, key(x)) as int;
        lemma_desc_pos_le(t, key, key(x));
        let r = t.insert(pos, x);
        assert(sort_desc(s, key) == r);
        assert(r.remove(pos) =~= t);
        assert(r[pos] == x);
        assert(r.remove(pos).to_multiset() =~= r.to_multiset().remove(x));
        assert(r.contains(x));
        assert(r.to_multiset().count(x) > 0);
        assert(init.push(x) =~= s);
        assert(s.to_multiset() =~= init.to_multiset().insert(x));
        assert(r.to_multiset() =~= r.to_multiset().remove(x).insert(x));
    }
}

/// Where the scan for the insertion point of key `m` in `v[..]` stops.
fn desc_pos_procs(v: &Vec<ProcessInfo>, m: u32) -> (j: usize)
    ensures
        j == desc_pos(v@, |p: ProcessInfo| proc_mem(p), m),
{
    let mut j: usize = 0;
    assert(v@.skip(0) =~= v@);
    while j < v.len() && v[j].mem_used_mb >= m
        invariant
            j <= v.len(),
            desc_pos(v@, |p: ProcessInfo| proc_mem(p), m) == j + desc_pos(
                v@.skip(j as int),
                |p: ProcessInfo| proc_mem(p),
                m,
            ),
        decreases v.len() - j,
    {
        assert(v@.skip(j as int).drop_first() =~= v@.skip(j + 1));
        j = j + 1;
    }
    j
}

/// Sort the processes of a GPU by descending memory use, keeping the order of
/// equal ones.
pub fn sort_processes(gpu: &mut GpuInfo)
    ensures
        final(gpu).processes@ == sort_desc(old(gpu).processes@, |p: ProcessInfo| proc_mem(p)),
        *final(gpu) == (GpuInfo { processes: final(gpu).processes, ..*old(gpu) }),
{
    let mut ps: Vec<ProcessInfo> = Vec::new();
    std::mem::swap(&mut ps, &mut gpu.processes);
    let ghost orig = ps@;
    assert(orig.len() == ps.len());
    let mut out: Vec<ProcessInfo> = Vec::new();
    let mut i: usize = 0;
    assert(orig.take(0) =~= Seq::<ProcessInfo>::empty());
    while ps.len() > 0
        invariant
            i <= orig.len(),
            orig.len() <= usize::MAX,
            ps@ == orig.skip(i as int),
            out@ == sort_desc(orig.take(i as int), |p: ProcessInfo| proc_mem(p)),
        decreases ps.len(),
    {
        assert(i < orig.len());
        let p = ps.remove(0);
        let j = desc_pos_procs(&out, p.mem_used_mb);
        proof {
            lemma_desc_pos_le(out@, |p: ProcessInfo| proc_mem(p), p.mem_used_mb);
            assert(orig.take(i + 1).drop_last() =~= orig.take(i as int));
            assert(orig.take(i + 1).last() == p);
            assert(orig.skip(i as int).drop_first() =~= orig.skip(i + 1));
        }
        out.insert(j, p);
        i = i + 1;
    }
    assert(orig.take(i as int) =~= orig);
    gpu.processes = out;
}

} // verus!
