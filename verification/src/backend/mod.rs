//! GPU discovery: what each backend makes of the raw readings it gets, and how
//! the results of several backends are combined.
pub mod windows;
pub mod linux;
pub mod hip;

use vstd::prelude::*;
use crate::gpu::GpuInfo;

verus! {

/// Why a backend found no GPU.
#[derive(PartialEq, Eq, Structural, Clone, Debug)]
pub enum DiscoverError {
    /// No AMD card under `/sys/class/drm`.
    NoAmdDrmCards,
    /// The video-controller query printed nothing (or `null`).
    NoWmiGpu,
    /// The video-controller query listed no AMD entry.
    NoWmiEntries,
    /// The video-controller query printed text that is not JSON.
    Json,
}

/// The message of each discovery error.
pub open spec fn discover_error_text(e: DiscoverError) -> Seq<char> {
    match e {
        DiscoverError::NoAmdDrmCards => "no AMD drm cards in /sys/class/drm"@,
        DiscoverError::NoWmiGpu => "no AMD GPU via WMI"@,
        DiscoverError::NoWmiEntries => "no AMD WMI entries"@,
        DiscoverError::Json => "WMI output is not valid JSON"@,
    }
}

impl DiscoverError {
    /// The message of this error.
    pub fn message(&self) -> (r: String)
        ensures
            r@ == discover_error_text(*self),
    {
        match self {
            DiscoverError::NoAmdDrmCards => crate::text::string_from("no AMD drm cards in /sys/class/drm"),
            DiscoverError::NoWmiGpu => crate::text::string_from("no AMD GPU via WMI"),
            DiscoverError::NoWmiEntries => crate::text::string_from("no AMD WMI entries"),
            DiscoverError::Json => crate::text::string_from("WMI output is not valid JSON"),
        }
    }
}

// ----------------------------------------------------------------------
// Combining HIP and WMI
// ----------------------------------------------------------------------

/// `r` is HIP's record `h` completed with WMI's record `w` of the same
/// position: PCI ids, location and driver from WMI, the target version and the
/// memory size from WMI only where HIP had none.
pub open spec fn merged_pair(r: GpuInfo, h: GpuInfo, w: GpuInfo) -> bool {
    &&& r == (GpuInfo {
        device_id: w.device_id,
        subsystem_id: w.subsystem_id,
        rev_id: w.rev_id,
        bdf: w.bdf,
        driver_version: w.driver_version,
        gfx_version: if h.gfx_version@ == "unknown"@ {
            w.gfx_version
        } else {
            h.gfx_version
        },
        vram_total_mb: if h.vram_total_mb == 0 {
            w.vram_total_mb
        } else {
            h.vram_total_mb
        },
        backend: r.backend,
        ..h
    })
    &&& r.backend@ == "hip+wmi"@
}

/// `r` is the merge of the HIP list `hs` and the WMI list `ws`: position by
/// position, HIP's record completed by WMI's; WMI records beyond HIP's count
/// follow as they are.
pub open spec fn merged(r: Seq<GpuInfo>, hs: Seq<GpuInfo>, ws: Seq<GpuInfo>) -> bool {
    &&& r.len() == if hs.len() >= ws.len() {
        hs.len()
    } else {
        ws.len()
    }
    &&& forall|i: int|
        0 <= i < hs.len() ==> if i < ws.len() {
            merged_pair(#[trigger] r[i], hs[i], ws[i])
        } else {
            r[i] == hs[i]
        }
    &&& forall|i: int| hs.len() <= i < ws.len() ==> #[trigger] r[i] == ws[i]
}

/// Complete one HIP record with the WMI record of the same position.
fn merge_pair(h: GpuInfo, w: &GpuInfo) -> (r: GpuInfo)
    ensures
        merged_pair(r, h, *w),
{
    let mut h = h;
    let ghost h0 = h;
    h.device_id = w.device_id;
    h.subsystem_id = w.subsystem_id;
    h.rev_id = w.rev_id;
    h.bdf = w.bdf.clone();
    h.driver_version = w.driver_version.clone();
    if crate::http::str_is(&h.gfx_version, "unknown") {
        h.gfx_version = w.gfx_version.clone();
    }
    if h.vram_total_mb == 0 {
        h.vram_total_mb = w.vram_total_mb;
    }
    h.backend = crate::text::string_from("hip+wmi");
    h
}

/// Merge what HIP found (names, memory size, target version) with what WMI
/// found (PCI ids, location, driver), position by position.
pub fn merge_hip_wmi(hip: Vec<GpuInfo>, wmi: Vec<GpuInfo>) -> (r: Vec<GpuInfo>)
    ensures
        merged(r@, hip@, wmi@),
{
    let ghost hs = hip@;
    let ghost ws = wmi@;
    let mut hip = hip;
    let mut wmi = wmi;
    let mut out: Vec<GpuInfo> = Vec::new();
    let mut i: usize = 0;
    assert(hs.len() == hip.len());
    while hip.len() > 0
        invariant
            i <= hs.len(),
            hs.len() <= usize::MAX,
            hip@ == hs.skip(i as int),
            wmi@ == ws,
            out.len() == i,
            forall|j: int|
                0 <= j < i ==> if j < ws.len() {
                    merged_pair(#[trigger] out@[j], hs[j], ws[j])
                } else {
                    out@[j] == hs[j]
                },
        decreases hip.len(),
    {
        assert(hs.skip(i as int).len() > 0);
        let h = hip.remove(0);
        assert(h == hs[i as int]);
        assert(hs.skip(i as int).drop_first() =~= hs.skip(i + 1));
        let g = if i < wmi.len() {
            merge_pair(h, &wmi[i])
        } else {
            h
        };
        out.push(g);
        i = i + 1;
    }
    assert(i == hs.len());
    if wmi.len() > out.len() {
        let mut tail = wmi.split_off(out.len());
        let ghost o0 = out@;
        let ghost t0 = tail@;
        out.append(&mut tail);
        assert(out@ =~= o0 + t0);
        assert forall|j: int| hs.len() <= j < ws.len() implies #[trigger] out@[j] == ws[j] by {
            assert(out@[j] == t0[j - o0.len()]);
        };
    }
    out
}

// ----------------------------------------------------------------------
// The order of backends
// ----------------------------------------------------------------------

/// A backend discovery can ask.
#[derive(PartialEq, Eq, Structural, Clone, Copy, Debug)]
pub enum Probe {
    AmdSmi,
    Sysfs,
    Hip,
    Wmi,
    Adl,
}

/// The platform discovery runs on.
#[derive(PartialEq, Eq, Structural, Clone, Copy, Debug)]
pub enum Platform {
    Linux,
    Windows,
    Other,
}

/// Where discovery stands: which answer it waits for, and what it keeps.
pub enum DiscoverState {
    Start(Platform),
    AwaitAmdSmi,
    AwaitSysfs,
    AwaitLinuxHip,
    AwaitWindowsHip,
    /// Waiting for WMI, with what HIP found.
    AwaitWmi(Vec<GpuInfo>),
    AwaitAdl,
    AwaitOtherHip,
    Done,
}

/// What discovery asks for next.
pub enum DiscoverAction {
    /// Query this backend and hand back its answer (`None` when it failed).
    Query(Probe),
    /// The result. With `enrich`, the platform's enrichment (ADL sensors and
    /// memory statistics on Windows) is applied to it first.
    Finish { gpus: Vec<GpuInfo>, enrich: bool },
}

/// `a` ends discovery with `gs`, enriched or not.
pub open spec fn finishes(a: DiscoverAction, gs: Seq<GpuInfo>, e: bool) -> bool {
    match a {
        DiscoverAction::Finish { gpus, enrich } => gpus@ == gs && enrich == e,
        _ => false,
    }
}

/// `a` ends discovery with the merge of `hs` and `ws`, enriched.
pub open spec fn finishes_merged(a: DiscoverAction, hs: Seq<GpuInfo>, ws: Seq<GpuInfo>) -> bool {
    match a {
        DiscoverAction::Finish { gpus, enrich } => merged(gpus@, hs, ws) && enrich,
        _ => false,
    }
}

/// What a backend found, with failure counting as nothing.
pub open spec fn found_or_empty(found: Option<Vec<GpuInfo>>) -> Seq<GpuInfo> {
    match found {
        Some(v) => v@,
        None => seq![],
    }
}

/// `r` is the step taken in `state` after the answer `found`:
/// Linux asks amdsmi, then sysfs (enriched), then HIP; Windows asks HIP and WMI
/// and merges them (enriched), and when both are empty asks ADL, whose result is
/// final when it is non-empty; other platforms ask HIP.
pub open spec fn discover_step_is(state: DiscoverState, found: Option<Vec<GpuInfo>>, r: (DiscoverState, DiscoverAction)) -> bool {
    let f = found_or_empty(found);
    match state {
        DiscoverState::Start(Platform::Linux) => r.0 is AwaitAmdSmi && r.1 == DiscoverAction::Query(Probe::AmdSmi),
        DiscoverState::Start(Platform::Windows) => r.0 is AwaitWindowsHip && r.1 == DiscoverAction::Query(Probe::Hip),
        DiscoverState::Start(Platform::Other) => r.0 is AwaitOtherHip && r.1 == DiscoverAction::Query(Probe::Hip),
        DiscoverState::AwaitAmdSmi => if f.len() > 0 {
            r.0 is Done && finishes(r.1, f, false)
        } else {
            r.0 is AwaitSysfs && r.1 == DiscoverAction::Query(Probe::Sysfs)
        },
        DiscoverState::AwaitSysfs => if f.len() > 0 {
            r.0 is Done && finishes(r.1, f, true)
        } else {
            r.0 is AwaitLinuxHip && r.1 == DiscoverAction::Query(Probe::Hip)
        },
        DiscoverState::AwaitLinuxHip => r.0 is Done && finishes(r.1, f, false),
        DiscoverState::AwaitWindowsHip => r.0 matches DiscoverState::AwaitWmi(h) && h@ == f && r.1 == DiscoverAction::Query(Probe::Wmi),
        DiscoverState::AwaitWmi(h) => if h@.len() == 0 && f.len() == 0 {
            r.0 is AwaitAdl && r.1 == DiscoverAction::Query(Probe::Adl)
        } else {
            r.0 is Done && finishes_merged(r.1, h@, f)
        },
        DiscoverState::AwaitAdl => r.0 is Done && if f.len() > 0 {
            finishes(r.1, f, false)
        } else {
            finishes(r.1, seq![], true)
        },
        DiscoverState::AwaitOtherHip => r.0 is Done && finishes(r.1, f, false),
        DiscoverState::Done => r.0 is Done && finishes(r.1, seq![], false),
    }
}

/// How many steps discovery can still take from `state`.
pub open spec fn steps_left(state: DiscoverState) -> nat {
    match state {
        DiscoverState::Start(Platform::Linux) => 4,
        DiscoverState::Start(Platform::Windows) => 4,
        DiscoverState::Start(Platform::Other) => 2,
        DiscoverState::AwaitAmdSmi => 3,
        DiscoverState::AwaitSysfs => 2,
        DiscoverState::AwaitLinuxHip => 1,
        DiscoverState::AwaitWindowsHip => 3,
        DiscoverState::AwaitWmi(_) => 2,
        DiscoverState::AwaitAdl => 1,
        DiscoverState::AwaitOtherHip => 1,
        DiscoverState::Done => 0,
    }
}

/// Discovery always ends: every step before the end brings it closer to the
/// end, so each platform asks at most four backends; the step that gives the
/// result is the one that reaches the end, and the end gives a result.
pub proof fn law_discovery_ends(
    state: DiscoverState,
    found: Option<Vec<GpuInfo>>,
    r: (DiscoverState, DiscoverAction),
)
    requires
        discover_step_is(state, found, r),
    ensures
        !(state is Done) ==> steps_left(r.0) < steps_left(state),
        steps_left(state) <= 4,
        r.1 is Finish <==> r.0 is Done,
{
}

/// What a backend found, with failure counting as nothing.
fn or_empty(found: Option<Vec<GpuInfo>>) -> (r: Vec<GpuInfo>)
    ensures
        r@ == found_or_empty(found),
{
    match found {
        Some(v) => v,
        None => Vec::new(),
    }
}

/// One step of discovery: given the state and the answer to the last query
/// (ignored at the start), the next state and what to do.
pub fn discover_step(state: DiscoverState, found: Option<Vec<GpuInfo>>) -> (r: (DiscoverState, DiscoverAction))
    ensures
        discover_step_is(state, found, r),
{
    let f = or_empty(found);
    match state {
        DiscoverState::Start(Platform::Linux) => (DiscoverState::AwaitAmdSmi, DiscoverAction::Query(Probe::AmdSmi)),
        DiscoverState::Start(Platform::Windows) => (DiscoverState::AwaitWindowsHip, DiscoverAction::Query(Probe::Hip)),
        DiscoverState::Start(Platform::Other) => (DiscoverState::AwaitOtherHip, DiscoverAction::Query(Probe::Hip)),
        DiscoverState::AwaitAmdSmi => if f.len() > 0 {
            (DiscoverState::Done, DiscoverAction::Finish { gpus: f, enrich: false })
        } else {
            (DiscoverState::AwaitSysfs, DiscoverAction::Query(Probe::Sysfs))
        },
        DiscoverState::AwaitSysfs => if f.len() > 0 {
            (DiscoverState::Done, DiscoverAction::Finish { gpus: f, enrich: true })
        } else {
            (DiscoverState::AwaitLinuxHip, DiscoverAction::Query(Probe::Hip))
        },
        DiscoverState::AwaitLinuxHip => (DiscoverState::Done, DiscoverAction::Finish { gpus: f, enrich: false }),
        DiscoverState::AwaitWindowsHip => (DiscoverState::AwaitWmi(f), DiscoverAction::Query(Probe::Wmi)),
        DiscoverState::AwaitWmi(h) => if h.len() == 0 && f.len() == 0 {
            (DiscoverState::AwaitAdl, DiscoverAction::Query(Probe::Adl))
        } else {
            (DiscoverState::Done, DiscoverAction::Finish { gpus: merge_hip_wmi(h, f), enrich: true })
        },
        DiscoverState::AwaitAdl => if f.len() > 0 {
            (DiscoverState::Done, DiscoverAction::Finish { gpus: f, enrich: false })
        } else {
            (DiscoverState::Done, DiscoverAction::Finish { gpus: Vec::new(), enrich: true })
        },
        DiscoverState::AwaitOtherHip => (DiscoverState::Done, DiscoverAction::Finish { gpus: f, enrich: false }),
        DiscoverState::Done => (DiscoverState::Done, DiscoverAction::Finish { gpus: Vec::new(), enrich: false }),
    }
}

} // verus!
