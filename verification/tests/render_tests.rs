use gpu_smi::gpu::{GpuInfo, ProcessInfo};
use gpu_smi::render::{
    collect_processes, column_header, footer, gpu_row, header_line, process_row, process_section,
    push_padded, push_padded_left, rule, sort_rows, verbose_line, vram_column, FloatColumns,
};

fn gpu(index: u32, name: &str) -> GpuInfo {
    GpuInfo {
        index,
        market_name: name.to_string(),
        vendor_id: 0x1002,
        vendor_name: "AMD".to_string(),
        device_id: 0x7550,
        subsystem_id: 0,
        rev_id: 0,
        asic_serial: String::new(),
        num_cu: 0,
        gfx_version: "gfx1201".to_string(),
        vram_type: "GDDR6".to_string(),
        vram_total_mb: 16304,
        vram_used_mb: 8000,
        vram_pinned_mb: 512,
        vram_vendor: String::new(),
        bdf: String::new(),
        pcie_width: 16,
        pcie_speed_gt: 16,
        driver_version: "32.0.21013.1000".to_string(),
        vbios_version: String::new(),
        temp_edge_mc: Some(39000),
        temp_hotspot_mc: Some(45000),
        temp_vram_mc: Some(40000),
        gfx_clock_mhz: Some(750),
        mem_clock_mhz: Some(1250),
        gfx_util_percent: Some(22),
        power_mw: Some(8200),
        power_cap_mw: None,
        backend: "hip+wmi+adl".to_string(),
        processes: Vec::new(),
    }
}

fn floats() -> FloatColumns {
    FloatColumns {
        temp: "39C".to_string(),
        power: "8.2W".to_string(),
        vram_pct: 49,
        hotspot: "hotspot 45C ".to_string(),
        vram_temp: "vram 40C ".to_string(),
    }
}

fn proc(pid: u32, name: &str, mb: u32) -> ProcessInfo {
    ProcessInfo { pid, name: name.to_string(), mem_used_mb: mb, proc_type: "C".to_string() }
}

#[test]
fn padding_helpers() {
    let mut s = String::from(">");
    push_padded(&mut s, "ab", 5);
    assert_eq!(s, ">ab   ");
    let mut t = String::new();
    push_padded_left(&mut t, "ab", 5);
    assert_eq!(t, "   ab");
    let mut u = String::new();
    push_padded(&mut u, "abcdef", 3);
    assert_eq!(u, "abcdef");
}

#[test]
fn title_line() {
    assert_eq!(
        header_line(2, "2024-01-02 03:04:05", None),
        "AMD SMI Portable | 2 GPU(s) | 2024-01-02 03:04:05 | backend one-shot | Ctrl-C to exit"
    );
    assert_eq!(
        header_line(1, "ts", Some(5)),
        "AMD SMI Portable | 1 GPU(s) | ts | backend watch 5s | Ctrl-C to exit"
    );
}

#[test]
fn table_head_and_rule() {
    let expected = format!(
        "{:<3} {:<26} {:<8} {:<23} {:<9} {:<6} {:<8} {:<6} {:<8} {:<8}",
        "ID", "Name", "GFX", "VRAM (Used/Total)", "Pinned", "Temp", "GCLK", "Util", "Power", "Backend"
    );
    assert_eq!(column_header(), expected);
    assert_eq!(rule(5), "-----");
    assert_eq!(rule(0), "");
    assert_eq!(rule(112).len(), 112);
}

#[test]
fn vram_cell() {
    let mut g = gpu(0, "x");
    assert_eq!(vram_column(&g, 49), "8000 / 16304 MB (49%)");
    g.vram_used_mb = 0;
    assert_eq!(vram_column(&g, 0), "0 / 16304 MB");
    g.vram_total_mb = 0;
    assert_eq!(vram_column(&g, 0), "-");
}

#[test]
fn gpu_table_row() {
    let g = gpu(1, "AMD Radeon RX 9070 XT");
    let expected = format!(
        "{:<3} {:<26} {:<8} {:<23} {:<9} {:<6} {:<8} {:<6} {:<8} {:<8}",
        1, "AMD Radeon RX 9070 XT", "gfx1201", "8000 / 16304 MB (49%)", "512 MB", "39C", "750MHz", "22%", "8.2W", "hip+w..."
    );
    assert_eq!(gpu_row(&g, &floats()), expected);
}

#[test]
fn gpu_table_row_without_readings() {
    let mut g = gpu(0, "AMD Radeon RX 7900 XTX Extreme Edition");
    g.vram_pinned_mb = 0;
    g.gfx_clock_mhz = None;
    g.gfx_util_percent = None;
    g.backend = "wmi".to_string();
    let f = FloatColumns {
        temp: "-".to_string(),
        power: "-".to_string(),
        vram_pct: 49,
        hotspot: String::new(),
        vram_temp: String::new(),
    };
    let expected = format!(
        "{:<3} {:<26} {:<8} {:<23} {:<9} {:<6} {:<8} {:<6} {:<8} {:<8}",
        0, "AMD Radeon RX 7900 XTX ...", "gfx1201", "8000 / 16304 MB (49%)", "-", "-", "-", "-", "-", "wmi"
    );
    assert_eq!(gpu_row(&g, &f), expected);
}

#[test]
fn verbose_detail_line() {
    let g = gpu(1, "AMD Radeon RX 9070 XT");
    assert_eq!(
        verbose_line(&g, &floats()),
        "    dev=0x7550 hotspot 45C  vram 40C  mclk 1250MHz  pcie=x16 16GT/s driver 32.0.21013.1000 | type: GDDR6 free: 8304MB"
    );
}

#[test]
fn verbose_detail_line_small_device_and_overcommit() {
    let mut g = gpu(0, "x");
    g.device_id = 0x15b;
    g.mem_clock_mhz = None;
    g.vram_used_mb = 20000;
    g.driver_version = "a-very-long-driver-version-string".to_string();
    let f = FloatColumns {
        temp: "-".to_string(),
        power: "-".to_string(),
        vram_pct: 0,
        hotspot: String::new(),
        vram_temp: String::new(),
    };
    assert_eq!(
        verbose_line(&g, &f),
        "    dev=0x015b    pcie=x16 16GT/s driver a-very-long-drive... | type: GDDR6 free: 0MB"
    );
}

#[test]
fn footer_hint() {
    assert_eq!(
        footer(false),
        Some("\n(--watch 1 for realtime, --verbose for hotspot/vram temps, clocks & free VRAM, --json dump)".to_string())
    );
    assert_eq!(footer(true), None);
}

#[test]
fn process_rows_collected_in_gpu_order() {
    let mut a = gpu(0, "a");
    a.processes.push(proc(10, "x.exe", 5));
    let mut b = gpu(1, "b");
    b.processes.push(proc(20, "y.exe", 7));
    b.processes.push(proc(30, "z.exe", 1));
    let rows = collect_processes(&vec![a, b]);
    let ids: Vec<(u32, u32)> = rows.iter().map(|r| (r.0, r.1.pid)).collect();
    assert_eq!(ids, vec![(0, 10), (1, 20), (1, 30)]);
}

#[test]
fn process_rows_sorted_largest_first_stable() {
    let rows = vec![(0, proc(1, "a", 5)), (0, proc(2, "b", 9)), (1, proc(3, "c", 5)), (1, proc(4, "d", 12))];
    let sorted = sort_rows(rows);
    let pids: Vec<u32> = sorted.iter().map(|r| r.1.pid).collect();
    assert_eq!(pids, vec![4, 2, 1, 3]);
}

#[test]
fn process_table_row() {
    let r = (1u32, ProcessInfo { pid: 4242, name: "game.exe".to_string(), mem_used_mb: 1024, proc_type: "G".to_string() });
    let expected = format!("{:<4} {:<8} {:<6} {:<42} {:>11} MB", 1, 4242, "G", "game.exe", 1024);
    assert_eq!(process_row(&r), expected);
}

#[test]
fn process_section_empty() {
    let g = gpu(0, "a");
    assert!(process_section(&vec![g], false).is_empty());
}

#[test]
fn process_section_lists_by_memory() {
    let mut g = gpu(0, "a");
    g.processes.push(proc(1, "small.exe", 10));
    g.processes.push(proc(2, "big.exe", 900));
    let lines = process_section(&vec![g], false);
    assert_eq!(lines.len(), 5);
    assert_eq!(lines[0], "\nProcesses:");
    assert_eq!(lines[1], format!("{:<4} {:<8} {:<6} {:<42} {:>14}", "GPU", "PID", "Type", "Process Name", "Memory Usage"));
    assert_eq!(lines[2], "-".repeat(76));
    assert_eq!(lines[3], format!("{:<4} {:<8} {:<6} {:<42} {:>11} MB", 0, 2, "C", "big.exe", 900));
    assert_eq!(lines[4], format!("{:<4} {:<8} {:<6} {:<42} {:>11} MB", 0, 1, "C", "small.exe", 10));
}

#[test]
fn process_section_caps_at_twenty() {
    let mut g = gpu(0, "a");
    for pid in 0..25u32 {
        g.processes.push(proc(pid, "p.exe", pid));
    }
    let gs = vec![g];
    let lines = process_section(&gs, false);
    assert_eq!(lines.len(), 3 + 20 + 1);
    assert_eq!(lines[23], "  ... and 5 more processes (--verbose to show all)");
    assert_eq!(lines[3], format!("{:<4} {:<8} {:<6} {:<42} {:>11} MB", 0, 24, "C", "p.exe", 24));
    let all = process_section(&gs, true);
    assert_eq!(all.len(), 3 + 25);
}
