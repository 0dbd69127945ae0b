use gpu_smi::gpu::{GpuInfo, ProcessInfo};
use gpu_smi::num::{dec_string, milli_string, milli_string_u64, parse_i64_dec, parse_u32_radix, parse_u64_radix, radix_chars, signed_dec_string};
use gpu_smi::text::{chars_of, split_lines, split_once_chars, string_of, trim_chars, utf8_len_le};

fn gpu_with(processes: Vec<ProcessInfo>) -> GpuInfo {
    GpuInfo {
        index: 0,
        market_name: "g".to_string(),
        vendor_id: 0x1002,
        vendor_name: "AMD".to_string(),
        device_id: 0,
        subsystem_id: 0,
        rev_id: 0,
        asic_serial: String::new(),
        num_cu: 0,
        gfx_version: "unknown".to_string(),
        vram_type: "GDDR6".to_string(),
        vram_total_mb: 8,
        vram_used_mb: 0,
        vram_pinned_mb: 0,
        vram_vendor: String::new(),
        bdf: String::new(),
        pcie_width: 0,
        pcie_speed_gt: 0,
        driver_version: String::new(),
        vbios_version: String::new(),
        temp_edge_mc: None,
        temp_hotspot_mc: None,
        temp_vram_mc: None,
        gfx_clock_mhz: None,
        mem_clock_mhz: None,
        gfx_util_percent: None,
        power_mw: None,
        power_cap_mw: None,
        backend: "hip".to_string(),
        processes,
    }
}

fn proc(pid: u32, mb: u32) -> ProcessInfo {
    ProcessInfo { pid, name: format!("p{}", pid), mem_used_mb: mb, proc_type: "C".to_string() }
}

#[test]
fn gfx_version_sentinels() {
    assert_eq!(GpuInfo::gfx_version_str(0), "unknown");
    assert_eq!(GpuInfo::gfx_version_str(0xFFFF_FFFF), "unknown");
    assert_eq!(GpuInfo::gfx_version_str(u64::MAX), "unknown");
}

#[test]
fn gfx_version_hex() {
    assert_eq!(GpuInfo::gfx_version_str(0x1201), "gfx1201");
    assert_eq!(GpuInfo::gfx_version_str(0x90a), "gfx90a");
    assert_eq!(GpuInfo::gfx_version_str(0x1_0000_0000), "gfx100000000");
}

#[test]
fn processes_sorted_by_memory() {
    let mut g = gpu_with(vec![proc(1, 5), proc(2, 50), proc(3, 5), proc(4, 7)]);
    gpu_smi::gpu::sort_processes(&mut g);
    let got: Vec<(u32, u32)> = g.processes.iter().map(|p| (p.pid, p.mem_used_mb)).collect();
    assert_eq!(got, vec![(2, 50), (4, 7), (1, 5), (3, 5)]);
}

#[test]
fn processes_sort_keeps_other_fields() {
    let mut g = gpu_with(vec![proc(1, 1), proc(2, 2)]);
    gpu_smi::gpu::sort_processes(&mut g);
    let pids: Vec<u32> = g.processes.iter().map(|p| p.pid).collect();
    assert_eq!(pids, vec![2, 1]);
    assert_eq!(g.vram_total_mb, 8);
    assert_eq!(g.market_name, "g");
    let mut empty = gpu_with(Vec::new());
    gpu_smi::gpu::sort_processes(&mut empty);
    assert!(empty.processes.is_empty());
}

#[test]
fn numbers_parsed_like_std() {
    assert_eq!(parse_u32_radix(&chars_of("ff"), 16), Some(255));
    assert_eq!(parse_u32_radix(&chars_of("+10"), 10), Some(10));
    assert_eq!(parse_u32_radix(&chars_of("4294967296"), 10), None);
    assert_eq!(parse_u32_radix(&chars_of(""), 10), None);
    assert_eq!(parse_u32_radix(&chars_of("-1"), 10), None);
    assert_eq!(parse_u64_radix(&chars_of("18446744073709551615"), 10), Some(u64::MAX));
    assert_eq!(parse_i64_dec(&chars_of("-9223372036854775808")), Some(i64::MIN));
    assert_eq!(parse_i64_dec(&chars_of("9223372036854775808")), None);
    assert_eq!(parse_i64_dec(&chars_of("-")), None);
    assert_eq!(parse_i64_dec(&chars_of("12a")), None);
}

#[test]
fn numbers_written_like_std() {
    assert_eq!(dec_string(0), "0");
    assert_eq!(dec_string(u64::MAX), u64::MAX.to_string());
    assert_eq!(string_of(&radix_chars(0x1a2b, 16)), "1a2b");
    assert_eq!(string_of(&radix_chars(0o755, 8)), "755");
    assert_eq!(signed_dec_string(i64::MIN), i64::MIN.to_string());
    assert_eq!(signed_dec_string(-5), "-5");
}

#[test]
fn thousandths_written_as_decimals() {
    assert_eq!(milli_string(39000), "39");
    assert_eq!(milli_string(44500), "44.5");
    assert_eq!(milli_string(1234), "1.234");
    assert_eq!(milli_string(1050), "1.05");
    assert_eq!(milli_string(-500), "-0.5");
    assert_eq!(milli_string(0), "0");
    assert_eq!(milli_string_u64(8200), "8.2");
    assert_eq!(milli_string_u64(u64::MAX), "18446744073709551.615");
}

#[test]
fn text_helpers() {
    assert_eq!(string_of(&trim_chars(&chars_of(" \t a b \r\n"))), "a b");
    let lines: Vec<String> = split_lines(&chars_of("a\r\nb\n\nc")).iter().map(|l| string_of(l)).collect();
    assert_eq!(lines, vec!["a", "b", "", "c"]);
    let none: Vec<Vec<char>> = split_lines(&chars_of(""));
    assert!(none.is_empty());
    let (a, b) = split_once_chars(&chars_of("k: v: w"), ':').unwrap();
    assert_eq!((string_of(&a), string_of(&b)), ("k".to_string(), " v: w".to_string()));
    assert!(split_once_chars(&chars_of("kv"), ':').is_none());
    assert!(utf8_len_le(&chars_of("héllo"), 6));
    assert!(!utf8_len_le(&chars_of("héllo"), 5));
}
