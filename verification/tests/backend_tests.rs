use gpu_smi::backend::hip::{HipBackend, HipDevice};
use gpu_smi::backend::linux::{LinuxSysfsBackend, SysfsCard};
use gpu_smi::backend::windows::{
    classify_proc_type, counter_instance_pid, cstr_to_string, counter_mb, dedup_adapters, extract_dev_from_udid,
    extract_hex, gpu_for_adapter, guess_gfx, is_igpu_dev, luid_gpu_for_counter, luid_key,
    luid_map_insert, needs_shared_usage, pid_from_lower_name, pmlog_start_sensors, process_name, record_counter,
    record_process_usage, registry_vram_type, sensor_get, sensors_from_flags, sensors_from_log,
    smbios_to_str, system_ram_type_from_output, vram_type_for_dev, apply_vram_segments,
    AdlAdapter, OdnStatus, VramSegment, WindowsAdlBackend, WmiBackend,
    adl_step, choose_memory_type, AdlAction, AdlFailure, AdlRun, AdlState,
};
use gpu_smi::backend::{
    discover_step, merge_hip_wmi, DiscoverAction, DiscoverError, DiscoverState, Platform, Probe,
};
use gpu_smi::gpu::{GpuInfo, ProcessInfo};

fn gpu(index: u32, name: &str) -> GpuInfo {
    GpuInfo {
        index,
        market_name: name.to_string(),
        vendor_id: 0x1002,
        vendor_name: "AMD".to_string(),
        device_id: 0,
        subsystem_id: 0,
        rev_id: 0,
        asic_serial: String::new(),
        num_cu: 0,
        gfx_version: "unknown".to_string(),
        vram_type: "GDDR6".to_string(),
        vram_total_mb: 0,
        vram_used_mb: 0,
        vram_pinned_mb: 0,
        vram_vendor: String::new(),
        bdf: String::new(),
        pcie_width: 0,
        pcie_speed_gt: 0,
        driver_version: String::new(),
        vbios_version: String::new(),
        temp_edge_mc: None,
        temp_hotspot_mc: None,
        temp_vram_mc: None,
        gfx_clock_mhz: None,
        mem_clock_mhz: None,
        gfx_util_percent: None,
        power_mw: None,
        power_cap_mw: None,
        backend: "hip".to_string(),
        processes: Vec::new(),
    }
}

fn card(name: &str, vendor: &str) -> SysfsCard {
    SysfsCard {
        name: name.to_string(),
        vendor: vendor.to_string(),
        device: "0x7550\n".to_string(),
        subsystem_device: "0x2410\n".to_string(),
        mem_info_vram_total: "17095983104\n".to_string(),
        mem_info_vram_used: "1073741824\n".to_string(),
        temp1_input: "45000\n".to_string(),
    }
}

fn adapter(index: i32, bus: i32, vendor: i32, udid: &str) -> AdlAdapter {
    AdlAdapter {
        adapter_index: index,
        udid: udid.to_string(),
        bus_number: bus,
        device_number: 0,
        function_number: 0,
        vendor_id: vendor,
        adapter_name: "AMD Radeon RX 9070 XT".to_string(),
        driver_path: "drv".to_string(),
    }
}

// ---------------------------------------------------------------- sysfs

#[test]
fn sysfs_entry_names() {
    assert!(LinuxSysfsBackend::is_card_entry("card0"));
    assert!(LinuxSysfsBackend::is_card_entry("card1-DP-1"));
    assert!(!LinuxSysfsBackend::is_card_entry("renderD128"));
    assert!(!LinuxSysfsBackend::is_card_entry("card0render"));
    assert!(!LinuxSysfsBackend::is_card_entry("version"));
}

#[test]
fn sysfs_vendor_and_fields() {
    assert!(LinuxSysfsBackend::is_amd_vendor("0x1002\n"));
    assert!(LinuxSysfsBackend::is_amd_vendor("0X1002"));
    assert!(!LinuxSysfsBackend::is_amd_vendor("0x10de\n"));
    assert_eq!(LinuxSysfsBackend::hex_u32("0x1002\n", 7), 0x1002);
    assert_eq!(LinuxSysfsBackend::hex_u32("", 0x1002), 0x1002);
    assert_eq!(LinuxSysfsBackend::hex_u32("0x0x1f", 0), 0x1f);
    assert_eq!(LinuxSysfsBackend::hex_u32("zz", 5), 5);
    assert_eq!(LinuxSysfsBackend::hex_u64("0x744c"), 0x744c);
    assert_eq!(LinuxSysfsBackend::mb("17095983104\n"), 16304);
    assert_eq!(LinuxSysfsBackend::mb("junk"), 0);
    assert_eq!(LinuxSysfsBackend::temp("45000\n"), Some(45000));
    assert_eq!(LinuxSysfsBackend::temp("-5000"), Some(-5000));
    assert_eq!(LinuxSysfsBackend::temp(""), None);
    assert_eq!(LinuxSysfsBackend::temp("45000.5\n"), Some(45001));
    assert_eq!(LinuxSysfsBackend::temp("45000.49"), Some(45000));
    assert_eq!(LinuxSysfsBackend::temp("45000."), Some(45000));
    assert_eq!(LinuxSysfsBackend::temp(".5"), Some(1));
    assert_eq!(LinuxSysfsBackend::temp("-0.5"), Some(-1));
    assert_eq!(LinuxSysfsBackend::temp("+12"), Some(12));
    assert_eq!(LinuxSysfsBackend::temp("."), None);
    assert_eq!(LinuxSysfsBackend::temp("1.2.3"), None);
    assert_eq!(LinuxSysfsBackend::temp("-9223372036854775808"), Some(i64::MIN));
    assert_eq!(LinuxSysfsBackend::temp("9223372036854775807.5"), None);
}

#[test]
fn sysfs_cards_to_gpus() {
    let cards = vec![
        card("card0", "0x10de\n"),
        card("renderD128", "0x1002\n"),
        card("card1", "0x1002\n"),
    ];
    let gs = LinuxSysfsBackend::gpus_from_cards(&cards).unwrap();
    assert_eq!(gs.len(), 1);
    let g = &gs[0];
    assert_eq!(g.index, 0);
    assert_eq!(g.market_name, "AMD GPU card1");
    assert_eq!(g.vendor_id, 0x1002);
    assert_eq!(g.vendor_name, "AMD");
    assert_eq!(g.device_id, 0x7550);
    assert_eq!(g.subsystem_id, 0x2410);
    assert_eq!(g.vram_total_mb, 16304);
    assert_eq!(g.vram_used_mb, 1024);
    assert_eq!(g.temp_edge_mc, Some(45000));
    assert_eq!(g.gfx_version, "unknown");
    assert_eq!(g.vram_type, "unknown");
    assert_eq!(g.backend, "sysfs");
}

#[test]
fn sysfs_without_amd_card_is_an_error() {
    let cards = vec![card("card0", "0x8086\n")];
    let r = LinuxSysfsBackend::gpus_from_cards(&cards);
    assert!(matches!(r, Err(DiscoverError::NoAmdDrmCards)));
    assert_eq!(DiscoverError::NoAmdDrmCards.message(), "no AMD drm cards in /sys/class/drm");
    assert_eq!(DiscoverError::Json.message(), "WMI output is not valid JSON");
}

// ---------------------------------------------------------------- HIP

#[test]
fn hip_names_to_targets() {
    assert_eq!(HipBackend::gfx_for_name("AMD Radeon 780M"), "gfx1151");
    assert_eq!(HipBackend::gfx_for_name("AMD Radeon(TM) Graphics"), "gfx1151");
    assert_eq!(HipBackend::gfx_for_name("AMD Radeon RX 7900 XTX"), "gfx1100");
    assert_eq!(HipBackend::gfx_for_name("AMD Radeon RX 9070 XT"), "gfx1201");
    assert_eq!(HipBackend::gfx_for_name("AMD Radeon Pro W6800"), "unknown");
}

#[test]
fn hip_memory_types() {
    assert_eq!(HipBackend::vram_type("AMD Radeon RX 9070 XT", "gfx1201", true, None), "GDDR6");
    assert_eq!(HipBackend::vram_type("AMD Radeon 780M", "gfx1151", false, None), "DDR4/DDR5 (Shared)");
    assert_eq!(HipBackend::vram_type("AMD Radeon 780M", "gfx1151", true, Some(33)), "LPDDR4 (Shared)");
    assert_eq!(HipBackend::vram_type("AMD Radeon 880M", "unknown", true, None), "DDR5 (Shared)");
    assert_eq!(HipBackend::vram_type("AMD Radeon Vega 8 Graphics", "unknown", true, None), "DDR4 (Shared)");
    assert!(HipBackend::shares_system_memory("AMD Radeon 860M", "unknown"));
    assert!(!HipBackend::shares_system_memory("AMD Radeon RX 6800", "unknown"));
    assert_eq!(HipBackend::parse_smbios(" 34\r\n"), Some(34));
    assert_eq!(HipBackend::parse_smbios("x"), None);
}

#[test]
fn hip_compute_units() {
    assert_eq!(HipBackend::num_cu(1024, 32), 32);
    assert_eq!(HipBackend::num_cu(1024, 0), 0);
    assert_eq!(HipBackend::num_cu(-64, 32), (-2i32) as u32);
}

#[test]
fn hip_device_record() {
    let d = HipDevice {
        ordinal: 1,
        name: "AMD Radeon RX 9070 XT".to_string(),
        total_global_mem: 17095983104usize,
        max_threads_per_block: 1024,
        warp_size: 32,
    };
    let g = HipBackend::gpu_from_device(&d, "GDDR6".to_string());
    assert_eq!(g.index, 1);
    assert_eq!(g.market_name, "AMD Radeon RX 9070 XT");
    assert_eq!(g.vendor_name, "Advanced Micro Devices, Inc. [AMD/ATI]");
    assert_eq!(g.num_cu, 32);
    assert_eq!(g.gfx_version, "gfx1201");
    assert_eq!(g.vram_type, "GDDR6");
    assert_eq!(g.vram_total_mb, 16304);
    assert_eq!(g.backend, "hip");
    assert!(g.processes.is_empty());
}

// ---------------------------------------------------------------- WMI and PCI ids

#[test]
fn hex_fields_of_pnp_ids() {
    let pnp = r"PCI\VEN_1002&DEV_7550&SUBSYS_24101EAE&REV_C0\4&1234";
    assert_eq!(extract_hex(pnp, "DEV_"), Some(0x7550));
    assert_eq!(extract_hex(pnp, "SUBSYS_"), Some(0x24101EAE));
    assert_eq!(extract_hex(pnp, "REV_"), Some(0xC0));
    assert_eq!(extract_hex(pnp, "XYZ_"), None);
    assert_eq!(extract_hex("DEV_123456789", "DEV_"), Some(0x12345678));
    assert_eq!(extract_hex("DEV_&", "DEV_"), None);
    assert_eq!(extract_dev_from_udid(r"PCI_VEN_1002&DEV_744C&SUBSYS"), Some(0x744C));
    assert_eq!(extract_dev_from_udid("PCI_VEN_1002&DEV_73BF"), Some(0x73BF));
    assert_eq!(extract_dev_from_udid("no device"), None);
}

#[test]
fn c_string_fields() {
    assert_eq!(cstr_to_string(&b"AMD Radeon RX 9070 XT\0\0junk".to_vec()), "AMD Radeon RX 9070 XT");
    assert_eq!(cstr_to_string(&b"  padded  ".to_vec()), "padded");
    assert_eq!(cstr_to_string(&vec![0x41, 0xff, 0x42, 0]), "A\u{FFFD}B");
    assert_eq!(cstr_to_string(&vec![0, 0x41]), "");
    assert_eq!(cstr_to_string(&Vec::new()), "");
}

#[test]
fn memory_type_names() {
    assert_eq!(smbios_to_str(26), "DDR4");
    assert_eq!(smbios_to_str(34), "DDR5");
    assert_eq!(smbios_to_str(35), "LPDDR5");
    assert_eq!(smbios_to_str(21), "DDR2 FB-DIMM");
    assert_eq!(smbios_to_str(99), "Unknown");
    assert_eq!(system_ram_type_from_output("34\r\n"), Some("DDR5".to_string()));
    assert_eq!(system_ram_type_from_output("2"), None);
    assert_eq!(system_ram_type_from_output(""), None);
}

#[test]
fn memory_type_by_device() {
    assert!(is_igpu_dev(0x164E));
    assert!(!is_igpu_dev(0x7550));
    assert_eq!(vram_type_for_dev(0x164E, Some("DDR5".to_string())), "DDR5 (Shared)");
    assert_eq!(vram_type_for_dev(0x164E, None), "DDR5 (Shared)");
    assert_eq!(vram_type_for_dev(0x1636, None), "DDR4 (Shared)");
    assert_eq!(vram_type_for_dev(0x9874, None), "DDR4/DDR5 (Shared)");
    assert_eq!(vram_type_for_dev(0x687F, None), "HBM2");
    assert_eq!(vram_type_for_dev(0x73A0, None), "HBM2e");
    assert_eq!(vram_type_for_dev(0x67DF, None), "GDDR5");
    assert_eq!(vram_type_for_dev(0x7550, Some("DDR5".to_string())), "GDDR6");
    assert_eq!(registry_vram_type(0), None);
}

#[test]
fn targets_by_device() {
    assert_eq!(guess_gfx(0x7550), "gfx1201");
    assert_eq!(guess_gfx(0x744C), "gfx1100");
    assert_eq!(guess_gfx(0x1586), "gfx1151");
    assert_eq!(guess_gfx(0x1234), "unknown");
}

#[test]
fn wmi_output_text() {
    assert!(matches!(WmiBackend::json_text("  "), Err(DiscoverError::NoWmiGpu)));
    assert!(matches!(WmiBackend::json_text("null\r\n"), Err(DiscoverError::NoWmiGpu)));
    assert_eq!(WmiBackend::json_text(" {\"a\":1} ").unwrap(), "[{\"a\":1}]");
    assert_eq!(WmiBackend::json_text("[1]").unwrap(), "[1]");
}

#[test]
fn wmi_output_errors() {
    assert!(matches!(WmiBackend::parse_output(""), Err(DiscoverError::NoWmiGpu)));
    assert!(matches!(WmiBackend::parse_output("not json"), Err(DiscoverError::Json)));
    let rows = WmiBackend::parse_output("[]").unwrap();
    assert!(rows.is_empty());
    assert!(matches!(WmiBackend::gpus_from_rows(&rows, None), Err(DiscoverError::NoWmiEntries)));
}

#[test]
fn wmi_single_object() {
    let out = r#"{"Name":"AMD Radeon RX 9070 XT","PNPDeviceID":"PCI\\VEN_1002&DEV_7550&SUBSYS_24101EAE&REV_C0\\4&1234","DriverVersion":"32.0.21013.1000","AdapterRAM":4293918720}"#;
    let rows = WmiBackend::parse_output(out).unwrap();
    assert_eq!(rows.len(), 1);
    assert_eq!(rows[0].name.as_deref(), Some("AMD Radeon RX 9070 XT"));
    assert_eq!(rows[0].adapter_ram, Some(4293918720));
    assert_eq!(WmiBackend::row_device(&rows[0]), 0x7550);
    assert!(!WmiBackend::needs_system_ram(&rows));
    let gs = WmiBackend::gpus_from_rows(&rows, None).unwrap();
    let g = &gs[0];
    assert_eq!(g.index, 0);
    assert_eq!(g.market_name, "AMD Radeon RX 9070 XT");
    assert_eq!(g.device_id, 0x7550);
    assert_eq!(g.subsystem_id, 0x24101EAE);
    assert_eq!(g.rev_id, 0xC0);
    assert_eq!(g.gfx_version, "gfx1201");
    assert_eq!(g.vram_type, "GDDR6");
    assert_eq!(g.vram_total_mb, 4095);
    assert_eq!(g.bdf, r"PCI\VEN_1002&DEV_7550&SUBSYS_24101EAE&REV_C0\4&1234");
    assert_eq!(g.driver_version, "32.0.21013.1000");
    assert_eq!(g.backend, "wmi");
}

#[test]
fn wmi_array_with_missing_fields() {
    let out = r#"[{"PNPDeviceID":"PCI\\VEN_1002&DEV_164E"},{"Name":"iGPU","AdapterRAM":"x"}]"#;
    let rows = WmiBackend::parse_output(out).unwrap();
    assert_eq!(rows.len(), 2);
    assert!(WmiBackend::needs_system_ram(&rows));
    let gs = WmiBackend::gpus_from_rows(&rows, Some("LPDDR5".to_string())).unwrap();
    assert_eq!(gs[0].market_name, "AMD GPU");
    assert_eq!(gs[0].device_id, 0x164E);
    assert_eq!(gs[0].vram_type, "LPDDR5 (Shared)");
    assert_eq!(gs[1].index, 1);
    assert_eq!(gs[1].market_name, "iGPU");
    assert_eq!(gs[1].device_id, 0);
    assert_eq!(gs[1].vram_total_mb, 0);
    assert_eq!(gs[1].driver_version, "");
}

#[test]
fn wmi_scalar_json_gives_blank_row() {
    let rows = WmiBackend::parse_output("5").unwrap();
    assert_eq!(rows.len(), 1);
    assert_eq!(rows[0].name, None);
    assert_eq!(rows[0].pnp_device_id, None);
    let gs = WmiBackend::gpus_from_rows(&rows, None).unwrap();
    assert_eq!(gs[0].market_name, "AMD GPU");
    assert_eq!(gs[0].vram_type, "GDDR6");
    assert!(matches!(WmiBackend::parse_output("[1,"), Err(DiscoverError::Json)));
}

// ---------------------------------------------------------------- ADL

#[test]
fn adl_adapters_deduplicated_per_bus() {
    let adapters = vec![
        adapter(0, 3, 0x1002, "PCI_VEN_1002&DEV_7550"),
        adapter(1, 3, 0x1002, "PCI_VEN_1002&DEV_7550"),
        adapter(2, 5, 0x10de, "PCI_VEN_10DE&DEV_2684"),
        adapter(3, -1, 0x1002, ""),
        adapter(4, 7, 1002, "PCI_VEN_1002&DEV_164E"),
        adapter(5, 7, 0x3EA, "PCI_VEN_1002&DEV_164E"),
    ];
    assert_eq!(dedup_adapters(&adapters), vec![0, 4]);
}

#[test]
fn adl_sensor_tables() {
    let flags = vec![(0, 5), (1, 750), (1, 1250), (0, 9)];
    let m = sensors_from_flags(&flags);
    assert_eq!(sensor_get(&m, 1), Some(750));
    assert_eq!(sensor_get(&m, 2), Some(1250));
    assert_eq!(sensor_get(&m, 0), None);
    assert_eq!(sensor_get(&m, 3), None);
    assert_eq!(sensor_get(&m, 99), None);
    let log = vec![(8, 39), (1, 750), (0, 0), (27, 50)];
    let l = sensors_from_log(&log);
    assert_eq!(l, vec![(8, 39), (1, 750)]);
    assert_eq!(sensor_get(&l, 27), None);
    assert_eq!(sensor_get(&vec![(8, 1), (8, 2)], 8), Some(2));
    assert_eq!(pmlog_start_sensors(&vec![8, 9, 0, 27]), vec![8, 9]);
    assert_eq!(pmlog_start_sensors(&vec![]), Vec::<u16>::new());
}

#[test]
fn adl_record_from_sensors() {
    let mut a = adapter(7, 3, 0x1002, "PCI_VEN_1002&DEV_7550&SUBSYS_24101EAE");
    a.device_number = 0;
    a.function_number = 0;
    let m = vec![(8, 39), (9, 40), (27, 45), (1, 750), (2, 1250), (19, 22), (30, 50), (23, 82), (40, 16000), (41, 16)];
    let g = WindowsAdlBackend::gpu_from_sensors(2, &a, &m, "GDDR6".to_string());
    assert_eq!(g.index, 2);
    assert_eq!(g.market_name, "AMD Radeon RX 9070 XT");
    assert_eq!(g.device_id, 0x7550);
    assert_eq!(g.gfx_version, "gfx1201");
    assert_eq!(g.bdf, "PCI_VEN_1002&DEV_7550&SUBSYS_24101EAE bus 3 dev 0 fn 0");
    assert_eq!(g.temp_edge_mc, Some(39000));
    assert_eq!(g.temp_vram_mc, Some(40000));
    assert_eq!(g.temp_hotspot_mc, Some(45000));
    assert_eq!(g.gfx_clock_mhz, Some(750));
    assert_eq!(g.mem_clock_mhz, Some(1250));
    assert_eq!(g.gfx_util_percent, Some(22));
    assert_eq!(g.power_mw, Some(8200));
    assert_eq!(g.pcie_speed_gt, 16);
    assert_eq!(g.pcie_width, 16);
    assert_eq!(g.driver_version, "drv");
    assert_eq!(g.backend, "adl-pmlog");
}

#[test]
fn adl_sensors_update_existing_record() {
    let mut g = gpu(0, "x");
    g.temp_edge_mc = Some(1000);
    g.pcie_width = 8;
    let m = vec![(27, 60), (73, 2000), (30, 5)];
    WindowsAdlBackend::apply_sensors(&mut g, &m);
    assert_eq!(g.temp_edge_mc, Some(1000));
    assert_eq!(g.temp_hotspot_mc, Some(60000));
    assert_eq!(g.power_mw, Some(200000));
    assert_eq!(g.pcie_width, 8);
}

#[test]
fn adl_memory_type_choice() {
    assert_eq!(WindowsAdlBackend::vram_type(Some("GDDR6".to_string()), 0x164E, None), "GDDR6");
    assert_eq!(WindowsAdlBackend::vram_type(None, 0x164E, Some("DDR5".to_string())), "DDR5 (Shared)");
    assert!(WindowsAdlBackend::memory_type_usable("GDDR6", true));
    assert!(!WindowsAdlBackend::memory_type_usable("", false));
    assert!(!WindowsAdlBackend::memory_type_usable("UNKNOWN", true));
    assert!(WindowsAdlBackend::memory_type_usable("Unknown", false));
    let mut g = gpu(0, "x");
    WindowsAdlBackend::apply_vram_type(&mut g, Some("  HBM2  ".to_string()));
    assert_eq!(g.vram_type, "HBM2");
    WindowsAdlBackend::apply_vram_type(&mut g, Some("N/A".to_string()));
    assert_eq!(g.vram_type, "HBM2");
    WindowsAdlBackend::apply_vram_type(&mut g, Some("unknown".to_string()));
    WindowsAdlBackend::apply_vram_type(&mut g, None);
    assert_eq!(g.vram_type, "HBM2");
}

#[test]
fn adl_backend_marked_once() {
    let mut g = gpu(0, "x");
    g.backend = "hip+wmi".to_string();
    WindowsAdlBackend::mark_backend(&mut g, "+adl");
    assert_eq!(g.backend, "hip+wmi+adl");
    WindowsAdlBackend::mark_backend(&mut g, "+adl-odn");
    assert_eq!(g.backend, "hip+wmi+adl");
}

#[test]
fn adl_entries_matched_to_gpus() {
    let adapters = vec![adapter(4, 3, 0x1002, "PCI_VEN_1002&DEV_7550"), adapter(9, 5, 0x1002, "PCI_VEN_1002&DEV_744C")];
    assert_eq!(WindowsAdlBackend::entry_device(&adapters, 9), Some(0x744C));
    assert_eq!(WindowsAdlBackend::entry_device(&adapters, 1), None);
    let devs = vec![Some(0x7550u32), Some(0x744C)];
    assert_eq!(WindowsAdlBackend::entry_for_gpu(1, 0, &devs), Some(1));
    assert_eq!(WindowsAdlBackend::entry_for_gpu(3, 0x744C, &devs), Some(1));
    assert_eq!(WindowsAdlBackend::entry_for_gpu(3, 0x1234, &devs), None);
}

#[test]
fn overdrive_readings() {
    let mut g = gpu(0, "x");
    let st = OdnStatus { core_clock: 200000, memory_clock: 0, gfx_clock: 0, activity_percent: 101, bus_speed: 8000, bus_lanes: 0 };
    WindowsAdlBackend::apply_overdrive_n(&mut g, Some(41000), Some(st));
    assert_eq!(g.temp_edge_mc, Some(41000));
    assert_eq!(g.gfx_clock_mhz, Some(2000));
    assert_eq!(g.mem_clock_mhz, None);
    assert_eq!(g.gfx_util_percent, None);
    assert_eq!(g.pcie_speed_gt, 8);
    assert_eq!(g.pcie_width, 0);
    let st2 = OdnStatus { core_clock: 1, memory_clock: 96000, gfx_clock: 250000, activity_percent: 50, bus_speed: 0, bus_lanes: 16 };
    WindowsAdlBackend::apply_overdrive_n(&mut g, None, Some(st2));
    assert_eq!(g.gfx_clock_mhz, Some(2500));
    assert_eq!(g.mem_clock_mhz, Some(960));
    assert_eq!(g.gfx_util_percent, Some(50));
    assert_eq!(g.pcie_width, 16);
    assert_eq!(g.temp_edge_mc, Some(41000));
}

#[test]
fn overdrive_adapter_choice() {
    let adapters = vec![
        adapter(10, 3, 0x10de, "PCI_VEN_10DE&DEV_7550"),
        adapter(11, 3, 0x1002, "PCI_VEN_1002&DEV_7550"),
        adapter(12, 4, 0x1002, "PCI_VEN_1002&DEV_744C"),
    ];
    assert_eq!(WindowsAdlBackend::odn_adapter_for_gpu(0, 0x744C, &adapters), 12);
    assert_eq!(WindowsAdlBackend::odn_adapter_for_gpu(1, 0x9999, &adapters), 12);
    assert_eq!(WindowsAdlBackend::odn_adapter_for_gpu(0, 0x9999, &adapters), 11);
    assert_eq!(WindowsAdlBackend::odn_adapter_for_gpu(5, 0x9999, &adapters), 5);
}

#[test]
fn adl_session_with_new_readings() {
    let run = AdlRun { enrich: true, create: false };
    let (s, a) = adl_step(AdlState::Start(run), None);
    assert_eq!(a, AdlAction::LoadAdapters);
    let (s, a) = adl_step(s, Some(2));
    assert_eq!(a, AdlAction::NewQuery);
    let (s, a) = adl_step(s, Some(1));
    assert_eq!((s, a), (AdlState::Done, AdlAction::Apply { create: false }));
}

#[test]
fn adl_session_falls_back_to_legacy_then_fails() {
    let run = AdlRun { enrich: false, create: true };
    let (s, _) = adl_step(AdlState::Start(run), None);
    let (s, _) = adl_step(s, Some(1));
    let (s, a) = adl_step(s, Some(0));
    assert_eq!(a, AdlAction::LegacyQuery);
    let (s2, a2) = adl_step(s, Some(3));
    assert_eq!((s2, a2), (AdlState::Done, AdlAction::Apply { create: true }));
    let (_, a3) = adl_step(s, Some(0));
    assert_eq!(a3, AdlAction::Fail(AdlFailure::NoPmlogData));
    assert_eq!(AdlFailure::NoPmlogData.message(), "no PMLog data");
}

#[test]
fn adl_session_failures() {
    let enrich = AdlRun { enrich: true, create: false };
    let (s, _) = adl_step(AdlState::Start(enrich), None);
    assert_eq!(adl_step(s, None).1, AdlAction::Overdrive(AdlFailure::Unavailable));
    assert_eq!(adl_step(s, Some(0)).1, AdlAction::Overdrive(AdlFailure::NoAdapters));
    let discover = AdlRun { enrich: false, create: true };
    let (s, _) = adl_step(AdlState::Start(discover), None);
    assert_eq!(adl_step(s, Some(0)), (AdlState::Done, AdlAction::Fail(AdlFailure::NoAdapters)));
    assert_eq!(AdlFailure::NoAdapters.message(), "no adapters");
}

#[test]
fn adl_memory_query_order() {
    let s = |t: &str| Some(t.to_string());
    assert_eq!(choose_memory_type(s("GDDR6"), s("HBM2"), None, None, None, true), s("GDDR6"));
    assert_eq!(choose_memory_type(s("Unknown"), s("HBM2"), None, None, None, true), s("HBM2"));
    assert_eq!(choose_memory_type(None, s("Unknown"), s("GDDR5"), None, None, true), s("Unknown"));
    assert_eq!(choose_memory_type(None, s(""), s("GDDR5"), s("DDR4"), None, false), s("DDR4"));
    assert_eq!(choose_memory_type(None, None, s("GDDR5"), None, None, true), s("GDDR5"));
    assert_eq!(choose_memory_type(None, None, None, None, s("GDDR6X"), true), s("GDDR6X"));
    assert_eq!(choose_memory_type(s(""), None, None, None, None, true), None);
}

// ---------------------------------------------------------------- memory statistics

#[test]
fn vram_segments_applied() {
    let mut g = gpu(0, "x");
    let segs = vec![
        VramSegment { commit_limit: 16 << 30, bytes_committed: 1 << 30, bytes_resident: 3 << 30, aperture: 0 },
        VramSegment { commit_limit: 8 << 30, bytes_committed: 5 << 30, bytes_resident: 5 << 30, aperture: 1 },
    ];
    apply_vram_segments(&mut g, &segs);
    assert_eq!(g.vram_used_mb, 3072);
    assert_eq!(g.vram_pinned_mb, 2048);
    assert_eq!(g.vram_total_mb, 16384);
}

#[test]
fn vram_segments_without_dedicated_memory() {
    let mut g = gpu(0, "x");
    g.vram_used_mb = 7;
    let segs = vec![VramSegment { commit_limit: 0, bytes_committed: 1 << 30, bytes_resident: 1 << 30, aperture: 0 }];
    apply_vram_segments(&mut g, &segs);
    assert_eq!(g.vram_used_mb, 7);
    assert_eq!(g.vram_total_mb, 0);
    let mut h = gpu(0, "x");
    h.vram_total_mb = 100;
    h.vram_pinned_mb = 9;
    let segs2 = vec![VramSegment { commit_limit: 1 << 30, bytes_committed: 2 << 20, bytes_resident: 1 << 20, aperture: 0 }];
    apply_vram_segments(&mut h, &segs2);
    assert_eq!(h.vram_used_mb, 1);
    assert_eq!(h.vram_pinned_mb, 9);
    assert_eq!(h.vram_total_mb, 100);
}

#[test]
fn adapters_matched_to_gpus() {
    let mut a = gpu(0, "a");
    a.device_id = 0x7550;
    let b = gpu(1, "b");
    let gs = vec![a, b];
    assert_eq!(gpu_for_adapter(&gs, 0x7550, 5), Some(0));
    assert_eq!(gpu_for_adapter(&gs, 0x1234, 1), Some(1));
    assert_eq!(gpu_for_adapter(&gs, 0x1234, 0), None);
}

#[test]
fn luid_keys_and_counters() {
    assert_eq!(luid_key(0, 0x1a2b), "0x00000000_0x00001a2b");
    assert_eq!(luid_key(-1, 0xdeadbeef), "0xffffffff_0xdeadbeef");
    assert_eq!(counter_mb(3 * 1048576 + 5), 3);
    assert_eq!(counter_mb(-3 * 1048576 - 5), (-3i64) as u32);
    assert_eq!(counter_mb(1048575), 0);
    assert_eq!(pid_from_lower_name("pid_1234_luid_0x0_0x1_phys_0"), 1234);
    assert_eq!(pid_from_lower_name("pid_99"), 99);
    assert_eq!(pid_from_lower_name("pid__1"), 0);
    assert_eq!(pid_from_lower_name("luid_1"), 0);
    assert_eq!(counter_instance_pid("PID_12_LUID_0X0"), 12);
    assert_eq!(counter_instance_pid("Pid_7"), 7);
}

#[test]
fn luid_map_lookup() {
    let mut map: Vec<(String, usize)> = Vec::new();
    luid_map_insert(&mut map, "0x00000000_0x00001a2b".to_string(), 0);
    luid_map_insert(&mut map, "0x00000000_0x00003c4d".to_string(), 1);
    luid_map_insert(&mut map, "0x00000000_0x00001a2b".to_string(), 2);
    assert_eq!(map.len(), 2);
    assert_eq!(map[0].1, 2);
    let name = "pid_4_luid_0x00000000_0x00003c4d_phys_0";
    assert_eq!(luid_gpu_for_counter(name, &map), Some(1));
    assert_eq!(luid_gpu_for_counter("pid_4_luid_0x1_0x2", &map), None);
}

#[test]
fn process_names_from_snapshot() {
    let t = vec![(4, "a.exe".to_string()), (9, "b.exe".to_string()), (4, "c.exe".to_string())];
    assert_eq!(process_name(&t, 4), "c.exe");
    assert_eq!(process_name(&t, 9), "b.exe");
    assert_eq!(process_name(&t, 5), "Unknown");
}

#[test]
fn counter_items_recorded_or_skipped() {
    let mut gpus = vec![gpu(0, "a"), gpu(1, "b")];
    gpus[1].vram_total_mb = 100;
    let map = vec![("0x00000000_0x00000001".to_string(), 0usize), ("0x00000000_0x00000002".to_string(), 1usize)];
    let names = vec![(44, "game.exe".to_string())];
    let mib = 1048576i64;
    record_counter(&mut gpus, "pid_44_luid_0x00000000_0x00000002_phys_0", 5 * mib, &map, &names, false);
    record_counter(&mut gpus, "PID_45_LUID_0X00000000_0X00000001_PHYS_0", 7 * mib, &map, &names, false);
    record_counter(&mut gpus, "pid_0_luid_0x00000000_0x00000001_phys_0", 7 * mib, &map, &names, false);
    record_counter(&mut gpus, "pid_46_luid_0x00000000_0x00000001_phys_0", mib - 1, &map, &names, false);
    record_counter(&mut gpus, "pid_47_luid_0x00000000_0x00000009_phys_0", 3 * mib, &map, &names, false);
    record_counter(&mut gpus, "pid_48_luid_0x00000000_0x00000002_phys_0", 500 * mib, &map, &names, false);
    assert_eq!(gpus[1].processes.len(), 1);
    assert_eq!((gpus[1].processes[0].pid, gpus[1].processes[0].mem_used_mb), (44, 5));
    assert_eq!(gpus[1].processes[0].name, "game.exe");
    assert_eq!(gpus[0].processes.len(), 1);
    assert_eq!((gpus[0].processes[0].pid, gpus[0].processes[0].mem_used_mb), (45, 7));
    assert_eq!(gpus[0].processes[0].name, "Unknown");
}

#[test]
fn counter_items_for_missing_gpu_skipped() {
    let mut gpus = vec![gpu(0, "a")];
    let map = vec![("0x00000000_0x00000001".to_string(), 3usize)];
    record_counter(&mut gpus, "pid_4_luid_0x00000000_0x00000001", 1 << 30, &map, &Vec::new(), false);
    assert!(gpus[0].processes.is_empty());
}

#[test]
fn process_types() {
    assert_eq!(classify_proc_type("dwm.exe"), "G");
    assert_eq!(classify_proc_type("Explorer.EXE"), "G");
    assert_eq!(classify_proc_type("python.exe"), "C");
    assert_eq!(classify_proc_type("Unknown"), "C");
}

#[test]
fn process_usage_recorded() {
    let mut g = gpu(0, "x");
    g.vram_total_mb = 1000;
    record_process_usage(&mut g, 7, "dwm.exe".to_string(), 100, false);
    record_process_usage(&mut g, 9, "app.exe".to_string(), 50, false);
    record_process_usage(&mut g, 7, "dwm.exe".to_string(), 80, false);
    record_process_usage(&mut g, 9, "app.exe".to_string(), 300, false);
    record_process_usage(&mut g, 11, "big.exe".to_string(), 5000, false);
    record_process_usage(&mut g, 12, "shared.exe".to_string(), 10, true);
    assert_eq!(g.processes.len(), 2);
    assert_eq!((g.processes[0].pid, g.processes[0].mem_used_mb, g.processes[0].proc_type.as_str()), (7, 100, "G"));
    assert_eq!((g.processes[1].pid, g.processes[1].mem_used_mb, g.processes[1].proc_type.as_str()), (9, 300, "C"));
}

#[test]
fn shared_usage_needed_for_idle_apu() {
    let mut apu = gpu(0, "apu");
    apu.vram_type = "DDR5 (Shared)".to_string();
    let d = gpu(1, "d");
    assert!(needs_shared_usage(&vec![d, apu]));
    let mut busy = gpu(0, "apu");
    busy.vram_type = "DDR5 (Shared)".to_string();
    busy.processes.push(ProcessInfo { pid: 1, name: "a".to_string(), mem_used_mb: 1, proc_type: "C".to_string() });
    assert!(!needs_shared_usage(&vec![busy]));
    let mut shared = gpu(0, "apu");
    shared.vram_type = "DDR5 (Shared)".to_string();
    record_process_usage(&mut shared, 3, "game.exe".to_string(), 64, true);
    assert_eq!(shared.processes.len(), 1);
}

// ---------------------------------------------------------------- discovery

#[test]
fn hip_and_wmi_merged() {
    let mut h0 = gpu(0, "AMD Radeon RX 9070 XT");
    h0.gfx_version = "unknown".to_string();
    h0.vram_total_mb = 0;
    let mut h1 = gpu(1, "AMD Radeon 780M");
    h1.gfx_version = "gfx1151".to_string();
    h1.vram_total_mb = 512;
    let mut w0 = gpu(0, "wmi name");
    w0.device_id = 0x7550;
    w0.subsystem_id = 0x2410;
    w0.rev_id = 0xC0;
    w0.bdf = "PCI\\VEN_1002".to_string();
    w0.driver_version = "32.0".to_string();
    w0.gfx_version = "gfx1201".to_string();
    w0.vram_total_mb = 4095;
    w0.backend = "wmi".to_string();
    let w2 = gpu(2, "third");
    let merged = merge_hip_wmi(vec![h0, h1], vec![w0, gpu(1, "w1"), w2]);
    assert_eq!(merged.len(), 3);
    assert_eq!(merged[0].market_name, "AMD Radeon RX 9070 XT");
    assert_eq!(merged[0].device_id, 0x7550);
    assert_eq!(merged[0].gfx_version, "gfx1201");
    assert_eq!(merged[0].vram_total_mb, 4095);
    assert_eq!(merged[0].driver_version, "32.0");
    assert_eq!(merged[0].backend, "hip+wmi");
    assert_eq!(merged[1].gfx_version, "gfx1151");
    assert_eq!(merged[1].vram_total_mb, 512);
    assert_eq!(merged[1].backend, "hip+wmi");
    assert_eq!(merged[2].market_name, "third");
    assert_eq!(merged[2].backend, "hip");
}

#[test]
fn hip_longer_than_wmi() {
    let merged = merge_hip_wmi(vec![gpu(0, "a"), gpu(1, "b")], vec![gpu(0, "w")]);
    assert_eq!(merged.len(), 2);
    assert_eq!(merged[0].backend, "hip+wmi");
    assert_eq!(merged[1].backend, "hip");
    assert_eq!(merged[1].market_name, "b");
}

fn query_of(a: &DiscoverAction) -> Option<Probe> {
    match a {
        DiscoverAction::Query(p) => Some(*p),
        _ => None,
    }
}

fn finish_of(a: DiscoverAction) -> Option<(usize, bool)> {
    match a {
        DiscoverAction::Finish { gpus, enrich } => Some((gpus.len(), enrich)),
        _ => None,
    }
}

#[test]
fn discovery_on_linux() {
    let (s, a) = discover_step(DiscoverState::Start(Platform::Linux), None);
    assert_eq!(query_of(&a), Some(Probe::AmdSmi));
    let (s, a) = discover_step(s, None);
    assert_eq!(query_of(&a), Some(Probe::Sysfs));
    let (s2, a2) = discover_step(s, Some(vec![gpu(0, "card0")]));
    assert!(matches!(s2, DiscoverState::Done));
    assert_eq!(finish_of(a2), Some((1, true)));
}

#[test]
fn discovery_on_linux_falls_back_to_hip() {
    let (s, _) = discover_step(DiscoverState::Start(Platform::Linux), None);
    let (s, _) = discover_step(s, Some(Vec::new()));
    let (s, a) = discover_step(s, None);
    assert_eq!(query_of(&a), Some(Probe::Hip));
    let (_, a) = discover_step(s, Some(vec![gpu(0, "h")]));
    assert_eq!(finish_of(a), Some((1, false)));
}

#[test]
fn discovery_on_windows() {
    let (s, a) = discover_step(DiscoverState::Start(Platform::Windows), None);
    assert_eq!(query_of(&a), Some(Probe::Hip));
    let (s, a) = discover_step(s, Some(vec![gpu(0, "h")]));
    assert_eq!(query_of(&a), Some(Probe::Wmi));
    let (s, a) = discover_step(s, Some(vec![gpu(0, "w"), gpu(1, "w")]));
    assert!(matches!(s, DiscoverState::Done));
    match a {
        DiscoverAction::Finish { gpus, enrich } => {
            assert!(enrich);
            assert_eq!(gpus.len(), 2);
            assert_eq!(gpus[0].backend, "hip+wmi");
        },
        _ => panic!("expected the result"),
    }
}

#[test]
fn discovery_on_windows_falls_back_to_adl() {
    let (s, _) = discover_step(DiscoverState::Start(Platform::Windows), None);
    let (s, _) = discover_step(s, None);
    let (s, a) = discover_step(s, None);
    assert_eq!(query_of(&a), Some(Probe::Adl));
    let (_, a) = discover_step(s, Some(vec![gpu(0, "adl")]));
    assert_eq!(finish_of(a), Some((1, false)));
    let (s, _) = discover_step(DiscoverState::Start(Platform::Windows), None);
    let (s, _) = discover_step(s, None);
    let (s, _) = discover_step(s, None);
    let (_, a) = discover_step(s, None);
    assert_eq!(finish_of(a), Some((0, true)));
}

#[test]
fn discovery_elsewhere_uses_hip() {
    let (s, a) = discover_step(DiscoverState::Start(Platform::Other), None);
    assert_eq!(query_of(&a), Some(Probe::Hip));
    let (s, a) = discover_step(s, None);
    assert_eq!(finish_of(a), Some((0, false)));
    let (_, a) = discover_step(s, Some(vec![gpu(0, "x")]));
    assert_eq!(finish_of(a), Some((0, false)));
}
