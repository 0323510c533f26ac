use sysprobe::error::SysProbeError;
use sysprobe::field_map::FieldMap;
use sysprobe::records::{basic_info_from, get_processor_info, graphics_info_from_row, parse_graphics_info, HardwareInfo};

fn row(pairs: &[(&str, &str)]) -> FieldMap {
    let mut m = FieldMap::new();
    for (k, v) in pairs {
        m.insert(k.to_string(), v.to_string());
    }
    m
}

fn processor_row(voltage: &str, caps: &str) -> FieldMap {
    row(&[
        ("Name", "Example CPU"),
        ("NumberOfCores", "8"),
        ("ThreadCount", "16"),
        ("CurrentClockSpeed", "3600"),
        ("CurrentVoltage", voltage),
        ("MaxClockSpeed", "4200"),
        ("SocketDesignation", "AM4"),
        ("LoadPercentage", "+7"),
        ("VoltageCaps", caps),
    ])
}

#[test]
fn processor_fields_are_read() {
    let p = get_processor_info(&processor_row("140", "")).unwrap();
    assert_eq!(p.name, "Example CPU");
    assert_eq!(p.cores, 8);
    assert_eq!(p.threads, 16);
    assert_eq!(p.current_clock_speed, 3600);
    // 140 = 0x8C: bit 7 set, 12 tenths of a volt.
    assert_eq!(p.current_voltage, Some(120));
    assert_eq!(p.max_clock_speed, 4200);
    assert_eq!(p.processor_socket, "AM4");
    assert_eq!(p.load_percentage, 7);
    assert_eq!(p.voltage_caps, None);
}

#[test]
fn processor_voltage_without_flag_is_absent() {
    let p = get_processor_info(&processor_row("12", "2")).unwrap();
    assert_eq!(p.current_voltage, None);
    assert_eq!(p.voltage_caps, Some("2".to_string()));
}

#[test]
fn processor_errors_name_the_first_bad_field() {
    let mut m = processor_row("140", "");
    m.insert("ThreadCount".to_string(), "many".to_string());
    m.insert("LoadPercentage".to_string(), "70000".to_string());
    assert_eq!(get_processor_info(&m).err(), Some(SysProbeError::InvalidField("ThreadCount".to_string())));
    let short = row(&[("Name", "x")]);
    assert_eq!(get_processor_info(&short).err(), Some(SysProbeError::MissingField("NumberOfCores".to_string())));
    let mut big = processor_row("140", "");
    big.insert("LoadPercentage".to_string(), "70000".to_string());
    assert_eq!(get_processor_info(&big).err(), Some(SysProbeError::InvalidField("LoadPercentage".to_string())));
}

#[test]
fn graphics_rows_become_adapters() {
    let a = row(&[
        ("Name", "Adapter A"),
        ("AdapterRAM", "4293918720"),
        ("CurrentHorizontalResolution", "1920"),
        ("CurrentVerticalResolution", "1080"),
        ("CurrentRefreshRate", "60"),
        ("CurrentBitsPerPixel", "32"),
    ]);
    let b = row(&[
        ("Name", "Adapter B"),
        ("AdapterRAM", ""),
        ("CurrentHorizontalResolution", ""),
        ("CurrentVerticalResolution", ""),
        ("CurrentRefreshRate", ""),
        ("CurrentBitsPerPixel", ""),
    ]);
    let g = parse_graphics_info(&vec![a, b]).unwrap();
    assert_eq!(g.len(), 2);
    assert_eq!(g[0].name, "Adapter A");
    assert_eq!(g[0].memory, "4293918720");
    assert_eq!(g[0].horizontal_resolution, Some(1920));
    assert_eq!(g[0].vertical_resolution, Some(1080));
    assert_eq!(g[0].refresh_rate, Some(60));
    assert_eq!(g[0].bits_per_pixel, Some(32));
    assert_eq!(g[1].name, "Adapter B");
    assert_eq!(g[1].horizontal_resolution, None);
    assert_eq!(g[1].bits_per_pixel, None);
}

#[test]
fn graphics_bad_number_is_reported() {
    let a = row(&[
        ("Name", "Adapter A"),
        ("AdapterRAM", "1"),
        ("CurrentHorizontalResolution", "wide"),
        ("CurrentVerticalResolution", ""),
        ("CurrentRefreshRate", ""),
        ("CurrentBitsPerPixel", ""),
    ]);
    assert_eq!(
        graphics_info_from_row(&a).err(),
        Some(SysProbeError::InvalidField("CurrentHorizontalResolution".to_string()))
    );
    assert!(parse_graphics_info(&Vec::new()).unwrap().is_empty());
}

#[test]
fn basic_info_decodes_dates_and_uptime() {
    let os = row(&[
        ("Caption", "Example OS"),
        ("Version", "10.0.22631"),
        ("InstallDate", "20231115143022.500000+060"),
        ("LastBootUpTime", "20240101000000.000000+000"),
    ]);
    let cs = row(&[
        ("UserName", "host\\user"),
        ("Domain", "WORKGROUP"),
        ("BootupState", "Normal boot"),
        ("Model", "Model X"),
    ]);
    let b = basic_info_from(&os, &cs, "23H2".to_string(), "UEFI".to_string(), 1704067200 + 3600).unwrap();
    assert_eq!(b.edition, "Example OS");
    assert_eq!(b.version, "10.0.22631");
    assert_eq!(b.friendly_version, "23H2");
    assert_eq!(b.install_date, 1700055022);
    assert_eq!(b.uptime, 3600);
    assert_eq!(b.username, "host\\user");
    assert_eq!(b.domain, "WORKGROUP");
    assert_eq!(b.boot_mode, "UEFI");
    assert_eq!(b.boot_state, "Normal boot");
    assert_eq!(b.model, "Model X");
}

#[test]
fn basic_info_bad_timestamp_and_missing_field() {
    let os = row(&[
        ("Caption", "Example OS"),
        ("Version", "10"),
        ("InstallDate", "garbage"),
        ("LastBootUpTime", "20240101000000.000000+000"),
    ]);
    let cs = row(&[("UserName", "u"), ("Domain", "d"), ("BootupState", "b"), ("Model", "m")]);
    assert_eq!(
        basic_info_from(&os, &cs, String::new(), String::new(), 0).err(),
        Some(SysProbeError::DateTimeParsingError)
    );
    let cs2 = row(&[("UserName", "u")]);
    let mut os2 = row(&[("Caption", "c"), ("Version", "v")]);
    os2.insert("InstallDate".to_string(), "20231115143022.500000+060".to_string());
    os2.insert("LastBootUpTime".to_string(), "20231115143022.500000+060".to_string());
    assert_eq!(
        basic_info_from(&os2, &cs2, String::new(), String::new(), 0).err(),
        Some(SysProbeError::MissingField("Domain".to_string()))
    );
}

#[test]
fn hardware_info_holds_both_parts() {
    let p = get_processor_info(&processor_row("140", "")).unwrap();
    let h = HardwareInfo::new(p, Vec::new());
    assert_eq!(h.processor_info.cores, 8);
    assert!(h.graphics_info.is_empty());
}
