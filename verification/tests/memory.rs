use rwatch::memory::Memory;
use rwatch::memory_display::as_gb;

#[test]
fn kb_value_of_meminfo_lines() {
    assert_eq!(Memory::parse_kb_value("MemTotal:       16318412 kB"), 16318412);
    assert_eq!(Memory::parse_kb_value("MemTotal:"), 0);
    assert_eq!(Memory::parse_kb_value("MemTotal: abc kB"), 0);
    assert_eq!(Memory::parse_kb_value("  \tA \u{3000} 77  "), 77);
    assert_eq!(Memory::parse_kb_value(""), 0);
}

#[test]
fn meminfo_lines_give_total_and_available() {
    let lines: Vec<String> = vec![
        "MemTotal:       16318412 kB".to_string(),
        "MemFree:         1203400 kB".to_string(),
        "MemAvailable:    8123456 kB".to_string(),
        "Buffers:          123456 kB".to_string(),
    ];
    let m = Memory::from_meminfo(&lines);
    assert_eq!(m.total, 16318412);
    assert_eq!(m.available, 8123456);
    assert_eq!(m.used, 0);
    assert_eq!(m.free, 0);
}

#[test]
fn meminfo_last_line_wins() {
    let lines: Vec<String> =
        vec!["MemTotal: 1 kB".to_string(), "MemTotal: 2 kB".to_string()];
    let m = Memory::from_meminfo(&lines);
    assert_eq!(m.total, 2);
    assert_eq!(m.available, 0);
}

#[test]
fn gb_display() {
    let g = as_gb(16000000);
    assert_eq!((g.amount, g.decimal, g.unit), (16, 0, "GB"));
    let g = as_gb(12_345_678);
    assert_eq!((g.amount, g.decimal), (12, 34));
    assert_eq!(g.to_display_string(), "12,34 GB");
    assert_eq!(as_gb(9_999).to_display_string(), "0,0 GB");
}
