use sysinfo_cli::sys_info::{cpu_details_table, cpu_summary_table, memory_table, CpuDetail};
use sysinfo_cli::table::Row;

fn cell(row: &Row, key: &str) -> String {
    row.get(&key.to_string()).cloned().unwrap_or_default()
}

#[test]
fn memory_table_humanises_and_recomputes_shares() {
    let tab = memory_table(2048, 1024, 1024, 512, 0, 0, 0);
    assert_eq!(tab.data.len(), 2);
    let mem = &tab.data[0];
    assert_eq!(cell(mem, "title"), "Memory:");
    assert_eq!(cell(mem, "total"), "2.00K");
    assert_eq!(cell(mem, "used"), "1.00K");
    assert_eq!(cell(mem, "free"), "1.00K");
    assert_eq!(cell(mem, "available"), "512B");
    assert_eq!(cell(mem, "used_percent"), "50.00%");
    let swap = &tab.data[1];
    assert_eq!(cell(swap, "title"), "Swap:");
    assert_eq!(cell(swap, "available"), "");
    assert_eq!(cell(swap, "used_percent"), "NaN%");
}

#[test]
fn cpu_summary_table_lays_out_given_texts() {
    let tab = cpu_summary_table("12.50%".to_string(), "4".to_string(), "8".to_string());
    assert_eq!(tab.data.len(), 1);
    let row = &tab.data[0];
    assert_eq!(cell(row, "title"), "CPU:");
    assert_eq!(cell(row, "cpu_usage"), "12.50%");
    assert_eq!(cell(row, "cpu_core"), "4");
    assert_eq!(cell(row, "cpu_thread"), "8");
    // The usage column is as wide as its header and right-aligned.
    let out = tab.render(false);
    assert_eq!(out, "        Use%  Core  Thread\nCPU:  12.50%     4       8\n");
}

#[test]
fn cpu_details_table_keeps_reported_order() {
    let cpus = vec![
        CpuDetail {
            name: "cpu0".to_string(),
            cpu_usage: "1.00%".to_string(),
            frequency: "2400".to_string(),
            vendor_id: "GenuineIntel".to_string(),
            brand: "Example".to_string(),
        },
        CpuDetail {
            name: "cpu1".to_string(),
            cpu_usage: "2.00%".to_string(),
            frequency: "2400".to_string(),
            vendor_id: "GenuineIntel".to_string(),
            brand: "Example".to_string(),
        },
    ];
    let tab = cpu_details_table(cpus);
    assert_eq!(tab.data.len(), 2);
    assert_eq!(cell(&tab.data[0], "name"), "cpu0");
    assert_eq!(cell(&tab.data[1], "name"), "cpu1");
}
