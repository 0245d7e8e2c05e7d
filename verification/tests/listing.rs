use sysinfo_cli::disk::StatvfsResult;
use sysinfo_cli::style::Styled;
use sysinfo_cli::sys_info::{disk_report, DiskError, DiskVolume};
use sysinfo_cli::table::{Column, Row, Table};
use sysinfo_cli::Commands;

fn stat_with_free(free: u64) -> StatvfsResult {
    StatvfsResult {
        f_bsize: 1,
        f_frsize: 1,
        f_blocks: 0,
        f_bfree: free,
        f_bavail: 0,
        f_files: 0,
        f_ffree: 0,
        f_favail: 0,
        f_fsid: 0,
        f_flag: 0,
        f_namemax: 0,
    }
}

fn volume(name: &str, fs: &str, total: u64, free: u64) -> DiskVolume {
    DiskVolume {
        kind: "SSD".to_string(),
        name: name.to_string(),
        file_system: fs.to_string(),
        mount_point: format!("/mnt/{name}"),
        total_space: total,
        available_space: free,
        is_removable: false,
        free_stat: Some(stat_with_free(free)),
    }
}

fn disk_cmd(sort: &str, exclude: &str, total: bool, block_size: &str) -> Commands {
    Commands::Disk {
        all: true,
        sort: sort.to_string(),
        exclude: exclude.to_string(),
        total,
        human_readable: true,
        si: false,
        block_size: block_size.to_string(),
    }
}

fn cell(row: &Row, key: &str) -> String {
    row.get(&key.to_string()).cloned().unwrap_or_default()
}

#[test]
fn totals_row_sums_numeric_fields() {
    // Three volumes with totals 100, 200, 300 and used 50, 100, 150.
    let vols = vec![
        volume("a", "ext4", 100, 50),
        volume("b", "ext4", 200, 100),
        volume("c", "ext4", 300, 150),
    ];
    let cmd = disk_cmd("", "", true, "");
    let tab = disk_report(&vols, &cmd).unwrap();
    assert_eq!(tab.data.len(), 4);
    let totals = &tab.data[3];
    assert_eq!(cell(totals, "name"), "total");
    assert_eq!(cell(totals, "total_space"), "600B");
    assert_eq!(cell(totals, "used_space"), "300B");
    assert_eq!(cell(totals, "free_space"), "300B");
    assert_eq!(cell(totals, "available_space"), "300B");
    // The share is recomputed from the summed used and total figures.
    assert_eq!(cell(totals, "usage_rate"), "50.00%");
}

#[test]
fn exclusion_removes_exactly_matching_rows() {
    let vols = vec![
        volume("root", "ext4", 100, 50),
        volume("over", "overlay", 200, 100),
        volume("data", "xfs", 300, 150),
        volume("over2", "overlay", 400, 200),
    ];
    let cmd = disk_cmd("", "Type:overlay", false, "");
    let tab = disk_report(&vols, &cmd).unwrap();
    assert_eq!(tab.data.len(), 2);
    assert_eq!(cell(&tab.data[0], "name"), "root");
    assert_eq!(cell(&tab.data[1], "name"), "data");

    let none = disk_report(&vols, &disk_cmd("", "", false, "")).unwrap();
    assert_eq!(none.data.len(), 4);
}

#[test]
fn exclusion_skips_rows_before_totals() {
    let vols = vec![
        volume("keep", "ext4", 100, 40),
        volume("drop", "overlay", 1000, 500),
    ];
    let cmd = disk_cmd("", "Type:overlay", true, "");
    let tab = disk_report(&vols, &cmd).unwrap();
    assert_eq!(tab.data.len(), 2);
    assert_eq!(cell(&tab.data[1], "total_space"), "100B");
    assert_eq!(cell(&tab.data[1], "used_space"), "60B");
}

#[test]
fn sort_by_size_title_is_numeric() {
    // Humanised, "9.00K" sorts after "1.00M" only if the numeric count wins.
    let vols = vec![
        volume("m", "ext4", 1048576, 1),
        volume("k", "ext4", 9 * 1024, 1),
        volume("b", "ext4", 500, 1),
    ];
    let cmd = disk_cmd("Total", "", false, "");
    let tab = disk_report(&vols, &cmd).unwrap();
    assert_eq!(cell(&tab.data[0], "total_space"), "500B");
    assert_eq!(cell(&tab.data[1], "total_space"), "9.00K");
    assert_eq!(cell(&tab.data[2], "total_space"), "1.00M");
}

#[test]
fn sort_by_text_title_is_lexicographic() {
    let vols = vec![
        volume("c", "ext4", 1, 0),
        volume("a", "ext4", 2, 0),
        volume("b", "ext4", 3, 0),
    ];
    let cmd = disk_cmd("Device", "", false, "");
    let tab = disk_report(&vols, &cmd).unwrap();
    assert_eq!(cell(&tab.data[0], "name"), "a");
    assert_eq!(cell(&tab.data[1], "name"), "b");
    assert_eq!(cell(&tab.data[2], "name"), "c");
}

#[test]
fn unknown_sort_title_keeps_order() {
    let vols = vec![volume("z", "ext4", 5, 0), volume("a", "ext4", 1, 0)];
    let cmd = disk_cmd("Nothing", "", false, "");
    let tab = disk_report(&vols, &cmd).unwrap();
    assert_eq!(cell(&tab.data[0], "name"), "z");
    assert_eq!(cell(&tab.data[1], "name"), "a");
}

#[test]
fn malformed_exclude_is_fatal() {
    let vols = vec![volume("a", "ext4", 1, 0)];
    let err = disk_report(&vols, &disk_cmd("", "no-colon", false, "")).unwrap_err();
    match &err {
        DiskError::InvalidExclude(s) => assert_eq!(s, "no-colon"),
        other => panic!("wrong error: {other:?}"),
    }
    assert_eq!(err.message(), "Invalid exclude: no-colon");

    let err = disk_report(&vols, &disk_cmd("", "NoSuchField:x", false, "")).unwrap_err();
    assert!(matches!(err, DiskError::InvalidExclude(_)));

    let err = disk_report(&vols, &disk_cmd("", "Type:a:b", false, "")).unwrap_err();
    assert!(matches!(err, DiskError::InvalidExclude(_)));
}

#[test]
fn malformed_block_size_is_fatal() {
    let vols = vec![volume("a", "ext4", 1, 0)];
    let err = disk_report(&vols, &disk_cmd("", "", false, "XYZ")).unwrap_err();
    match &err {
        DiskError::InvalidBlockSize(s) => assert_eq!(s, "XYZ"),
        other => panic!("wrong error: {other:?}"),
    }
    assert_eq!(err.message(), "Invalid BlockSize: XYZ");
}

#[test]
fn forced_block_unit_applies_to_all_sizes() {
    let vols = vec![volume("a", "ext4", 1048576, 524288)];
    let cmd = disk_cmd("", "", false, "M");
    let tab = disk_report(&vols, &cmd).unwrap();
    assert_eq!(cell(&tab.data[0], "total_space"), "1.00M");
    assert_eq!(cell(&tab.data[0], "free_space"), "0.50M");
    assert_eq!(cell(&tab.data[0], "used_space"), "0.50M");
}

#[test]
fn failed_statistics_count_free_as_zero() {
    let mut v = volume("a", "ext4", 100, 50);
    v.free_stat = None;
    let tab = disk_report(&vec![v], &disk_cmd("", "", false, "")).unwrap();
    assert_eq!(cell(&tab.data[0], "free_space"), "0B");
    assert_eq!(cell(&tab.data[0], "used_space"), "100B");
    assert_eq!(cell(&tab.data[0], "usage_rate"), "100.00%");
}

#[test]
fn rendering_twice_is_identical() {
    let vols = vec![
        volume("a", "ext4", 100, 50),
        volume("b", "overlay", 200, 100),
    ];
    let tab = disk_report(&vols, &disk_cmd("Total", "", true, "")).unwrap();
    let once = tab.render(true);
    let again = tab.render(true);
    assert_eq!(once, again);
    let plain_once = tab.render(false);
    let plain_again = tab.render(false);
    assert_eq!(plain_once, plain_again);
    assert_ne!(once, plain_once);
}

#[test]
fn totals_row_is_emphasised() {
    let vols = vec![volume("a", "ext4", 100, 50)];
    let tab = disk_report(&vols, &disk_cmd("", "", true, "")).unwrap();
    let out = tab.render(true);
    // The totals cell of the device column is bolded in the column's red.
    assert!(out.contains("\x1b[1;31mtotal\x1b[0m"));
}

fn plain_column(title: &str, key: &str) -> Column {
    let mut c = Column::default();
    c.title = title.to_string();
    c.key = key.to_string();
    c
}

#[test]
fn widths_follow_title_and_data() {
    let mut right = plain_column("B", "b");
    right.right_align = true;
    let columns = vec![plain_column("A", "a"), right];
    let mut r1 = Row::new();
    r1.set("a".to_string(), "x".to_string());
    r1.set("b".to_string(), "yy".to_string());
    let mut r2 = Row::new();
    r2.set("a".to_string(), "long".to_string());
    let tab = Table::new(columns, vec![r1, r2], Row::new());
    assert_eq!(tab.columns[0].width, 4);
    assert_eq!(tab.columns[1].width, 2);
    assert_eq!(tab.render(false), "A      B\nx     yy\nlong    \n");
}

#[test]
fn hidden_columns_render_empty_but_keep_their_slot() {
    let mut hid = plain_column("H", "h");
    hid.hidden = true;
    let columns = vec![plain_column("A", "a"), hid, plain_column("C", "c")];
    let mut r = Row::new();
    r.set("a".to_string(), "1".to_string());
    r.set("h".to_string(), "xxxx".to_string());
    r.set("c".to_string(), "2".to_string());
    let tab = Table::new(columns, vec![r], Row::new());
    // The hidden column still owns both separators around its empty cell.
    assert_eq!(tab.render(false), "A    C\n1    2\n");
}

#[test]
fn hook_passes_ordinary_rows_through() {
    let vols = vec![volume("a", "ext4", 100, 50), volume("b", "ext4", 200, 100)];
    let tab = disk_report(&vols, &disk_cmd("", "", false, "")).unwrap();
    let out = tab.render(true);
    // Without totals no cell is bolded; plain red opens the device cells.
    assert!(!out.contains("\x1b[1;31m"));
    assert!(out.contains("\x1b[31ma"));
}

#[test]
fn format_pads_and_styles_one_cell() {
    let mut c = plain_column("T", "t");
    c.width = 5;
    c.right_align = true;
    let out = c.format(Styled::plain("ab".to_string()), None, false);
    assert_eq!(out, "   ab");
}

#[test]
fn default_base_is_binary() {
    let vols = vec![volume("a", "ext4", 1000, 0)];
    let plain = Commands::Disk {
        all: true,
        sort: String::new(),
        exclude: String::new(),
        total: false,
        human_readable: false,
        si: false,
        block_size: String::new(),
    };
    let tab = disk_report(&vols, &plain).unwrap();
    // 1000 bytes stay below one binary kibibyte.
    assert_eq!(cell(&tab.data[0], "total_space"), "1000B");

    let si = Commands::Disk {
        all: true,
        sort: String::new(),
        exclude: String::new(),
        total: false,
        human_readable: false,
        si: true,
        block_size: String::new(),
    };
    let tab = disk_report(&vols, &si).unwrap();
    assert_eq!(cell(&tab.data[0], "total_space"), "1.00K");
}
