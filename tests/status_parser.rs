use eshell_core::status_parser::{parse_disks, parse_network_interfaces, pick_selected_interface, NetworkInterfaceStatus};

#[test]
fn parse_network_interfaces_works() {
    let raw = r#"
Inter-|   Receive                                                |  Transmit
 face |bytes    packets errs drop fifo frame compressed multicast|bytes    packets errs drop fifo colls carrier compressed
  lo: 205700  1024 0 0 0 0 0 0 205700  1024 0 0 0 0 0 0
eth0: 9876543 9999 0 0 0 0 0 0 1234567 8888 0 0 0 0 0 0
"#;
    let rows = parse_network_interfaces(raw);
    assert_eq!(rows.len(), 2);
    assert_eq!(rows[1].interface, "eth0");
    assert_eq!(rows[1].tx_bytes, 1_234_567);
}

#[test]
fn parse_disks_works() {
    let raw = r#"
Filesystem      Size  Used Avail Use% Mounted on
/dev/sda1       100G   25G   70G  27% /
tmpfs           1.9G  2.0M  1.9G   1% /run
"#;
    let rows = parse_disks(raw);
    assert_eq!(rows.len(), 2);
    assert_eq!(rows[0].filesystem, "/dev/sda1");
    assert_eq!(rows[0].used_percent, "27%");
}

#[test]
fn network_counters_are_read_exactly() {
    let raw = "h1\nh2\n  lo: 205700  1024 0 0 0 0 0 0 205700  1024 0 0 0 0 0 0\n";
    let rows = parse_network_interfaces(raw);
    assert_eq!(rows.len(), 1);
    assert_eq!(rows[0].interface, "lo");
    assert_eq!(rows[0].rx_bytes, 205_700);
    assert_eq!(rows[0].tx_bytes, 205_700);
}

#[test]
fn network_lines_with_bad_counters_are_skipped() {
    let raw = "h1\nh2\neth0: x 1 0 0 0 0 0 0 5 1 0 0 0 0 0 0\neth1: 1 2 3\nwlan0: +7 1 0 0 0 0 0 0 18446744073709551615 1 0 0 0 0 0 0\n";
    let rows = parse_network_interfaces(raw);
    assert_eq!(rows.len(), 1);
    assert_eq!(rows[0].interface, "wlan0");
    assert_eq!(rows[0].rx_bytes, 7);
    assert_eq!(rows[0].tx_bytes, u64::MAX);
}

#[test]
fn network_output_shorter_than_header_gives_nothing() {
    assert!(parse_network_interfaces("").is_empty());
    assert!(parse_network_interfaces("only\nheaders\n").is_empty());
}

#[test]
fn disk_header_lines_and_short_rows_are_skipped() {
    let raw = "\n\nFilesystem Size Used Avail Use% Mounted\nFILESYSTEM a b c d e\nshort row\n/dev/sdb 1T 2G 3G 4% /data\n";
    let rows = parse_disks(raw);
    assert_eq!(rows.len(), 1);
    assert_eq!(rows[0].filesystem, "/dev/sdb");
    assert_eq!(rows[0].total, "1T");
    assert_eq!(rows[0].used, "2G");
    assert_eq!(rows[0].used_percent, "4%");
    assert_eq!(rows[0].mount_point, "/data");
}

fn iface(name: &str) -> NetworkInterfaceStatus {
    NetworkInterfaceStatus { interface: name.to_string(), rx_bytes: 0, tx_bytes: 0 }
}

#[test]
fn selected_interface_prefers_listed_choice() {
    let all = vec![iface("lo"), iface("eth0")];
    assert_eq!(pick_selected_interface(&all, Some("eth0".to_string())), Some("eth0".to_string()));
    assert_eq!(pick_selected_interface(&all, Some("wlan9".to_string())), Some("lo".to_string()));
    assert_eq!(pick_selected_interface(&all, None), Some("lo".to_string()));
    assert_eq!(pick_selected_interface(&[], Some("eth0".to_string())), None);
}
