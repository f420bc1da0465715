use freshfetch::listings::{bash_version, fish_version, inet_address, paired_devices, reports_connected};

#[test]
fn paired_device_lines() {
    let out = "Device AA:BB:CC:DD:EE:FF My Headphones\r\nController 11:22 host\nDevice 00:11:22:33:44:55 Mouse\nDevice lonely\n";
    assert_eq!(
        paired_devices(out),
        vec![
            (String::from("AA:BB:CC:DD:EE:FF"), String::from("My Headphones")),
            (String::from("00:11:22:33:44:55"), String::from("Mouse")),
        ]
    );
    assert!(paired_devices("").is_empty());
}

#[test]
fn connection_report() {
    assert!(reports_connected("Name: Buds\n\tConnected: yes\n"));
    assert!(!reports_connected("Name: Buds\n\tConnected: no\n"));
}

#[test]
fn bash_versions() {
    assert_eq!(bash_version("GNU bash, version 5.1.16(1)-release (x86_64-pc-linux-gnu)\nCopyright"), "5.1.16");
    assert_eq!(bash_version("GNU bash, version 5.2\n"), "5.2");
    assert_eq!(bash_version("no number here\nversion 1"), "");
    assert_eq!(bash_version(""), "");
}

#[test]
fn fish_versions() {
    assert_eq!(fish_version("fish, version 3.7.1\n"), "3.7.1");
    assert_eq!(fish_version("fish"), "");
}

#[test]
fn inet_addresses() {
    let out = "2: eth0: <BROADCAST,UP> mtu 1500\n    link/ether 00:11\n    inet 192.168.1.100/24 brd 192.168.1.255 scope global eth0\n    inet 10.0.0.1/8 scope global\n";
    assert_eq!(inet_address(out), Some(String::from("192.168.1.100")));
    assert_eq!(inet_address("    inet6 fe80::1/64 scope link\n"), None);
    assert_eq!(inet_address("inet 127.0.0.1\n"), Some(String::from("127.0.0.1")));
    assert_eq!(inet_address(""), None);
}
