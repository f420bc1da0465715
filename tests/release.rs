use freshfetch::release::release_names;

#[test]
fn os_release_names() {
    let content = "NAME=\"Debian GNU/Linux\"\nPRETTY_NAME=\"Debian GNU/Linux 12 (bookworm)\"\nVERSION_ID=\"12\"\nID=debian\n";
    assert_eq!(
        release_names(content),
        Some((String::from("Debian GNU/Linux 12 (bookworm) 12"), String::from("Debian GNU/Linux 12 (bookworm)")))
    );
}

#[test]
fn lsb_release_names() {
    let content = "DISTRIB_ID=Ubuntu\nDISTRIB_RELEASE=22.04\nDISTRIB_CODENAME=jammy\nDISTRIB_DESCRIPTION='Ubuntu 22.04.3 LTS'\n";
    assert_eq!(
        release_names(content),
        Some((String::from("Ubuntu 22.04.3 LTS 22.04"), String::from("Ubuntu 22.04.3 LTS")))
    );
}

#[test]
fn release_without_name() {
    assert_eq!(release_names("VERSION_ID=1\nID=x\n"), None);
    assert_eq!(release_names(""), None);
}

#[test]
fn last_setting_wins_and_no_version() {
    let content = "PRETTY_NAME = Alpha \r\nPRETTY_NAME=\"Beta\"\n";
    assert_eq!(release_names(content), Some((String::from("Beta"), String::from("Beta"))));
}
