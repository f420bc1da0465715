use freshfetch::errors::FreshfetchError;
use freshfetch::platform::{resolve_family, Family, Kernel};

#[test]
fn freebsd_is_bsd() {
    assert_eq!(resolve_family("FreeBSD"), Ok(Family::Bsd));
}

#[test]
fn cygwin_is_windows() {
    assert_eq!(resolve_family("CYGWIN_NT-10.0"), Ok(Family::Windows));
    assert_eq!(resolve_family("MSYS_NT-10.0"), Ok(Family::Windows));
    assert_eq!(resolve_family("MINGW64_NT-10.0"), Ok(Family::Windows));
}

#[test]
fn unknown_platform_is_unsupported() {
    assert_eq!(
        resolve_family("PlayStation5"),
        Err(FreshfetchError::PlatformUnsupported(String::from("PlayStation5")))
    );
}

#[test]
fn every_bsd_suffix_is_bsd() {
    for name in ["OpenBSD", "NetBSD", "MidnightBSD", "BSD", "xBSD"] {
        assert_eq!(resolve_family(name), Ok(Family::Bsd), "{}", name);
    }
}

#[test]
fn bsd_suffix_wins_over_gnu_prefix() {
    assert_eq!(resolve_family("GNU/kFreeBSD"), Ok(Family::Bsd));
    assert_eq!(resolve_family("GNU/Hurd"), Ok(Family::Linux));
}

#[test]
fn exact_names() {
    assert_eq!(resolve_family("Darwin"), Ok(Family::Darwin));
    assert_eq!(resolve_family("SunOS"), Ok(Family::Solaris));
    assert_eq!(resolve_family("Haiku"), Ok(Family::Haiku));
    assert_eq!(resolve_family("MINIX"), Ok(Family::Minix));
    assert_eq!(resolve_family("AIX"), Ok(Family::Aix));
    assert_eq!(resolve_family("FreeMiNT"), Ok(Family::FreeMint));
    assert_eq!(resolve_family("Linux"), Ok(Family::Linux));
    assert_eq!(resolve_family("DragonFly"), Ok(Family::Bsd));
    assert_eq!(resolve_family("Bitrig"), Ok(Family::Bsd));
    assert_eq!(resolve_family("GNU"), Ok(Family::Linux));
}

#[test]
fn names_are_case_sensitive() {
    assert!(resolve_family("linux").is_err());
    assert!(resolve_family("freebsd").is_err());
    assert!(resolve_family("").is_err());
}

#[test]
fn family_names() {
    assert_eq!(Family::Bsd.name(), "BSD");
    assert_eq!(Family::Solaris.name(), "Solaris");
    assert_eq!(Family::FreeMint.name(), "FreeMiNT");
}

#[test]
fn identity_keeps_release_and_machine() {
    let p = Kernel::new("Linux", String::from("6.1.0"), String::from("x86_64")).unwrap();
    assert_eq!(p.family, Family::Linux);
    assert_eq!(p.release, "6.1.0");
    assert_eq!(p.machine, "x86_64");
    let e = Kernel::new("Plan9", String::new(), String::new()).unwrap_err();
    assert_eq!(e, FreshfetchError::PlatformUnsupported(String::from("Plan9")));
}

#[test]
fn error_messages() {
    assert_eq!(
        FreshfetchError::PlatformUnsupported(String::from("PlayStation5")).message(),
        "Unexpected OS \"PlayStation5\". Support needed."
    );
    assert_eq!(FreshfetchError::Lua(String::from("boom")).message(), "A Lua error occurred. Details:\nboom");
    assert_eq!(
        FreshfetchError::Command(String::from("ls"), String::from("gone")).message(),
        "An error occurred while executing \"ls\". Details:\ngone"
    );
    assert_eq!(
        FreshfetchError::Io(String::from("/x"), String::from("denied")).message(),
        "An I/O error occurred while trying to read from \"/x\". Details:\ndenied"
    );
    assert_eq!(FreshfetchError::General(String::from("odd")).message(), "An error occurred: odd");
}
