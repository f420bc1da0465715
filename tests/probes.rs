use freshfetch::platform::Family;
use freshfetch::probes::{count_packages, uptime_seconds};
use freshfetch::records::{PackageManager, Uptime};

#[test]
fn package_lines_are_counted() {
    assert_eq!(count_packages("a\nb\nc\n"), 3);
    assert_eq!(count_packages("  \n\t"), 0);
    assert_eq!(count_packages(""), 0);
    assert_eq!(count_packages("\nonly\n\n"), 1);
    let p = PackageManager::from_listing("pacman", "base\nlinux\n");
    assert_eq!(p.name, "pacman");
    assert_eq!(p.packages, 2);
}

#[test]
fn uptime_fields() {
    let u = Uptime::from_seconds(90061).unwrap();
    assert_eq!(u, Uptime { days: 1, hours: 1, minutes: 1, seconds: 1 });
    let u = Uptime::from_seconds(0).unwrap();
    assert_eq!(u, Uptime { days: 0, hours: 0, minutes: 0, seconds: 0 });
    assert!(Uptime::from_seconds(i64::MAX).is_err());
}

#[test]
fn uptime_source_by_family() {
    assert_eq!(uptime_seconds(Family::Linux, true, 3600, 0, 0), 3600);
    assert_eq!(uptime_seconds(Family::Linux, false, 3600, 1000, 1600), 600);
    assert_eq!(uptime_seconds(Family::Linux, false, 3600, 2000, 1600), 0);
    assert_eq!(uptime_seconds(Family::Darwin, true, 3600, 0, 0), 0);
    assert_eq!(uptime_seconds(Family::Minix, true, u64::MAX, 0, 0), i64::MAX);
    let u = Uptime::new(Family::Windows, true, 7322, 0, 0).unwrap();
    assert_eq!(u, Uptime { days: 0, hours: 2, minutes: 2, seconds: 2 });
}
