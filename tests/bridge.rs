use freshfetch::namespace::{Entry, Namespace, Root, Scalar, Segment};
use freshfetch::platform::{Family, Kernel};
use freshfetch::records::{
    Battery, Bluetooth, BluetoothDevice, Context, Cpu, De, Disk, Distro, DistroColors, Gpu, Gpus,
    Host, Memory, Motherboard, Network, PackageManager, PackageManagers, Resolution, Shell, Uptime,
    Wm,
};
use freshfetch::snapshot::Info;
use freshfetch::temperature::{TempSensor, Temperature};

fn key(k: &str) -> Segment {
    Segment::Key(String::from(k))
}

fn minimal() -> Info {
    Info {
        context: None,
        distro: Distro {
            long_name: String::from("Debian GNU/Linux 12"),
            short_name: String::from("Debian"),
            architecture: String::from("x86_64"),
            colors: DistroColors::new(),
        },
        kernel: Kernel {
            family: Family::Linux,
            release: String::from("6.1.0"),
            machine: String::from("x86_64"),
        },
        uptime: Some(Uptime { days: 1, hours: 2, minutes: 3, seconds: 4 }),
        package_managers: Some(PackageManagers(vec![PackageManager::new("dpkg", 1500)])),
        shell: Some(Shell { name: String::from("bash"), version: String::from("5.2") }),
        resolution: None,
        de: None,
        wm: None,
        cpu: None,
        gpu: None,
        memory: Memory { max: 16000, used: 4000 },
        motherboard: None,
        host: None,
        battery: None,
        disk: None,
        network: None,
        temperature: None,
        bluetooth: None,
    }
}

fn has_root(ns: &Namespace, root: Root) -> bool {
    ns.entries.iter().any(|e| e.root == root)
}

fn find<'a>(ns: &'a Namespace, root: Root, path: &[Segment]) -> Option<&'a Scalar> {
    ns.entries.iter().find(|e| e.root == root && e.path == path).map(|e: &Entry| &e.value)
}

#[test]
fn absent_battery_writes_no_battery_key() {
    let ns = minimal().project();
    assert!(!has_root(&ns, Root::Battery));
    assert!(has_root(&ns, Root::Kernel));
}

#[test]
fn absent_probes_write_nothing() {
    let ns = minimal().project();
    for root in [
        Root::Context,
        Root::Resolution,
        Root::De,
        Root::Wm,
        Root::Cpu,
        Root::Gpus,
        Root::Motherboard,
        Root::Host,
        Root::Disk,
        Root::Network,
        Root::Temperature,
        Root::Bluetooth,
    ] {
        assert!(!has_root(&ns, root), "{:?}", root);
    }
}

#[test]
fn present_battery_writes_its_fields_only() {
    let mut info = minimal();
    info.battery = Some(Battery {
        capacity: 87,
        status: String::from("Discharging"),
        cycle_count: None,
        health: Some(93),
        power_draw: Some(12_500_000),
    });
    let ns = info.project();
    assert_eq!(find(&ns, Root::Battery, &[key("capacity")]), Some(&Scalar::Int(87)));
    assert_eq!(find(&ns, Root::Battery, &[key("status")]), Some(&Scalar::Text(String::from("Discharging"))));
    assert_eq!(find(&ns, Root::Battery, &[key("cycles")]), None);
    assert_eq!(find(&ns, Root::Battery, &[key("health")]), Some(&Scalar::Int(93)));
    assert_eq!(find(&ns, Root::Battery, &[key("power")]), Some(&Scalar::Decimal(12_500_000)));
}

#[test]
fn kernel_and_lists_are_written() {
    let ns = minimal().project();
    assert_eq!(find(&ns, Root::Kernel, &[key("name")]), Some(&Scalar::Text(String::from("Linux"))));
    assert_eq!(find(&ns, Root::Kernel, &[key("version")]), Some(&Scalar::Text(String::from("6.1.0"))));
    assert_eq!(
        find(&ns, Root::PackageManagers, &[Segment::Index(1), key("name")]),
        Some(&Scalar::Text(String::from("dpkg")))
    );
    assert_eq!(
        find(&ns, Root::PackageManagers, &[Segment::Index(1), key("packages")]),
        Some(&Scalar::Int(1500))
    );
    assert_eq!(find(&ns, Root::DistroColors, &[Segment::Index(4)]), Some(&Scalar::Text(String::from("\u{1b}[38;5;7m"))));
    assert_eq!(find(&ns, Root::Uptime, &[key("seconds")]), Some(&Scalar::Int(4)));
    assert_eq!(find(&ns, Root::Memory, &[key("used")]), Some(&Scalar::Int(4000)));
}

#[test]
fn projecting_twice_is_identical() {
    let info = minimal();
    assert_eq!(info.project(), info.project());
    let mut a = Namespace::new();
    info.inject(&mut a);
    assert_eq!(a, info.project());
}

#[test]
fn full_snapshot_writes_every_record() {
    let mut info = minimal();
    info.context = Some(Context { user: String::from("ada"), host: String::from("box\n") });
    info.resolution = Some(Resolution { width: 1920, height: 1080, refresh: None });
    info.de = Some(De(String::from("KDE"), String::from("6")));
    info.wm = Some(Wm(String::from("KWin")));
    info.cpu = Some(Cpu { name: String::from("Ryzen 7 3700X"), full_name: String::from("AMD Ryzen 7 3700X 8-Core Processor"), freq: 3_600_000, cores: 16 });
    info.gpu = Some(Gpus(vec![Gpu { brand: String::from("AMD"), name: String::from("RX 6600") }]));
    info.motherboard = Some(Motherboard { name: String::from("B550"), vendor: String::from("ASUS"), revision: String::from("1.0") });
    info.host = Some(Host { model: String::from("Desktop") });
    info.disk = Some(Disk { name: String::from("/dev/nvme0n1p2"), mount_point: String::from("/"), total: 3 * 1073741824 + 5, used: 1073741823, fs_type: String::from("ext4") });
    info.network = Some(Network { interface: String::from("eth0"), ip: String::from("10.0.0.2") });
    info.temperature = Some(Temperature { sensors: vec![] });
    info.bluetooth = Some(Bluetooth { adapter: None, devices: vec![BluetoothDevice { name: String::from("Buds"), mac: String::from("AA:BB"), connected: true }] });
    let ns = info.project();
    assert_eq!(find(&ns, Root::Context, &[key("host")]), Some(&Scalar::Text(String::from("box\n"))));
    assert_eq!(find(&ns, Root::Resolution, &[key("refresh")]), None);
    assert_eq!(find(&ns, Root::De, &[key("version")]), Some(&Scalar::Text(String::from("6"))));
    assert_eq!(find(&ns, Root::Cpu, &[key("fullName")]), Some(&Scalar::Text(String::from("AMD Ryzen 7 3700X 8-Core Processor"))));
    assert_eq!(find(&ns, Root::Cpu, &[key("freq")]), Some(&Scalar::Decimal(3_600_000)));
    assert_eq!(find(&ns, Root::Gpus, &[Segment::Index(1), key("brand")]), Some(&Scalar::Text(String::from("AMD"))));
    assert_eq!(find(&ns, Root::Disk, &[key("total_gb")]), Some(&Scalar::Int(3)));
    assert_eq!(find(&ns, Root::Disk, &[key("used_gb")]), Some(&Scalar::Int(0)));
    assert_eq!(find(&ns, Root::Temperature, &[key("count")]), Some(&Scalar::Int(0)));
    assert_eq!(find(&ns, Root::Temperature, &[key("max")]), None);
    assert_eq!(find(&ns, Root::Bluetooth, &[key("adapter")]), None);
    assert_eq!(find(&ns, Root::Bluetooth, &[key("count")]), Some(&Scalar::Int(1)));
    assert_eq!(
        find(&ns, Root::Bluetooth, &[key("devices"), Segment::Index(1), key("connected")]),
        Some(&Scalar::Flag(true))
    );
    assert!(has_root(&ns, Root::Host) && has_root(&ns, Root::Wm) && has_root(&ns, Root::Network) && has_root(&ns, Root::Motherboard));
}

#[test]
fn root_names() {
    assert_eq!(Root::PackageManagers.name(), "packageManagers");
    assert_eq!(Root::ArtWidth.name(), "artWidth");
    assert_eq!(Root::DistroColors.name(), "distroColors");
}

#[test]
fn palette_fallbacks() {
    let grey = "\u{1b}[38;5;7m";
    let c = DistroColors::from_palette([Some(String::from("red")), None, Some(String::from("blue")), None]);
    assert_eq!(c, DistroColors(String::from("red"), String::from("red"), String::from("blue"), String::from("blue")));
    let c = DistroColors::from_palette([None, None, None, None]);
    assert_eq!(c, DistroColors(String::from("white"), String::from("white"), String::from(grey), String::from(grey)));
    let c = DistroColors::from_palette([None, Some(String::from("green")), None, Some(String::from("cyan"))]);
    assert_eq!(c, DistroColors(String::from("white"), String::from("green"), String::from("green"), String::from("cyan")));
    let c = DistroColors::from_palette([Some(String::from("red")), Some(String::from(grey)), None, None]);
    assert_eq!(c.1, "red");
}

#[test]
fn temperature_readings() {
    let t = Temperature {
        sensors: vec![
            TempSensor { label: String::from("acpitz"), temp: 40_000_000, max: None, critical: None },
            TempSensor { label: String::from("AMDGPU edge"), temp: 55_000_000, max: Some(90_000_000), critical: None },
            TempSensor { label: String::from("Core 0"), temp: 61_000_000, max: None, critical: Some(100_000_000) },
            TempSensor { label: String::from("CPU Package"), temp: 70_000_000, max: None, critical: None },
        ],
    };
    assert_eq!(t.max_temp(), Some(70_000_000));
    assert_eq!(t.cpu_temp(), Some(61_000_000));
    assert_eq!(t.gpu_temp(), Some(55_000_000));
    let empty = Temperature { sensors: vec![] };
    assert_eq!(empty.max_temp(), None);
    assert_eq!(empty.cpu_temp(), None);
    let mut ns = Namespace::new();
    t.inject(&mut ns);
    assert_eq!(find(&ns, Root::Temperature, &[key("cpu")]), Some(&Scalar::Decimal(61_000_000)));
    assert_eq!(find(&ns, Root::Temperature, &[key("sensors"), Segment::Index(2), key("max")]), Some(&Scalar::Decimal(90_000_000)));
    assert_eq!(find(&ns, Root::Temperature, &[key("sensors"), Segment::Index(1), key("max")]), None);
    assert_eq!(find(&ns, Root::Temperature, &[key("sensors"), Segment::Index(3), key("critical")]), Some(&Scalar::Decimal(100_000_000)));
}

#[test]
fn nvidia_label_counts_as_graphics() {
    let t = Temperature {
        sensors: vec![TempSensor { label: String::from("NVIDIA GeForce"), temp: 1, max: None, critical: None }],
    };
    assert_eq!(t.gpu_temp(), Some(1));
    assert_eq!(t.cpu_temp(), None);
}

#[test]
fn sequences_carry_a_count() {
    let ns = minimal().project();
    assert_eq!(find(&ns, Root::PackageManagers, &[key("count")]), Some(&Scalar::Int(1)));
    let mut info = minimal();
    info.package_managers = Some(PackageManagers(vec![]));
    info.gpu = Some(Gpus(vec![]));
    let ns = info.project();
    assert_eq!(find(&ns, Root::PackageManagers, &[key("count")]), Some(&Scalar::Int(0)));
    assert_eq!(find(&ns, Root::Gpus, &[key("count")]), Some(&Scalar::Int(0)));
}

#[test]
fn failed_sequential_probes_write_nothing() {
    let mut info = minimal();
    info.uptime = None;
    info.package_managers = None;
    info.shell = None;
    let ns = info.project();
    assert!(!has_root(&ns, Root::Uptime));
    assert!(!has_root(&ns, Root::PackageManagers));
    assert!(!has_root(&ns, Root::Shell));
    assert!(has_root(&ns, Root::Memory));
}
