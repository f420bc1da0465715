use freshfetch::errors::FreshfetchError;
use freshfetch::gather::{Outcome, ParallelOutcomes, SequentialRecords};
use freshfetch::namespace::{Root, Scalar, Segment};
use freshfetch::platform::{Family, Kernel};
use freshfetch::records::{Battery, Cpu, Distro, DistroColors, Memory, PackageManagers, Shell, Uptime};
use freshfetch::render::{art_source, template_source, ArtSource, RenderPipeline, Stage, TemplateSource};
use freshfetch::snapshot::Info;

fn first() -> SequentialRecords {
    SequentialRecords {
        kernel: Kernel { family: Family::Linux, release: String::from("6.1"), machine: String::from("aarch64") },
        context: None,
        distro: Distro {
            long_name: String::from("Arch Linux"),
            short_name: String::from("Arch"),
            architecture: String::from("aarch64"),
            colors: DistroColors::new(),
        },
        uptime: Outcome::Found(Uptime { days: 0, hours: 0, minutes: 5, seconds: 0 }),
        package_managers: Outcome::Found(PackageManagers(vec![])),
        shell: Outcome::Found(Shell { name: String::from("zsh"), version: String::from("5.9") }),
        memory: Memory { max: 8, used: 2 },
    }
}

fn nothing() -> ParallelOutcomes {
    ParallelOutcomes {
        resolution: Outcome::Absent,
        de: Outcome::Absent,
        wm: Outcome::Absent,
        cpu: Outcome::Absent,
        gpu: Outcome::Absent,
        motherboard: Outcome::Absent,
        host: Outcome::Absent,
        battery: Outcome::Absent,
        disk: Outcome::Absent,
        network: Outcome::Absent,
        temperature: Outcome::Absent,
        bluetooth: Outcome::Absent,
    }
}

fn cpu() -> Cpu {
    Cpu { name: String::from("M1"), full_name: String::from("Apple M1"), freq: 3_200_000, cores: 8 }
}

fn snapshot() -> Info {
    Info::new(first(), nothing()).0
}

fn lookup(ns: &freshfetch::namespace::Namespace, root: Root) -> Option<Scalar> {
    ns.entries.iter().find(|e| e.root == root && e.path.is_empty()).map(|e| e.value.clone())
}

#[test]
fn failing_branch_leaves_siblings_alone() {
    let mut ok = nothing();
    ok.cpu = Outcome::Found(cpu());
    ok.battery = Outcome::Found(Battery { capacity: 50, status: String::from("Full"), cycle_count: Some(3), health: None, power_draw: None });
    let mut failing = ok.clone();
    failing.battery = Outcome::Failed(FreshfetchError::Io(String::from("/sys/class/power_supply"), String::from("denied")));
    let (a, errs_a) = Info::new(first(), ok);
    let (b, errs_b) = Info::new(first(), failing);
    assert!(a.battery.is_some());
    assert!(b.battery.is_none());
    assert_eq!(a.cpu, b.cpu);
    assert_eq!(b.cpu, Some(cpu()));
    assert!(errs_a.is_empty());
    assert_eq!(errs_b, vec![FreshfetchError::Io(String::from("/sys/class/power_supply"), String::from("denied"))]);
}

#[test]
fn outcomes_from_options() {
    let o: Outcome<u8> = Outcome::from_option(Some(3));
    assert_eq!(o, Outcome::Found(3));
    let o: Outcome<u8> = Outcome::from_option(None);
    assert_eq!(o, Outcome::Absent);
}

#[test]
fn each_render_sees_earlier_blocks() {
    let mut p = RenderPipeline::new(snapshot(), true, 120, 40);
    assert_eq!(p.stage, Stage::Art);
    let ns = p.namespace();
    assert_eq!(lookup(&ns, Root::Logo), Some(Scalar::Flag(true)));
    assert_eq!(lookup(&ns, Root::Art), None);

    p.complete(String::from("\x1b[34m/\\\\\x1b[0m\n/  \\")).unwrap();
    assert_eq!(p.stage, Stage::Info);
    let ns = p.namespace();
    assert_eq!(lookup(&ns, Root::Art), Some(Scalar::Text(String::from("\x1b[34m/\\\\\x1b[0m\n/  \\"))));
    assert_eq!(lookup(&ns, Root::ArtWidth), Some(Scalar::Int(4)));
    assert_eq!(lookup(&ns, Root::ArtHeight), Some(Scalar::Int(2)));
    assert_eq!(lookup(&ns, Root::Info), None);

    p.complete(String::from("ada@box\n-------\nOS: Arch")).unwrap();
    assert_eq!(p.stage, Stage::Layout);
    let ns = p.namespace();
    assert_eq!(lookup(&ns, Root::ArtWidth), Some(Scalar::Int(4)));
    assert_eq!(lookup(&ns, Root::InfoWidth), Some(Scalar::Int(8)));
    assert_eq!(lookup(&ns, Root::InfoHeight), Some(Scalar::Int(3)));
    let width = ns.entries.iter().find(|e| e.root == Root::Terminal && e.path == vec![Segment::Key(String::from("width"))]);
    assert_eq!(width.map(|e| e.value.clone()), Some(Scalar::Int(120)));
    assert!(ns.entries.iter().any(|e| e.root == Root::Kernel));

    assert_eq!(p.output(), None);
    p.complete(String::from("final")).unwrap();
    assert_eq!(p.stage, Stage::Done);
    assert_eq!(p.output(), Some(String::from("final")));
}

#[test]
fn art_choice() {
    let arch = String::from("Arch");
    assert_eq!(art_source(Some(String::from("Gentoo")), true, &arch), ArtSource::Builtin(String::from("Gentoo")));
    assert_eq!(art_source(None, true, &arch), ArtSource::Template);
    assert_eq!(art_source(None, false, &arch), ArtSource::Builtin(String::from("Arch")));
}

#[test]
fn template_choice() {
    assert_eq!(template_source(true), TemplateSource::Override);
    assert_eq!(template_source(false), TemplateSource::Default);
}

#[test]
fn failing_sequential_probe_is_contained() {
    let mut seq = first();
    seq.shell = Outcome::Failed(FreshfetchError::General(String::from("no $SHELL")));
    let (info, errs) = Info::new(seq, nothing());
    assert_eq!(info.shell, None);
    assert!(info.uptime.is_some());
    assert_eq!(info.package_managers, Some(PackageManagers(vec![])));
    assert_eq!(errs, vec![FreshfetchError::General(String::from("no $SHELL"))]);
}
