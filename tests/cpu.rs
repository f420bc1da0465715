use freshfetch::cpu::parse_cpuinfo;
use freshfetch::records::Cpu;

#[test]
fn test_clean_cpu_name() {
    assert_eq!(Cpu::clean_cpu_name("Intel(R) Core(TM) i7-10700K CPU @ 3.80GHz"), "Core i7-10700K @ 3.80GHz");
    assert_eq!(Cpu::clean_cpu_name("AMD Ryzen 7 3700X 8-Core Processor"), "Ryzen 7 3700X");
    assert_eq!(Cpu::clean_cpu_name("Intel(R) Core(TM)2 Duo CPU E8400 @ 3.00GHz"), "Core 2 Duo E8400 @ 3.00GHz");
}

#[test]
fn clean_cpu_name_drops_notes() {
    assert_eq!(Cpu::clean_cpu_name("AMD Ryzen 5 5600G with Radeon Vega Graphics"), "Ryzen 5 5600G");
    assert_eq!(Cpu::clean_cpu_name("  Pentium   Dual-Core  "), "Pentium");
}

#[test]
fn cpuinfo_name_and_cores() {
    let info = "processor\t: 0\nvendor_id\t: GenuineIntel\nmodel name\t: Intel(R) Core(TM) i5 CPU\nprocessor\t: 1\nmodel name\t: other\n";
    let (name, cores) = parse_cpuinfo(info);
    assert_eq!(name, Some(String::from("Intel(R) Core(TM) i5 CPU")));
    assert_eq!(cores, 2);
}

#[test]
fn cpuinfo_without_name() {
    let (name, cores) = parse_cpuinfo("processor : 0\nflags : fpu\n");
    assert_eq!(name, None);
    assert_eq!(cores, 1);
    let (name, cores) = parse_cpuinfo("processor\t: 0\nHardware\t: BCM2835\n");
    assert_eq!(name, Some(String::from("BCM2835")));
    assert_eq!(cores, 1);
}

#[test]
fn cpuinfo_name_line_without_separator() {
    let (name, _) = parse_cpuinfo("model name\tIntel\nmodel name\t: later\n");
    assert_eq!(name, None);
    let (name, cores) = parse_cpuinfo("");
    assert_eq!(name, None);
    assert_eq!(cores, 0);
}
