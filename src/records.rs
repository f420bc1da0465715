//! The records that probes return, and how each is written into the
//! namespace. An absent optional value writes no entry at all.

use vstd::prelude::*;
use crate::namespace::{all_under, at, field, optional_field, EntryView, Namespace, Root, Scalar, ScalarView, SegmentView};
use crate::platform::{family_name, Kernel};
use crate::text::same_text;

verus! {

pub open spec fn text(s: Seq<char>) -> ScalarView {
    ScalarView::Text(s)
}

/// The logged-in user and the machine's host name.
#[derive(Debug, Clone, PartialEq, Eq)]
pub struct Context {
    pub user: String,
    pub host: String,
}

pub open spec fn context_entries(c: Context) -> Seq<EntryView> {
    seq![
        field(Root::Context, "user"@, text(c.user@)),
        field(Root::Context, "host"@, text(c.host@)),
    ]
}

impl Context {
    pub fn inject(&self, ns: &mut Namespace)
        ensures
            final(ns)@ == old(ns)@ + context_entries(*self),
    {
        ns.set_field(Root::Context, "user", Scalar::Text(self.user.clone()));
        ns.set_field(Root::Context, "host", Scalar::Text(self.host.clone()));
        proof {
            assert(final(ns)@ =~= old(ns)@ + context_entries(*self));
        }
    }
}

pub open spec fn kernel_entries(k: Kernel) -> Seq<EntryView> {
    seq![
        field(Root::Kernel, "name"@, text(family_name(k.family))),
        field(Root::Kernel, "version"@, text(k.release@)),
        field(Root::Kernel, "architecture"@, text(k.machine@)),
    ]
}

/// Writes the platform identity under `kernel`.
pub fn inject_kernel(k: &Kernel, ns: &mut Namespace)
    ensures
        final(ns)@ == old(ns)@ + kernel_entries(*k),
{
    ns.set_field(Root::Kernel, "name", Scalar::Text(k.family.name()));
    ns.set_field(Root::Kernel, "version", Scalar::Text(k.release.clone()));
    ns.set_field(Root::Kernel, "architecture", Scalar::Text(k.machine.clone()));
    proof {
        assert(final(ns)@ =~= old(ns)@ + kernel_entries(*k));
    }
}

/// The four colours of a distribution's logo, as escape sequences.
#[derive(Debug, Clone, PartialEq, Eq)]
pub struct DistroColors(pub String, pub String, pub String, pub String);

/// The escape sequence for the terminal's light grey.
pub open spec fn light_grey() -> Seq<char> {
    "\u{001b}[38;5;7m"@
}

/// Colours chosen from up to four given ones: the first defaults to
/// "white"; each later one falls back to the nearest given one before it, or
/// to light grey; a second colour that comes out light grey takes the first.
pub open spec fn palette(v: Seq<Option<Seq<char>>>) -> (Seq<char>, Seq<char>, Seq<char>, Seq<char>)
    recommends
        v.len() == 4,
{
    let first = match v[0] {
        Some(c) => c,
        None => "white"@,
    };
    let fb0 = match v[0] {
        Some(c) => c,
        None => light_grey(),
    };
    let fb1 = match v[1] {
        Some(c) => c,
        None => fb0,
    };
    let fb2 = match v[2] {
        Some(c) => c,
        None => fb1,
    };
    let fb3 = match v[3] {
        Some(c) => c,
        None => fb2,
    };
    let second = if fb1 == light_grey() {
        first
    } else {
        fb1
    };
    (first, second, fb2, fb3)
}

pub open spec fn option_view(o: Option<String>) -> Option<Seq<char>> {
    match o {
        Some(s) => Some(s@),
        None => None,
    }
}

fn pick(o: &Option<String>, fallback: String) -> (r: String)
    ensures
        r@ == match option_view(*o) {
            Some(c) => c,
            None => fallback@,
        },
{
    match o {
        Some(c) => c.clone(),
        None => fallback,
    }
}

impl DistroColors {
    /// Four light-grey colours.
    pub fn new() -> (r: DistroColors)
        ensures
            r.0@ == light_grey() && r.1@ == light_grey() && r.2@ == light_grey() && r.3@
                == light_grey(),
    {
        DistroColors(
            String::from_str("\u{001b}[38;5;7m"),
            String::from_str("\u{001b}[38;5;7m"),
            String::from_str("\u{001b}[38;5;7m"),
            String::from_str("\u{001b}[38;5;7m"),
        )
    }

    /// The colours of a logo that gives up to four of them.
    pub fn from_palette(v: [Option<String>; 4]) -> (r: DistroColors)
        ensures
            (r.0@, r.1@, r.2@, r.3@) == palette(v@.map_values(|o: Option<String>| option_view(o))),
    {
        let ghost w = v@.map_values(|o: Option<String>| option_view(o));
        let first = pick(&v[0], String::from_str("white"));
        let fb0 = pick(&v[0], String::from_str("\u{001b}[38;5;7m"));
        let fb1 = pick(&v[1], fb0.clone());
        let fb2 = pick(&v[2], fb1.clone());
        let fb3 = pick(&v[3], fb2.clone());
        let second = if same_text(fb1.as_str(), "\u{001b}[38;5;7m") {
            first.clone()
        } else {
            fb1
        };
        proof {
            assert(w[0] == option_view(v[0]));
            assert(w[1] == option_view(v[1]));
            assert(w[2] == option_view(v[2]));
            assert(w[3] == option_view(v[3]));
        }
        DistroColors(first, second, fb2, fb3)
    }

    pub fn inject(&self, ns: &mut Namespace)
        ensures
            final(ns)@ == old(ns)@ + distro_colors_entries(*self),
    {
        ns.set_index(Root::DistroColors, 1, Scalar::Text(self.0.clone()));
        ns.set_index(Root::DistroColors, 2, Scalar::Text(self.1.clone()));
        ns.set_index(Root::DistroColors, 3, Scalar::Text(self.2.clone()));
        ns.set_index(Root::DistroColors, 4, Scalar::Text(self.3.clone()));
        proof {
            assert(final(ns)@ =~= old(ns)@ + distro_colors_entries(*self));
        }
    }
}

pub open spec fn nth(root: Root, i: nat, v: ScalarView) -> EntryView {
    at(root, seq![SegmentView::Index(i)], v)
}

pub open spec fn distro_colors_entries(c: DistroColors) -> Seq<EntryView> {
    seq![
        nth(Root::DistroColors, 1, text(c.0@)),
        nth(Root::DistroColors, 2, text(c.1@)),
        nth(Root::DistroColors, 3, text(c.2@)),
        nth(Root::DistroColors, 4, text(c.3@)),
    ]
}


/// Writes two text fields of one record.
fn set_two(ns: &mut Namespace, root: Root, k1: &str, v1: &String, k2: &str, v2: &String)
    ensures
        final(ns)@ == old(ns)@ + seq![field(root, k1@, text(v1@)), field(root, k2@, text(v2@))],
{
    ns.set_field(root, k1, Scalar::Text(v1.clone()));
    ns.set_field(root, k2, Scalar::Text(v2.clone()));
    proof {
        assert(final(ns)@ =~= old(ns)@ + seq![
            field(root, k1@, text(v1@)),
            field(root, k2@, text(v2@)),
        ]);
    }
}

/// The distribution: its full and short names, its architecture and logo
/// colours.
#[derive(Debug, Clone, PartialEq, Eq)]
pub struct Distro {
    pub long_name: String,
    pub short_name: String,
    pub architecture: String,
    pub colors: DistroColors,
}

pub open spec fn distro_entries(d: Distro) -> Seq<EntryView> {
    distro_colors_entries(d.colors) + seq![
        field(Root::Distro, "fullname"@, text(d.long_name@)),
        field(Root::Distro, "shortname"@, text(d.short_name@)),
        field(Root::Distro, "architecture"@, text(d.architecture@)),
    ]
}

impl Distro {
    pub fn inject(&self, ns: &mut Namespace)
        ensures
            final(ns)@ == old(ns)@ + distro_entries(*self),
    {
        self.colors.inject(ns);
        ns.set_field(Root::Distro, "fullname", Scalar::Text(self.long_name.clone()));
        ns.set_field(Root::Distro, "shortname", Scalar::Text(self.short_name.clone()));
        ns.set_field(Root::Distro, "architecture", Scalar::Text(self.architecture.clone()));
        proof {
            assert(final(ns)@ =~= old(ns)@ + distro_entries(*self));
        }
    }
}

/// Time since boot, split into days, hours, minutes and seconds.
#[derive(Debug, Clone, Copy, PartialEq, Eq)]
pub struct Uptime {
    pub days: u32,
    pub hours: u32,
    pub minutes: u32,
    pub seconds: u32,
}

pub open spec fn uptime_entries(u: Uptime) -> Seq<EntryView> {
    seq![
        field(Root::Uptime, "days"@, ScalarView::Int(u.days as int)),
        field(Root::Uptime, "hours"@, ScalarView::Int(u.hours as int)),
        field(Root::Uptime, "minutes"@, ScalarView::Int(u.minutes as int)),
        field(Root::Uptime, "seconds"@, ScalarView::Int(u.seconds as int)),
    ]
}

impl Uptime {
    pub fn inject(&self, ns: &mut Namespace)
        ensures
            final(ns)@ == old(ns)@ + uptime_entries(*self),
    {
        ns.set_field(Root::Uptime, "days", Scalar::Int(self.days as i128));
        ns.set_field(Root::Uptime, "hours", Scalar::Int(self.hours as i128));
        ns.set_field(Root::Uptime, "minutes", Scalar::Int(self.minutes as i128));
        ns.set_field(Root::Uptime, "seconds", Scalar::Int(self.seconds as i128));
        proof {
            assert(final(ns)@ =~= old(ns)@ + uptime_entries(*self));
        }
    }
}

/// A shell and its version.
#[derive(Debug, Clone, PartialEq, Eq)]
pub struct Shell {
    pub name: String,
    pub version: String,
}

pub open spec fn shell_entries(s: Shell) -> Seq<EntryView> {
    seq![field(Root::Shell, "name"@, text(s.name@)), field(Root::Shell, "version"@, text(s.version@))]
}

impl Shell {
    pub fn inject(&self, ns: &mut Namespace)
        ensures
            final(ns)@ == old(ns)@ + shell_entries(*self),
    {
        set_two(ns, Root::Shell, "name", &self.name, "version", &self.version);
    }
}

/// The desktop environment and its version.
#[derive(Debug, Clone, PartialEq, Eq)]
pub struct De(pub String, pub String);

pub open spec fn de_entries(d: De) -> Seq<EntryView> {
    seq![field(Root::De, "name"@, text(d.0@)), field(Root::De, "version"@, text(d.1@))]
}

impl De {
    pub fn inject(&self, ns: &mut Namespace)
        ensures
            final(ns)@ == old(ns)@ + de_entries(*self),
    {
        set_two(ns, Root::De, "name", &self.0, "version", &self.1);
    }
}

/// The window manager.
#[derive(Debug, Clone, PartialEq, Eq)]
pub struct Wm(pub String);

pub open spec fn wm_entries(w: Wm) -> Seq<EntryView> {
    seq![field(Root::Wm, "name"@, text(w.0@))]
}

impl Wm {
    pub fn inject(&self, ns: &mut Namespace)
        ensures
            final(ns)@ == old(ns)@ + wm_entries(*self),
    {
        ns.set_field(Root::Wm, "name", Scalar::Text(self.0.clone()));
        proof {
            assert(final(ns)@ =~= old(ns)@ + wm_entries(*self));
        }
    }
}

/// The network interface in use and its address.
#[derive(Debug, Clone, PartialEq, Eq)]
pub struct Network {
    pub interface: String,
    pub ip: String,
}

pub open spec fn network_entries(n: Network) -> Seq<EntryView> {
    seq![
        field(Root::Network, "interface"@, text(n.interface@)),
        field(Root::Network, "ip"@, text(n.ip@)),
    ]
}

impl Network {
    pub fn inject(&self, ns: &mut Namespace)
        ensures
            final(ns)@ == old(ns)@ + network_entries(*self),
    {
        set_two(ns, Root::Network, "interface", &self.interface, "ip", &self.ip);
    }
}

/// The machine's model name.
#[derive(Debug, Clone, PartialEq, Eq)]
pub struct Host {
    pub model: String,
}

pub open spec fn host_entries(h: Host) -> Seq<EntryView> {
    seq![field(Root::Host, "model"@, text(h.model@))]
}

impl Host {
    pub fn inject(&self, ns: &mut Namespace)
        ensures
            final(ns)@ == old(ns)@ + host_entries(*self),
    {
        ns.set_field(Root::Host, "model", Scalar::Text(self.model.clone()));
        proof {
            assert(final(ns)@ =~= old(ns)@ + host_entries(*self));
        }
    }
}

/// The motherboard's name, vendor and revision.
#[derive(Debug, Clone, PartialEq, Eq)]
pub struct Motherboard {
    pub name: String,
    pub vendor: String,
    pub revision: String,
}

pub open spec fn motherboard_entries(m: Motherboard) -> Seq<EntryView> {
    seq![
        field(Root::Motherboard, "name"@, text(m.name@)),
        field(Root::Motherboard, "vendor"@, text(m.vendor@)),
        field(Root::Motherboard, "revision"@, text(m.revision@)),
    ]
}

impl Motherboard {
    pub fn inject(&self, ns: &mut Namespace)
        ensures
            final(ns)@ == old(ns)@ + motherboard_entries(*self),
    {
        set_two(ns, Root::Motherboard, "name", &self.name, "vendor", &self.vendor);
        ns.set_field(Root::Motherboard, "revision", Scalar::Text(self.revision.clone()));
        proof {
            assert(final(ns)@ =~= old(ns)@ + motherboard_entries(*self));
        }
    }
}

/// Memory in use and in total.
#[derive(Debug, Clone, Copy, PartialEq, Eq)]
pub struct Memory {
    pub max: u64,
    pub used: u64,
}

pub open spec fn memory_entries(m: Memory) -> Seq<EntryView> {
    seq![
        field(Root::Memory, "max"@, ScalarView::Int(m.max as int)),
        field(Root::Memory, "used"@, ScalarView::Int(m.used as int)),
    ]
}

impl Memory {
    pub fn inject(&self, ns: &mut Namespace)
        ensures
            final(ns)@ == old(ns)@ + memory_entries(*self),
    {
        ns.set_field(Root::Memory, "max", Scalar::Int(self.max as i128));
        ns.set_field(Root::Memory, "used", Scalar::Int(self.used as i128));
        proof {
            assert(final(ns)@ =~= old(ns)@ + memory_entries(*self));
        }
    }
}

pub open spec fn decimal_of(o: Option<i64>) -> Option<ScalarView> {
    match o {
        Some(d) => Some(ScalarView::Decimal(d as int)),
        None => None,
    }
}

/// Writes `root`.`key` when `value` is there; nothing otherwise.
fn set_decimal_if(ns: &mut Namespace, root: Root, key: &str, value: Option<i64>)
    ensures
        final(ns)@ == old(ns)@ + optional_field(root, key@, decimal_of(value)),
{
    match value {
        Some(d) => {
            ns.set_field(root, key, Scalar::Decimal(d));
        },
        None => {},
    }
    proof {
        assert(final(ns)@ =~= old(ns)@ + optional_field(root, key@, decimal_of(value)));
    }
}

/// Writes `root`.`key` when `value` is there; nothing otherwise.
fn set_int_if(ns: &mut Namespace, root: Root, key: &str, value: Option<u32>)
    ensures
        final(ns)@ == old(ns)@ + optional_field(
            root,
            key@,
            match value {
                Some(i) => Some(ScalarView::Int(i as int)),
                None => None,
            },
        ),
{
    match value {
        Some(i) => {
            ns.set_field(root, key, Scalar::Int(i as i128));
        },
        None => {},
    }
    proof {
        assert(final(ns)@ =~= old(ns)@ + optional_field(
            root,
            key@,
            match value {
                Some(i) => Some(ScalarView::Int(i as int)),
                None => None,
            },
        ));
    }
}

/// The display resolution, with its refresh rate in millionths of a hertz
/// when known.
#[derive(Debug, Clone, Copy, PartialEq, Eq)]
pub struct Resolution {
    pub width: u16,
    pub height: u16,
    pub refresh: Option<i64>,
}

pub open spec fn resolution_entries(r: Resolution) -> Seq<EntryView> {
    seq![
        field(Root::Resolution, "width"@, ScalarView::Int(r.width as int)),
        field(Root::Resolution, "height"@, ScalarView::Int(r.height as int)),
    ] + optional_field(Root::Resolution, "refresh"@, decimal_of(r.refresh))
}

impl Resolution {
    pub fn inject(&self, ns: &mut Namespace)
        ensures
            final(ns)@ == old(ns)@ + resolution_entries(*self),
    {
        ns.set_field(Root::Resolution, "width", Scalar::Int(self.width as i128));
        ns.set_field(Root::Resolution, "height", Scalar::Int(self.height as i128));
        set_decimal_if(ns, Root::Resolution, "refresh", self.refresh);
        proof {
            assert(final(ns)@ =~= old(ns)@ + resolution_entries(*self));
        }
    }
}

/// The processor: its cleaned and full names, its frequency in millionths
/// (of what the frequency source reads, divided by a thousand), and its
/// number of logical cores.
#[derive(Debug, Clone, PartialEq, Eq)]
pub struct Cpu {
    pub name: String,
    pub full_name: String,
    pub freq: i64,
    pub cores: i32,
}

pub open spec fn cpu_entries(c: Cpu) -> Seq<EntryView> {
    seq![
        field(Root::Cpu, "name"@, text(c.name@)),
        field(Root::Cpu, "fullName"@, text(c.full_name@)),
        field(Root::Cpu, "cores"@, ScalarView::Int(c.cores as int)),
        field(Root::Cpu, "freq"@, ScalarView::Decimal(c.freq as int)),
    ]
}

impl Cpu {
    pub fn inject(&self, ns: &mut Namespace)
        ensures
            final(ns)@ == old(ns)@ + cpu_entries(*self),
    {
        set_two(ns, Root::Cpu, "name", &self.name, "fullName", &self.full_name);
        ns.set_field(Root::Cpu, "cores", Scalar::Int(self.cores as i128));
        ns.set_field(Root::Cpu, "freq", Scalar::Decimal(self.freq));
        proof {
            assert(final(ns)@ =~= old(ns)@ + cpu_entries(*self));
        }
    }
}

/// The battery: charge in percent, status, and what the hardware reports
/// beyond that (charge cycles, health in percent, power draw in microwatts).
#[derive(Debug, Clone, PartialEq, Eq)]
pub struct Battery {
    pub capacity: u8,
    pub status: String,
    pub cycle_count: Option<u32>,
    pub health: Option<u8>,
    pub power_draw: Option<i64>,
}

pub open spec fn battery_entries(b: Battery) -> Seq<EntryView> {
    seq![
        field(Root::Battery, "capacity"@, ScalarView::Int(b.capacity as int)),
        field(Root::Battery, "status"@, text(b.status@)),
    ] + optional_field(
        Root::Battery,
        "cycles"@,
        match b.cycle_count {
            Some(i) => Some(ScalarView::Int(i as int)),
            None => None,
        },
    ) + optional_field(
        Root::Battery,
        "health"@,
        match b.health {
            Some(i) => Some(ScalarView::Int(i as int)),
            None => None,
        },
    ) + optional_field(Root::Battery, "power"@, decimal_of(b.power_draw))
}

impl Battery {
    pub fn inject(&self, ns: &mut Namespace)
        ensures
            final(ns)@ == old(ns)@ + battery_entries(*self),
    {
        ns.set_field(Root::Battery, "capacity", Scalar::Int(self.capacity as i128));
        ns.set_field(Root::Battery, "status", Scalar::Text(self.status.clone()));
        set_int_if(ns, Root::Battery, "cycles", self.cycle_count);
        let health: Option<u32> = match self.health {
            Some(h) => Some(h as u32),
            None => None,
        };
        set_int_if(ns, Root::Battery, "health", health);
        set_decimal_if(ns, Root::Battery, "power", self.power_draw);
        proof {
            assert(final(ns)@ =~= old(ns)@ + battery_entries(*self));
        }
    }
}

/// Bytes in one gibibyte.
pub const GIB: u64 = 1073741824;

/// The disk mounted at the root: device name, mount point, sizes in bytes
/// and file-system type.
#[derive(Debug, Clone, PartialEq, Eq)]
pub struct Disk {
    pub name: String,
    pub mount_point: String,
    pub total: u64,
    pub used: u64,
    pub fs_type: String,
}

pub open spec fn disk_entries(d: Disk) -> Seq<EntryView> {
    seq![
        field(Root::Disk, "name"@, text(d.name@)),
        field(Root::Disk, "mount_point"@, text(d.mount_point@)),
        field(Root::Disk, "total_gb"@, ScalarView::Int(d.total as int / GIB as int)),
        field(Root::Disk, "used_gb"@, ScalarView::Int(d.used as int / GIB as int)),
        field(Root::Disk, "fs_type"@, text(d.fs_type@)),
    ]
}

impl Disk {
    pub fn inject(&self, ns: &mut Namespace)
        ensures
            final(ns)@ == old(ns)@ + disk_entries(*self),
    {
        set_two(ns, Root::Disk, "name", &self.name, "mount_point", &self.mount_point);
        ns.set_field(Root::Disk, "total_gb", Scalar::Int((self.total / GIB) as i128));
        ns.set_field(Root::Disk, "used_gb", Scalar::Int((self.used / GIB) as i128));
        ns.set_field(Root::Disk, "fs_type", Scalar::Text(self.fs_type.clone()));
        proof {
            assert(final(ns)@ =~= old(ns)@ + disk_entries(*self));
        }
    }
}


pub open spec fn key(k: Seq<char>) -> SegmentView {
    SegmentView::Key(k)
}

pub open spec fn index(i: nat) -> SegmentView {
    SegmentView::Index(i)
}

/// A package manager and how many packages it has installed.
#[derive(Debug, Clone, PartialEq, Eq)]
pub struct PackageManager {
    pub name: String,
    pub packages: i32,
}

impl PackageManager {
    pub fn new(name: &str, packages: i32) -> (r: PackageManager)
        ensures
            r.name@ == name@,
            r.packages == packages,
    {
        PackageManager { name: String::from_str(name), packages }
    }
}

/// The package managers found, in the order they were probed.
#[derive(Debug, Clone, PartialEq, Eq)]
pub struct PackageManagers(pub Vec<PackageManager>);

/// Entries for package managers: the i-th (from 1) has `name` and `packages`.
pub open spec fn package_manager_entries(v: Seq<PackageManager>) -> Seq<EntryView>
    decreases v.len(),
{
    if v.len() == 0 {
        seq![]
    } else {
        let p = v.last();
        package_manager_entries(v.drop_last()) + seq![
            at(Root::PackageManagers, seq![index(v.len()), key("name"@)], text(p.name@)),
            at(
                Root::PackageManagers,
                seq![index(v.len()), key("packages"@)],
                ScalarView::Int(p.packages as int),
            ),
        ]
    }
}

/// Entries for package managers, then their count: an empty list still
/// writes the count.
pub open spec fn package_managers_entries(v: Seq<PackageManager>) -> Seq<EntryView> {
    package_manager_entries(v) + seq![
        field(Root::PackageManagers, "count"@, ScalarView::Int(v.len() as int)),
    ]
}

impl PackageManagers {
    pub fn inject(&self, ns: &mut Namespace)
        ensures
            final(ns)@ == old(ns)@ + package_managers_entries(self.0@),
    {
        let ghost start = ns@;
        let n = self.0.len();
        let mut i: usize = 0;
        while i < n
            invariant
                n == self.0@.len(),
                i <= n,
                ns@ == start + package_manager_entries(self.0@.take(i as int)),
            decreases n - i,
        {
            let p = &self.0[i];
            ns.set_index_field(Root::PackageManagers, i + 1, "name", Scalar::Text(p.name.clone()));
            ns.set_index_field(
                Root::PackageManagers,
                i + 1,
                "packages",
                Scalar::Int(p.packages as i128),
            );
            proof {
                let t = self.0@.take(i as int + 1);
                assert(t.drop_last() =~= self.0@.take(i as int));
                assert(ns@ =~= start + package_manager_entries(t));
            }
            i = i + 1;
        }
        proof {
            assert(self.0@.take(n as int) =~= self.0@);
        }
        ns.set_field(Root::PackageManagers, "count", Scalar::Int(n as i128));
        proof {
            assert(final(ns)@ =~= old(ns)@ + package_managers_entries(self.0@));
        }
    }
}

/// A graphics card: its brand and model name.
#[derive(Debug, Clone, PartialEq, Eq)]
pub struct Gpu {
    pub brand: String,
    pub name: String,
}

/// The graphics cards found.
#[derive(Debug, Clone, PartialEq, Eq)]
pub struct Gpus(pub Vec<Gpu>);

/// Entries for graphics cards: the i-th (from 1) has `brand` and `name`.
pub open spec fn gpu_entries(v: Seq<Gpu>) -> Seq<EntryView>
    decreases v.len(),
{
    if v.len() == 0 {
        seq![]
    } else {
        let g = v.last();
        gpu_entries(v.drop_last()) + seq![
            at(Root::Gpus, seq![index(v.len()), key("brand"@)], text(g.brand@)),
            at(Root::Gpus, seq![index(v.len()), key("name"@)], text(g.name@)),
        ]
    }
}

/// Entries for graphics cards, then their count.
pub open spec fn gpus_entries(v: Seq<Gpu>) -> Seq<EntryView> {
    gpu_entries(v) + seq![field(Root::Gpus, "count"@, ScalarView::Int(v.len() as int))]
}

impl Gpus {
    pub fn inject(&self, ns: &mut Namespace)
        ensures
            final(ns)@ == old(ns)@ + gpus_entries(self.0@),
    {
        let ghost start = ns@;
        let n = self.0.len();
        let mut i: usize = 0;
        while i < n
            invariant
                n == self.0@.len(),
                i <= n,
                ns@ == start + gpu_entries(self.0@.take(i as int)),
            decreases n - i,
        {
            let g = &self.0[i];
            ns.set_index_field(Root::Gpus, i + 1, "brand", Scalar::Text(g.brand.clone()));
            ns.set_index_field(Root::Gpus, i + 1, "name", Scalar::Text(g.name.clone()));
            proof {
                let t = self.0@.take(i as int + 1);
                assert(t.drop_last() =~= self.0@.take(i as int));
                assert(ns@ =~= start + gpu_entries(t));
            }
            i = i + 1;
        }
        proof {
            assert(self.0@.take(n as int) =~= self.0@);
        }
        ns.set_field(Root::Gpus, "count", Scalar::Int(n as i128));
        proof {
            assert(final(ns)@ =~= old(ns)@ + gpus_entries(self.0@));
        }
    }
}

/// A paired bluetooth device.
#[derive(Debug, Clone, PartialEq, Eq)]
pub struct BluetoothDevice {
    pub name: String,
    pub mac: String,
    pub connected: bool,
}

/// The bluetooth adapter, if it has a name, and the paired devices.
#[derive(Debug, Clone, PartialEq, Eq)]
pub struct Bluetooth {
    pub adapter: Option<String>,
    pub devices: Vec<BluetoothDevice>,
}

/// Entries for paired devices: the i-th (from 1) has `name`, `mac` and
/// `connected`, under `devices`.
pub open spec fn device_entries(v: Seq<BluetoothDevice>) -> Seq<EntryView>
    decreases v.len(),
{
    if v.len() == 0 {
        seq![]
    } else {
        let d = v.last();
        let i = index(v.len());
        device_entries(v.drop_last()) + seq![
            at(Root::Bluetooth, seq![key("devices"@), i, key("name"@)], text(d.name@)),
            at(Root::Bluetooth, seq![key("devices"@), i, key("mac"@)], text(d.mac@)),
            at(Root::Bluetooth, seq![key("devices"@), i, key("connected"@)], ScalarView::Flag(d.connected)),
        ]
    }
}

pub open spec fn bluetooth_entries(b: Bluetooth) -> Seq<EntryView> {
    optional_field(
        Root::Bluetooth,
        "adapter"@,
        match b.adapter {
            Some(a) => Some(text(a@)),
            None => None,
        },
    ) + device_entries(b.devices@) + seq![
        field(Root::Bluetooth, "count"@, ScalarView::Int(b.devices@.len() as int)),
    ]
}

impl Bluetooth {
    pub fn inject(&self, ns: &mut Namespace)
        ensures
            final(ns)@ == old(ns)@ + bluetooth_entries(*self),
    {
        match &self.adapter {
            Some(a) => {
                ns.set_field(Root::Bluetooth, "adapter", Scalar::Text(a.clone()));
            },
            None => {},
        }
        let ghost start = ns@;
        let n = self.devices.len();
        let mut i: usize = 0;
        while i < n
            invariant
                n == self.devices@.len(),
                i <= n,
                ns@ == start + device_entries(self.devices@.take(i as int)),
            decreases n - i,
        {
            let d = &self.devices[i];
            ns.set_item_field(Root::Bluetooth, "devices", i + 1, "name", Scalar::Text(d.name.clone()));
            ns.set_item_field(Root::Bluetooth, "devices", i + 1, "mac", Scalar::Text(d.mac.clone()));
            ns.set_item_field(Root::Bluetooth, "devices", i + 1, "connected", Scalar::Flag(d.connected));
            proof {
                let t = self.devices@.take(i as int + 1);
                assert(t.drop_last() =~= self.devices@.take(i as int));
                assert(ns@ =~= start + device_entries(t));
            }
            i = i + 1;
        }
        ns.set_field(Root::Bluetooth, "count", Scalar::Int(n as i128));
        proof {
            assert(self.devices@.take(n as int) =~= self.devices@);
            assert(final(ns)@ =~= old(ns)@ + bluetooth_entries(*self));
        }
    }
}

pub proof fn lemma_package_managers_roots(v: Seq<PackageManager>)
    ensures
        all_under(package_managers_entries(v), Root::PackageManagers),
{
    lemma_package_manager_roots(v);
    let a = package_manager_entries(v);
    let e = package_managers_entries(v);
    assert forall|i: int| 0 <= i < e.len() implies #[trigger] e[i].root == Root::PackageManagers by {
        if i < a.len() {
            assert(e[i] == a[i]);
        }
    }
}

pub proof fn lemma_gpus_roots(v: Seq<Gpu>)
    ensures
        all_under(gpus_entries(v), Root::Gpus),
{
    lemma_gpu_roots(v);
    let a = gpu_entries(v);
    let e = gpus_entries(v);
    assert forall|i: int| 0 <= i < e.len() implies #[trigger] e[i].root == Root::Gpus by {
        if i < a.len() {
            assert(e[i] == a[i]);
        }
    }
}

proof fn lemma_package_manager_roots(v: Seq<PackageManager>)
    ensures
        all_under(package_manager_entries(v), Root::PackageManagers),
    decreases v.len(),
{
    if v.len() > 0 {
        lemma_package_manager_roots(v.drop_last());
        let a = package_manager_entries(v.drop_last());
        let e = package_manager_entries(v);
        assert forall|i: int| 0 <= i < e.len() implies #[trigger] e[i].root == Root::PackageManagers by {
            if i < a.len() {
                assert(e[i] == a[i]);
            }
        }
    }
}

proof fn lemma_gpu_roots(v: Seq<Gpu>)
    ensures
        all_under(gpu_entries(v), Root::Gpus),
    decreases v.len(),
{
    if v.len() > 0 {
        lemma_gpu_roots(v.drop_last());
        let a = gpu_entries(v.drop_last());
        let e = gpu_entries(v);
        assert forall|i: int| 0 <= i < e.len() implies #[trigger] e[i].root == Root::Gpus by {
            if i < a.len() {
                assert(e[i] == a[i]);
            }
        }
    }
}

proof fn lemma_device_roots(v: Seq<BluetoothDevice>)
    ensures
        all_under(device_entries(v), Root::Bluetooth),
    decreases v.len(),
{
    if v.len() > 0 {
        lemma_device_roots(v.drop_last());
        let a = device_entries(v.drop_last());
        let e = device_entries(v);
        assert forall|i: int| 0 <= i < e.len() implies #[trigger] e[i].root == Root::Bluetooth by {
            if i < a.len() {
                assert(e[i] == a[i]);
            }
        }
    }
}

pub proof fn lemma_bluetooth_roots(b: Bluetooth)
    ensures
        all_under(bluetooth_entries(b), Root::Bluetooth),
{
    lemma_device_roots(b.devices@);
    let a = optional_field(
        Root::Bluetooth,
        "adapter"@,
        match b.adapter {
            Some(a) => Some(text(a@)),
            None => None,
        },
    );
    let d = device_entries(b.devices@);
    let c = seq![field(Root::Bluetooth, "count"@, ScalarView::Int(b.devices@.len() as int))];
    let e = bluetooth_entries(b);
    assert(e == a + d + c);
    assert forall|i: int| 0 <= i < e.len() implies #[trigger] e[i].root == Root::Bluetooth by {
        if i < a.len() {
            assert(e[i] == a[i]);
        } else if i < a.len() + d.len() {
            assert(e[i] == d[i - a.len()]);
        } else {
            assert(e[i] == c[i - a.len() - d.len()]);
        }
    }
}

} // verus!
