//! Merging the outcomes of the probes into one snapshot. The independent
//! probes run as a fork-join tree; each branch ends in its own outcome, and
//! each outcome fills only its own field.

use vstd::prelude::*;
use crate::errors::FreshfetchError;
use crate::platform::Kernel;
use crate::records::{
    Bluetooth, Context, Cpu, De, Disk, Distro, Gpus, Host, Memory, Motherboard, Network,
    PackageManagers, Resolution, Shell, Uptime, Wm, Battery,
};
use crate::snapshot::Info;
use crate::temperature::Temperature;

verus! {

/// What one probe came back with.
#[derive(Debug, Clone, PartialEq, Eq)]
pub enum Outcome<T> {
    /// The record.
    Found(T),
    /// The feature or hardware is not there; not an error.
    Absent,
    /// The probe failed; the run goes on without its record.
    Failed(FreshfetchError),
}

pub open spec fn found<T>(o: Outcome<T>) -> Option<T> {
    match o {
        Outcome::Found(x) => Some(x),
        _ => None,
    }
}

pub open spec fn failure<T>(o: Outcome<T>) -> Seq<FreshfetchError> {
    match o {
        Outcome::Failed(e) => seq![e],
        _ => seq![],
    }
}

impl<T> Outcome<T> {
    /// The outcome of a probe that returns a record or nothing.
    pub fn from_option(o: Option<T>) -> (r: Outcome<T>)
        ensures
            found(r) == o,
            failure(r) == Seq::<FreshfetchError>::empty(),
    {
        match o {
            Some(x) => Outcome::Found(x),
            None => Outcome::Absent,
        }
    }
}

/// The record of an outcome, if any; a failure is added to `errors`.
pub fn settle<T>(o: Outcome<T>, errors: &mut Vec<FreshfetchError>) -> (r: Option<T>)
    ensures
        r == found(o),
        final(errors)@ == old(errors)@ + failure(o),
{
    match o {
        Outcome::Found(x) => {
            proof {
                assert(errors@ =~= old(errors)@ + failure(o));
            }
            Some(x)
        },
        Outcome::Absent => {
            proof {
                assert(errors@ =~= old(errors)@ + failure(o));
            }
            None
        },
        Outcome::Failed(e) => {
            errors.push(e);
            proof {
                assert(errors@ =~= old(errors)@ + failure(o));
            }
            None
        },
    }
}

/// The results of the sequential stage, gathered in order before the
/// fork-join stage starts. The kernel is resolved already; of the probes
/// that may fail, each ends in its own outcome.
#[derive(Debug, Clone, PartialEq, Eq)]
pub struct SequentialRecords {
    pub kernel: Kernel,
    pub context: Option<Context>,
    pub distro: Distro,
    pub uptime: Outcome<Uptime>,
    pub package_managers: Outcome<PackageManagers>,
    pub shell: Outcome<Shell>,
    pub memory: Memory,
}

/// The outcomes of the twelve independent probes.
#[derive(Debug, Clone, PartialEq, Eq)]
pub struct ParallelOutcomes {
    pub resolution: Outcome<Resolution>,
    pub de: Outcome<De>,
    pub wm: Outcome<Wm>,
    pub cpu: Outcome<Cpu>,
    pub gpu: Outcome<Gpus>,
    pub motherboard: Outcome<Motherboard>,
    pub host: Outcome<Host>,
    pub battery: Outcome<Battery>,
    pub disk: Outcome<Disk>,
    pub network: Outcome<Network>,
    pub temperature: Outcome<Temperature>,
    pub bluetooth: Outcome<Bluetooth>,
}

/// The snapshot made of the two stages' results.
pub open spec fn assembled(s: SequentialRecords, p: ParallelOutcomes) -> Info {
    Info {
        context: s.context,
        distro: s.distro,
        kernel: s.kernel,
        uptime: found(s.uptime),
        package_managers: found(s.package_managers),
        shell: found(s.shell),
        resolution: found(p.resolution),
        de: found(p.de),
        wm: found(p.wm),
        cpu: found(p.cpu),
        gpu: found(p.gpu),
        memory: s.memory,
        motherboard: found(p.motherboard),
        host: found(p.host),
        battery: found(p.battery),
        disk: found(p.disk),
        network: found(p.network),
        temperature: found(p.temperature),
        bluetooth: found(p.bluetooth),
    }
}

/// The failures among the outcomes, in the order of the fields: the
/// sequential stage's first.
pub open spec fn failures(s: SequentialRecords, p: ParallelOutcomes) -> Seq<FreshfetchError> {
    failure(s.uptime) + failure(s.package_managers) + failure(s.shell) + failure(p.resolution) + failure(p.de) + failure(p.wm) + failure(p.cpu) + failure(p.gpu)
        + failure(p.motherboard) + failure(p.host) + failure(p.battery) + failure(p.disk)
        + failure(p.network) + failure(p.temperature) + failure(p.bluetooth)
}

impl Info {
    /// Merges the results of both stages once every branch has joined: each
    /// field holds its own probe's record or nothing, and the failures are
    /// returned for reporting.
    pub fn new(first: SequentialRecords, gathered: ParallelOutcomes) -> (r: (
        Info,
        Vec<FreshfetchError>,
    ))
        ensures
            r.0 == assembled(first, gathered),
            r.1@ == failures(first, gathered),
    {
        let ghost g = gathered;
        let ghost f = first;
        let mut errors: Vec<FreshfetchError> = Vec::new();
        let uptime = settle(first.uptime, &mut errors);
        let package_managers = settle(first.package_managers, &mut errors);
        let shell = settle(first.shell, &mut errors);
        let resolution = settle(gathered.resolution, &mut errors);
        let de = settle(gathered.de, &mut errors);
        let wm = settle(gathered.wm, &mut errors);
        let cpu = settle(gathered.cpu, &mut errors);
        let gpu = settle(gathered.gpu, &mut errors);
        let motherboard = settle(gathered.motherboard, &mut errors);
        let host = settle(gathered.host, &mut errors);
        let battery = settle(gathered.battery, &mut errors);
        let disk = settle(gathered.disk, &mut errors);
        let network = settle(gathered.network, &mut errors);
        let temperature = settle(gathered.temperature, &mut errors);
        let bluetooth = settle(gathered.bluetooth, &mut errors);
        proof {
            assert(errors@ =~= failures(f, g));
        }
        let info = Info {
            context: first.context,
            distro: first.distro,
            kernel: first.kernel,
            uptime,
            package_managers,
            shell,
            resolution,
            de,
            wm,
            cpu,
            gpu,
            memory: first.memory,
            motherboard,
            host,
            battery,
            disk,
            network,
            temperature,
            bluetooth,
        };
        (info, errors)
    }
}

/// The independent probes, one per branch of the fork-join tree.
#[derive(Debug, Clone, Copy, PartialEq, Eq)]
pub enum Branch {
    Resolution,
    De,
    Wm,
    Cpu,
    Gpu,
    Motherboard,
    Host,
    Battery,
    Disk,
    Network,
    Temperature,
    Bluetooth,
}

/// `a` and `b` hold the same outcome in every branch but `except`.
pub open spec fn same_outcomes_except(a: ParallelOutcomes, b: ParallelOutcomes, except: Branch) -> bool {
    &&& (except != Branch::Resolution ==> a.resolution == b.resolution)
    &&& (except != Branch::De ==> a.de == b.de)
    &&& (except != Branch::Wm ==> a.wm == b.wm)
    &&& (except != Branch::Cpu ==> a.cpu == b.cpu)
    &&& (except != Branch::Gpu ==> a.gpu == b.gpu)
    &&& (except != Branch::Motherboard ==> a.motherboard == b.motherboard)
    &&& (except != Branch::Host ==> a.host == b.host)
    &&& (except != Branch::Battery ==> a.battery == b.battery)
    &&& (except != Branch::Disk ==> a.disk == b.disk)
    &&& (except != Branch::Network ==> a.network == b.network)
    &&& (except != Branch::Temperature ==> a.temperature == b.temperature)
    &&& (except != Branch::Bluetooth ==> a.bluetooth == b.bluetooth)
}

/// `x` and `y` agree on every field but the one that branch `except` fills.
pub open spec fn same_fields_except(x: Info, y: Info, except: Branch) -> bool {
    &&& x.context == y.context && x.distro == y.distro && x.kernel == y.kernel
    &&& x.uptime == y.uptime && x.package_managers == y.package_managers
    &&& x.shell == y.shell && x.memory == y.memory
    &&& (except != Branch::Resolution ==> x.resolution == y.resolution)
    &&& (except != Branch::De ==> x.de == y.de)
    &&& (except != Branch::Wm ==> x.wm == y.wm)
    &&& (except != Branch::Cpu ==> x.cpu == y.cpu)
    &&& (except != Branch::Gpu ==> x.gpu == y.gpu)
    &&& (except != Branch::Motherboard ==> x.motherboard == y.motherboard)
    &&& (except != Branch::Host ==> x.host == y.host)
    &&& (except != Branch::Battery ==> x.battery == y.battery)
    &&& (except != Branch::Disk ==> x.disk == y.disk)
    &&& (except != Branch::Network ==> x.network == y.network)
    &&& (except != Branch::Temperature ==> x.temperature == y.temperature)
    &&& (except != Branch::Bluetooth ==> x.bluetooth == y.bluetooth)
}

/// Whatever one branch comes back with (a record, nothing, or a failure),
/// every field that the other branches fill is the same.
pub proof fn lemma_branch_outcome_isolated(
    first: SequentialRecords,
    a: ParallelOutcomes,
    b: ParallelOutcomes,
    branch: Branch,
)
    requires
        same_outcomes_except(a, b, branch),
    ensures
        same_fields_except(assembled(first, a), assembled(first, b), branch),
{
}

} // verus!
