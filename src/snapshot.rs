//! Everything gathered in one run, and the bridge that writes it into the
//! namespace.

use vstd::prelude::*;
use crate::namespace::{all_under, has_root, EntryView, Namespace, Root};
use crate::platform::Kernel;
use crate::records::{
    battery_entries, bluetooth_entries, context_entries, cpu_entries, de_entries, disk_entries,
    distro_entries, gpus_entries, host_entries, inject_kernel, kernel_entries,
    lemma_bluetooth_roots, lemma_gpus_roots, lemma_package_managers_roots, memory_entries,
    motherboard_entries, network_entries, package_managers_entries, resolution_entries,
    shell_entries, uptime_entries, wm_entries, Battery, Bluetooth, Context, Cpu, De, Disk, Distro,
    Gpus, Host, Memory, Motherboard, Network, PackageManagers, Resolution, Shell, Uptime, Wm,
};
use crate::temperature::{lemma_temperature_roots, temperature_entries, Temperature};

verus! {

/// The records of one run. A probe that found nothing, or failed, leaves its
/// optional field empty.
#[derive(Debug, Clone, PartialEq, Eq)]
pub struct Info {
    pub context: Option<Context>,
    pub distro: Distro,
    pub kernel: Kernel,
    pub uptime: Option<Uptime>,
    pub package_managers: Option<PackageManagers>,
    pub shell: Option<Shell>,
    pub resolution: Option<Resolution>,
    pub de: Option<De>,
    pub wm: Option<Wm>,
    pub cpu: Option<Cpu>,
    pub gpu: Option<Gpus>,
    pub memory: Memory,
    pub motherboard: Option<Motherboard>,
    pub host: Option<Host>,
    pub battery: Option<Battery>,
    pub disk: Option<Disk>,
    pub network: Option<Network>,
    pub temperature: Option<Temperature>,
    pub bluetooth: Option<Bluetooth>,
}

pub open spec fn when<T>(o: Option<T>, f: spec_fn(T) -> Seq<EntryView>) -> Seq<EntryView> {
    match o {
        Some(x) => f(x),
        None => seq![],
    }
}

/// The number of records a snapshot writes, one after another.
pub const RECORDS: usize = 19;

/// The entries of record `k` of a snapshot, in the order the bridge writes
/// them; nothing for a record that is absent.
pub open spec fn record_entries(s: Info, k: int) -> Seq<EntryView> {
    if k == 0 {
        when(s.context, |c: Context| context_entries(c))
    } else if k == 1 {
        kernel_entries(s.kernel)
    } else if k == 2 {
        distro_entries(s.distro)
    } else if k == 3 {
        when(s.uptime, |u: Uptime| uptime_entries(u))
    } else if k == 4 {
        when(s.package_managers, |p: PackageManagers| package_managers_entries(p.0@))
    } else if k == 5 {
        when(s.shell, |x: Shell| shell_entries(x))
    } else if k == 6 {
        when(s.resolution, |r: Resolution| resolution_entries(r))
    } else if k == 7 {
        when(s.wm, |w: Wm| wm_entries(w))
    } else if k == 8 {
        when(s.de, |d: De| de_entries(d))
    } else if k == 9 {
        when(s.cpu, |c: Cpu| cpu_entries(c))
    } else if k == 10 {
        when(s.gpu, |g: Gpus| gpus_entries(g.0@))
    } else if k == 11 {
        memory_entries(s.memory)
    } else if k == 12 {
        when(s.motherboard, |m: Motherboard| motherboard_entries(m))
    } else if k == 13 {
        when(s.host, |h: Host| host_entries(h))
    } else if k == 14 {
        when(s.battery, |b: Battery| battery_entries(b))
    } else if k == 15 {
        when(s.disk, |d: Disk| disk_entries(d))
    } else if k == 16 {
        when(s.network, |n: Network| network_entries(n))
    } else if k == 17 {
        when(s.temperature, |t: Temperature| temperature_entries(t))
    } else {
        when(s.bluetooth, |b: Bluetooth| bluetooth_entries(b))
    }
}

/// The entries of the first `n` records, one record after another.
pub open spec fn records_upto(s: Info, n: nat) -> Seq<EntryView>
    decreases n,
{
    if n == 0 {
        seq![]
    } else {
        records_upto(s, (n - 1) as nat) + record_entries(s, n - 1)
    }
}

/// The namespace that a snapshot projects to: each record's entries, in a
/// fixed order, and nothing for a record that is absent.
pub open spec fn info_entries(s: Info) -> Seq<EntryView> {
    records_upto(s, RECORDS as nat)
}

/// Whether the snapshot holds the record written under `root`. Roots that
/// no record writes (the rendered blocks, the terminal, monitors) count as
/// absent.
pub open spec fn present(s: Info, root: Root) -> bool {
    match root {
        Root::Context => s.context is Some,
        Root::Kernel | Root::Distro | Root::DistroColors | Root::Memory => true,
        Root::Uptime => s.uptime is Some,
        Root::PackageManagers => s.package_managers is Some,
        Root::Shell => s.shell is Some,
        Root::Resolution => s.resolution is Some,
        Root::De => s.de is Some,
        Root::Wm => s.wm is Some,
        Root::Cpu => s.cpu is Some,
        Root::Gpus => s.gpu is Some,
        Root::Motherboard => s.motherboard is Some,
        Root::Host => s.host is Some,
        Root::Battery => s.battery is Some,
        Root::Disk => s.disk is Some,
        Root::Network => s.network is Some,
        Root::Temperature => s.temperature is Some,
        Root::Bluetooth => s.bluetooth is Some,
        _ => false,
    }
}

impl Info {
    /// Writes record `k` of this snapshot into `ns`, when it is present.
    fn inject_record(&self, k: usize, ns: &mut Namespace)
        requires
            k < RECORDS,
        ensures
            final(ns)@ == old(ns)@ + record_entries(*self, k as int),
    {
        let ghost s0 = ns@;
        if k == 0 {
            if let Some(c) = &self.context {
                c.inject(ns);
            }
        } else if k == 1 {
            inject_kernel(&self.kernel, ns);
        } else if k == 2 {
            self.distro.inject(ns);
        } else if k == 3 {
            if let Some(u) = &self.uptime {
                u.inject(ns);
            }
        } else if k == 4 {
            if let Some(p) = &self.package_managers {
                p.inject(ns);
            }
        } else if k == 5 {
            if let Some(x) = &self.shell {
                x.inject(ns);
            }
        } else if k == 6 {
            if let Some(r) = &self.resolution {
                r.inject(ns);
            }
        } else if k == 7 {
            if let Some(w) = &self.wm {
                w.inject(ns);
            }
        } else if k == 8 {
            if let Some(d) = &self.de {
                d.inject(ns);
            }
        } else if k == 9 {
            if let Some(c) = &self.cpu {
                c.inject(ns);
            }
        } else if k == 10 {
            if let Some(g) = &self.gpu {
                g.inject(ns);
            }
        } else if k == 11 {
            self.memory.inject(ns);
        } else if k == 12 {
            if let Some(m) = &self.motherboard {
                m.inject(ns);
            }
        } else if k == 13 {
            if let Some(h) = &self.host {
                h.inject(ns);
            }
        } else if k == 14 {
            if let Some(b) = &self.battery {
                b.inject(ns);
            }
        } else if k == 15 {
            if let Some(d) = &self.disk {
                d.inject(ns);
            }
        } else if k == 16 {
            if let Some(n) = &self.network {
                n.inject(ns);
            }
        } else if k == 17 {
            if let Some(t) = &self.temperature {
                t.inject(ns);
            }
        } else {
            if let Some(b) = &self.bluetooth {
                b.inject(ns);
            }
        }
        proof {
            assert(ns@ =~= s0 + record_entries(*self, k as int));
        }
    }

    /// Writes every present record into `ns`, after what is there.
    pub fn inject(&self, ns: &mut Namespace)
        ensures
            final(ns)@ == old(ns)@ + info_entries(*self),
    {
        let ghost s0 = ns@;
        let mut k: usize = 0;
        proof {
            assert(s0 + records_upto(*self, 0) =~= s0);
        }
        while k < RECORDS
            invariant
                k <= RECORDS,
                ns@ == s0 + records_upto(*self, k as nat),
            decreases RECORDS - k,
        {
            self.inject_record(k, ns);
            proof {
                assert(ns@ =~= s0 + records_upto(*self, (k + 1) as nat));
            }
            k = k + 1;
        }
    }

    /// The namespace of this snapshot alone.
    pub fn project(&self) -> (r: Namespace)
        ensures
            r@ == info_entries(*self),
    {
        let mut ns = Namespace::new();
        self.inject(&mut ns);
        proof {
            assert(ns@ =~= info_entries(*self));
        }
        ns
    }
}

/// Every entry of `v` lies under a root whose record `s` holds.
pub open spec fn all_present(v: Seq<EntryView>, s: Info) -> bool {
    forall|i: int| 0 <= i < v.len() ==> present(s, #[trigger] v[i].root)
}

proof fn lemma_concat_present(a: Seq<EntryView>, b: Seq<EntryView>, s: Info)
    requires
        all_present(a, s),
        all_present(b, s),
    ensures
        all_present(a + b, s),
{
    assert forall|i: int| 0 <= i < (a + b).len() implies present(s, #[trigger] (a + b)[i].root) by {
        if i < a.len() {
            assert((a + b)[i] == a[i]);
        } else {
            assert((a + b)[i] == b[i - a.len()]);
        }
    }
}

proof fn lemma_under_present(v: Seq<EntryView>, root: Root, s: Info)
    requires
        all_under(v, root),
        v.len() > 0 ==> present(s, root),
    ensures
        all_present(v, s),
{
    assert forall|i: int| 0 <= i < v.len() implies present(s, #[trigger] v[i].root) by {
        assert(v[i].root == root);
    }
}

/// The root that record `k` writes under (the distribution's colours aside).
pub open spec fn record_root(k: int) -> Root {
    if k == 0 {
        Root::Context
    } else if k == 1 {
        Root::Kernel
    } else if k == 2 {
        Root::Distro
    } else if k == 3 {
        Root::Uptime
    } else if k == 4 {
        Root::PackageManagers
    } else if k == 5 {
        Root::Shell
    } else if k == 6 {
        Root::Resolution
    } else if k == 7 {
        Root::Wm
    } else if k == 8 {
        Root::De
    } else if k == 9 {
        Root::Cpu
    } else if k == 10 {
        Root::Gpus
    } else if k == 11 {
        Root::Memory
    } else if k == 12 {
        Root::Motherboard
    } else if k == 13 {
        Root::Host
    } else if k == 14 {
        Root::Battery
    } else if k == 15 {
        Root::Disk
    } else if k == 16 {
        Root::Network
    } else if k == 17 {
        Root::Temperature
    } else {
        Root::Bluetooth
    }
}

#[verifier::rlimit(40)]
proof fn lemma_record_present(s: Info, k: int)
    requires
        0 <= k < RECORDS,
    ensures
        all_present(record_entries(s, k), s),
{
    let v = record_entries(s, k);
    if k == 2 {
        assert forall|i: int| 0 <= i < v.len() implies present(s, #[trigger] v[i].root) by {
            assert(v[i].root == Root::DistroColors || v[i].root == Root::Distro);
        }
    } else {
        if k == 4 {
            if let Some(p) = s.package_managers {
                lemma_package_managers_roots(p.0@);
            }
        } else if k == 10 {
            if let Some(g) = s.gpu {
                lemma_gpus_roots(g.0@);
            }
        } else if k == 17 {
            if let Some(t) = s.temperature {
                lemma_temperature_roots(t);
            }
        } else if k == 18 {
            if let Some(b) = s.bluetooth {
                lemma_bluetooth_roots(b);
            }
        }
        assert(all_under(v, record_root(k)));
        lemma_under_present(v, record_root(k), s);
    }
}

proof fn lemma_records_present(s: Info, n: nat)
    requires
        n <= RECORDS,
    ensures
        all_present(records_upto(s, n), s),
    decreases n,
{
    if n > 0 {
        lemma_records_present(s, (n - 1) as nat);
        lemma_record_present(s, n - 1);
        lemma_concat_present(records_upto(s, (n - 1) as nat), record_entries(s, n - 1), s);
    }
}

/// Each entry of a snapshot's namespace lies under a record that the
/// snapshot holds.
pub proof fn lemma_entries_of_present_records(s: Info)
    ensures
        all_present(info_entries(s), s),
{
    lemma_records_present(s, RECORDS as nat);
}

/// A snapshot without a record has no entry under that record's root: a
/// template that reads it finds nothing, not a default.
pub proof fn lemma_absent_record_has_no_entry(s: Info, root: Root)
    requires
        !present(s, root),
    ensures
        !has_root(info_entries(s), root),
{
    lemma_entries_of_present_records(s);
    let v = info_entries(s);
    if has_root(v, root) {
        let i = choose|i: int| 0 <= i < v.len() && #[trigger] v[i].root == root;
        assert(present(s, v[i].root));
    }
}

} // verus!
