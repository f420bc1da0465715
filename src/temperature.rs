//! Temperature sensors, and the readings that templates get for convenience.

use vstd::prelude::*;
use crate::namespace::{all_under, at, field, optional_field, EntryView, Namespace, Root, Scalar, ScalarView};
use crate::records::{decimal_of, index, key, text};
use crate::text::{contains, has_infix, lowercase_of, to_lowercase};

verus! {

/// One sensor: its label, and readings in millionths of a degree Celsius.
#[derive(Debug, Clone, PartialEq, Eq)]
pub struct TempSensor {
    pub label: String,
    pub temp: i64,
    pub max: Option<i64>,
    pub critical: Option<i64>,
}

/// The sensors found, in the order the system lists them.
#[derive(Debug, Clone, PartialEq, Eq)]
pub struct Temperature {
    pub sensors: Vec<TempSensor>,
}

/// The highest reading, if there is a sensor.
pub open spec fn max_temp_of(s: Seq<TempSensor>) -> Option<int>
    decreases s.len(),
{
    if s.len() == 0 {
        None
    } else {
        let t = s.last().temp as int;
        match max_temp_of(s.drop_last()) {
            None => Some(t),
            Some(m) => Some(
                if t >= m {
                    t
                } else {
                    m
                },
            ),
        }
    }
}

/// A label, lower-cased, that names a processor sensor.
pub open spec fn is_cpu_label(label: Seq<char>) -> bool {
    has_infix(lowercase_of(label), "cpu"@) || has_infix(lowercase_of(label), "core"@)
}

/// A label, lower-cased, that names a graphics sensor.
pub open spec fn is_gpu_label(label: Seq<char>) -> bool {
    let l = lowercase_of(label);
    has_infix(l, "gpu"@) || has_infix(l, "nvidia"@) || has_infix(l, "amdgpu"@) || has_infix(
        l,
        "radeon"@,
    )
}

pub open spec fn label_matches(label: Seq<char>, gpu: bool) -> bool {
    if gpu {
        is_gpu_label(label)
    } else {
        is_cpu_label(label)
    }
}

/// The reading of the first sensor whose label matches.
pub open spec fn first_temp(s: Seq<TempSensor>, gpu: bool) -> Option<int>
    decreases s.len(),
{
    if s.len() == 0 {
        None
    } else if label_matches(s[0].label@, gpu) {
        Some(s[0].temp as int)
    } else {
        first_temp(s.drop_first(), gpu)
    }
}

fn matches_label(label: &String, gpu: bool) -> (r: bool)
    ensures
        r == label_matches(label@, gpu),
{
    let l = to_lowercase(label.as_str());
    if gpu {
        contains(l.as_str(), "gpu") || contains(l.as_str(), "nvidia") || contains(
            l.as_str(),
            "amdgpu",
        ) || contains(l.as_str(), "radeon")
    } else {
        contains(l.as_str(), "cpu") || contains(l.as_str(), "core")
    }
}

pub open spec fn view_option(o: Option<i64>) -> Option<int> {
    match o {
        Some(t) => Some(t as int),
        None => None,
    }
}

impl Temperature {
    /// The highest reading of all sensors.
    pub fn max_temp(&self) -> (r: Option<i64>)
        ensures
            view_option(r) == max_temp_of(self.sensors@),
    {
        let mut best: Option<i64> = None;
        let n = self.sensors.len();
        let mut i: usize = 0;
        while i < n
            invariant
                n == self.sensors@.len(),
                i <= n,
                view_option(best) == max_temp_of(self.sensors@.take(i as int)),
            decreases n - i,
        {
            let t = self.sensors[i].temp;
            best = match best {
                None => Some(t),
                Some(m) => Some(
                    if t >= m {
                        t
                    } else {
                        m
                    },
                ),
            };
            proof {
                let s = self.sensors@.take(i as int + 1);
                assert(s.drop_last() =~= self.sensors@.take(i as int));
            }
            i = i + 1;
        }
        proof {
            assert(self.sensors@.take(n as int) =~= self.sensors@);
        }
        best
    }

    fn first_matching(&self, gpu: bool) -> (r: Option<i64>)
        ensures
            view_option(r) == first_temp(self.sensors@, gpu),
    {
        let n = self.sensors.len();
        let mut i: usize = 0;
        proof {
            assert(self.sensors@.skip(0) =~= self.sensors@);
        }
        while i < n
            invariant
                n == self.sensors@.len(),
                i <= n,
                first_temp(self.sensors@, gpu) == first_temp(self.sensors@.skip(i as int), gpu),
            decreases n - i,
        {
            let ghost rest = self.sensors@.skip(i as int);
            proof {
                assert(rest[0] == self.sensors@[i as int]);
                assert(rest.drop_first() =~= self.sensors@.skip(i as int + 1));
            }
            if matches_label(&self.sensors[i].label, gpu) {
                return Some(self.sensors[i].temp);
            }
            i = i + 1;
        }
        proof {
            assert(self.sensors@.skip(n as int).len() == 0);
        }
        None
    }

    /// The reading of the first sensor whose label, lower-cased, holds "cpu"
    /// or "core".
    pub fn cpu_temp(&self) -> (r: Option<i64>)
        ensures
            view_option(r) == first_temp(self.sensors@, false),
    {
        self.first_matching(false)
    }

    /// The reading of the first sensor whose label, lower-cased, holds "gpu",
    /// "nvidia", "amdgpu" or "radeon".
    pub fn gpu_temp(&self) -> (r: Option<i64>)
        ensures
            view_option(r) == first_temp(self.sensors@, true),
    {
        self.first_matching(true)
    }

    pub fn inject(&self, ns: &mut Namespace)
        ensures
            final(ns)@ == old(ns)@ + temperature_entries(*self),
    {
        let ghost start = ns@;
        let n = self.sensors.len();
        let mut i: usize = 0;
        while i < n
            invariant
                n == self.sensors@.len(),
                i <= n,
                ns@ == start + sensor_entries(self.sensors@.take(i as int)),
            decreases n - i,
        {
            let s = &self.sensors[i];
            let ghost before = ns@;
            ns.set_item_field(Root::Temperature, "sensors", i + 1, "label", Scalar::Text(s.label.clone()));
            ns.set_item_field(Root::Temperature, "sensors", i + 1, "temp", Scalar::Decimal(s.temp));
            match s.max {
                Some(m) => {
                    ns.set_item_field(Root::Temperature, "sensors", i + 1, "max", Scalar::Decimal(m));
                },
                None => {},
            }
            match s.critical {
                Some(c) => {
                    ns.set_item_field(Root::Temperature, "sensors", i + 1, "critical", Scalar::Decimal(c));
                },
                None => {},
            }
            proof {
                let t = self.sensors@.take(i as int + 1);
                assert(t.drop_last() =~= self.sensors@.take(i as int));
                assert(ns@ =~= before + one_sensor(*s, (i + 1) as nat));
                assert(ns@ =~= start + sensor_entries(t));
            }
            i = i + 1;
        }
        proof {
            assert(self.sensors@.take(n as int) =~= self.sensors@);
        }
        ns.set_field(Root::Temperature, "count", Scalar::Int(n as i128));
        let cpu = self.cpu_temp();
        let gpu = self.gpu_temp();
        let max = self.max_temp();
        let ghost mid = ns@;
        match cpu {
            Some(t) => {
                ns.set_field(Root::Temperature, "cpu", Scalar::Decimal(t));
            },
            None => {},
        }
        match gpu {
            Some(t) => {
                ns.set_field(Root::Temperature, "gpu", Scalar::Decimal(t));
            },
            None => {},
        }
        match max {
            Some(t) => {
                ns.set_field(Root::Temperature, "max", Scalar::Decimal(t));
            },
            None => {},
        }
        proof {
            assert(decimal_of(cpu) == decimal_int(first_temp(self.sensors@, false)));
            assert(decimal_of(gpu) == decimal_int(first_temp(self.sensors@, true)));
            assert(decimal_of(max) == decimal_int(max_temp_of(self.sensors@)));
            assert(final(ns)@ =~= old(ns)@ + temperature_entries(*self));
        }
    }
}

pub open spec fn decimal_int(o: Option<int>) -> Option<ScalarView> {
    match o {
        Some(d) => Some(ScalarView::Decimal(d)),
        None => None,
    }
}

/// Entries for one sensor at 1-based position `i` under `sensors`.
pub open spec fn one_sensor(s: TempSensor, i: nat) -> Seq<EntryView> {
    let p = |k: Seq<char>| seq![key("sensors"@), index(i), key(k)];
    seq![
        at(Root::Temperature, p("label"@), text(s.label@)),
        at(Root::Temperature, p("temp"@), ScalarView::Decimal(s.temp as int)),
    ] + match s.max {
        Some(m) => seq![at(Root::Temperature, p("max"@), ScalarView::Decimal(m as int))],
        None => seq![],
    } + match s.critical {
        Some(c) => seq![at(Root::Temperature, p("critical"@), ScalarView::Decimal(c as int))],
        None => seq![],
    }
}

pub open spec fn sensor_entries(v: Seq<TempSensor>) -> Seq<EntryView>
    decreases v.len(),
{
    if v.len() == 0 {
        seq![]
    } else {
        sensor_entries(v.drop_last()) + one_sensor(v.last(), v.len())
    }
}

/// Entries for the sensors, their count, and the processor, graphics and
/// highest readings where there are any.
pub open spec fn temperature_entries(t: Temperature) -> Seq<EntryView> {
    sensor_entries(t.sensors@) + seq![
        field(Root::Temperature, "count"@, ScalarView::Int(t.sensors@.len() as int)),
    ] + optional_field(Root::Temperature, "cpu"@, decimal_int(first_temp(t.sensors@, false)))
        + optional_field(Root::Temperature, "gpu"@, decimal_int(first_temp(t.sensors@, true)))
        + optional_field(Root::Temperature, "max"@, decimal_int(max_temp_of(t.sensors@)))
}

proof fn lemma_sensor_roots(v: Seq<TempSensor>)
    ensures
        all_under(sensor_entries(v), Root::Temperature),
    decreases v.len(),
{
    if v.len() > 0 {
        lemma_sensor_roots(v.drop_last());
        let a = sensor_entries(v.drop_last());
        let o = one_sensor(v.last(), v.len());
        let e = sensor_entries(v);
        assert(all_under(o, Root::Temperature));
        assert forall|i: int| 0 <= i < e.len() implies #[trigger] e[i].root == Root::Temperature by {
            if i < a.len() {
                assert(e[i] == a[i]);
            } else {
                assert(e[i] == o[i - a.len()]);
            }
        }
    }
}

pub proof fn lemma_temperature_roots(t: Temperature)
    ensures
        all_under(temperature_entries(t), Root::Temperature),
{
    lemma_sensor_roots(t.sensors@);
    let e = temperature_entries(t);
    assert forall|i: int| 0 <= i < e.len() implies #[trigger] e[i].root == Root::Temperature by {
        let a = sensor_entries(t.sensors@);
        if i >= a.len() {
            assert(e[i].root == Root::Temperature);
        }
    }
}

} // verus!
