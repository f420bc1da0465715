//! Monitors described by their EDID blocks.

use vstd::prelude::*;
use crate::namespace::{at, field, EntryView, Namespace, Root, Scalar, ScalarView};
use crate::records::{index, key, text};

verus! {

/// A monitor: its name, and its physical size when the EDID gives it.
#[derive(Debug, Clone, PartialEq, Eq)]
pub struct Monitor {
    pub name: String,
    pub width_mm: Option<u32>,
    pub height_mm: Option<u32>,
}

/// The monitors found.
#[derive(Debug, Clone, PartialEq, Eq)]
pub struct Monitors {
    pub monitors: Vec<Monitor>,
}

/// What `String::from_utf8_lossy` makes of some bytes.
pub uninterp spec fn utf8_lossy_of(b: Seq<u8>) -> Seq<char>;

/// Relies on `String::from_utf8_lossy`: the result depends on the bytes
/// alone.
#[verifier::external_body]
fn utf8_lossy(b: &Vec<u8>) -> (r: String)
    ensures
        r@ == utf8_lossy_of(b@),
{
    String::from_utf8_lossy(b.as_slice()).into_owned()
}

/// Padding after a monitor's name.
pub open spec fn is_padding(c: char) -> bool {
    c == '\n' || c == '\r' || c == ' ' || c == '\0'
}

/// `s` without the padding at its end.
pub open spec fn without_padding(s: Seq<char>) -> Seq<char>
    decreases s.len(),
{
    if s.len() > 0 && is_padding(s.last()) {
        without_padding(s.drop_last())
    } else {
        s
    }
}

/// The start offsets of the four descriptors of an EDID block.
pub open spec fn descriptor_offset(k: int) -> int {
    54 + 18 * k
}

/// The name in the descriptor at `off`, when it is a name descriptor
/// (`00 00 00 FC 00`, then up to 13 bytes) whose name is not empty once its
/// padding is gone.
pub open spec fn descriptor_name(e: Seq<u8>, off: int) -> Option<Seq<char>> {
    if e[off] == 0 && e[off + 1] == 0 && e[off + 2] == 0 && e[off + 3] == 0xFC && e[off + 4] == 0 {
        let n = without_padding(utf8_lossy_of(e.subrange(off + 5, off + 18)));
        if n.len() > 0 {
            Some(n)
        } else {
            None
        }
    } else {
        None
    }
}

/// The name of the last of the first `k` descriptors that names the monitor.
pub open spec fn name_among(e: Seq<u8>, k: nat) -> Option<Seq<char>>
    decreases k,
{
    if k == 0 {
        None
    } else {
        match descriptor_name(e, descriptor_offset(k - 1)) {
            Some(n) => Some(n),
            None => name_among(e, (k - 1) as nat),
        }
    }
}

pub open spec fn size_mm(b: u8) -> Option<u32> {
    if b > 0 {
        Some((b * 10) as u32)
    } else {
        None
    }
}

fn drop_padding(s: String) -> (r: String)
    ensures
        r@ == without_padding(s@),
{
    let n = s.as_str().unicode_len();
    let mut end: usize = n;
    proof {
        assert(s@.take(n as int) =~= s@);
    }
    while end > 0
        invariant
            n == s@.len(),
            end <= n,
            without_padding(s@) == without_padding(s@.take(end as int)),
        decreases end,
    {
        let c = s.as_str().get_char(end - 1);
        let ghost t = s@.take(end as int);
        proof {
            assert(t.last() == c);
            assert(t.drop_last() =~= s@.take(end as int - 1));
        }
        if !(c == '\n' || c == '\r' || c == ' ' || c == '\0') {
            return String::from_str(s.as_str().substring_char(0, end));
        }
        end = end - 1;
    }
    proof {
        assert(s@.take(0).len() == 0);
    }
    String::new()
}

fn descriptor_name_exec(e: &Vec<u8>, off: usize) -> (r: Option<String>)
    requires
        off + 18 <= e@.len(),
    ensures
        match r {
            Some(n) => descriptor_name(e@, off as int) == Some(n@),
            None => descriptor_name(e@, off as int) is None,
        },
{
    let len = e.len();
    assert(off + 18 <= len);
    if e[off] == 0 && e[off + 1] == 0 && e[off + 2] == 0 && e[off + 3] == 0xFC && e[off + 4] == 0 {
        let mut bytes: Vec<u8> = Vec::new();
        let mut i: usize = off + 5;
        while i < off + 18
            invariant
                off + 18 <= e@.len(),
                len == e@.len(),
                off + 5 <= i <= off + 18,
                bytes@ =~= e@.subrange(off as int + 5, i as int),
            decreases off + 18 - i,
        {
            bytes.push(e[i]);
            i = i + 1;
        }
        let name = drop_padding(utf8_lossy(&bytes));
        if name.as_str().unicode_len() > 0 {
            Some(name)
        } else {
            None
        }
    } else {
        None
    }
}

impl Monitors {
    /// Reads a monitor out of an EDID block: the name of the last name
    /// descriptor ("Unknown Monitor" when there is none) and the size, given
    /// in centimetres at bytes 21 and 22.
    pub fn parse_edid(edid: &Vec<u8>) -> (r: Monitor)
        requires
            edid@.len() >= 128,
        ensures
            edid_monitor(r, edid@),
    {
        let mut name: Option<String> = None;
        let mut k: usize = 0;
        while k < 4
            invariant
                edid@.len() >= 128,
                k <= 4,
                match name {
                    Some(n) => name_among(edid@, k as nat) == Some(n@),
                    None => name_among(edid@, k as nat) is None,
                },
            decreases 4 - k,
        {
            match descriptor_name_exec(edid, 54 + 18 * k) {
                Some(n) => {
                    name = Some(n);
                },
                None => {},
            }
            k = k + 1;
        }
        let w: u8 = edid[21];
        let h: u8 = edid[22];
        Monitor {
            name: match name {
                Some(n) => n,
                None => String::from_str("Unknown Monitor"),
            },
            width_mm: if w > 0 {
                Some(w as u32 * 10)
            } else {
                None
            },
            height_mm: if h > 0 {
                Some(h as u32 * 10)
            } else {
                None
            },
        }
    }

    /// The monitors of the EDID blocks given, in order, skipping blocks
    /// shorter than 128 bytes; nothing when none is left.
    pub fn new(blocks: &Vec<Vec<u8>>) -> (r: Option<Monitors>)
        ensures
            ({
                let long = long_blocks(blocks@.map_values(|b: Vec<u8>| b@));
                &&& r is None <==> long.len() == 0
                &&& r matches Some(m) ==> m.monitors@.len() == long.len() && forall|i: int|
                    0 <= i < long.len() ==> edid_monitor(#[trigger] m.monitors@[i], long[i])
            }),
    {
        let ghost views = blocks@.map_values(|b: Vec<u8>| b@);
        let mut monitors: Vec<Monitor> = Vec::new();
        let mut i: usize = 0;
        while i < blocks.len()
            invariant
                i <= blocks@.len(),
                views == blocks@.map_values(|b: Vec<u8>| b@),
                monitors@.len() == long_blocks(views.take(i as int)).len(),
                forall|j: int|
                    0 <= j < monitors@.len() ==> edid_monitor(
                        #[trigger] monitors@[j],
                        long_blocks(views.take(i as int))[j],
                    ),
            decreases blocks@.len() - i,
        {
            proof {
                let t = views.take(i as int + 1);
                assert(t.drop_last() =~= views.take(i as int));
                assert(t.last() == blocks@[i as int]@);
            }
            if blocks[i].len() >= 128 {
                monitors.push(Monitors::parse_edid(&blocks[i]));
            }
            i = i + 1;
        }
        proof {
            assert(views.take(blocks@.len() as int) =~= views);
        }
        if monitors.len() == 0 {
            None
        } else {
            Some(Monitors { monitors })
        }
    }
}

/// `m` is what an EDID block `e` describes.
pub open spec fn edid_monitor(m: Monitor, e: Seq<u8>) -> bool {
    &&& m.name@ == match name_among(e, 4) {
        Some(n) => n,
        None => "Unknown Monitor"@,
    }
    &&& m.width_mm == size_mm(e[21])
    &&& m.height_mm == size_mm(e[22])
}

/// The blocks of at least 128 bytes, in order.
pub open spec fn long_blocks(bs: Seq<Seq<u8>>) -> Seq<Seq<u8>>
    decreases bs.len(),
{
    if bs.len() == 0 {
        seq![]
    } else {
        let r = long_blocks(bs.drop_last());
        if bs.last().len() >= 128 {
            r.push(bs.last())
        } else {
            r
        }
    }
}

pub open spec fn size_entry(i: nat, k: Seq<char>, v: Option<u32>) -> Seq<EntryView> {
    match v {
        Some(x) => seq![at(Root::Monitors, seq![key("monitors"@), index(i), key(k)], ScalarView::Int(x as int))],
        None => seq![],
    }
}

/// Entries for one monitor at 1-based position `i` under `monitors`.
pub open spec fn one_monitor(m: Monitor, i: nat) -> Seq<EntryView> {
    seq![at(Root::Monitors, seq![key("monitors"@), index(i), key("name"@)], text(m.name@))] + size_entry(
        i,
        "width_mm"@,
        m.width_mm,
    ) + size_entry(i, "height_mm"@, m.height_mm)
}

pub open spec fn monitor_entries(v: Seq<Monitor>) -> Seq<EntryView>
    decreases v.len(),
{
    if v.len() == 0 {
        seq![]
    } else {
        monitor_entries(v.drop_last()) + one_monitor(v.last(), v.len())
    }
}

/// Entries for the monitors and their count.
pub open spec fn monitors_entries(m: Monitors) -> Seq<EntryView> {
    monitor_entries(m.monitors@) + seq![
        field(Root::Monitors, "count"@, ScalarView::Int(m.monitors@.len() as int)),
    ]
}

impl Monitors {
    pub fn inject(&self, ns: &mut Namespace)
        ensures
            final(ns)@ == old(ns)@ + monitors_entries(*self),
    {
        let ghost start = ns@;
        let n = self.monitors.len();
        let mut i: usize = 0;
        while i < n
            invariant
                n == self.monitors@.len(),
                i <= n,
                ns@ == start + monitor_entries(self.monitors@.take(i as int)),
            decreases n - i,
        {
            let m = &self.monitors[i];
            let ghost before = ns@;
            ns.set_item_field(Root::Monitors, "monitors", i + 1, "name", Scalar::Text(m.name.clone()));
            match m.width_mm {
                Some(w) => {
                    ns.set_item_field(Root::Monitors, "monitors", i + 1, "width_mm", Scalar::Int(w as i128));
                },
                None => {},
            }
            match m.height_mm {
                Some(h) => {
                    ns.set_item_field(Root::Monitors, "monitors", i + 1, "height_mm", Scalar::Int(h as i128));
                },
                None => {},
            }
            proof {
                let t = self.monitors@.take(i as int + 1);
                assert(t.drop_last() =~= self.monitors@.take(i as int));
                assert(ns@ =~= before + one_monitor(*m, (i + 1) as nat));
                assert(ns@ =~= start + monitor_entries(t));
            }
            i = i + 1;
        }
        proof {
            assert(self.monitors@.take(n as int) =~= self.monitors@);
        }
        ns.set_field(Root::Monitors, "count", Scalar::Int(n as i128));
        proof {
            assert(final(ns)@ =~= old(ns)@ + monitors_entries(*self));
        }
    }
}

} // verus!
