//! The namespace that templates read: a flat list of entries, each a top-level
//! name, a path of keys and 1-based indices under it, and a scalar value.

use vstd::prelude::*;

verus! {

/// The top-level names of the namespace.
#[derive(Debug, Clone, Copy, PartialEq, Eq)]
pub enum Root {
    Kernel,
    Context,
    Distro,
    DistroColors,
    Uptime,
    PackageManagers,
    Shell,
    Resolution,
    De,
    Wm,
    Cpu,
    Gpus,
    Memory,
    Motherboard,
    Host,
    Battery,
    Disk,
    Network,
    Temperature,
    Bluetooth,
    Monitors,
    Art,
    ArtWidth,
    ArtHeight,
    Logo,
    Info,
    InfoWidth,
    InfoHeight,
    Terminal,
}

/// The name under which templates find a root.
pub open spec fn root_name(r: Root) -> Seq<char> {
    match r {
        Root::Kernel => "kernel"@,
        Root::Context => "context"@,
        Root::Distro => "distro"@,
        Root::DistroColors => "distroColors"@,
        Root::Uptime => "uptime"@,
        Root::PackageManagers => "packageManagers"@,
        Root::Shell => "shell"@,
        Root::Resolution => "resolution"@,
        Root::De => "de"@,
        Root::Wm => "wm"@,
        Root::Cpu => "cpu"@,
        Root::Gpus => "gpus"@,
        Root::Memory => "memory"@,
        Root::Motherboard => "motherboard"@,
        Root::Host => "host"@,
        Root::Battery => "battery"@,
        Root::Disk => "disk"@,
        Root::Network => "network"@,
        Root::Temperature => "temperature"@,
        Root::Bluetooth => "bluetooth"@,
        Root::Monitors => "monitors"@,
        Root::Art => "art"@,
        Root::ArtWidth => "artWidth"@,
        Root::ArtHeight => "artHeight"@,
        Root::Logo => "logo"@,
        Root::Info => "info"@,
        Root::InfoWidth => "infoWidth"@,
        Root::InfoHeight => "infoHeight"@,
        Root::Terminal => "terminal"@,
    }
}

impl Root {
    /// The root's name, as templates see it.
    pub fn name(&self) -> (r: String)
        ensures
            r@ == root_name(*self),
    {
        match self {
            Root::Kernel => String::from_str("kernel"),
            Root::Context => String::from_str("context"),
            Root::Distro => String::from_str("distro"),
            Root::DistroColors => String::from_str("distroColors"),
            Root::Uptime => String::from_str("uptime"),
            Root::PackageManagers => String::from_str("packageManagers"),
            Root::Shell => String::from_str("shell"),
            Root::Resolution => String::from_str("resolution"),
            Root::De => String::from_str("de"),
            Root::Wm => String::from_str("wm"),
            Root::Cpu => String::from_str("cpu"),
            Root::Gpus => String::from_str("gpus"),
            Root::Memory => String::from_str("memory"),
            Root::Motherboard => String::from_str("motherboard"),
            Root::Host => String::from_str("host"),
            Root::Battery => String::from_str("battery"),
            Root::Disk => String::from_str("disk"),
            Root::Network => String::from_str("network"),
            Root::Temperature => String::from_str("temperature"),
            Root::Bluetooth => String::from_str("bluetooth"),
            Root::Monitors => String::from_str("monitors"),
            Root::Art => String::from_str("art"),
            Root::ArtWidth => String::from_str("artWidth"),
            Root::ArtHeight => String::from_str("artHeight"),
            Root::Logo => String::from_str("logo"),
            Root::Info => String::from_str("info"),
            Root::InfoWidth => String::from_str("infoWidth"),
            Root::InfoHeight => String::from_str("infoHeight"),
            Root::Terminal => String::from_str("terminal"),
        }
    }
}

/// One step of a path below a root: a named field or a 1-based position in a
/// sequence.
#[derive(Debug, Clone, PartialEq, Eq)]
pub enum Segment {
    Key(String),
    Index(usize),
}

/// A value that a template reads. `Decimal` holds a real number in
/// millionths.
#[derive(Debug, Clone, PartialEq, Eq)]
pub enum Scalar {
    Text(String),
    Int(i128),
    Flag(bool),
    Decimal(i64),
}

pub enum SegmentView {
    Key(Seq<char>),
    Index(nat),
}

pub enum ScalarView {
    Text(Seq<char>),
    Int(int),
    Flag(bool),
    Decimal(int),
}

pub struct EntryView {
    pub root: Root,
    pub path: Seq<SegmentView>,
    pub value: ScalarView,
}

impl View for Segment {
    type V = SegmentView;

    open spec fn view(&self) -> SegmentView {
        match self {
            Segment::Key(k) => SegmentView::Key(k@),
            Segment::Index(i) => SegmentView::Index(*i as nat),
        }
    }
}

impl View for Scalar {
    type V = ScalarView;

    open spec fn view(&self) -> ScalarView {
        match self {
            Scalar::Text(t) => ScalarView::Text(t@),
            Scalar::Int(i) => ScalarView::Int(*i as int),
            Scalar::Flag(b) => ScalarView::Flag(*b),
            Scalar::Decimal(d) => ScalarView::Decimal(*d as int),
        }
    }
}

/// One entry: the value found at `root`, then `path`.
#[derive(Debug, Clone, PartialEq, Eq)]
pub struct Entry {
    pub root: Root,
    pub path: Vec<Segment>,
    pub value: Scalar,
}

impl View for Entry {
    type V = EntryView;

    open spec fn view(&self) -> EntryView {
        EntryView {
            root: self.root,
            path: self.path@.map_values(|s: Segment| s@),
            value: self.value@,
        }
    }
}

/// The entries written so far, in the order they were written.
#[derive(Debug, Clone, PartialEq, Eq)]
pub struct Namespace {
    pub entries: Vec<Entry>,
}

impl View for Namespace {
    type V = Seq<EntryView>;

    open spec fn view(&self) -> Seq<EntryView> {
        self.entries@.map_values(|e: Entry| e@)
    }
}

/// Some entry of `ns` lies under `root`.
pub open spec fn has_root(ns: Seq<EntryView>, root: Root) -> bool {
    exists|i: int| 0 <= i < ns.len() && #[trigger] ns[i].root == root
}

/// Every entry of `ns` lies under `root`.
pub open spec fn all_under(ns: Seq<EntryView>, root: Root) -> bool {
    forall|i: int| 0 <= i < ns.len() ==> #[trigger] ns[i].root == root
}

/// The entry at `root` with no path below it.
pub open spec fn top(root: Root, value: ScalarView) -> EntryView {
    EntryView { root, path: seq![], value }
}

/// The entry at `root`, then field `key`.
pub open spec fn field(root: Root, key: Seq<char>, value: ScalarView) -> EntryView {
    EntryView { root, path: seq![SegmentView::Key(key)], value }
}

/// The entry at `root`, then `path`.
pub open spec fn at(root: Root, path: Seq<SegmentView>, value: ScalarView) -> EntryView {
    EntryView { root, path, value }
}

/// `field` when a value is there, nothing when it is not.
pub open spec fn optional_field(root: Root, key: Seq<char>, value: Option<ScalarView>) -> Seq<
    EntryView,
> {
    match value {
        Some(v) => seq![field(root, key, v)],
        None => seq![],
    }
}

impl Namespace {
    pub fn new() -> (r: Namespace)
        ensures
            r@ == Seq::<EntryView>::empty(),
    {
        Namespace { entries: Vec::new() }
    }

    /// Adds one entry after the others; nothing is removed.
    pub fn push(&mut self, root: Root, path: Vec<Segment>, value: Scalar)
        ensures
            final(self)@ == old(self)@.push(Entry { root, path, value }@),
    {
        let e = Entry { root, path, value };
        self.entries.push(e);
        proof {
            assert(final(self)@ =~= old(self)@.push(e@));
        }
    }

    /// Adds `value` directly under `root`.
    pub fn set_top(&mut self, root: Root, value: Scalar)
        ensures
            final(self)@ == old(self)@.push(top(root, value@)),
    {
        let path: Vec<Segment> = Vec::new();
        proof {
            assert(path@.map_values(|s: Segment| s@) =~= Seq::<SegmentView>::empty());
        }
        self.push(root, path, value);
    }

    /// Adds `value` under `root`, field `key`.
    pub fn set_field(&mut self, root: Root, key: &str, value: Scalar)
        ensures
            final(self)@ == old(self)@.push(field(root, key@, value@)),
    {
        let mut path: Vec<Segment> = Vec::new();
        path.push(Segment::Key(String::from_str(key)));
        proof {
            assert(path@.map_values(|s: Segment| s@) =~= seq![SegmentView::Key(key@)]);
        }
        self.push(root, path, value);
    }

    /// Adds `value` under `root`, then the sequence `list` at 1-based
    /// position `index`, then field `key`.
    pub fn set_item_field(
        &mut self,
        root: Root,
        list: &str,
        index: usize,
        key: &str,
        value: Scalar,
    )
        ensures
            final(self)@ == old(self)@.push(
                at(
                    root,
                    seq![
                        SegmentView::Key(list@),
                        SegmentView::Index(index as nat),
                        SegmentView::Key(key@),
                    ],
                    value@,
                ),
            ),
    {
        let mut path: Vec<Segment> = Vec::new();
        path.push(Segment::Key(String::from_str(list)));
        path.push(Segment::Index(index));
        path.push(Segment::Key(String::from_str(key)));
        proof {
            assert(path@.map_values(|s: Segment| s@) =~= seq![
                SegmentView::Key(list@),
                SegmentView::Index(index as nat),
                SegmentView::Key(key@),
            ]);
        }
        self.push(root, path, value);
    }

    /// Adds `value` under `root` at 1-based position `index`, then field
    /// `key` (for a root that is itself a sequence).
    pub fn set_index_field(&mut self, root: Root, index: usize, key: &str, value: Scalar)
        ensures
            final(self)@ == old(self)@.push(
                at(root, seq![SegmentView::Index(index as nat), SegmentView::Key(key@)], value@),
            ),
    {
        let mut path: Vec<Segment> = Vec::new();
        path.push(Segment::Index(index));
        path.push(Segment::Key(String::from_str(key)));
        proof {
            assert(path@.map_values(|s: Segment| s@) =~= seq![
                SegmentView::Index(index as nat),
                SegmentView::Key(key@),
            ]);
        }
        self.push(root, path, value);
    }

    /// Adds `value` under `root` at 1-based position `index`.
    pub fn set_index(&mut self, root: Root, index: usize, value: Scalar)
        ensures
            final(self)@ == old(self)@.push(
                at(root, seq![SegmentView::Index(index as nat)], value@),
            ),
    {
        let mut path: Vec<Segment> = Vec::new();
        path.push(Segment::Index(index));
        proof {
            assert(path@.map_values(|s: Segment| s@) =~= seq![SegmentView::Index(index as nat)]);
        }
        self.push(root, path, value);
    }

    /// Adds every entry of `other` after the entries already here.
    pub fn extend(&mut self, other: Namespace)
        ensures
            final(self)@ == old(self)@ + other@,
    {
        let mut more = other.entries;
        self.entries.append(&mut more);
        proof {
            assert(self@ =~= old(self)@ + other@);
        }
    }
}

} // verus!
