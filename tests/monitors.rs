use freshfetch::monitors::{Monitor, Monitors};
use freshfetch::namespace::{Namespace, Root, Scalar, Segment};

fn edid_with_name(name: &[u8], w: u8, h: u8) -> Vec<u8> {
    let mut e = vec![0u8; 128];
    e[21] = w;
    e[22] = h;
    e[72..77].copy_from_slice(&[0, 0, 0, 0xFC, 0]);
    let mut field = [b' '; 13];
    field[..name.len()].copy_from_slice(name);
    e[77..90].copy_from_slice(&field);
    e
}

#[test]
fn edid_name_and_size() {
    let m = Monitors::parse_edid(&edid_with_name(b"DELL U2720Q\n", 60, 34));
    assert_eq!(m, Monitor { name: String::from("DELL U2720Q"), width_mm: Some(600), height_mm: Some(340) });
}

#[test]
fn edid_without_name() {
    let m = Monitors::parse_edid(&vec![0u8; 128]);
    assert_eq!(m, Monitor { name: String::from("Unknown Monitor"), width_mm: None, height_mm: None });
}

#[test]
fn short_blocks_are_skipped() {
    assert_eq!(Monitors::new(&vec![vec![0u8; 10]]), None);
    assert_eq!(Monitors::new(&vec![]), None);
    let found = Monitors::new(&vec![vec![1u8; 5], edid_with_name(b"X", 1, 0)]).unwrap();
    assert_eq!(found.monitors.len(), 1);
    assert_eq!(found.monitors[0].width_mm, Some(10));
}

#[test]
fn monitors_in_namespace() {
    let m = Monitors { monitors: vec![Monitor { name: String::from("A"), width_mm: None, height_mm: Some(300) }] };
    let mut ns = Namespace::new();
    m.inject(&mut ns);
    assert_eq!(ns.entries.len(), 3);
    assert_eq!(ns.entries[1].root, Root::Monitors);
    assert_eq!(
        ns.entries[1].path,
        vec![Segment::Key(String::from("monitors")), Segment::Index(1), Segment::Key(String::from("height_mm"))]
    );
    assert_eq!(ns.entries[2].value, Scalar::Int(1));
}
