//! Reading what command-line tools print: paired bluetooth devices, shell
//! versions and network addresses.

use vstd::prelude::*;
use crate::text::{
    contains, first_index_of, has_infix, lemma_split_len, lines, lines_of, split, split_on,
    split_once, split_whitespace, starts_with, trim, trimmed_of, words_of,
};

verus! {

/// The address and name on a line `Device <address> <name>`.
pub open spec fn device_of_line(l: Seq<char>) -> Option<(Seq<char>, Seq<char>)> {
    if "Device "@.is_prefix_of(l) {
        let rest = l.skip(7);
        match first_index_of(rest, ' ') {
            Some(i) => Some((rest.take(i), rest.skip(i + 1))),
            None => None,
        }
    } else {
        None
    }
}

/// The devices listed, in order, from the lines that name one.
pub open spec fn devices_of(ls: Seq<Seq<char>>) -> Seq<(Seq<char>, Seq<char>)>
    decreases ls.len(),
{
    if ls.len() == 0 {
        seq![]
    } else {
        let before = devices_of(ls.drop_last());
        match device_of_line(ls.last()) {
            Some(d) => before.push(d),
            None => before,
        }
    }
}

/// The (address, name) pairs that `bluetoothctl devices` printed.
pub fn paired_devices(output: &str) -> (r: Vec<(String, String)>)
    ensures
        r@.len() == devices_of(lines_of(output@)).len(),
        forall|i: int| 0 <= i < r@.len() ==> (#[trigger] r@[i]).0@ == devices_of(lines_of(output@))[i].0
            && r@[i].1@ == devices_of(lines_of(output@))[i].1,
{
    proof {
        reveal_strlit("Device ");
    }
    let ls = lines(output);
    let ghost all = lines_of(output@);
    let mut found: Vec<(String, String)> = Vec::new();
    let n = ls.len();
    let mut i: usize = 0;
    while i < n
        invariant
            n == all.len(),
            ls@.len() == n,
            forall|j: int| 0 <= j < n ==> #[trigger] ls@[j]@ == all[j],
            i <= n,
            found@.len() == devices_of(all.take(i as int)).len(),
            forall|j: int| 0 <= j < found@.len() ==> (#[trigger] found@[j]).0@ == devices_of(
                all.take(i as int),
            )[j].0 && found@[j].1@ == devices_of(all.take(i as int))[j].1,
        decreases n - i,
    {
        let line = ls[i].as_str();
        let ghost t = all.take(i as int + 1);
        proof {
            assert(t.drop_last() =~= all.take(i as int));
            assert(t.last() == line@);
        }
        if starts_with(line, "Device ") {
            proof {
                reveal_strlit("Device ");
                assert("Device "@.len() == 7);
            }
            let rest = line.substring_char(7, line.unicode_len());
            proof {
                assert(rest@ =~= line@.skip(7));
            }
            match split_once(rest, ' ') {
                Some((mac, name)) => {
                    found.push((String::from_str(mac), String::from_str(name)));
                },
                None => {},
            }
        }
        i = i + 1;
    }
    proof {
        assert(all.take(n as int) =~= all);
    }
    found
}

/// Whether `bluetoothctl info` reported the device as connected.
pub fn reports_connected(info: &str) -> (r: bool)
    ensures
        r == has_infix(info@, "Connected: yes"@),
{
    contains(info, "Connected: yes")
}

/// The second piece when `s` is split at "version ", if any.
pub open spec fn after_version(s: Seq<char>) -> Option<Seq<char>> {
    let p = split_on(s, "version "@);
    if p.len() >= 2 {
        Some(p[1])
    } else {
        None
    }
}

/// A version number ends at a space, a parenthesis or a hyphen.
pub open spec fn is_version_end(c: char) -> bool {
    c == ' ' || c == '(' || c == '-'
}

/// The part of `s` before its first space, parenthesis or hyphen.
pub open spec fn version_prefix(s: Seq<char>) -> Seq<char>
    decreases s.len(),
{
    if s.len() == 0 || is_version_end(s[0]) {
        seq![]
    } else {
        seq![s[0]] + version_prefix(s.drop_first())
    }
}

/// The version in `bash --version` output: on its first line, after
/// "version ", up to a space, parenthesis or hyphen; empty when missing.
pub open spec fn bash_version_of(output: Seq<char>) -> Seq<char> {
    let ls = lines_of(output);
    if ls.len() == 0 {
        seq![]
    } else {
        match after_version(ls[0]) {
            Some(v) => version_prefix(v),
            None => seq![],
        }
    }
}

fn after_version_exec(s: &str) -> (r: Option<String>)
    ensures
        match r {
            Some(v) => after_version(s@) == Some(v@),
            None => after_version(s@) is None,
        },
{
    proof {
        reveal_strlit("version ");
    }
    let p = split(s, "version ");
    if p.len() >= 2 {
        Some(p[1].clone())
    } else {
        None
    }
}

/// Reads the version out of `bash --version` output.
pub fn bash_version(output: &str) -> (r: String)
    ensures
        r@ == bash_version_of(output@),
{
    let ls = lines(output);
    if ls.len() == 0 {
        return String::new();
    }
    proof {
        assert(ls@[0]@ == lines_of(output@)[0]);
    }
    match after_version_exec(ls[0].as_str()) {
        Some(v) => {
            proof {
                assert(bash_version_of(output@) == version_prefix(v@));
            }
            let n = v.as_str().unicode_len();
            let mut i: usize = 0;
            proof {
                assert(v@.skip(0) =~= v@);
                assert(v@.take(0) + version_prefix(v@.skip(0)) =~= version_prefix(v@));
            }
            while i < n
                invariant
                    n == v@.len(),
                    i <= n,
                    bash_version_of(output@) == version_prefix(v@),
                    forall|j: int| 0 <= j < i ==> !is_version_end(#[trigger] v@[j]),
                    version_prefix(v@) == v@.take(i as int) + version_prefix(v@.skip(i as int)),
                decreases n - i,
            {
                let c = v.as_str().get_char(i);
                proof {
                    let rest = v@.skip(i as int);
                    assert(rest[0] == c);
                    assert(rest.drop_first() =~= v@.skip(i as int + 1));
                    assert(v@.take(i as int + 1) =~= v@.take(i as int).push(c));
                    assert(v@.take(i as int) + (seq![c] + version_prefix(rest.drop_first())) =~= v@.take(
                        i as int + 1,
                    ) + version_prefix(rest.drop_first()));
                }
                if c == ' ' || c == '(' || c == '-' {
                    proof {
                        assert(is_version_end(v@.skip(i as int)[0]));
                        assert(version_prefix(v@.skip(i as int)) =~= Seq::<char>::empty());
                        assert(v@.take(i as int) + Seq::<char>::empty() =~= v@.take(i as int));
                        assert(v@.subrange(0, i as int) =~= v@.take(i as int));
                    }
                    return String::from_str(v.as_str().substring_char(0, i));
                }
                i = i + 1;
            }
            proof {
                assert(v@.skip(n as int).len() == 0);
                assert(v@.take(n as int) + seq![] =~= v@);
            }
            v
        },
        None => String::new(),
    }
}

/// The version in `fish --version` output: after "version ", trimmed;
/// empty when missing.
pub open spec fn fish_version_of(output: Seq<char>) -> Seq<char> {
    match after_version(output) {
        Some(v) => trimmed_of(v),
        None => seq![],
    }
}

/// Reads the version out of `fish --version` output.
pub fn fish_version(output: &str) -> (r: String)
    ensures
        r@ == fish_version_of(output@),
{
    match after_version_exec(output) {
        Some(v) => String::from_str(trim(v.as_str())),
        None => String::new(),
    }
}

/// The address on an `inet <address>/<prefix> ...` line, once trimmed.
pub open spec fn inet_address_of_line(l: Seq<char>) -> Option<Seq<char>> {
    let t = trimmed_of(l);
    let w = words_of(t);
    if "inet "@.is_prefix_of(t) && w.len() >= 2 {
        Some(split_on(w[1], "/"@)[0])
    } else {
        None
    }
}

/// The first IPv4 address in the output of `ip addr show`.
pub open spec fn first_inet_address(ls: Seq<Seq<char>>) -> Option<Seq<char>>
    decreases ls.len(),
{
    if ls.len() == 0 {
        None
    } else {
        match inet_address_of_line(ls[0]) {
            Some(a) => Some(a),
            None => first_inet_address(ls.drop_first()),
        }
    }
}

/// Reads the first IPv4 address out of `ip addr show` output.
pub fn inet_address(output: &str) -> (r: Option<String>)
    ensures
        match r {
            Some(a) => first_inet_address(lines_of(output@)) == Some(a@),
            None => first_inet_address(lines_of(output@)) is None,
        },
{
    let ls = lines(output);
    let ghost all = lines_of(output@);
    let n = ls.len();
    let mut i: usize = 0;
    proof {
        assert(all.skip(0) =~= all);
    }
    while i < n
        invariant
            n == all.len(),
            ls@.len() == n,
            forall|j: int| 0 <= j < n ==> #[trigger] ls@[j]@ == all[j],
            i <= n,
            all == lines_of(output@),
            first_inet_address(all) == first_inet_address(all.skip(i as int)),
        decreases n - i,
    {
        proof {
            reveal_strlit("/");
            let rest = all.skip(i as int);
            assert(rest[0] == ls@[i as int]@);
            assert(rest.drop_first() =~= all.skip(i as int + 1));
        }
        let line = trim(ls[i].as_str());
        if starts_with(line, "inet ") {
            let words = split_whitespace(line);
            if words.len() >= 2 {
                let pieces = split(words[1].as_str(), "/");
                proof {
                    lemma_split_len(words[1]@, "/"@);
                    assert(words@[1]@ == words_of(line@)[1]);
                    assert(pieces@[0]@ == split_on(words@[1]@, "/"@)[0]);
                    assert(inet_address_of_line(all[i as int]) == Some(pieces@[0]@));
                    assert(all.skip(i as int)[0] == all[i as int]);
                }
                return Some(pieces[0].clone());
            }
        }
        i = i + 1;
    }
    proof {
        assert(all.skip(n as int).len() == 0);
    }
    None
}

} // verus!
