//! Reading a distribution's name and version out of its release file
//! (`os-release`, `lsb-release` and the like).

use vstd::prelude::*;
use crate::text::{
    first_index_of, lines, lines_of, same_text, split_once, strip_back, strip_front, trim,
    trim_matches, trimmed_of,
};

verus! {

/// A value without surrounding double quotes, then single quotes.
pub open spec fn unquoted(v: Seq<char>) -> Seq<char> {
    strip_back(strip_front(strip_back(strip_front(v, '"'), '"'), '\''), '\'')
}

/// The key and value of a `KEY=value` line: both trimmed, the value
/// unquoted; nothing for a line without `=`.
pub open spec fn release_pair(l: Seq<char>) -> Option<(Seq<char>, Seq<char>)> {
    match first_index_of(l, '=') {
        Some(i) => Some((trimmed_of(l.take(i)), unquoted(trimmed_of(l.skip(i + 1))))),
        None => None,
    }
}

/// The value of `key` on the last line that sets it.
pub open spec fn release_value(ls: Seq<Seq<char>>, key: Seq<char>) -> Option<Seq<char>>
    decreases ls.len(),
{
    if ls.len() == 0 {
        None
    } else {
        match release_pair(ls.last()) {
            Some((k, v)) => if k == key {
                Some(v)
            } else {
                release_value(ls.drop_last(), key)
            },
            None => release_value(ls.drop_last(), key),
        }
    }
}

pub open spec fn first_some(a: Option<Seq<char>>, b: Option<Seq<char>>) -> Option<Seq<char>> {
    match a {
        Some(x) => Some(x),
        None => b,
    }
}

/// The distribution's display name: the first of `PRETTY_NAME`,
/// `DISTRIB_DESCRIPTION`, `DISTRIB_ID` and `TAILS_PRODUCT_NAME` that is set.
pub open spec fn pretty_name_of(ls: Seq<Seq<char>>) -> Option<Seq<char>> {
    first_some(
        release_value(ls, "PRETTY_NAME"@),
        first_some(
            release_value(ls, "DISTRIB_DESCRIPTION"@),
            first_some(release_value(ls, "DISTRIB_ID"@), release_value(ls, "TAILS_PRODUCT_NAME"@)),
        ),
    )
}

/// The version: `VERSION_ID`, else `DISTRIB_RELEASE`.
pub open spec fn version_of(ls: Seq<Seq<char>>) -> Option<Seq<char>> {
    first_some(release_value(ls, "VERSION_ID"@), release_value(ls, "DISTRIB_RELEASE"@))
}

/// The long and short names a release file gives: the display name, with
/// the version after a space when there is one, and the display name alone.
pub open spec fn release_names_of(content: Seq<char>) -> Option<(Seq<char>, Seq<char>)> {
    let ls = lines_of(content);
    match pretty_name_of(ls) {
        Some(name) => match version_of(ls) {
            Some(v) => Some((name + " "@ + v, name)),
            None => Some((name, name)),
        },
        None => None,
    }
}

fn pair_of_line(l: &str) -> (r: Option<(String, String)>)
    ensures
        match r {
            Some((k, v)) => release_pair(l@) == Some((k@, v@)),
            None => release_pair(l@) is None,
        },
{
    match split_once(l, '=') {
        Some((k, v)) => {
            let key = trim(k);
            let value = trim_matches(trim_matches(trim(v), '"'), '\'');
            Some((String::from_str(key), String::from_str(value)))
        },
        None => None,
    }
}

fn value_for(ls: &Vec<String>, key: &str, all: Ghost<Seq<Seq<char>>>) -> (r: Option<String>)
    requires
        ls@.len() == all@.len(),
        forall|j: int| 0 <= j < ls@.len() ==> #[trigger] ls@[j]@ == all@[j],
    ensures
        match r {
            Some(v) => release_value(all@, key@) == Some(v@),
            None => release_value(all@, key@) is None,
        },
{
    let mut i: usize = ls.len();
    proof {
        assert(all@.take(i as int) =~= all@);
    }
    while i > 0
        invariant
            ls@.len() == all@.len(),
            forall|j: int| 0 <= j < ls@.len() ==> #[trigger] ls@[j]@ == all@[j],
            i <= ls@.len(),
            release_value(all@, key@) == release_value(all@.take(i as int), key@),
        decreases i,
    {
        let ghost t = all@.take(i as int);
        proof {
            assert(t.drop_last() =~= all@.take(i as int - 1));
            assert(t.last() == ls@[i as int - 1]@);
        }
        match pair_of_line(ls[i - 1].as_str()) {
            Some((k, v)) => {
                if same_text(k.as_str(), key) {
                    return Some(v);
                }
            },
            None => {},
        }
        i = i - 1;
    }
    None
}

/// Reads the long and short names of the distribution out of a release
/// file; nothing when it names none.
pub fn release_names(content: &str) -> (r: Option<(String, String)>)
    ensures
        match r {
            Some((long, short)) => release_names_of(content@) == Some((long@, short@)),
            None => release_names_of(content@) is None,
        },
{
    let ls = lines(content);
    let ghost all = lines_of(content@);
    let mut name = value_for(&ls, "PRETTY_NAME", Ghost(all));
    if name.is_none() {
        name = value_for(&ls, "DISTRIB_DESCRIPTION", Ghost(all));
    }
    if name.is_none() {
        name = value_for(&ls, "DISTRIB_ID", Ghost(all));
    }
    if name.is_none() {
        name = value_for(&ls, "TAILS_PRODUCT_NAME", Ghost(all));
    }
    let mut version = value_for(&ls, "VERSION_ID", Ghost(all));
    if version.is_none() {
        version = value_for(&ls, "DISTRIB_RELEASE", Ghost(all));
    }
    match name {
        Some(n) => match version {
            Some(v) => {
                let mut long = n.clone();
                long.append(" ");
                long.append(v.as_str());
                Some((long, n))
            },
            None => Some((n.clone(), n)),
        },
        None => None,
    }
}

} // verus!
