//! Reading a processor's name and core count out of `/proc/cpuinfo`, and
//! shortening the name for display.

use vstd::prelude::*;
use crate::patterns::{
    regex_replace_all, regex_replaced, AUTHENTIC_AMD_PATTERN, CHIP_REVISION_PATTERN,
    COMPUTE_CORES_PATTERN, CORE_COUNT_PATTERN, FPU_PATTERN, RADEON_PATTERN, SPACES_PATTERN,
};
use crate::records::Cpu;
use crate::text::{
    lemma_split_len, replace, replaced, split, split_on, starts_with, trim, trimmed_of,
};

verus! {

/// The vendor and marketing words removed from a processor's name, in order.
pub open spec fn without_vendor_words(n: Seq<char>) -> Seq<char> {
    let a = replaced(replaced(replaced(replaced(n, "(tm)"@, ""@), "(TM)"@, ""@), "(R)"@, ""@), "(r)"@, ""@);
    let b = replaced(replaced(replaced(replaced(a, "CPU"@, ""@), "Intel"@, ""@), "AMD"@, ""@), "Processor"@, ""@);
    let c = replaced(replaced(replaced(replaced(b, "Dual-Core"@, ""@), "Quad-Core"@, ""@), "Six-Core"@, ""@), "Eight-Core"@, ""@);
    replaced(c, "Quad-Core"@, ""@)
}

/// A processor's name with vendor words, core counts and notes removed,
/// white space squashed to single spaces and trimmed.
pub open spec fn cleaned_cpu_name(n: Seq<char>) -> Seq<char> {
    let a = without_vendor_words(n);
    let b = regex_replaced(CORE_COUNT_PATTERN@, a, ""@);
    let c = regex_replaced(COMPUTE_CORES_PATTERN@, b, ""@);
    let d = replaced(c, "Cores "@, " "@);
    let e = regex_replaced(AUTHENTIC_AMD_PATTERN@, d, ""@);
    let f = regex_replaced(RADEON_PATTERN@, e, ""@);
    let g = replaced(replaced(replaced(f, ", altivec supported"@, ""@), "Technologies, Inc"@, ""@), "Core2"@, "Core 2"@);
    let h = regex_replaced(FPU_PATTERN@, g, ""@);
    let i = regex_replaced(CHIP_REVISION_PATTERN@, h, ""@);
    trimmed_of(regex_replaced(SPACES_PATTERN@, i, " "@))
}

fn drop_word(s: String, word: &str) -> (r: String)
    requires
        word@.len() > 0,
    ensures
        r@ == replaced(s@, word@, ""@),
{
    replace(s.as_str(), word, "")
}

fn drop_pattern(s: String, pattern: &str) -> (r: String)
    requires
        pattern@ == CORE_COUNT_PATTERN@ || pattern@ == COMPUTE_CORES_PATTERN@ || pattern@
            == AUTHENTIC_AMD_PATTERN@ || pattern@ == RADEON_PATTERN@ || pattern@ == FPU_PATTERN@
            || pattern@ == CHIP_REVISION_PATTERN@,
    ensures
        r@ == regex_replaced(pattern@, s@, ""@),
{
    regex_replace_all(pattern, s.as_str(), "")
}

impl Cpu {
    /// Shortens a processor's name for display.
    pub fn clean_cpu_name(name: &str) -> (r: String)
        ensures
            r@ == cleaned_cpu_name(name@),
    {
        proof {
            reveal_strlit("(tm)");
            reveal_strlit("(TM)");
            reveal_strlit("(R)");
            reveal_strlit("(r)");
            reveal_strlit("CPU");
            reveal_strlit("Intel");
            reveal_strlit("AMD");
            reveal_strlit("Processor");
            reveal_strlit("Dual-Core");
            reveal_strlit("Quad-Core");
            reveal_strlit("Six-Core");
            reveal_strlit("Eight-Core");
            reveal_strlit("Cores ");
            reveal_strlit(", altivec supported");
            reveal_strlit("Technologies, Inc");
            reveal_strlit("Core2");
        }
        let mut n = replace(name, "(tm)", "");
        n = drop_word(n, "(TM)");
        n = drop_word(n, "(R)");
        n = drop_word(n, "(r)");
        n = drop_word(n, "CPU");
        n = drop_word(n, "Intel");
        n = drop_word(n, "AMD");
        n = drop_word(n, "Processor");
        n = drop_word(n, "Dual-Core");
        n = drop_word(n, "Quad-Core");
        n = drop_word(n, "Six-Core");
        n = drop_word(n, "Eight-Core");
        n = drop_word(n, "Quad-Core");
        n = drop_pattern(n, CORE_COUNT_PATTERN);
        n = drop_pattern(n, COMPUTE_CORES_PATTERN);
        n = replace(n.as_str(), "Cores ", " ");
        n = drop_pattern(n, AUTHENTIC_AMD_PATTERN);
        n = drop_pattern(n, RADEON_PATTERN);
        n = drop_word(n, ", altivec supported");
        n = drop_word(n, "Technologies, Inc");
        n = replace(n.as_str(), "Core2", "Core 2");
        n = drop_pattern(n, FPU_PATTERN);
        n = drop_pattern(n, CHIP_REVISION_PATTERN);
        n = regex_replace_all(SPACES_PATTERN, n.as_str(), " ");
        String::from_str(trim(n.as_str()))
    }
}

/// A line of `/proc/cpuinfo` that gives the processor's name.
pub open spec fn is_name_line(l: Seq<char>) -> bool {
    "model name"@.is_prefix_of(l) || "Hardware"@.is_prefix_of(l) || "Processor"@.is_prefix_of(l)
        || "cpu model"@.is_prefix_of(l) || "chip type"@.is_prefix_of(l) || "cpu type"@.is_prefix_of(l)
}

/// The first line that gives the name.
pub open spec fn first_name_line(lines: Seq<Seq<char>>) -> Option<Seq<char>>
    decreases lines.len(),
{
    if lines.len() == 0 {
        None
    } else if is_name_line(lines[0]) {
        Some(lines[0])
    } else {
        first_name_line(lines.drop_first())
    }
}

/// The processor's name in `/proc/cpuinfo`: on the first line that gives it,
/// the text between the first ": " and the next one; none when that line
/// has no ": ".
pub open spec fn cpu_name_of(info: Seq<char>) -> Option<Seq<char>> {
    match first_name_line(split_on(info, "\n"@)) {
        Some(l) => {
            let parts = split_on(l, ": "@);
            if parts.len() >= 2 {
                Some(parts[1])
            } else {
                None
            }
        },
        None => None,
    }
}

/// The number of lines that start with "processor": one per logical core.
pub open spec fn processor_lines(lines: Seq<Seq<char>>) -> nat
    decreases lines.len(),
{
    if lines.len() == 0 {
        0
    } else {
        processor_lines(lines.drop_last()) + if "processor"@.is_prefix_of(lines.last()) {
            1nat
        } else {
            0nat
        }
    }
}

fn is_name_line_exec(l: &str) -> (r: bool)
    ensures
        r == is_name_line(l@),
{
    starts_with(l, "model name") || starts_with(l, "Hardware") || starts_with(l, "Processor")
        || starts_with(l, "cpu model") || starts_with(l, "chip type") || starts_with(l, "cpu type")
}

/// Reads the processor's name and its number of logical cores out of the
/// text of `/proc/cpuinfo`.
pub fn parse_cpuinfo(info: &str) -> (r: (Option<String>, i32))
    requires
        info@.len() < i32::MAX,
    ensures
        match r.0 {
            Some(n) => cpu_name_of(info@) == Some(n@),
            None => cpu_name_of(info@) is None,
        },
        r.1 == processor_lines(split_on(info@, "\n"@)),
{
    proof {
        reveal_strlit("\n");
        reveal_strlit(": ");
        lemma_split_len(info@, "\n"@);
    }
    let lines = split(info, "\n");
    let ghost ls = split_on(info@, "\n"@);
    let n = lines.len();
    let mut name_line: Option<usize> = None;
    let mut cores: i32 = 0;
    let mut i: usize = 0;
    proof {
        assert(ls.skip(0) =~= ls);
    }
    while i < n
        invariant
            n == ls.len(),
            n <= info@.len() + 1,
            info@.len() < i32::MAX,
            i <= n,
            forall|j: int| 0 <= j < n ==> #[trigger] lines@[j]@ == ls[j],
            lines@.len() == n,
            cores == processor_lines(ls.take(i as int)),
            cores <= i,
            match name_line {
                Some(k) => k < i && first_name_line(ls) == Some(ls[k as int]),
                None => first_name_line(ls) == first_name_line(ls.skip(i as int)),
            },
        decreases n - i,
    {
        let line = lines[i].as_str();
        proof {
            let t = ls.take(i as int + 1);
            assert(t.drop_last() =~= ls.take(i as int));
            assert(t.last() == ls[i as int]);
            assert(ls.skip(i as int)[0] == ls[i as int]);
            assert(ls.skip(i as int).drop_first() =~= ls.skip(i as int + 1));
        }
        if starts_with(line, "processor") {
            cores = cores + 1;
        }
        if name_line.is_none() && is_name_line_exec(line) {
            name_line = Some(i);
        }
        i = i + 1;
    }
    proof {
        assert(ls.take(n as int) =~= ls);
    }
    let name = match name_line {
        Some(k) => {
            let parts = split(lines[k].as_str(), ": ");
            if parts.len() >= 2 {
                Some(parts[1].clone())
            } else {
                None
            }
        },
        None => {
            proof {
                assert(ls.skip(n as int).len() == 0);
            }
            None
        },
    };
    (name, cores)
}

} // verus!
