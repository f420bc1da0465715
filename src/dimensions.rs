//! Visual width and height of rendered text, with ANSI CSI sequences removed.

use vstd::prelude::*;
use crate::patterns::{regex_replace_all, CSI_PATTERN};

verus! {

/// A character that may appear among the parameters of a CSI sequence.
pub open spec fn is_param_char(c: char) -> bool {
    ('0' <= c && c <= '9') || c == ';'
}

pub open spec fn is_digit(c: char) -> bool {
    '0' <= c && c <= '9'
}

/// A character that ends a CSI sequence.
pub open spec fn is_final_letter(c: char) -> bool {
    ('a' <= c && c <= 'z') || ('A' <= c && c <= 'Z')
}

/// Number of parameter characters at the start of `s`.
pub open spec fn param_run(s: Seq<char>) -> nat
    decreases s.len(),
{
    if s.len() > 0 && is_param_char(s[0]) {
        1 + param_run(s.drop_first())
    } else {
        0
    }
}

/// Length of the CSI sequence (`ESC [`, digits and `;` ending in a digit, one
/// letter) that starts `s`; 0 when no such sequence starts there.
pub open spec fn csi_len(s: Seq<char>) -> nat {
    let k = param_run(s.skip(2));
    if s.len() >= 2 && s[0] == '\x1b' && s[1] == '[' && k >= 1 && 2 + k < s.len()
        && is_digit(s[1 + k as int]) && is_final_letter(s[2 + k as int]) {
        k + 3
    } else {
        0
    }
}

/// `s` with every CSI sequence removed, scanning from the left and resuming
/// after each removed sequence.
pub open spec fn strip_csi(s: Seq<char>) -> Seq<char>
    decreases s.len(),
{
    if s.len() == 0 {
        s
    } else if csi_len(s) > 0 {
        strip_csi(s.skip(csi_len(s) as int))
    } else {
        seq![s[0]] + strip_csi(s.skip(1))
    }
}

/// Number of newline characters in `s`.
pub open spec fn newline_count(s: Seq<char>) -> nat
    decreases s.len(),
{
    if s.len() == 0 {
        0
    } else {
        newline_count(s.drop_last()) + if s.last() == '\n' { 1nat } else { 0nat }
    }
}

/// Number of characters after the last newline of `s`.
pub open spec fn last_line_len(s: Seq<char>) -> nat
    decreases s.len(),
{
    if s.len() == 0 || s.last() == '\n' {
        0
    } else {
        1 + last_line_len(s.drop_last())
    }
}

/// The largest number of characters on one line of `s`.
pub open spec fn text_width(s: Seq<char>) -> nat
    decreases s.len(),
{
    if s.len() == 0 {
        0
    } else {
        let w = text_width(s.drop_last());
        let l = last_line_len(s);
        if l > w { l } else { w }
    }
}

/// The number of lines of `s`: one more than its newlines, so a trailing
/// newline opens an empty last line.
pub open spec fn text_height(s: Seq<char>) -> nat {
    newline_count(s) + 1
}

/// Width and height of text as a terminal shows it.
pub open spec fn visual_dimensions(s: Seq<char>) -> (int, int) {
    (text_width(strip_csi(s)) as int, text_height(strip_csi(s)) as int)
}

/// Width (longest line, in characters) and height (number of lines) of text
/// that holds no escape sequences.
pub fn measure_plain(text: &str) -> (r: (i32, i32))
    requires
        text@.len() < i32::MAX,
    ensures
        r.0 == text_width(text@),
        r.1 == text_height(text@),
{
    let mut w: usize = 0;
    let mut cur: usize = 0;
    let mut h: usize = 1;
    let ghost s = text@;
    for c in it: text.chars()
        invariant
            it.seq() == s,
            s.len() < i32::MAX,
            w == text_width(s.take(it.index() as int)),
            cur == last_line_len(s.take(it.index() as int)),
            h == text_height(s.take(it.index() as int)),
            w <= it.index(),
            cur <= it.index(),
            h <= it.index() + 1,
    {
        let ghost i = it.index() as int;
        let ghost p = s.take(i + 1);
        assert(p.drop_last() == s.take(i));
        assert(p.last() == c);
        if c == '\n' {
            cur = 0;
            h = h + 1;
        } else {
            cur = cur + 1;
        }
        if cur > w {
            w = cur;
        }
    }
    proof {
        assert(s.take(s.len() as int) == s);
    }
    (w as i32, h as i32)
}

/// Width and height of `s` once its CSI sequences are removed.
pub fn get_dimensions(s: &str) -> (r: (i32, i32))
    requires
        s@.len() < i32::MAX,
    ensures
        r.0 == visual_dimensions(s@).0,
        r.1 == visual_dimensions(s@).1,
        r.1 == text_height(s@),
{
    proof {
        lemma_strip_len(s@);
        lemma_strip_keeps_height(s@);
    }
    let plain = regex_replace_all(CSI_PATTERN, s, "");
    measure_plain(plain.as_str())
}

/// Removing CSI sequences never lengthens text.
pub proof fn lemma_strip_len(s: Seq<char>)
    ensures
        strip_csi(s).len() <= s.len(),
    decreases s.len(),
{
    if s.len() > 0 {
        if csi_len(s) > 0 {
            lemma_strip_len(s.skip(csi_len(s) as int));
        } else {
            lemma_strip_len(s.skip(1));
        }
    }
}

proof fn lemma_param_run_le(u: Seq<char>)
    ensures
        param_run(u) <= u.len(),
    decreases u.len(),
{
    if u.len() > 0 && is_param_char(u[0]) {
        lemma_param_run_le(u.drop_first());
    }
}

proof fn lemma_param_run_chars(u: Seq<char>)
    ensures
        forall|j: int| 0 <= j < param_run(u) ==> is_param_char(#[trigger] u[j]),
    decreases u.len(),
{
    lemma_param_run_le(u);
    if u.len() > 0 && is_param_char(u[0]) {
        lemma_param_run_chars(u.drop_first());
        assert forall|j: int| 0 <= j < param_run(u) implies is_param_char(#[trigger] u[j]) by {
            if j > 0 {
                assert(u[j] == u.drop_first()[j - 1]);
            }
        }
    }
}

proof fn lemma_param_run_concat(u: Seq<char>, v: Seq<char>)
    ensures
        param_run(u + v) == if param_run(u) < u.len() {
            param_run(u)
        } else {
            u.len() + param_run(v)
        },
    decreases u.len(),
{
    lemma_param_run_le(u);
    if u.len() == 0 {
        assert(u + v =~= v);
    } else {
        assert((u + v)[0] == u[0]);
        if is_param_char(u[0]) {
            assert((u + v).drop_first() =~= u.drop_first() + v);
            lemma_param_run_concat(u.drop_first(), v);
        }
    }
}

/// A sequence that starts `a` still starts `a + b`, with the same length.
proof fn lemma_csi_len_extend(a: Seq<char>, b: Seq<char>)
    requires
        csi_len(a) > 0,
    ensures
        csi_len(a + b) == csi_len(a),
{
    let k = param_run(a.skip(2));
    assert((a + b).skip(2) =~= a.skip(2) + b);
    lemma_param_run_concat(a.skip(2), b);
    assert((a + b)[0] == a[0] && (a + b)[1] == a[1]);
    assert((a + b)[1 + k as int] == a[1 + k as int]);
    assert((a + b)[2 + k as int] == a[2 + k as int]);
}

/// Text that follows `a` and starts with ESC cannot change whether, or how
/// long, a sequence starts `a`.
proof fn lemma_csi_len_before_escape(a: Seq<char>, y: Seq<char>)
    requires
        a.len() > 0,
        y.len() > 0,
        y[0] == '\x1b',
    ensures
        csi_len(a + y) == csi_len(a),
{
    let s = a + y;
    if a.len() == 1 {
        assert(s[1] == y[0]);
    } else {
        let k = param_run(a.skip(2));
        lemma_param_run_le(a.skip(2));
        assert(s.skip(2) =~= a.skip(2) + y);
        lemma_param_run_concat(a.skip(2), y);
        assert(param_run(y) == 0);
        assert(s[0] == a[0] && s[1] == a[1]);
        if 2 + k < a.len() {
            assert(s[1 + k as int] == a[1 + k as int]);
            assert(s[2 + k as int] == a[2 + k as int]);
        } else {
            assert(s[2 + k as int] == y[0]);
        }
    }
}

/// Text that starts with ESC is stripped apart from what comes before it.
proof fn lemma_strip_split(a: Seq<char>, y: Seq<char>)
    requires
        y.len() == 0 || y[0] == '\x1b',
    ensures
        strip_csi(a + y) == strip_csi(a) + strip_csi(y),
    decreases a.len(),
{
    if y.len() == 0 {
        assert(a + y =~= a);
        assert(strip_csi(a) + strip_csi(y) =~= strip_csi(a));
    } else if a.len() == 0 {
        assert(a + y =~= y);
        assert(strip_csi(a) + strip_csi(y) =~= strip_csi(y));
    } else {
        lemma_csi_len_before_escape(a, y);
        let l = csi_len(a);
        if l > 0 {
            assert((a + y).skip(l as int) =~= a.skip(l as int) + y);
            lemma_strip_split(a.skip(l as int), y);
        } else {
            assert((a + y).skip(1) =~= a.skip(1) + y);
            assert((a + y)[0] == a[0]);
            lemma_strip_split(a.skip(1), y);
            assert(seq![a[0]] + (strip_csi(a.skip(1)) + strip_csi(y)) =~= (seq![a[0]]
                + strip_csi(a.skip(1))) + strip_csi(y));
        }
    }
}

/// A whole CSI sequence.
pub open spec fn is_csi(c: Seq<char>) -> bool {
    c.len() > 0 && csi_len(c) == c.len()
}

proof fn lemma_strip_drops_sequence(c: Seq<char>, b: Seq<char>)
    requires
        is_csi(c),
    ensures
        strip_csi(c + b) == strip_csi(b),
{
    lemma_csi_len_extend(c, b);
    assert((c + b).skip(c.len() as int) =~= b);
}

/// No CSI sequence starts anywhere in `s`.
pub open spec fn free_of_sequences(s: Seq<char>) -> bool {
    forall|p: int| 0 <= p < s.len() ==> csi_len(#[trigger] s.skip(p)) == 0
}

proof fn lemma_free_strip(t: Seq<char>)
    requires
        free_of_sequences(t),
    ensures
        strip_csi(t) == t,
    decreases t.len(),
{
    if t.len() > 0 {
        assert(t.skip(0) =~= t);
        let r = t.skip(1);
        assert forall|p: int| 0 <= p < r.len() implies csi_len(#[trigger] r.skip(p)) == 0 by {
            assert(r.skip(p) =~= t.skip(p + 1));
        }
        lemma_free_strip(r);
        assert(seq![t[0]] + r =~= t);
    }
}

proof fn lemma_free_parts(t: Seq<char>, i: int)
    requires
        free_of_sequences(t),
        0 <= i <= t.len(),
    ensures
        free_of_sequences(t.take(i)),
        free_of_sequences(t.skip(i)),
{
    let x = t.take(i);
    assert forall|p: int| 0 <= p < x.len() implies csi_len(#[trigger] x.skip(p)) == 0 by {
        assert(t.skip(p) =~= x.skip(p) + t.skip(i));
        if csi_len(x.skip(p)) > 0 {
            lemma_csi_len_extend(x.skip(p), t.skip(i));
        }
    }
    let y = t.skip(i);
    assert forall|p: int| 0 <= p < y.len() implies csi_len(#[trigger] y.skip(p)) == 0 by {
        assert(y.skip(p) =~= t.skip(i + p));
    }
}

/// The pieces of a text, one after another.
pub open spec fn joined(pieces: Seq<Seq<char>>) -> Seq<char>
    decreases pieces.len(),
{
    if pieces.len() == 0 {
        seq![]
    } else {
        pieces[0] + joined(pieces.drop_first())
    }
}

/// The pieces of a text with `seqs[j]` placed after piece `j`.
pub open spec fn interleaved(pieces: Seq<Seq<char>>, seqs: Seq<Seq<char>>) -> Seq<char>
    decreases seqs.len(),
{
    if seqs.len() == 0 || pieces.len() == 0 {
        joined(pieces)
    } else {
        pieces[0] + seqs[0] + interleaved(pieces.drop_first(), seqs.drop_first())
    }
}

proof fn lemma_strip_interleaved(pieces: Seq<Seq<char>>, seqs: Seq<Seq<char>>)
    requires
        pieces.len() == seqs.len() + 1,
        free_of_sequences(joined(pieces)),
        forall|j: int| 0 <= j < seqs.len() ==> is_csi(#[trigger] seqs[j]),
    ensures
        strip_csi(interleaved(pieces, seqs)) == joined(pieces),
    decreases seqs.len(),
{
    if seqs.len() == 0 {
        lemma_free_strip(joined(pieces));
    } else {
        let head = pieces[0];
        let c = seqs[0];
        let rest_p = pieces.drop_first();
        let rest_s = seqs.drop_first();
        let rest = interleaved(rest_p, rest_s);
        let t = joined(pieces);
        assert(t == head + joined(rest_p));
        assert(t.take(head.len() as int) =~= head);
        assert(t.skip(head.len() as int) =~= joined(rest_p));
        lemma_free_parts(t, head.len() as int);
        assert forall|j: int| 0 <= j < rest_s.len() implies is_csi(#[trigger] rest_s[j]) by {
            assert(rest_s[j] == seqs[j + 1]);
        }
        lemma_strip_interleaved(rest_p, rest_s);
        assert(is_csi(c));
        assert(c[0] == '\x1b');
        assert(interleaved(pieces, seqs) =~= head + (c + rest));
        assert((c + rest)[0] == c[0]);
        lemma_strip_split(head, c + rest);
        lemma_strip_drops_sequence(c, rest);
        lemma_free_strip(head);
    }
}

/// Inserting CSI sequences between the pieces of text that holds none does
/// not change its measured width and height: they are those of the text.
pub proof fn lemma_sequences_take_no_room(pieces: Seq<Seq<char>>, seqs: Seq<Seq<char>>)
    requires
        pieces.len() == seqs.len() + 1,
        free_of_sequences(joined(pieces)),
        forall|j: int| 0 <= j < seqs.len() ==> is_csi(#[trigger] seqs[j]),
    ensures
        strip_csi(joined(pieces)) == joined(pieces),
        visual_dimensions(interleaved(pieces, seqs)) == visual_dimensions(joined(pieces)),
        visual_dimensions(interleaved(pieces, seqs)) == (
            text_width(joined(pieces)) as int,
            text_height(joined(pieces)) as int,
        ),
{
    lemma_strip_interleaved(pieces, seqs);
    lemma_free_strip(joined(pieces));
}

/// Text without an ESC character holds no CSI sequence.
pub proof fn lemma_no_escape_is_free(t: Seq<char>)
    requires
        forall|i: int| 0 <= i < t.len() ==> #[trigger] t[i] != '\x1b',
    ensures
        free_of_sequences(t),
{
    assert forall|p: int| 0 <= p < t.len() implies csi_len(#[trigger] t.skip(p)) == 0 by {
        assert(t.skip(p)[0] == t[p]);
    }
}

/// Inserting CSI sequences into text without ESC characters leaves its
/// measured width and height unchanged.
pub proof fn lemma_sequences_in_plain_text(pieces: Seq<Seq<char>>, seqs: Seq<Seq<char>>)
    requires
        pieces.len() == seqs.len() + 1,
        forall|i: int| 0 <= i < joined(pieces).len() ==> #[trigger] joined(pieces)[i] != '\x1b',
        forall|j: int| 0 <= j < seqs.len() ==> is_csi(#[trigger] seqs[j]),
    ensures
        visual_dimensions(interleaved(pieces, seqs)) == visual_dimensions(joined(pieces)),
{
    lemma_no_escape_is_free(joined(pieces));
    lemma_sequences_take_no_room(pieces, seqs);
}

proof fn lemma_newline_count_concat(a: Seq<char>, b: Seq<char>)
    ensures
        newline_count(a + b) == newline_count(a) + newline_count(b),
    decreases b.len(),
{
    if b.len() == 0 {
        assert(a + b =~= a);
    } else {
        assert((a + b).drop_last() =~= a + b.drop_last());
        assert((a + b).last() == b.last());
        lemma_newline_count_concat(a, b.drop_last());
    }
}

proof fn lemma_newline_count_none(x: Seq<char>)
    requires
        forall|j: int| 0 <= j < x.len() ==> #[trigger] x[j] != '\n',
    ensures
        newline_count(x) == 0,
    decreases x.len(),
{
    if x.len() > 0 {
        assert forall|j: int| 0 <= j < x.drop_last().len() implies #[trigger] x.drop_last()[j]
            != '\n' by {
            assert(x.drop_last()[j] == x[j]);
        }
        lemma_newline_count_none(x.drop_last());
    }
}

/// Removing CSI sequences never changes the height of text: no sequence
/// holds a newline.
pub proof fn lemma_strip_keeps_height(s: Seq<char>)
    ensures
        text_height(strip_csi(s)) == text_height(s),
    decreases s.len(),
{
    if s.len() > 0 {
        let l = csi_len(s);
        if l > 0 {
            let k = param_run(s.skip(2));
            lemma_param_run_chars(s.skip(2));
            let head = s.take(l as int);
            assert forall|j: int| 0 <= j < head.len() implies #[trigger] head[j] != '\n' by {
                if 2 <= j < 2 + k {
                    assert(head[j] == s.skip(2)[j - 2]);
                }
            }
            lemma_newline_count_none(head);
            assert(s =~= head + s.skip(l as int));
            lemma_newline_count_concat(head, s.skip(l as int));
            lemma_strip_keeps_height(s.skip(l as int));
        } else {
            assert(s =~= seq![s[0]] + s.skip(1));
            lemma_newline_count_concat(seq![s[0]], s.skip(1));
            lemma_newline_count_concat(seq![s[0]], strip_csi(s.skip(1)));
            lemma_strip_keeps_height(s.skip(1));
        }
    }
}

/// Measuring the same text twice gives the same width and height, and the
/// height is that of the text before its sequences are removed.
pub proof fn lemma_measure_repeatable(s: Seq<char>, first: (int, int), second: (int, int))
    requires
        first == visual_dimensions(s),
        second == visual_dimensions(s),
    ensures
        first == second,
        first.1 == text_height(s),
{
    lemma_strip_keeps_height(s);
}

} // verus!
