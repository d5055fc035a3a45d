//! Removes terminal control sequences from captured shell output.
use vstd::prelude::*;

verus! {

/// The escape character that opens every control sequence.
pub open spec fn esc() -> char {
    '\x1B'
}

pub open spec fn in_range(c: char, lo: char, hi: char) -> bool {
    lo <= c && c <= hi
}

/// The first index at or after `i` whose character lies outside `lo..=hi`
/// (or the length of `s`).
pub open spec fn run_end(s: Seq<char>, i: int, lo: char, hi: char) -> int
    decreases s.len() - i,
{
    if 0 <= i < s.len() && in_range(s[i], lo, hi) {
        run_end(s, i + 1, lo, hi)
    } else {
        i
    }
}

/// The length of the control sequence that starts `s`, if one does: the
/// escape character, an introducer in `@..=_`, parameter bytes in `0..=?`,
/// intermediate bytes in ` ..=/` and one final byte in `@..=~`. The three
/// classes after the introducer are disjoint, so the greedy runs give the
/// only match that can start here.
pub open spec fn escape_len(s: Seq<char>) -> Option<int> {
    if s.len() >= 2 && s[0] == esc() && in_range(s[1], '@', '_') {
        let k = run_end(s, run_end(s, 2, '0', '?'), ' ', '/');
        if k < s.len() && in_range(s[k], '@', '~') {
            Some(k + 1)
        } else {
            None
        }
    } else {
        None
    }
}

/// `s` with every control sequence removed, scanning from the left and
/// resuming after each sequence removed.
pub open spec fn strip_escapes(s: Seq<char>) -> Seq<char>
    decreases s.len(),
    via strip_escapes_decreases
{
    if s.len() == 0 {
        Seq::empty()
    } else {
        match escape_len(s) {
            Some(n) => strip_escapes(s.skip(n)),
            None => seq![s[0]] + strip_escapes(s.drop_first()),
        }
    }
}

proof fn lemma_run_end_bounds(s: Seq<char>, i: int, lo: char, hi: char)
    requires
        0 <= i <= s.len(),
    ensures
        i <= run_end(s, i, lo, hi) <= s.len(),
    decreases s.len() - i,
{
    if i < s.len() && in_range(s[i], lo, hi) {
        lemma_run_end_bounds(s, i + 1, lo, hi);
    }
}

proof fn lemma_escape_len_bounds(s: Seq<char>)
    ensures
        escape_len(s) matches Some(n) ==> 3 <= n <= s.len(),
{
    if s.len() >= 2 {
        lemma_run_end_bounds(s, 2, '0', '?');
        lemma_run_end_bounds(s, run_end(s, 2, '0', '?'), ' ', '/');
    }
}

#[via_fn]
proof fn strip_escapes_decreases(s: Seq<char>) {
    lemma_escape_len_bounds(s);
}

/// Every character of `s` differs from the escape character.
pub open spec fn no_escape_char(s: Seq<char>) -> bool {
    forall|i: int| 0 <= i < s.len() ==> s[i] != esc()
}

/// A colour-setting sequence: escape, `[`, decimal digits, `m`.
pub open spec fn color_code(digits: Seq<char>) -> Seq<char> {
    seq![esc(), '['] + digits + seq!['m']
}

proof fn lemma_run_end_concat(a: Seq<char>, t: Seq<char>, i: int, lo: char, hi: char)
    requires
        0 <= i <= a.len(),
        t.len() == 0 || !in_range(t[0], lo, hi),
    ensures
        run_end(a + t, i, lo, hi) == run_end(a, i, lo, hi),
    decreases a.len() - i,
{
    if i < a.len() {
        assert((a + t)[i] == a[i]);
        if in_range(a[i], lo, hi) {
            lemma_run_end_concat(a, t, i + 1, lo, hi);
        }
    } else if t.len() > 0 {
        assert((a + t)[i] == t[0]);
    }
}

proof fn lemma_escape_len_concat(a: Seq<char>, t: Seq<char>)
    requires
        a.len() > 0,
        t.len() == 0 || t[0] == esc(),
    ensures
        escape_len(a + t) == escape_len(a),
{
    let s = a + t;
    if a.len() == 1 {
        if t.len() > 0 {
            assert(s[1] == t[0]);
        }
    } else {
        assert(s[0] == a[0] && s[1] == a[1]);
        lemma_run_end_bounds(a, 2, '0', '?');
        lemma_run_end_concat(a, t, 2, '0', '?');
        let j = run_end(a, 2, '0', '?');
        lemma_run_end_bounds(a, j, ' ', '/');
        lemma_run_end_concat(a, t, j, ' ', '/');
        let k = run_end(a, j, ' ', '/');
        if k < a.len() {
            assert(s[k] == a[k]);
        } else if t.len() > 0 {
            assert(s[k] == t[0]);
        }
    }
}

/// Text that follows a point where an escape character (or the end) comes
/// is sanitized on its own: no control sequence reaches across that point.
pub proof fn lemma_strip_concat(a: Seq<char>, t: Seq<char>)
    requires
        t.len() == 0 || t[0] == esc(),
    ensures
        strip_escapes(a + t) == strip_escapes(a) + strip_escapes(t),
    decreases a.len(),
{
    if a.len() == 0 {
        assert(a + t =~= t);
        assert(strip_escapes(a) + strip_escapes(t) =~= strip_escapes(t));
    } else {
        lemma_escape_len_concat(a, t);
        lemma_escape_len_bounds(a);
        match escape_len(a) {
            Some(n) => {
                assert((a + t).skip(n) =~= a.skip(n) + t);
                lemma_strip_concat(a.skip(n), t);
            },
            None => {
                assert((a + t).drop_first() =~= a.drop_first() + t);
                assert((a + t)[0] == a[0]);
                lemma_strip_concat(a.drop_first(), t);
                assert(seq![a[0]] + (strip_escapes(a.drop_first()) + strip_escapes(t))
                    =~= (seq![a[0]] + strip_escapes(a.drop_first())) + strip_escapes(t));
            },
        }
    }
}

/// Text without an escape character comes out of the sanitizer unchanged.
pub proof fn lemma_plain_text_unchanged(t: Seq<char>)
    requires
        no_escape_char(t),
    ensures
        strip_escapes(t) == t,
    decreases t.len(),
{
    if t.len() > 0 {
        assert(t[0] != esc());
        assert(no_escape_char(t.drop_first()));
        lemma_plain_text_unchanged(t.drop_first());
        assert(seq![t[0]] + t.drop_first() =~= t);
    }
}

/// No control sequence starts anywhere in `s`.
pub open spec fn no_escape_sequence(s: Seq<char>) -> bool {
    forall|i: int| 0 <= i < s.len() ==> #[trigger] escape_len(s.skip(i)) is None
}

/// Captured text that holds no control sequence comes out of the sanitizer
/// verbatim.
pub proof fn lemma_text_without_sequences_verbatim(t: Seq<char>)
    requires
        no_escape_sequence(t),
    ensures
        strip_escapes(t) == t,
    decreases t.len(),
{
    if t.len() > 0 {
        assert(t.skip(0) =~= t);
        let r = t.drop_first();
        assert forall|i: int| 0 <= i < r.len() implies #[trigger] escape_len(r.skip(i)) is None by {
            assert(r.skip(i) =~= t.skip(i + 1));
        }
        lemma_text_without_sequences_verbatim(r);
        assert(seq![t[0]] + r =~= t);
    }
}

proof fn lemma_run_end_digits(s: Seq<char>, i: int, end: int)
    requires
        0 <= i <= end < s.len(),
        forall|j: int| i <= j < end ==> '0' <= #[trigger] s[j] <= '9',
        s[end] == 'm',
    ensures
        run_end(s, i, '0', '?') == end,
    decreases end - i,
{
    if i < end {
        lemma_run_end_digits(s, i + 1, end);
    }
}

/// A colour-setting sequence is removed exactly, and the text on either side
/// is sanitized as it would be on its own; text around it without escape
/// characters is kept as it is.
pub proof fn lemma_color_code_removed(a: Seq<char>, digits: Seq<char>, b: Seq<char>)
    requires
        forall|i: int| 0 <= i < digits.len() ==> '0' <= #[trigger] digits[i] <= '9',
    ensures
        strip_escapes(a + color_code(digits) + b) == strip_escapes(a) + strip_escapes(b),
        no_escape_char(a) && no_escape_char(b) ==> strip_escapes(a + color_code(digits) + b)
            == a + b,
{
    let c = color_code(digits);
    let t = c + b;
    assert(a + c + b =~= a + t);
    lemma_strip_concat(a, t);
    let end = digits.len() as int + 2;
    assert(t[end] == 'm');
    assert forall|j: int| 2 <= j < end implies '0' <= #[trigger] t[j] <= '9' by {
        assert(t[j] == digits[j - 2]);
    }
    lemma_run_end_digits(t, 2, end);
    assert(run_end(t, end, ' ', '/') == end);
    assert(escape_len(t) == Some(end + 1));
    assert(t.skip(end + 1) =~= b);
    if no_escape_char(a) && no_escape_char(b) {
        lemma_plain_text_unchanged(a);
        lemma_plain_text_unchanged(b);
    }
}

/// Relies on `regex::Regex::new` and `Regex::replace_all` with an empty
/// replacement: for the control-sequence pattern, which compiles, every
/// leftmost-first match, taken without overlap from the left, is removed.
#[verifier::external_body]
fn remove_pattern_matches(pattern: &str, text: &str) -> (r: String)
    requires
        pattern@ == r"\x1B[@-_][0-?]*[ -/]*[@-~]"@,
    ensures
        r@ == strip_escapes(text@),
{
    regex::Regex::new(pattern).unwrap().replace_all(text, "").into_owned()
}

/// Removes every terminal control sequence from `text`, keeping everything
/// else, line breaks included, in order.
pub fn strip_ansi_escape_codes(text: &str) -> (r: String)
    ensures
        r@ == strip_escapes(text@),
{
    remove_pattern_matches(r"\x1B[@-_][0-?]*[ -/]*[@-~]", text)
}

} // verus!
