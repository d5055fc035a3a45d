//! Turns an arbitrary command into a shell fragment that the shell evaluates
//! as one opaque unit.
use vstd::prelude::*;
use crate::text::{chars_of, string_of, push_all};

verus! {

/// What one character of the command becomes inside single quotes: a quote
/// closes the quoted run, adds an escaped quote and opens a new run.
pub open spec fn quote_piece(c: char) -> Seq<char> {
    if c == '\'' {
        seq!['\'', '\\', '\'', '\'']
    } else {
        seq![c]
    }
}

/// The command with each character replaced by its piece.
pub open spec fn escaped_body(s: Seq<char>) -> Seq<char>
    decreases s.len(),
{
    if s.len() == 0 {
        Seq::empty()
    } else {
        quote_piece(s[0]) + escaped_body(s.drop_first())
    }
}

/// The command as one single-quoted shell word.
pub open spec fn single_quoted(s: Seq<char>) -> Seq<char> {
    seq!['\''] + escaped_body(s) + seq!['\'']
}

/// The line handed to the shell: the quoted command evaluated in a subshell.
pub open spec fn eval_line(s: Seq<char>) -> Seq<char> {
    seq!['(', 'e', 'v', 'a', 'l', ' '] + single_quoted(s) + seq![')']
}

/// How a POSIX shell reads a word made of single-quoted runs and
/// backslash-escaped characters (`quoted` tells whether a run is open).
/// `None` where the text is not such a word, or leaves a run open.
pub open spec fn shell_read(t: Seq<char>, quoted: bool) -> Option<Seq<char>>
    decreases t.len(),
{
    if t.len() == 0 {
        if quoted {
            None
        } else {
            Some(Seq::empty())
        }
    } else if quoted {
        if t[0] == '\'' {
            shell_read(t.drop_first(), false)
        } else {
            prepend(seq![t[0]], shell_read(t.drop_first(), true))
        }
    } else if t[0] == '\'' {
        shell_read(t.drop_first(), true)
    } else if t[0] == '\\' && t.len() >= 2 {
        prepend(seq![t[1]], shell_read(t.subrange(2, t.len() as int), false))
    } else {
        None
    }
}

/// `p` put in front of the word read, if one was.
pub open spec fn prepend(p: Seq<char>, w: Option<Seq<char>>) -> Option<Seq<char>> {
    match w {
        Some(x) => Some(p + x),
        None => None,
    }
}

proof fn lemma_escaped_body_push(s: Seq<char>, c: char)
    ensures
        escaped_body(s.push(c)) == escaped_body(s) + quote_piece(c),
    decreases s.len(),
{
    if s.len() == 0 {
        assert(s.push(c).drop_first() =~= Seq::<char>::empty());
        assert(escaped_body(s.push(c)) == quote_piece(c) + escaped_body(Seq::<char>::empty()));
        assert(quote_piece(c) + Seq::<char>::empty() =~= quote_piece(c));
        assert(Seq::<char>::empty() + quote_piece(c) =~= quote_piece(c));
    } else {
        assert(s.push(c).drop_first() =~= s.drop_first().push(c));
        lemma_escaped_body_push(s.drop_first(), c);
        assert(escaped_body(s.push(c)) == quote_piece(s[0]) + escaped_body(s.drop_first().push(c)));
        assert(quote_piece(s[0]) + (escaped_body(s.drop_first()) + quote_piece(c))
            =~= (quote_piece(s[0]) + escaped_body(s.drop_first())) + quote_piece(c));
    }
}

proof fn lemma_read_escaped_body(s: Seq<char>, tail: Seq<char>)
    ensures
        shell_read(escaped_body(s) + tail, true) == prepend(s, shell_read(tail, true)),
    decreases s.len(),
{
    if s.len() == 0 {
        assert(escaped_body(s) + tail =~= tail);
        match shell_read(tail, true) {
            Some(w) => assert(s + w =~= w),
            None => {},
        }
    } else {
        let rest = escaped_body(s.drop_first()) + tail;
        lemma_read_escaped_body(s.drop_first(), tail);
        assert(escaped_body(s) + tail =~= quote_piece(s[0]) + rest);
        if s[0] == '\'' {
            let t = quote_piece(s[0]) + rest;
            assert(t.drop_first() =~= seq!['\\', '\'', '\''] + rest);
            let u = seq!['\\', '\'', '\''] + rest;
            assert(u.subrange(2, u.len() as int) =~= seq!['\''] + rest);
            assert((seq!['\''] + rest).drop_first() =~= rest);
            assert(shell_read(seq!['\''] + rest, false) == shell_read(rest, true));
            assert(shell_read(u, false) == prepend(seq!['\''], shell_read(rest, true)));
            assert(shell_read(t, true) == shell_read(u, false));
        } else {
            let t = quote_piece(s[0]) + rest;
            assert(t.drop_first() =~= rest);
            assert(t[0] == s[0]);
        }
        match shell_read(tail, true) {
            Some(w) => {
                assert(seq![s[0]] + (s.drop_first() + w) =~= s + w);
            },
            None => {},
        }
    }
}

/// The quoted word reads back as the command itself: whatever quotes,
/// newlines or special characters the command holds, the shell hands `eval`
/// exactly the command as written.
pub proof fn lemma_quoted_word_reads_back(s: Seq<char>)
    ensures
        shell_read(single_quoted(s), false) == Some(s),
        eval_line(s) == seq!['(', 'e', 'v', 'a', 'l', ' '] + single_quoted(s) + seq![')'],
{
    let q = single_quoted(s);
    assert(q.drop_first() =~= escaped_body(s) + seq!['\'']);
    lemma_read_escaped_body(s, seq!['\'']);
    assert(seq!['\''].drop_first() =~= Seq::<char>::empty());
    assert(shell_read(seq!['\''], true) == shell_read(Seq::<char>::empty(), false));
    assert(s + Seq::<char>::empty() =~= s);
}

/// Wraps `s` in single quotes, writing each embedded quote as `'\''`.
pub fn shell_single_quote(s: &str) -> (r: String)
    ensures
        r@ == single_quoted(s@),
{
    let cs = chars_of(s);
    let mut out: Vec<char> = Vec::new();
    out.push('\'');
    let mut i: usize = 0;
    while i < cs.len()
        invariant
            i <= cs@.len(),
            cs@ == s@,
            out@ == seq!['\''] + escaped_body(s@.take(i as int)),
        decreases cs@.len() - i,
    {
        let c = cs[i];
        if c == '\'' {
            out.push('\'');
            out.push('\\');
            out.push('\'');
            out.push('\'');
        } else {
            out.push(c);
        }
        proof {
            lemma_escaped_body_push(s@.take(i as int), c);
            assert(s@.take(i + 1) =~= s@.take(i as int).push(c));
        }
        i = i + 1;
    }
    out.push('\'');
    assert(s@.take(i as int) =~= s@);
    string_of(&out)
}

/// The line sent to the shell for `command`: `(eval '<command>')`, so that
/// the prompt reappears once, whatever the command holds.
pub fn eval_command_line(command: &str) -> (r: String)
    ensures
        r@ == eval_line(command@),
{
    let mut out: Vec<char> = Vec::new();
    push_all(&mut out, "(eval ");
    let q = shell_single_quote(command);
    push_all(&mut out, q.as_str());
    out.push(')');
    proof {
        reveal_strlit("(eval ");
    }
    string_of(&out)
}

} // verus!
