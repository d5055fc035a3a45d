//! The request and response records of the line protocol, and the texts of
//! the responses that report a failure.
use vstd::prelude::*;
use crate::text::{chars_of, string_of, push_all};

verus! {

/// One request line: a shell command and, optionally, a new timeout that
/// holds from this request on.
pub struct Request<T> {
    pub command: String,
    pub timeout_seconds: Option<T>,
}

/// How long a request took: nothing (it never reached the shell), or a
/// duration in the timeout's unit.
#[derive(PartialEq, Eq, Structural)]
pub enum Elapsed<T> {
    Zero,
    Of(T),
}

/// One response line.
pub struct Response<T> {
    pub output: String,
    pub execution_time: Elapsed<T>,
    pub command: String,
    pub timeout_seconds: T,
}

/// Relies on `char::is_whitespace`: the Unicode `White_Space` property.
pub uninterp spec fn white_space(c: char) -> bool;

/// Relies on `char::is_whitespace`, which holds of the Unicode `White_Space`
/// characters, space, tab, line feed and carriage return among them.
#[verifier::external_body]
fn is_white_space(c: char) -> (r: bool)
    ensures
        r == white_space(c),
        c == ' ' || c == '\t' || c == '\n' || c == '\r' ==> r,
{
    c.is_whitespace()
}

/// A line that holds nothing but white space carries no request.
pub fn is_blank_line(line: &str) -> (r: bool)
    ensures
        r == (forall|i: int| 0 <= i < line@.len() ==> white_space(#[trigger] line@[i])),
{
    let cs = chars_of(line);
    let mut i: usize = 0;
    while i < cs.len()
        invariant
            i <= cs@.len(),
            cs@ == line@,
            forall|j: int| 0 <= j < i ==> white_space(#[trigger] line@[j]),
        decreases cs@.len() - i,
    {
        if !is_white_space(cs[i]) {
            return false;
        }
        i = i + 1;
    }
    true
}

/// `prefix` followed by `detail` and `suffix`.
fn framed(prefix: &str, detail: &str, suffix: &str) -> (r: String)
    ensures
        r@ == prefix@ + detail@ + suffix@,
{
    let mut out: Vec<char> = Vec::new();
    push_all(&mut out, prefix);
    push_all(&mut out, detail);
    push_all(&mut out, suffix);
    assert(Seq::<char>::empty() + prefix@ =~= prefix@);
    string_of(&out)
}

pub open spec fn invalid_request_text(detail: Seq<char>) -> Seq<char> {
    "Invalid JSON: "@ + detail
}

pub open spec fn send_error_text(detail: Seq<char>) -> Seq<char> {
    "Error sending command: "@ + detail
}

pub open spec fn exec_error_text(detail: Seq<char>) -> Seq<char> {
    "Execution error: "@ + detail
}

pub open spec fn timed_out_text(limit: Seq<char>) -> Seq<char> {
    "Command timed out after "@ + limit + " seconds"@
}

/// The output reported for a line that is not a request.
pub fn invalid_request_message(detail: &str) -> (r: String)
    ensures
        r@ == invalid_request_text(detail@),
{
    let r = framed("Invalid JSON: ", detail, "");
    proof { reveal_strlit(""); }
    assert(r@ =~= invalid_request_text(detail@));
    r
}

/// The output reported when the command could not be written to the shell.
pub fn send_error_message(detail: &str) -> (r: String)
    ensures
        r@ == send_error_text(detail@),
{
    let r = framed("Error sending command: ", detail, "");
    proof { reveal_strlit(""); }
    assert(r@ =~= send_error_text(detail@));
    r
}

/// The output reported when reading the shell's answer failed.
pub fn exec_error_message(detail: &str) -> (r: String)
    ensures
        r@ == exec_error_text(detail@),
{
    let r = framed("Execution error: ", detail, "");
    proof { reveal_strlit(""); }
    assert(r@ =~= exec_error_text(detail@));
    r
}

/// The output reported when the prompt did not come back in time; `limit`
/// is the timeout as shown to the caller.
pub fn timed_out_message(limit: &str) -> (r: String)
    ensures
        r@ == timed_out_text(limit@),
{
    framed("Command timed out after ", limit, " seconds")
}

} // verus!
