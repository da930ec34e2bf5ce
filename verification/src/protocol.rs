//! Framing of the JSON-lines protocol: one request per input line, blank
//! lines skipped, lines that are not UTF-8 answered with an error.

use vstd::prelude::*;
use vstd::utf8::{decode_utf8, valid_utf8};

verus! {

/// Longest input line the protocol reads (10 MiB); longer input is cut
/// there.
pub const MAX_LINE_LENGTH: usize = 10485760;

/// `b` without one trailing `\n`, then without one trailing `\r`.
pub open spec fn without_line_ending(b: Seq<u8>) -> Seq<u8> {
    let b1 = if b.len() > 0 && b.last() == 10u8 {
        b.drop_last()
    } else {
        b
    };
    if b1.len() > 0 && b1.last() == 13u8 {
        b1.drop_last()
    } else {
        b1
    }
}

/// Removes the line ending (`\n`, `\r\n`, or a lone `\r`) from a line read
/// up to and including its newline.
pub fn strip_line_ending(bytes: Vec<u8>) -> (r: Vec<u8>)
    ensures
        r@ == without_line_ending(bytes@),
{
    let mut b = bytes;
    let n = b.len();
    if n > 0 && b[n - 1] == 10u8 {
        b.pop();
    }
    let n = b.len();
    if n > 0 && b[n - 1] == 13u8 {
        b.pop();
    }
    b
}

/// Whether a byte is ASCII white space as `u8::is_ascii_whitespace`
/// defines it: space, tab, line feed, form feed, carriage return.
pub open spec fn is_ascii_white(b: u8) -> bool {
    b == 0x20u8 || b == 0x09u8 || b == 0x0Au8 || b == 0x0Cu8 || b == 0x0Du8
}

/// Whether every byte of `b` is ASCII white space.
pub open spec fn is_blank(b: Seq<u8>) -> bool {
    forall|i: int| 0 <= i < b.len() ==> is_ascii_white(#[trigger] b[i])
}

/// Decides [`is_blank`].
pub fn blank_line(bytes: &Vec<u8>) -> (r: bool)
    ensures
        r == is_blank(bytes@),
{
    let mut i: usize = 0;
    while i < bytes.len()
        invariant
            i <= bytes@.len(),
            forall|k: int| 0 <= k < i ==> is_ascii_white(#[trigger] bytes@[k]),
        decreases bytes@.len() - i,
    {
        let c = bytes[i];
        if !(c == 0x20u8 || c == 0x09u8 || c == 0x0Au8 || c == 0x0Cu8 || c == 0x0Du8) {
            return false;
        }
        i = i + 1;
    }
    true
}

/// `String::from_utf8`: the string the bytes encode when they are valid
/// UTF-8, else nothing. The claim is that the standard library accepts
/// exactly the byte sequences vstd calls valid UTF-8 and decodes them as
/// vstd does.
#[verifier::external_body]
fn utf8_string(bytes: Vec<u8>) -> (r: Option<String>)
    ensures
        r is Some <==> valid_utf8(bytes@),
        r matches Some(s) ==> s@ == decode_utf8(bytes@),
{
    String::from_utf8(bytes).ok()
}

/// What the protocol does with one input line.
pub enum LineFrame {
    /// A blank line: no response.
    Skip,
    /// The line cannot be a request: answer with this message.
    Invalid(String),
    /// The text of a request, to be parsed.
    Request(String),
}

/// The message for a line that is not UTF-8.
pub open spec fn invalid_utf8_message() -> Seq<char> {
    "invalid UTF-8 input"@
}

/// Frames one input line (its ending already removed): blank lines are
/// skipped, lines that are not valid UTF-8 are refused, any other line is
/// a request text.
pub fn frame_request_line(bytes: Vec<u8>) -> (r: LineFrame)
    ensures
        is_blank(bytes@) ==> r is Skip,
        !is_blank(bytes@) && !valid_utf8(bytes@) ==> (r matches LineFrame::Invalid(m) && m@
            == invalid_utf8_message()),
        !is_blank(bytes@) && valid_utf8(bytes@) ==> (r matches LineFrame::Request(s) && s@
            == decode_utf8(bytes@)),
{
    if blank_line(&bytes) {
        return LineFrame::Skip;
    }
    match utf8_string(bytes) {
        Some(s) => LineFrame::Request(s),
        None => {
            let mut m = String::new();
            m.append("invalid UTF-8 input");
            LineFrame::Invalid(m)
        },
    }
}

/// The message for a line that is not a valid request; `detail` is the
/// parser's description.
pub fn invalid_request_message(detail: &str) -> (m: String)
    ensures
        m@ == "invalid request: "@ + detail@,
{
    let mut m = String::new();
    m.append("invalid request: ");
    m.append(detail);
    m
}

/// The message for a failed read of the input; `detail` describes it.
pub fn read_error_message(detail: &str) -> (m: String)
    ensures
        m@ == "stdin read error: "@ + detail@,
{
    let mut m = String::new();
    m.append("stdin read error: ");
    m.append(detail);
    m
}

} // verus!
