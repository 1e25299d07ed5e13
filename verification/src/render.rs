use vstd::prelude::*;
use vstd::string::StrSliceExecFns;
use vstd::string::StringExecFns;

use crate::error::HttpError;

verus! {

/// Whether `s` names exactly the JSON media type. The verdict — parse
/// the string as a MIME type and compare it with `application/json` —
/// is a function of the string alone, so it gets a name here.
pub uninterp spec fn is_json_media_type(s: Seq<char>) -> bool;

/// Relies on the `mime` crate: `Mime`'s `FromStr` parses the string or
/// rejects it, and its `PartialEq` compares the parsed type, subtype
/// and parameters with `mime::APPLICATION_JSON`; both depend only on
/// the string.
#[verifier::external_body]
fn media_type_is_json(s: &str) -> (r: bool)
    ensures
        r == is_json_media_type(s@),
{
    match s.parse::<mime::Mime>() {
        Ok(m) => m == mime::APPLICATION_JSON,
        Err(_) => false,
    }
}

/// Whether `s` is one well-formed JSON document. JSON's grammar takes
/// pages to state, so the parser's verdict gets a name; it is a
/// function of the string alone.
pub uninterp spec fn is_valid_json(s: Seq<char>) -> bool;

/// Relies on `serde_json::from_str::<Value>`: it parses the whole
/// string as one JSON value or rejects it, deterministically.
/// This crate is the validator here because `jsonxf` checks nothing:
/// its formatter passes malformed text through, while a declared JSON
/// body that does not parse must fail as `MalformedJson`.
#[verifier::external_body]
fn json_is_valid(s: &str) -> (r: bool)
    ensures
        r == is_valid_json(s@),
{
    serde_json::from_str::<serde_json::Value>(s).is_ok()
}

/// The text that the JSON pretty-printer produces for `s`: the same
/// data re-indented, a function of the input text alone.
pub uninterp spec fn json_pretty(s: Seq<char>) -> Seq<char>;

/// Relies on `jsonxf::pretty_print`: it re-indents the text it is
/// given with two-space indents, and its output depends on the input
/// alone. On a `&str` it always succeeds: it reads from the byte
/// slice and writes to an in-memory buffer, neither of which can
/// fail, and since it only removes single ASCII whitespace bytes
/// outside strings and inserts ASCII separators at character
/// boundaries, the output of valid UTF-8 input stays valid UTF-8, so
/// the final UTF-8 re-check cannot fail either.
#[verifier::external_body]
fn pretty_print_json(s: &str) -> (r: Result<String, String>)
    ensures
        r is Ok,
        r matches Ok(t) ==> t@ == json_pretty(s@),
{
    jsonxf::pretty_print(s)
}

/// The code point of `c`, with an ASCII capital letter folded to its
/// lower-case form.
pub open spec fn lower_code(c: char) -> int {
    if 65 <= c as int && c as int <= 90 {
        c as int + 32
    } else {
        c as int
    }
}

/// `a` and `b` are the same text up to ASCII letter case.
pub open spec fn eq_ignore_ascii_case(a: Seq<char>, b: Seq<char>) -> bool {
    a.len() == b.len() && (forall|i: int| 0 <= i < a.len() ==> lower_code(a[i]) == lower_code(
        b[i],
    ))
}

fn lower_char_code(c: char) -> (r: u32)
    ensures
        r as int == lower_code(c),
{
    let x = c as u32;
    if 65 <= x && x <= 90 {
        x + 32
    } else {
        x
    }
}

fn str_eq_ignore_ascii_case(a: &str, b: &str) -> (r: bool)
    ensures
        r == eq_ignore_ascii_case(a@, b@),
{
    let na = a.unicode_len();
    let nb = b.unicode_len();
    if na != nb {
        return false;
    }
    let mut i: usize = 0;
    while i < na
        invariant
            na == a@.len(),
            nb == b@.len(),
            na == nb,
            0 <= i <= na,
            forall|j: int| 0 <= j < i ==> lower_code(a@[j]) == lower_code(b@[j]),
        decreases na - i,
    {
        let xa = lower_char_code(a.get_char(i));
        let xb = lower_char_code(b.get_char(i));
        if xa != xb {
            return false;
        }
        i = i + 1;
    }
    true
}

/// The value of the first `Content-Type` header, its name compared
/// ASCII case-insensitively; `None` when no header carries that name.
pub open spec fn content_type_value(headers: Seq<(String, String)>) -> Option<Seq<char>>
    decreases headers.len(),
{
    if headers.len() == 0 {
        None
    } else if eq_ignore_ascii_case(headers[0].0@, "content-type"@) {
        Some(headers[0].1@)
    } else {
        content_type_value(headers.drop_first())
    }
}

/// Looks the `Content-Type` header up among the response headers.
fn find_content_type(headers: &Vec<(String, String)>) -> (r: Option<String>)
    ensures
        match r {
            Some(v) => content_type_value(headers@) == Some(v@),
            None => content_type_value(headers@) is None,
        },
{
    proof {
        assert(headers@.skip(0) =~= headers@);
    }
    let n = headers.len();
    let mut i: usize = 0;
    while i < n
        invariant
            n == headers@.len(),
            0 <= i <= n,
            content_type_value(headers@) == content_type_value(headers@.skip(i as int)),
        decreases n - i,
    {
        proof {
            assert(headers@.skip(i as int)[0] == headers@[i as int]);
        }
        if str_eq_ignore_ascii_case(headers[i].0.as_str(), "content-type") {
            return Some(headers[i].1.clone());
        }
        proof {
            assert(headers@.skip(i as int).drop_first() =~= headers@.skip(i as int + 1));
        }
        i = i + 1;
    }
    None
}

/// A received response, as plain values: the protocol version and the
/// status as display text, the headers in their received order, and
/// the body text.
pub struct HttpResponse {
    pub version: String,
    pub status: String,
    pub headers: Vec<(String, String)>,
    pub body: String,
}

impl HttpResponse {
    /// The response declares exactly the JSON media type.
    pub open spec fn declares_json(&self) -> bool {
        match content_type_value(self.headers@) {
            Some(v) => is_json_media_type(v),
            None => false,
        }
    }
}

/// Whether the response's declared content type is JSON; this alone
/// decides how the body is rendered.
pub fn is_json_response(resp: &HttpResponse) -> (r: bool)
    ensures
        r == resp.declares_json(),
{
    match find_content_type(&resp.headers) {
        Some(v) => media_type_is_json(v.as_str()),
        None => false,
    }
}

/// The status line: the protocol version, `: `, and the status text.
pub open spec fn status_line_spec(version: Seq<char>, status: Seq<char>) -> Seq<char> {
    version + ": "@ + status
}

/// Renders the status line of a response.
pub fn render_status_line(version: &str, status: &str) -> (r: String)
    ensures
        r@ == status_line_spec(version@, status@),
{
    String::from_str(version).concat(": ").concat(status)
}

/// One lowercase hexadecimal digit.
pub open spec fn hex_digit_spec(d: int) -> Seq<char> {
    if d == 0 {
        "0"@
    } else if d == 1 {
        "1"@
    } else if d == 2 {
        "2"@
    } else if d == 3 {
        "3"@
    } else if d == 4 {
        "4"@
    } else if d == 5 {
        "5"@
    } else if d == 6 {
        "6"@
    } else if d == 7 {
        "7"@
    } else if d == 8 {
        "8"@
    } else if d == 9 {
        "9"@
    } else if d == 10 {
        "a"@
    } else if d == 11 {
        "b"@
    } else if d == 12 {
        "c"@
    } else if d == 13 {
        "d"@
    } else if d == 14 {
        "e"@
    } else {
        "f"@
    }
}

/// `n` written in lowercase hexadecimal, without padding.
pub open spec fn hex_seq(n: int) -> Seq<char>
    decreases n,
{
    if n < 16 {
        hex_digit_spec(n)
    } else {
        hex_seq(n / 16) + hex_digit_spec(n % 16)
    }
}

fn hex_digit(d: u32) -> (r: &'static str)
    requires
        d < 16,
    ensures
        r@ == hex_digit_spec(d as int),
{
    if d == 0 {
        "0"
    } else if d == 1 {
        "1"
    } else if d == 2 {
        "2"
    } else if d == 3 {
        "3"
    } else if d == 4 {
        "4"
    } else if d == 5 {
        "5"
    } else if d == 6 {
        "6"
    } else if d == 7 {
        "7"
    } else if d == 8 {
        "8"
    } else if d == 9 {
        "9"
    } else if d == 10 {
        "a"
    } else if d == 11 {
        "b"
    } else if d == 12 {
        "c"
    } else if d == 13 {
        "d"
    } else if d == 14 {
        "e"
    } else {
        "f"
    }
}

fn hex_string(n: u32) -> (r: String)
    ensures
        r@ == hex_seq(n as int),
    decreases n,
{
    if n < 16 {
        String::from_str(hex_digit(n))
    } else {
        hex_string(n / 16).concat(hex_digit(n % 16))
    }
}

/// The escape the debug formatter applies to one character of a
/// header value: a double quote becomes `\"`; visible ASCII and the
/// tab pass through; anything else becomes `\x` and its code in
/// lowercase hexadecimal.
pub open spec fn escape_char_spec(c: char) -> Seq<char> {
    if c == '"' {
        "\\\""@
    } else if (32 <= c as int && c as int <= 126) || c == '\t' {
        seq![c]
    } else {
        "\\x"@ + hex_seq(c as int)
    }
}

/// A header value's text with every character escaped as the debug
/// formatter escapes it. The formatter works byte by byte; this
/// library models the value as text, so a character beyond ASCII is
/// escaped as one code, not byte by byte.
pub open spec fn escaped_spec(s: Seq<char>) -> Seq<char>
    decreases s.len(),
{
    if s.len() == 0 {
        Seq::empty()
    } else {
        escaped_spec(s.drop_last()) + escape_char_spec(s.last())
    }
}

/// Escapes a header value as the debug formatter would.
fn escape_value(value: &str) -> (r: String)
    ensures
        r@ == escaped_spec(value@),
{
    let n = value.unicode_len();
    let mut out = String::new();
    let mut i: usize = 0;
    while i < n
        invariant
            n == value@.len(),
            0 <= i <= n,
            out@ == escaped_spec(value@.subrange(0, i as int)),
        decreases n - i,
    {
        let c = value.get_char(i);
        let code = c as u32;
        if c == '"' {
            out.append("\\\"");
        } else if (32 <= code && code <= 126) || code == 9 {
            out.append(value.substring_char(i, i + 1));
            proof {
                assert(value@.subrange(i as int, i as int + 1) =~= seq![value@[i as int]]);
            }
        } else {
            out.append("\\x");
            let h = hex_string(code);
            out.append(h.as_str());
            proof {
                assert(out@ =~= escaped_spec(value@.subrange(0, i as int)) + ("\\x"@ + hex_seq(
                    code as int,
                )));
            }
        }
        proof {
            assert(value@.subrange(0, i as int + 1).drop_last() =~= value@.subrange(
                0,
                i as int,
            ));
            assert(value@.subrange(0, i as int + 1).last() == value@[i as int]);
        }
        i = i + 1;
    }
    proof {
        assert(value@.subrange(0, n as int) =~= value@);
    }
    out
}

/// A header value's display form, as its debug-quoted rendering shows
/// it: the escaped text between two double quotes.
pub open spec fn quoted_spec(value: Seq<char>) -> Seq<char> {
    "\""@ + escaped_spec(value) + "\""@
}

/// Renders one header value in its debug-quoted form.
pub fn quote_value(value: &str) -> (r: String)
    ensures
        r@ == quoted_spec(value@),
{
    let escaped = escape_value(value);
    String::from_str("\"").concat(escaped.as_str()).concat("\"")
}

/// Renders every header, in order, as the pair of its name and its
/// debug-quoted value; the two parts stay apart so that the display
/// can style the name on its own.
pub fn render_header_parts(headers: &Vec<(String, String)>) -> (r: Vec<(String, String)>)
    ensures
        r@.len() == headers@.len(),
        forall|i: int|
            0 <= i < headers@.len() ==> r@[i].0@ == headers@[i].0@ && r@[i].1@ == quoted_spec(
                headers@[i].1@,
            ),
{
    let mut lines: Vec<(String, String)> = Vec::new();
    let mut i: usize = 0;
    while i < headers.len()
        invariant
            0 <= i <= headers@.len(),
            lines@.len() == i,
            forall|j: int|
                0 <= j < i ==> lines@[j].0@ == headers@[j].0@ && lines@[j].1@ == quoted_spec(
                    headers@[j].1@,
                ),
        decreases headers@.len() - i,
    {
        lines.push((headers[i].0.clone(), quote_value(headers[i].1.as_str())));
        i = i + 1;
    }
    lines
}

/// What the body section makes of the pretty-printer's outcome: a
/// formatted text is passed through unchanged, and a printer failure
/// is `MalformedJson` — never a fallback to raw text.
pub fn body_from_pretty(pretty: Result<String, String>) -> (r: Result<String, HttpError>)
    ensures
        match pretty {
            Ok(t) => r matches Ok(u) && u == t,
            Err(_) => r matches Err(e) && e is MalformedJson,
        },
{
    match pretty {
        Ok(t) => Ok(t),
        Err(_) => Err(HttpError::MalformedJson),
    }
}

/// Renders the body section: the body itself, verbatim, for a
/// non-JSON response; the re-indented text for a JSON one. A response
/// that declares JSON but whose body does not parse as JSON is
/// `MalformedJson` — it is never rendered raw instead, and a valid
/// JSON body is always pretty-printed, never refused.
pub fn render_body(declares_json: bool, body: &String) -> (r: Result<String, HttpError>)
    ensures
        !declares_json ==> (r matches Ok(t) && t@ == body@),
        declares_json && !is_valid_json(body@) ==> (r matches Err(e) && e is MalformedJson),
        declares_json && is_valid_json(body@) ==> (r matches Ok(t) && t@ == json_pretty(
            body@,
        )),
{
    if declares_json {
        if json_is_valid(body.as_str()) {
            body_from_pretty(pretty_print_json(body.as_str()))
        } else {
            Err(HttpError::MalformedJson)
        }
    } else {
        Ok(body.clone())
    }
}

/// The three rendered sections of a response, ready for display: the
/// status line, one line per header, and the body text, with the flag
/// that says whether the body was treated as JSON.
pub struct Rendered {
    pub status_line: String,
    pub headers: Vec<(String, String)>,
    pub body: String,
    pub body_is_json: bool,
}

/// Renders a whole response. The one failure is `MalformedJson`,
/// exactly when the response declares the JSON media type and its
/// body does not parse as JSON; such a body is never rendered raw
/// instead, and every other response renders successfully.
pub fn render_response(resp: &HttpResponse) -> (r: Result<Rendered, HttpError>)
    ensures
        match r {
            Ok(out) => {
                &&& out.status_line@ == status_line_spec(resp.version@, resp.status@)
                &&& out.headers@.len() == resp.headers@.len()
                &&& forall|i: int|
                    0 <= i < resp.headers@.len() ==> out.headers@[i].0@ == resp.headers@[i].0@
                        && out.headers@[i].1@ == quoted_spec(resp.headers@[i].1@)
                &&& out.body_is_json == resp.declares_json()
                &&& !resp.declares_json() ==> out.body@ == resp.body@
                &&& resp.declares_json() ==> is_valid_json(resp.body@) && out.body@
                    == json_pretty(resp.body@)
            },
            Err(e) => e is MalformedJson && resp.declares_json() && !is_valid_json(
                resp.body@,
            ),
        },
        resp.declares_json() && !is_valid_json(resp.body@) ==> r is Err,
        !resp.declares_json() || is_valid_json(resp.body@) ==> r is Ok,
{
    let status_line = render_status_line(resp.version.as_str(), resp.status.as_str());
    let headers = render_header_parts(&resp.headers);
    let body_is_json = is_json_response(resp);
    match render_body(body_is_json, &resp.body) {
        Ok(body) => Ok(Rendered { status_line, headers, body, body_is_json }),
        Err(e) => Err(e),
    }
}

} // verus!
