use vstd::prelude::*;
use vstd::string::StrSliceExecFns;
use vstd::string::StringExecFns;

use crate::error::HttpError;

verus! {

/// Whether the URL parser accepts `s` as an absolute URL. Its verdict
/// is a function of the string alone, so it has a name here and the
/// trusted wrapper below ties the name to the real parser.
pub uninterp spec fn url_ok(s: Seq<char>) -> bool;

/// Relies on `reqwest::Url::parse` (the `url` crate's parser): it
/// either parses the whole string as an absolute URL or rejects it,
/// and which of the two happens depends only on the string.
#[verifier::external_body]
fn url_is_valid(s: &str) -> (r: bool)
    ensures
        r == url_ok(s@),
{
    reqwest::Url::parse(s).is_ok()
}

/// Validates a command-line URL before any network activity.
/// `Ok` hands the URL back unchanged; a rejected string is
/// `MalformedUrl`, and nothing else ever is.
pub fn parse_url(s: &str) -> (r: Result<String, HttpError>)
    ensures
        match r {
            Ok(u) => url_ok(s@) && u@ == s@,
            Err(e) => e is MalformedUrl && !url_ok(s@),
        },
{
    if url_is_valid(s) {
        Ok(String::from_str(s))
    } else {
        Err(HttpError::MalformedUrl)
    }
}

/// One `key=value` pair of a POST body. Either side may be empty;
/// only a token with no `=` at all is rejected at parse time.
pub struct KvPair {
    pub k: String,
    pub v: String,
}

/// The token holds at least one `=`.
pub open spec fn has_eq(s: Seq<char>) -> bool {
    exists|i: int| 0 <= i < s.len() && s[i] == '='
}

/// `i` is the index of the first `=` in `s`.
pub open spec fn is_first_eq(s: Seq<char>, i: int) -> bool {
    &&& 0 <= i < s.len()
    &&& s[i] == '='
    &&& forall|j: int| 0 <= j < i ==> s[j] != '='
}

/// `k` and `v` are the two sides of `token` around its first `=`:
/// `k` is everything before it, `v` everything after it (later `=`
/// characters stay inside `v`).
pub open spec fn splits_at_first_eq(token: Seq<char>, k: Seq<char>, v: Seq<char>) -> bool {
    exists|i: int|
        is_first_eq(token, i) && k == token.subrange(0, i) && v == token.subrange(
            i + 1,
            token.len() as int,
        )
}

/// A token splits in only one way: the first `=` of a token is
/// unique, so the key and the value are determined by the token.
pub proof fn lemma_split_unique(
    token: Seq<char>,
    k1: Seq<char>,
    v1: Seq<char>,
    k2: Seq<char>,
    v2: Seq<char>,
)
    requires
        splits_at_first_eq(token, k1, v1),
        splits_at_first_eq(token, k2, v2),
    ensures
        k1 == k2,
        v1 == v2,
{
    let i1 = choose|i: int|
        is_first_eq(token, i) && k1 == token.subrange(0, i) && v1 == token.subrange(
            i + 1,
            token.len() as int,
        );
    let i2 = choose|i: int|
        is_first_eq(token, i) && k2 == token.subrange(0, i) && v2 == token.subrange(
            i + 1,
            token.len() as int,
        );
    if i1 < i2 {
        assert(token[i1] == '=');
        assert(token[i1] != '=');
    }
    if i2 < i1 {
        assert(token[i2] == '=');
        assert(token[i2] != '=');
    }
}

/// Splits a `key=value` token at its first `=`. A token with no `=`
/// is `MalformedPair`, and nothing else ever is.
pub fn parse_kv_pair(s: &str) -> (r: Result<KvPair, HttpError>)
    ensures
        match r {
            Ok(p) => has_eq(s@) && splits_at_first_eq(s@, p.k@, p.v@),
            Err(e) => e is MalformedPair && !has_eq(s@),
        },
{
    let n = s.unicode_len();
    let mut i: usize = 0;
    while i < n
        invariant
            n == s@.len(),
            0 <= i <= n,
            forall|j: int| 0 <= j < i ==> s@[j] != '=',
        decreases n - i,
    {
        if s.get_char(i) == '=' {
            let k = s.substring_char(0, i);
            let v = s.substring_char(i + 1, n);
            let p = KvPair { k: String::from_str(k), v: String::from_str(v) };
            proof {
                assert(is_first_eq(s@, i as int));
                assert(p.k@ == s@.subrange(0, i as int));
                assert(p.v@ == s@.subrange(i + 1, s@.len() as int));
            }
            return Ok(p);
        }
        i = i + 1;
    }
    Err(HttpError::MalformedPair)
}

/// The typed invocation: a GET with a URL, or a POST with a URL and
/// its body pairs. Built once from the process arguments, after
/// validation, and consumed once.
pub enum Command {
    Get { url: String },
    Post { url: String, body: Vec<KvPair> },
}

impl Command {
    /// The URL of either variant.
    pub open spec fn url_spec(&self) -> Seq<char> {
        match self {
            Command::Get { url } => url@,
            Command::Post { url, .. } => url@,
        }
    }

    /// Every command is built around a validated URL.
    pub open spec fn wf(&self) -> bool {
        url_ok(self.url_spec())
    }

    /// Builds a GET command, validating the URL first.
    pub fn new_get(url: &str) -> (r: Result<Command, HttpError>)
        ensures
            match r {
                Ok(c) => {
                    &&& url_ok(url@)
                    &&& c.wf()
                    &&& c matches Command::Get { url: u } && u@ == url@
                },
                Err(e) => e is MalformedUrl && !url_ok(url@),
            },
    {
        let u = parse_url(url)?;
        Ok(Command::Get { url: u })
    }

    /// Builds a POST command: validates the URL, then splits every
    /// `key=value` token, in order. A bad URL is `MalformedUrl`; with
    /// a good URL, any token without `=` is `MalformedPair`.
    pub fn new_post(url: &str, tokens: &Vec<String>) -> (r: Result<Command, HttpError>)
        ensures
            match r {
                Ok(c) => {
                    &&& url_ok(url@)
                    &&& c.wf()
                    &&& forall|t: int| 0 <= t < tokens@.len() ==> has_eq(tokens@[t]@)
                    &&& c matches Command::Post { url: u, body } && u@ == url@ && body@.len()
                        == tokens@.len() && (forall|t: int|
                        0 <= t < tokens@.len() ==> splits_at_first_eq(
                            tokens@[t]@,
                            body@[t].k@,
                            body@[t].v@,
                        ))
                },
                Err(e) => {
                    ||| (e is MalformedUrl && !url_ok(url@))
                    ||| (e is MalformedPair && url_ok(url@) && exists|t: int|
                        0 <= t < tokens@.len() && !has_eq(tokens@[t]@))
                },
            },
    {
        let u = parse_url(url)?;
        let mut body: Vec<KvPair> = Vec::new();
        let mut i: usize = 0;
        while i < tokens.len()
            invariant
                url_ok(url@),
                0 <= i <= tokens@.len(),
                body@.len() == i,
                forall|t: int|
                    0 <= t < i ==> has_eq(tokens@[t]@) && splits_at_first_eq(
                        tokens@[t]@,
                        body@[t].k@,
                        body@[t].v@,
                    ),
            decreases tokens@.len() - i,
        {
            match parse_kv_pair(tokens[i].as_str()) {
                Ok(p) => {
                    body.push(p);
                },
                Err(_) => {
                    return Err(HttpError::MalformedPair);
                },
            }
            i = i + 1;
        }
        Ok(Command::Post { url: u, body })
    }
}

} // verus!
