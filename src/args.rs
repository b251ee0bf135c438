//! The description of a run: target, method, headers, body, how many
//! requests and how many at once.
use vstd::prelude::*;

verus! {

/// The HTTP method of every request of a run.
#[derive(Clone, Copy, Debug, PartialEq, Eq, Structural)]
pub enum HttpMethod {
    Get,
    Post,
    Put,
    Delete,
    Head,
    Options,
    Patch,
}

/// The name of a method as it appears on the wire.
pub open spec fn method_name(m: HttpMethod) -> Seq<char> {
    match m {
        HttpMethod::Get => "GET"@,
        HttpMethod::Post => "POST"@,
        HttpMethod::Put => "PUT"@,
        HttpMethod::Delete => "DELETE"@,
        HttpMethod::Head => "HEAD"@,
        HttpMethod::Options => "OPTIONS"@,
        HttpMethod::Patch => "PATCH"@,
    }
}

impl HttpMethod {
    /// The method's name in upper case, as it appears on the wire.
    pub fn as_str(&self) -> (r: &'static str)
        ensures
            r@ == method_name(*self),
    {
        match self {
            HttpMethod::Get => "GET",
            HttpMethod::Post => "POST",
            HttpMethod::Put => "PUT",
            HttpMethod::Delete => "DELETE",
            HttpMethod::Head => "HEAD",
            HttpMethod::Options => "OPTIONS",
            HttpMethod::Patch => "PATCH",
        }
    }
}

/// The characters with Unicode's White_Space property.
pub open spec fn is_white(c: char) -> bool {
    let u = c as u32;
    (0x09 <= u <= 0x0d) || u == 0x20 || u == 0x85 || u == 0xa0 || u == 0x1680 || (0x2000 <= u
        <= 0x200a) || u == 0x2028 || u == 0x2029 || u == 0x202f || u == 0x205f || u == 0x3000
}

pub fn is_white_char(c: char) -> (r: bool)
    ensures
        r == is_white(c),
{
    let u = c as u32;
    (0x09 <= u && u <= 0x0d) || u == 0x20 || u == 0x85 || u == 0xa0 || u == 0x1680 || (0x2000
        <= u && u <= 0x200a) || u == 0x2028 || u == 0x2029 || u == 0x202f || u == 0x205f || u
        == 0x3000
}

/// `s` without its leading whitespace.
pub open spec fn trim_start(s: Seq<char>) -> Seq<char>
    decreases s.len(),
{
    if s.len() > 0 && is_white(s[0]) {
        trim_start(s.drop_first())
    } else {
        s
    }
}

/// `s` without its trailing whitespace.
pub open spec fn trim_end(s: Seq<char>) -> Seq<char>
    decreases s.len(),
{
    if s.len() > 0 && is_white(s.last()) {
        trim_end(s.drop_last())
    } else {
        s
    }
}

/// `s` without leading and trailing whitespace.
pub open spec fn trim(s: Seq<char>) -> Seq<char> {
    trim_end(trim_start(s))
}

/// Removes leading and trailing whitespace.
pub fn trim_str(s: &str) -> (r: &str)
    ensures
        r@ == trim(s@),
{
    let n = s.unicode_len();
    let mut i: usize = 0;
    assert(s@.subrange(0, n as int) =~= s@);
    while i < n && is_white_char(s.get_char(i))
        invariant
            n == s@.len(),
            i <= n,
            trim_start(s@) == trim_start(s@.subrange(i as int, n as int)),
        decreases n - i,
    {
        assert(s@.subrange(i as int, n as int).drop_first() =~= s@.subrange(i + 1, n as int));
        i = i + 1;
    }
    assert(trim_start(s@) == s@.subrange(i as int, n as int));
    let mut j: usize = n;
    while j > i && is_white_char(s.get_char(j - 1))
        invariant
            n == s@.len(),
            i <= j <= n,
            trim(s@) == trim_end(s@.subrange(i as int, j as int)),
        decreases j - i,
    {
        assert(s@.subrange(i as int, j as int).drop_last() =~= s@.subrange(i as int, j - 1));
        j = j - 1;
    }
    s.substring_char(i, j)
}

/// `p` is the position of the first `=` in `s`.
pub open spec fn is_first_eq(s: Seq<char>, p: int) -> bool {
    0 <= p < s.len() && s[p] == '=' && forall|k: int| 0 <= k < p ==> s[k] != '='
}

/// The position of the first `=` in `s`, which holds one.
pub open spec fn first_eq(s: Seq<char>) -> int {
    choose|p: int| is_first_eq(s, p)
}

/// The key of a `KEY=VALUE` header text: what stands before the first `=`,
/// trimmed.
pub open spec fn key_part(s: Seq<char>) -> Seq<char> {
    trim(s.subrange(0, first_eq(s)))
}

/// The value of a `KEY=VALUE` header text: what stands after the first `=`,
/// trimmed.
pub open spec fn value_part(s: Seq<char>) -> Seq<char> {
    trim(s.subrange(first_eq(s) + 1, s.len() as int))
}

/// A character that a header key may hold: neither whitespace nor `:`.
pub open spec fn key_char_ok(c: char) -> bool {
    !is_white(c) && c != ':'
}

/// Every character of `k` may stand in a header key.
pub open spec fn key_chars_ok(k: Seq<char>) -> bool {
    forall|i: int| 0 <= i < k.len() ==> key_char_ok(#[trigger] k[i])
}

/// A custom header sent with every request.
#[derive(Clone, Debug)]
pub struct Header {
    pub key: String,
    pub value: String,
}

/// Why a header text was refused.
#[derive(Clone, Debug, PartialEq, Eq)]
pub enum HeaderError {
    /// The text holds no `=`.
    MissingSeparator,
    /// The key is empty once trimmed.
    EmptyKey,
    /// The trimmed key holds whitespace or a `:`.
    InvalidKey(String),
}

proof fn lemma_first_eq_unique(s: Seq<char>, p: int)
    requires
        is_first_eq(s, p),
    ensures
        first_eq(s) == p,
{
    let q = first_eq(s);
    assert(is_first_eq(s, q));
    if q < p {
        assert(s[q] != '=');
    } else if p < q {
        assert(s[p] != '=');
    }
}

fn key_chars_ok_exec(k: &str) -> (r: bool)
    ensures
        r == key_chars_ok(k@),
{
    let n = k.unicode_len();
    let mut i: usize = 0;
    while i < n
        invariant
            n == k@.len(),
            i <= n,
            forall|q: int| 0 <= q < i ==> key_char_ok(#[trigger] k@[q]),
        decreases n - i,
    {
        let c = k.get_char(i);
        if is_white_char(c) || c == ':' {
            assert(!key_char_ok(k@[i as int]));
            return false;
        }
        i = i + 1;
    }
    true
}

impl Header {
    /// Reads a header from `KEY=VALUE` text: the text is split at its first
    /// `=`, and key and value are trimmed of whitespace. The key must not be
    /// empty and must hold neither whitespace nor `:`.
    pub fn from_str(s: &str) -> (r: Result<Header, HeaderError>)
        ensures
            !s@.contains('=') <==> r == Err::<Header, HeaderError>(HeaderError::MissingSeparator),
            s@.contains('=') && key_part(s@).len() == 0 ==> r == Err::<Header, HeaderError>(
                HeaderError::EmptyKey,
            ),
            s@.contains('=') && key_part(s@).len() > 0 && !key_chars_ok(key_part(s@)) ==> (r matches Err(
                HeaderError::InvalidKey(k),
            ) && k@ == key_part(s@)),
            s@.contains('=') && key_part(s@).len() > 0 && key_chars_ok(key_part(s@)) ==> (r matches Ok(
                h,
            ) && h.key@ == key_part(s@) && h.value@ == value_part(s@)),
    {
        let n = s.unicode_len();
        let mut p: usize = 0;
        while p < n && s.get_char(p) != '='
            invariant
                n == s@.len(),
                p <= n,
                forall|k: int| 0 <= k < p ==> s@[k] != '=',
            decreases n - p,
        {
            p = p + 1;
        }
        if p == n {
            assert(!s@.contains('='));
            return Err(HeaderError::MissingSeparator);
        }
        proof {
            lemma_first_eq_unique(s@, p as int);
        }
        let key = trim_str(s.substring_char(0, p));
        let value = trim_str(s.substring_char(p + 1, n));
        if key.unicode_len() == 0 {
            return Err(HeaderError::EmptyKey);
        }
        if !key_chars_ok_exec(key) {
            return Err(HeaderError::InvalidKey(String::from_str(key)));
        }
        Ok(Header { key: String::from_str(key), value: String::from_str(value) })
    }
}

#[verifier::external_type_specification]
#[verifier::external_body]
pub struct ExUrl(url::Url);

#[verifier::external_type_specification]
#[verifier::external_body]
pub struct ExParseError(url::ParseError);

/// Whether `s` parses as an absolute URL.
pub uninterp spec fn parses_as_url(s: Seq<char>) -> bool;

/// Relies on url::Url::parse: it succeeds exactly on the texts that parse as
/// an absolute URL, which depends on the text alone.
#[verifier::external_body]
fn parse_url(s: &str) -> (r: Result<url::Url, url::ParseError>)
    ensures
        r is Ok <==> parses_as_url(s@),
{
    url::Url::parse(s)
}

/// The description of a run.
#[derive(Clone, Debug)]
pub struct Args {
    /// Target URL.
    pub url: String,
    /// Total number of requests.
    pub requests: usize,
    /// Most requests in flight at once.
    pub concurrency: usize,
    /// Per-request timeout, in seconds.
    pub timeout: u64,
    pub method: HttpMethod,
    /// Request body; none sends an empty body.
    pub body: Option<String>,
    /// Headers sent with every request.
    pub headers: Vec<Header>,
}

/// Why a run description was refused.
#[derive(Clone, Copy, Debug, PartialEq, Eq)]
pub enum ArgsError {
    /// The target does not parse as a URL.
    InvalidUrl(url::ParseError),
    /// The request count is 0, or too large to be counted.
    InvalidRequests,
    /// The concurrency bound is 0.
    InvalidConcurrency,
}

/// The largest number of requests a run may issue: the per-class counts of a
/// summary are 32-bit.
pub const MAX_REQUESTS: usize = 4294967295;

impl Args {
    /// Checks a run description before the run starts: the target must parse
    /// as a URL, the request count must lie in `1..=MAX_REQUESTS`, and the
    /// concurrency bound must be at least 1. The first failed check, in that
    /// order, is reported.
    pub fn validate(&self) -> (r: Result<(), ArgsError>)
        ensures
            !parses_as_url(self.url@) <==> r matches Err(ArgsError::InvalidUrl(_)),
            parses_as_url(self.url@) && !(1 <= self.requests <= MAX_REQUESTS) ==> r == Err::<
                (),
                ArgsError,
            >(ArgsError::InvalidRequests),
            parses_as_url(self.url@) && 1 <= self.requests <= MAX_REQUESTS && self.concurrency
                == 0 ==> r == Err::<(), ArgsError>(ArgsError::InvalidConcurrency),
            r is Ok <==> parses_as_url(self.url@) && 1 <= self.requests <= MAX_REQUESTS && 1
                <= self.concurrency,
    {
        match parse_url(self.url.as_str()) {
            Err(e) => Err(ArgsError::InvalidUrl(e)),
            Ok(_) => {
                if self.requests == 0 || self.requests > MAX_REQUESTS {
                    Err(ArgsError::InvalidRequests)
                } else if self.concurrency == 0 {
                    Err(ArgsError::InvalidConcurrency)
                } else {
                    Ok(())
                }
            },
        }
    }
}

} // verus!
