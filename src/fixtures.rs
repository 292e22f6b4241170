//! The decisions of the HTTP server that the graded clients talk to: error
//! pages, the redirect chain and the token that ends it, and the response
//! headers it normalises.
use vstd::prelude::*;
use hmac::Mac;
use crate::search::{
    ascii_bytes, ascii_of, chars_of, decimal, decimal_bytes, decimal_chars, decimal_text, hex_of,
    hex_text,
};

verus! {

broadcast use vstd::string::group_string_axioms;

/// What `Hmac::<Sha256>` computes as the tag of `msg` under `key`.
pub uninterp spec fn hmac_sha256_of(key: Seq<u8>, msg: Seq<u8>) -> Seq<u8>;

/// What `char::to_uppercase` makes of a character.
pub uninterp spec fn uppercase_of(c: char) -> Seq<char>;

/// Relies on hmac 0.12 over sha2 0.10: `Hmac::<Sha256>::new_from_slice`
/// accepts a key of any length, and `finalize` gives the 32-byte tag, which
/// depends on the key and the message alone.
#[verifier::external_body]
fn hmac_sha256(key: &[u8], msg: &[u8]) -> (r: Vec<u8>)
    ensures
        r@ == hmac_sha256_of(key@, msg@),
        r@.len() == 32,
{
    let mut mac = hmac::Hmac::<sha2::Sha256>::new_from_slice(key).unwrap();
    mac.update(msg);
    mac.finalize().into_bytes().to_vec()
}

/// Relies on uuid's `Uuid::new_v4`: the 16 bytes of a random UUID.
#[verifier::external_body]
fn random_secret() -> (r: Vec<u8>)
    ensures
        r@.len() == 16,
{
    uuid::Uuid::new_v4().as_bytes().to_vec()
}

/// Relies on `char::to_uppercase`: the upper case of one character, which
/// depends on the character alone.
#[verifier::external_body]
fn uppercase_char(c: char) -> (r: String)
    ensures
        r@ == uppercase_of(c),
{
    c.to_uppercase().collect()
}

pub open spec fn error_title(code: u32) -> Seq<char> {
    if code == 301 {
        "301 Moved Permanently"@
    } else if code == 302 {
        "302 Found"@
    } else if code == 400 {
        "400 Bad Request"@
    } else if code == 404 {
        "404 Not Found"@
    } else if code == 401 {
        "401 Unauthorized"@
    } else {
        "500 Internal Server Error"@
    }
}

pub open spec fn error_message(code: u32) -> Seq<char> {
    if code == 301 {
        "The page has been moved."@
    } else if code == 302 {
        "The page has been moved temporarily."@
    } else if code == 400 {
        "The request is invalid."@
    } else if code == 404 {
        "The page you are looking for does not exist."@
    } else if code == 401 {
        "You are not authorized to view this page."@
    } else {
        "An error occurred while processing your request."@
    }
}

pub const PAGE_HEAD: &'static str = "<!DOCTYPE html>
        <html lang=\"en\">
        <head>
            <meta charset=\"UTF-8\">
            <meta name=\"viewport\" content=\"width=device-width, initial-scale=1.0\">
            <title>Error ";

pub const PAGE_STYLE: &'static str = "</title>
            <style>
                body {
                    font-family: Arial, sans-serif;
                    text-align: center;
                    margin: 50px;
                }
            </style>
        </head>
        <body>
            <h1>Error ";

pub const PAGE_PARAGRAPH: &'static str = "</h1>
            <p>";

pub const PAGE_TAIL: &'static str = "</p>
        </body>
        </html>";

/// The HTML page for an error status: its title twice, then its message.
pub open spec fn error_page(code: u32) -> Seq<char> {
    PAGE_HEAD@ + error_title(code) + PAGE_STYLE@ + error_title(code) + PAGE_PARAGRAPH@
        + error_message(code) + PAGE_TAIL@
}

/// The HTML page the server sends with an error status; codes it does not
/// know get the page of 500.
pub fn err_template(code: u32) -> (r: String)
    ensures
        r@ == error_page(code),
{
    let (title, msg) = if code == 301 {
        ("301 Moved Permanently", "The page has been moved.")
    } else if code == 302 {
        ("302 Found", "The page has been moved temporarily.")
    } else if code == 400 {
        ("400 Bad Request", "The request is invalid.")
    } else if code == 404 {
        ("404 Not Found", "The page you are looking for does not exist.")
    } else if code == 401 {
        ("401 Unauthorized", "You are not authorized to view this page.")
    } else {
        ("500 Internal Server Error", "An error occurred while processing your request.")
    };
    String::from_str(PAGE_HEAD).concat(title).concat(PAGE_STYLE).concat(title).concat(
        PAGE_PARAGRAPH,
    ).concat(msg).concat(PAGE_TAIL)
}

/// The message whose tag makes the token of a redirect chain ended at `ts`.
pub open spec fn token_message(ts: nat) -> Seq<u8> {
    ascii_of("from recursive redirect: "@) + decimal(ts)
}

/// The token for a secret and a time: the tag of the message in hexadecimal.
pub open spec fn token_for(secret: Seq<u8>, ts: nat) -> Seq<char> {
    hex_of(hmac_sha256_of(secret, token_message(ts)))
}

/// Signs the end of a redirect chain at `ts` (seconds since the epoch).
pub fn sign_token(secret: &[u8], ts: u64) -> (r: String)
    ensures
        r@ == token_for(secret@, ts as nat),
{
    let mut msg = ascii_bytes("from recursive redirect: ");
    let mut digits = decimal_bytes(ts);
    msg.append(&mut digits);
    let tag = hmac_sha256(secret, msg.as_slice());
    hex_text(tag.as_slice())
}

/// The query of a resource request: the file asked for.
pub struct Params {
    pub file: String,
}

/// The query of a request for the secret page: the token it carries.
pub struct Token {
    pub token: String,
}

/// The secret and the time of the last redirect chain that ended; the
/// secret page admits the token they make.
pub struct TokenState {
    secret: Vec<u8>,
    timestemp: u64,
}

impl TokenState {
    pub closed spec fn secret(&self) -> Seq<u8> {
        self.secret@
    }

    pub closed spec fn timestamp(&self) -> u64 {
        self.timestemp
    }

    pub fn new() -> (r: TokenState)
        ensures
            r.secret().len() == 0,
            r.timestamp() == 0,
    {
        TokenState { secret: Vec::new(), timestemp: 0 }
    }

    /// Ends a redirect chain at `now` under `secret`, and returns the token
    /// the secret page admits from then on.
    pub fn issue(&mut self, secret: Vec<u8>, now: u64) -> (r: String)
        ensures
            final(self).secret() == secret@,
            final(self).timestamp() == now,
            r@ == token_for(secret@, now as nat),
    {
        let token = sign_token(secret.as_slice(), now);
        self.secret = secret;
        self.timestemp = now;
        token
    }

    /// Ends a redirect chain at `now` under a fresh random secret.
    pub fn renew(&mut self, now: u64) -> (r: String)
        ensures
            final(self).secret().len() == 16,
            final(self).timestamp() == now,
            r@ == token_for(final(self).secret(), now as nat),
    {
        let secret = random_secret();
        self.issue(secret, now)
    }

    /// Whether the secret page admits `token`.
    pub fn admits(&self, token: &str) -> (r: bool)
        ensures
            r == (token@ == token_for(self.secret(), self.timestamp() as nat)),
    {
        let expected = sign_token(self.secret.as_slice(), self.timestemp);
        expected == String::from_str(token)
    }
}

/// The value `str::parse::<u8>` reads: an optional '+', then one or more
/// decimal digits whose value is at most 255.
pub open spec fn digits_value(d: Seq<char>) -> nat
    decreases d.len(),
{
    if d.len() == 0 {
        0
    } else {
        digits_value(d.drop_last()) * 10 + (d.last() as u32 - '0' as u32) as nat
    }
}

pub open spec fn all_digits(d: Seq<char>) -> bool {
    forall|i: int| 0 <= i < d.len() ==> '0' <= #[trigger] d[i] && d[i] <= '9'
}

pub open spec fn unsigned_digits(s: Seq<char>) -> Seq<char> {
    if s.len() > 0 && s[0] == '+' {
        s.drop_first()
    } else {
        s
    }
}

pub open spec fn parsed_u8(s: Seq<char>) -> Option<u8> {
    let d = unsigned_digits(s);
    if d.len() > 0 && all_digits(d) && digits_value(d) <= 255 {
        Some(digits_value(d) as u8)
    } else {
        None
    }
}

proof fn min_step(x: nat, k: nat)
    requires
        k < 10,
    ensures
        ({
            let capped = if x < 256 { x } else { 256 };
            let next = capped * 10 + k;
            let whole = x * 10 + k;
            (if next < 256 { next } else { 256 }) == (if whole < 256 { whole } else { 256 })
        }),
{
}

/// Reads a `u8` in decimal, as `str::parse::<u8>` does.
pub fn parse_u8(s: &str) -> (r: Option<u8>)
    ensures
        r == parsed_u8(s@),
{
    let cs = chars_of(s);
    let mut i: usize = 0;
    if cs.len() > 0 && cs[0] == '+' {
        i = 1;
    }
    let start = i;
    let ghost d = unsigned_digits(s@);
    assert(d =~= cs@.subrange(start as int, cs@.len() as int));
    if i == cs.len() {
        assert(d.len() == 0);
        return None;
    }
    let mut acc: u64 = 0;
    while i < cs.len()
        invariant
            cs@ == s@,
            start <= i <= cs@.len(),
            d == unsigned_digits(s@),
            d == cs@.subrange(start as int, cs@.len() as int),
            all_digits(cs@.subrange(start as int, i as int)),
            acc == (if digits_value(cs@.subrange(start as int, i as int)) < 256 {
                digits_value(cs@.subrange(start as int, i as int))
            } else {
                256
            }),
        decreases cs@.len() - i,
    {
        let c = cs[i];
        if !('0' <= c && c <= '9') {
            assert(d[i - start] == c);
            assert(!all_digits(d));
            return None;
        }
        let k = (c as u32 - '0' as u32) as u64;
        proof {
            min_step(digits_value(cs@.subrange(start as int, i as int)), k as nat);
            assert(cs@.subrange(start as int, i + 1).drop_last() =~= cs@.subrange(start as int, i as int));
        }
        let next = acc * 10 + k;
        acc = if next < 256 { next } else { 256 };
        i = i + 1;
    }
    assert(cs@.subrange(start as int, i as int) =~= d);
    if acc <= 255 {
        Some(acc as u8)
    } else {
        None
    }
}

/// How the server answers a step of the redirect chain.
#[derive(Debug, Clone, Copy, PartialEq, Eq, Structural)]
pub enum RedirectReply {
    /// The chain ends: issue a token and send the client to the secret page.
    IssueToken,
    /// Send the client one step down the chain, to this step.
    Next(u8),
    /// The step is out of range.
    BadRequest,
}

/// The answer to the chain's step written `n`: what does not read as a `u8`
/// counts as step 0, and steps 0 and 255 are refused.
pub open spec fn redirect_reply_of(n: Seq<char>) -> RedirectReply {
    let v: u8 = match parsed_u8(n) {
        Some(v) => v,
        None => 0,
    };
    if v == 1 {
        RedirectReply::IssueToken
    } else if 0 < v && v < 255 {
        RedirectReply::Next((v - 1) as u8)
    } else {
        RedirectReply::BadRequest
    }
}

pub fn redirect_reply(n: &str) -> (r: RedirectReply)
    ensures
        r == redirect_reply_of(n@),
{
    let v: u8 = match parse_u8(n) {
        Some(v) => v,
        None => 0,
    };
    if v == 1 {
        RedirectReply::IssueToken
    } else if 0 < v && v < 255 {
        RedirectReply::Next(v - 1)
    } else {
        RedirectReply::BadRequest
    }
}

/// Where the chain's step `n` sends the client next.
pub fn next_step_location(n: u8) -> (r: String)
    ensures
        r@ == "/recursive/"@ + decimal_chars(n as nat),
{
    String::from_str("/recursive/").concat(decimal_text(n as u64).as_str())
}

/// Where the end of the chain sends the client.
pub fn secret_location(token: &str) -> (r: String)
    ensures
        r@ == "/secret?token="@ + token@,
{
    String::from_str("/secret?token=").concat(token)
}

/// Why the secret page refused a request.
#[derive(Debug, Clone, Copy, PartialEq, Eq, Structural)]
pub enum GuardError {
    /// No query, or a query that is not one `key=value` pair.
    BadRequest,
    /// The value is not the current token.
    Unauthorized,
}

/// Admits a request to the secret page that carries the current token.
pub struct RedirectGuard;

/// The index of each '=' in `q` before `end`.
pub open spec fn eq_indices(q: Seq<char>, end: int) -> Seq<int>
    decreases end,
{
    if end <= 0 {
        seq![]
    } else if q[end - 1] == '=' {
        eq_indices(q, end - 1).push(end - 1)
    } else {
        eq_indices(q, end - 1)
    }
}

/// The value after the one '=' of `q`, when there is exactly one.
pub open spec fn single_value(q: Seq<char>) -> Option<Seq<char>> {
    let eqs = eq_indices(q, q.len() as int);
    if eqs.len() == 1 {
        Some(q.subrange(eqs[0] + 1, q.len() as int))
    } else {
        None
    }
}

proof fn lemma_eq_indices_bounded(q: Seq<char>, end: int)
    requires
        0 <= end <= q.len(),
    ensures
        forall|k: int| 0 <= k < eq_indices(q, end).len() ==> 0 <= #[trigger] eq_indices(q, end)[k] < end,
    decreases end,
{
    if end > 0 {
        lemma_eq_indices_bounded(q, end - 1);
        let prev = eq_indices(q, end - 1);
        if q[end - 1] == '=' {
            assert forall|k: int| 0 <= k < prev.push(end - 1).len() implies 0 <= #[trigger] prev.push(
                end - 1,
            )[k] < end by {
                if k < prev.len() {
                    assert(prev.push(end - 1)[k] == prev[k]);
                }
            }
        }
    }
}

impl RedirectGuard {
    /// Judges a request by its query string against the current token.
    pub fn from_query(query: Option<&str>, token: &str) -> (r: Result<RedirectGuard, GuardError>)
        ensures
            query is None ==> r == Err::<RedirectGuard, GuardError>(GuardError::BadRequest),
            query matches Some(q) ==> match single_value(q@) {
                None => r == Err::<RedirectGuard, GuardError>(GuardError::BadRequest),
                Some(v) => (v == token@ <==> r is Ok) && (v != token@ ==> r == Err::<
                    RedirectGuard,
                    GuardError,
                >(GuardError::Unauthorized)),
            },
    {
        let q = match query {
            None => {
                return Err(GuardError::BadRequest);
            },
            Some(q) => q,
        };
        let cs = chars_of(q);
        let mut count: usize = 0;
        let mut at: usize = 0;
        let mut i: usize = 0;
        while i < cs.len()
            invariant
                cs@ == q@,
                i <= cs@.len(),
                count == eq_indices(cs@, i as int).len(),
                count >= 1 ==> at == eq_indices(cs@, i as int)[0],
                count <= i,
            decreases cs@.len() - i,
        {
            if cs[i] == '=' {
                if count == 0 {
                    at = i;
                }
                count = count + 1;
            }
            i = i + 1;
        }
        if count != 1 {
            return Err(GuardError::BadRequest);
        }
        proof {
            lemma_eq_indices_bounded(cs@, cs@.len() as int);
        }
        let value = q.substring_char(at + 1, cs.len());
        if String::from_str(value) == String::from_str(token) {
            Ok(RedirectGuard)
        } else {
            Err(GuardError::Unauthorized)
        }
    }
}

/// A header name with its first character in upper case.
pub open spec fn capitalized(name: Seq<char>) -> Seq<char> {
    if name.len() == 0 {
        name
    } else {
        uppercase_of(name[0]) + name.drop_first()
    }
}

/// Capitalises response header names, and marks the response.
pub struct HeaderCapitalizer;

pub open spec fn header_views(h: Seq<(String, String)>) -> Seq<(Seq<char>, Seq<char>)> {
    h.map_values(|p: (String, String)| (p.0@, p.1@))
}

impl HeaderCapitalizer {
    /// The headers with each name capitalised, in order, and then the
    /// marker header `Test: Hello`.
    pub fn on_response(&self, headers: &Vec<(String, String)>) -> (r: Vec<(String, String)>)
        ensures
            header_views(r@) == header_views(headers@).map_values(
                |p: (Seq<char>, Seq<char>)| (capitalized(p.0), p.1),
            ).push(("Test"@, "Hello"@)),
    {
        let mut out: Vec<(String, String)> = Vec::new();
        let mut i: usize = 0;
        while i < headers.len()
            invariant
                i <= headers@.len(),
                header_views(out@) == header_views(headers@.subrange(0, i as int)).map_values(
                    |p: (Seq<char>, Seq<char>)| (capitalized(p.0), p.1),
                ),
            decreases headers@.len() - i,
        {
            let name = headers[i].0.as_str();
            let cs = chars_of(name);
            let new_name = if cs.len() == 0 {
                String::new()
            } else {
                uppercase_char(cs[0]).concat(name.substring_char(1, cs.len()))
            };
            assert(new_name@ == capitalized(headers@[i as int].0@)) by {
                if cs@.len() > 0 {
                    assert(name@.subrange(1, cs@.len() as int) =~= name@.drop_first());
                } else {
                    assert(name@ =~= Seq::<char>::empty());
                }
            }
            let ghost before = out@;
            out.push((new_name, headers[i].1.clone()));
            i = i + 1;
            proof {
                let f = |p: (Seq<char>, Seq<char>)| (capitalized(p.0), p.1);
                let pre = headers@.subrange(0, i - 1);
                assert(headers@.subrange(0, i as int) =~= pre.push(headers@[i - 1]));
                assert(header_views(pre.push(headers@[i - 1])) =~= header_views(pre).push(
                    (headers@[i - 1].0@, headers@[i - 1].1@),
                ));
                assert(header_views(pre).push((headers@[i - 1].0@, headers@[i - 1].1@)).map_values(f)
                    =~= header_views(pre).map_values(f).push(
                    f((headers@[i - 1].0@, headers@[i - 1].1@)),
                ));
                assert(header_views(out@) =~= header_views(before).push(
                    (new_name@, headers@[i - 1].1@),
                ));
            }
        }
        assert(headers@.subrange(0, i as int) =~= headers@);
        let ghost before = out@;
        out.push((String::from_str("Test"), String::from_str("Hello")));
        assert(header_views(out@) =~= header_views(before).push(("Test"@, "Hello"@)));
        out
    }
}

} // verus!
