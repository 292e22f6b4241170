//! The checks that grade the HTTP client assignment.
use vstd::prelude::*;
use crate::contract::Validator;
use crate::process::{memcheck_log_spec, output_log_spec, memcheck_log_name, output_log_name, views_of, ProcessOutput};
use crate::search::{
    ascii_bytes, ascii_of, chars_of, contains_bytes, contains_chars, count_chars, count_from,
    decimal, decimal_bytes, find_bytes, first_occurrence, last_before, last_index_before,
    occurs_in,
};

verus! {

broadcast use vstd::string::group_string_axioms;

/// What `String::from_utf8_lossy` makes of some bytes.
pub uninterp spec fn lossy_text(b: Seq<u8>) -> Seq<char>;

/// What `str::to_lowercase` makes of some text.
pub uninterp spec fn lowercase_text(s: Seq<char>) -> Seq<char>;

/// Relies on `String::from_utf8_lossy`: the bytes read as UTF-8, each invalid
/// sequence replaced by U+FFFD; the result depends on the bytes alone.
#[verifier::external_body]
fn decode_lossy(b: &[u8]) -> (r: String)
    ensures
        r@ == lossy_text(b@),
{
    String::from_utf8_lossy(b).into_owned()
}

/// Relies on `str::to_lowercase`: the Unicode lower case of the text; the
/// result depends on the text alone.
#[verifier::external_body]
fn lowercase(s: &str) -> (r: String)
    ensures
        r@ == lowercase_text(s@),
{
    s.to_lowercase()
}

/// A run's output as the text checks read it: standard output then standard
/// error, decoded leniently and in lower case.
pub open spec fn lowered(o: &ProcessOutput) -> Seq<char> {
    lowercase_text(lossy_text(o.stdout@ + o.stderr@))
}

/// The run's output as the text checks read it.
pub fn lowered_output(result: &ProcessOutput) -> (r: Vec<char>)
    ensures
        r@ == lowered(result),
{
    let all = result.combined();
    let text = decode_lossy(all.as_slice());
    let low = lowercase(text.as_str());
    chars_of(low.as_str())
}

/// Whether every one of `parts` stands in `text`.
pub fn parts_present(text: &[char], parts: &Vec<Vec<char>>) -> (r: bool)
    ensures
        r == forall|k: int| 0 <= k < parts@.len() ==> occurs_in(text@, #[trigger] parts@[k]@),
{
    let mut k: usize = 0;
    while k < parts.len()
        invariant
            k <= parts@.len(),
            forall|j: int| 0 <= j < k ==> occurs_in(text@, #[trigger] parts@[j]@),
        decreases parts@.len() - k,
    {
        if !contains_chars(text, parts[k].as_slice()) {
            return false;
        }
        k = k + 1;
    }
    true
}

/// Whether the run's output holds each of `req_parts`, both in lower case.
pub fn request_structure_verifier(req_parts: Vec<&str>, output: ProcessOutput) -> (r: bool)
    ensures
        r == forall|k: int|
            0 <= k < req_parts@.len() ==> occurs_in(lowered(&output), lowercase_text(#[trigger] req_parts@[k]@)),
{
    let text = lowered_output(&output);
    let mut parts: Vec<Vec<char>> = Vec::new();
    let mut k: usize = 0;
    while k < req_parts.len()
        invariant
            k <= req_parts@.len(),
            parts@.len() == k,
            forall|j: int| 0 <= j < k ==> #[trigger] parts@[j]@ == lowercase_text(req_parts@[j]@),
        decreases req_parts@.len() - k,
    {
        let low = lowercase(req_parts[k]);
        parts.push(chars_of(low.as_str()));
        k = k + 1;
    }
    let r = parts_present(text.as_slice(), &parts);
    assert forall|k: int| 0 <= k < req_parts@.len() implies (occurs_in(lowered(&output), lowercase_text(#[trigger] req_parts@[k]@))
        == occurs_in(text@, parts@[k]@)) by {
        assert(parts@[k]@ == lowercase_text(req_parts@[k]@));
    }
    r
}

/// The subject printed its usage line.
pub struct Usage;

/// The subject printed a well-formed request for the site's root.
pub struct HttpRequestStructure;

/// The subject printed a well-formed request with a query string.
pub struct HttpRequestStructureWithParams;

/// The subject printed the body that a live request for the same resource
/// returns, as text.
pub struct ResponseContainsText;

/// The subject printed the body that a live request for the same resource
/// returns, as an image.
pub struct ResponseContainsImage;

/// The subject followed a chain of relative redirects as many times as its
/// last argument says.
pub struct RelativeRedirectTimes;

/// The subject followed an absolute redirect and printed its headers.
pub struct AbsoluteRedirect;

/// The subject printed its request's length and the size of the response
/// it received.
pub struct LifeCycle;

/// Valgrind found no error in the redirect and life-cycle cases.
pub struct Valgrind;

impl Usage {
    pub fn check(&self, result: &ProcessOutput) -> (r: bool)
        ensures
            r == occurs_in(lowered(result), "usage: client"@),
    {
        let text = lowered_output(result);
        let needle = chars_of("usage: client");
        contains_chars(text.as_slice(), needle.as_slice())
    }
}

impl Validator for Usage {
    fn validate(
        &self,
        _args: &Vec<String>,
        _comm_out: Option<Vec<u8>>,
        result: ProcessOutput,
        _cwd: &std::path::PathBuf,
    ) -> (r: bool)
        ensures
            r == occurs_in(lowered(&result), "usage: client"@),
    {
        self.check(&result)
    }
}

impl HttpRequestStructure {
    pub fn check(&self, result: ProcessOutput) -> (r: bool)
        ensures
            r == (occurs_in(lowered(&result), lowercase_text("GET / HTTP/1.1\r\n"@))
                && occurs_in(lowered(&result), lowercase_text("Host: httpbin.org\r\n"@))
                && occurs_in(lowered(&result), lowercase_text("Connection: close\r\n"@))),
    {
        let expected = vec!["GET / HTTP/1.1\r\n", "Host: httpbin.org\r\n", "Connection: close\r\n"];
        let r = request_structure_verifier(expected, result);
        assert(r == (occurs_in(lowered(&result), lowercase_text(expected@[0]@))
            && occurs_in(lowered(&result), lowercase_text(expected@[1]@))
            && occurs_in(lowered(&result), lowercase_text(expected@[2]@))));
        r
    }
}

impl Validator for HttpRequestStructure {
    fn validate(
        &self,
        _args: &Vec<String>,
        _comm_out: Option<Vec<u8>>,
        result: ProcessOutput,
        _cwd: &std::path::PathBuf,
    ) -> (r: bool)
        ensures
            r == (occurs_in(lowered(&result), lowercase_text("GET / HTTP/1.1\r\n"@))
                && occurs_in(lowered(&result), lowercase_text("Host: httpbin.org\r\n"@))
                && occurs_in(lowered(&result), lowercase_text("Connection: close\r\n"@))),
    {
        self.check(result)
    }
}

impl HttpRequestStructureWithParams {
    pub fn check(&self, result: ProcessOutput) -> (r: bool)
        ensures
            r == (occurs_in(
                lowered(&result),
                lowercase_text("GET /search?country=israel HTTP/1.1\r\n"@),
            ) && occurs_in(lowered(&result), lowercase_text("Host: universities.hipolabs.com"@))
                && occurs_in(lowered(&result), lowercase_text("Connection: close\r\n"@))),
    {
        let expected = vec![
            "GET /search?country=israel HTTP/1.1\r\n",
            "Host: universities.hipolabs.com",
            "Connection: close\r\n",
        ];
        let r = request_structure_verifier(expected, result);
        assert(r == (occurs_in(lowered(&result), lowercase_text(expected@[0]@))
            && occurs_in(lowered(&result), lowercase_text(expected@[1]@))
            && occurs_in(lowered(&result), lowercase_text(expected@[2]@))));
        r
    }
}

impl Validator for HttpRequestStructureWithParams {
    fn validate(
        &self,
        _args: &Vec<String>,
        _comm_out: Option<Vec<u8>>,
        result: ProcessOutput,
        _cwd: &std::path::PathBuf,
    ) -> (r: bool)
        ensures
            r == (occurs_in(
                lowered(&result),
                lowercase_text("GET /search?country=israel HTTP/1.1\r\n"@),
            ) && occurs_in(lowered(&result), lowercase_text("Host: universities.hipolabs.com"@))
                && occurs_in(lowered(&result), lowercase_text("Connection: close\r\n"@))),
    {
        self.check(result)
    }
}

/// Whether the run's output, standard output then standard error, holds
/// `body` byte for byte.
pub fn response_verifier(body: &[u8], output: &ProcessOutput) -> (r: bool)
    ensures
        r == occurs_in(output.stdout@ + output.stderr@, body@),
{
    let all = output.combined();
    contains_bytes(all.as_slice(), body)
}

impl ResponseContainsText {
    /// The resource whose live body the output must hold.
    pub fn url(&self) -> (r: String)
        ensures
            r@ == "http://universities.hipolabs.com/search?country=israel"@,
    {
        String::from_str("http://universities.hipolabs.com/search?country=israel")
    }

    /// Judges the run against the body that the live request returned.
    pub fn check(&self, body: &[u8], result: &ProcessOutput) -> (r: bool)
        ensures
            r == occurs_in(result.stdout@ + result.stderr@, body@),
    {
        response_verifier(body, result)
    }
}

impl ResponseContainsImage {
    /// The resource whose live body the output must hold.
    pub fn url(&self) -> (r: String)
        ensures
            r@ == "http://localhost:8080/resources/meow.png"@,
    {
        String::from_str("http://localhost:8080/resources/meow.png")
    }

    /// Judges the run against the body that the live request returned.
    pub fn check(&self, body: &[u8], result: &ProcessOutput) -> (r: bool)
        ensures
            r == occurs_in(result.stdout@ + result.stderr@, body@),
    {
        response_verifier(body, result)
    }
}

/// The number of redirects a case asks for: the digit that ends its last
/// argument.
pub open spec fn redirect_times(args: Seq<Seq<char>>) -> Option<nat> {
    if args.len() == 0 || args.last().len() == 0 {
        None
    } else {
        let c = args.last().last();
        if '0' <= c && c <= '9' {
            Some((c as u32 - '0' as u32) as nat)
        } else {
            None
        }
    }
}

/// Whether `text` shows exactly `times` permanent redirects, each with an
/// empty body, and then a successful response.
pub open spec fn redirects_followed(text: Seq<char>, times: nat) -> bool {
    &&& count_from(text, "http/1.1 308 permanent redirect"@, 0) == times
    &&& count_from(text, "content-length: 0"@, 0) == times
    &&& occurs_in(text, "200 ok"@)
}

/// Whether the lowered output `text` shows `times` redirects followed.
pub fn redirects_seen(text: &[char], times: usize) -> (r: bool)
    ensures
        r == redirects_followed(text@, times as nat),
{
    proof {
        reveal_strlit("http/1.1 308 permanent redirect");
        reveal_strlit("content-length: 0");
    }
    let moved = chars_of("http/1.1 308 permanent redirect");
    if count_chars(text, moved.as_slice()) != times {
        return false;
    }
    let empty = chars_of("content-length: 0");
    if count_chars(text, empty.as_slice()) != times {
        return false;
    }
    let ok = chars_of("200 ok");
    contains_chars(text, ok.as_slice())
}

impl RelativeRedirectTimes {
    pub fn check(&self, args: &Vec<String>, result: &ProcessOutput) -> (r: bool)
        ensures
            r == match redirect_times(views_of(args@)) {
                Some(n) => redirects_followed(lowered(result), n),
                None => false,
            },
    {
        if args.len() == 0 {
            return false;
        }
        let last = chars_of(args[args.len() - 1].as_str());
        assert(views_of(args@).last() == last@);
        if last.len() == 0 {
            return false;
        }
        let c = last[last.len() - 1];
        if !('0' <= c && c <= '9') {
            return false;
        }
        let times = (c as u32 - '0' as u32) as usize;
        let text = lowered_output(result);
        redirects_seen(text.as_slice(), times)
    }
}

impl Validator for RelativeRedirectTimes {
    fn validate(
        &self,
        args: &Vec<String>,
        _comm_out: Option<Vec<u8>>,
        result: ProcessOutput,
        _cwd: &std::path::PathBuf,
    ) -> (r: bool)
        ensures
            r == match redirect_times(views_of(args@)) {
                Some(n) => redirects_followed(lowered(&result), n),
                None => false,
            },
    {
        self.check(args, &result)
    }
}

/// The lines an absolute redirect's response must show, in lower case.
pub open spec fn absolute_redirect_headers() -> Seq<Seq<char>> {
    seq![
        "http/1.1 308 permanent redirect"@,
        "location: http://www.pdf995.com/why.html"@,
        "server: netcom-ex2"@,
        "cache-control: no-store"@,
        "date:"@,
        "connection: close"@,
        "content-length: 0"@,
    ]
}

impl AbsoluteRedirect {
    pub fn check(&self, result: &ProcessOutput) -> (r: bool)
        ensures
            r == ((forall|k: int|
                0 <= k < absolute_redirect_headers().len() ==> occurs_in(
                    lowered(result),
                    #[trigger] absolute_redirect_headers()[k],
                )) && occurs_in(lowered(result), "200 ok"@)),
    {
        let text = lowered_output(result);
        let mut headers: Vec<Vec<char>> = Vec::new();
        headers.push(chars_of("http/1.1 308 permanent redirect"));
        headers.push(chars_of("location: http://www.pdf995.com/why.html"));
        headers.push(chars_of("server: netcom-ex2"));
        headers.push(chars_of("cache-control: no-store"));
        headers.push(chars_of("date:"));
        headers.push(chars_of("connection: close"));
        headers.push(chars_of("content-length: 0"));
        assert(headers@.map_values(|h: Vec<char>| h@) =~= absolute_redirect_headers());
        let all = parts_present(text.as_slice(), &headers);
        assert(all == forall|k: int|
            0 <= k < absolute_redirect_headers().len() ==> occurs_in(
                lowered(result),
                #[trigger] absolute_redirect_headers()[k],
            )) by {
            assert(forall|k: int| 0 <= k < headers@.len() ==> #[trigger] headers@[k]@ == absolute_redirect_headers()[k]) by {
                assert forall|k: int| 0 <= k < headers@.len() implies #[trigger] headers@[k]@ == absolute_redirect_headers()[k] by {
                    assert(headers@.map_values(|h: Vec<char>| h@)[k] == headers@[k]@);
                }
            }
        }
        if !all {
            return false;
        }
        let ok = chars_of("200 ok");
        contains_chars(text.as_slice(), ok.as_slice())
    }
}

impl Validator for AbsoluteRedirect {
    fn validate(
        &self,
        _args: &Vec<String>,
        _comm_out: Option<Vec<u8>>,
        result: ProcessOutput,
        _cwd: &std::path::PathBuf,
    ) -> (r: bool)
        ensures
            r == ((forall|k: int|
                0 <= k < absolute_redirect_headers().len() ==> occurs_in(
                    lowered(&result),
                    #[trigger] absolute_redirect_headers()[k],
                )) && occurs_in(lowered(&result), "200 ok"@)),
    {
        self.check(&result)
    }
}

/// The life-cycle check on a run's standard output `s`: the request it
/// printed runs from the first "GET /" to the end of the first blank line,
/// and "LEN = <its length>" must stand in the output; the response runs from
/// the first "HTTP/1.1 200 OK" to the line break before the first "Total
/// received response bytes", must be at least 3000 bytes long, and its
/// length, give or take one, must be printed as "bytes: <length>".
pub open spec fn life_cycle_holds(s: Seq<u8>) -> bool {
    match (
        first_occurrence(s, ascii_of("GET /"@)),
        first_occurrence(s, ascii_of("\r\n\r\n"@)),
    ) {
        (Some(start), Some(end)) => {
            let request_len = end + 4 - start;
            &&& request_len >= 0
            &&& occurs_in(s, ascii_of("LEN = "@) + decimal(request_len as nat))
            &&& match (
                first_occurrence(s, ascii_of("HTTP/1.1 200 OK"@)),
                first_occurrence(s, ascii_of("Total received response bytes"@)),
            ) {
                (Some(response), Some(summary)) => match last_before(s, 10u8, summary) {
                    Some(line_end) => {
                        let n = line_end - response;
                        &&& n >= 3000
                        &&& (occurs_in(s, ascii_of("bytes: "@) + decimal(n as nat)) || occurs_in(
                            s,
                            ascii_of("bytes: "@) + decimal((n - 1) as nat),
                        ) || occurs_in(s, ascii_of("bytes: "@) + decimal((n + 1) as nat)))
                    },
                    None => false,
                },
                _ => false,
            }
        },
        _ => false,
    }
}

/// `prefix` followed by the decimal digits of `n`.
fn labelled(prefix: &str, n: u64) -> (r: Vec<u8>)
    ensures
        r@ == ascii_of(prefix@) + decimal(n as nat),
{
    let mut v = ascii_bytes(prefix);
    let mut d = decimal_bytes(n);
    v.append(&mut d);
    v
}

impl LifeCycle {
    pub fn check(&self, stdout: &[u8]) -> (r: bool)
        ensures
            r == life_cycle_holds(stdout@),
    {
        proof {
            reveal_strlit("\r\n\r\n");
        }
        let len = stdout.len();
        let get = ascii_bytes("GET /");
        let start = match find_bytes(stdout, get.as_slice()) {
            Some(i) => i,
            None => {
                return false;
            },
        };
        let blank = ascii_bytes("\r\n\r\n");
        let end = match find_bytes(stdout, blank.as_slice()) {
            Some(i) => i,
            None => {
                return false;
            },
        };
        proof {
            crate::search::lemma_first_occurrence(stdout@, blank@);
            assert(blank@.len() == 4);
            assert(end + 4 <= len);
        }
        let end = end + 4;
        if end < start {
            return false;
        }
        let request_len = end - start;
        let printed = labelled("LEN = ", request_len as u64);
        if !contains_bytes(stdout, printed.as_slice()) {
            return false;
        }
        let status = ascii_bytes("HTTP/1.1 200 OK");
        let response = match find_bytes(stdout, status.as_slice()) {
            Some(i) => i,
            None => {
                return false;
            },
        };
        let total = ascii_bytes("Total received response bytes");
        let summary = match find_bytes(stdout, total.as_slice()) {
            Some(i) => i,
            None => {
                return false;
            },
        };
        proof {
            crate::search::lemma_first_occurrence(stdout@, total@);
        }
        let line_end = match last_index_before(stdout, 10u8, summary) {
            Some(i) => i,
            None => {
                return false;
            },
        };
        if line_end < response {
            return false;
        }
        let n = line_end - response;
        if n < 3000 {
            return false;
        }
        assert(line_end < len);
        let exact = labelled("bytes: ", n as u64);
        let under = labelled("bytes: ", (n - 1) as u64);
        let over = labelled("bytes: ", (n + 1) as u64);
        contains_bytes(stdout, exact.as_slice()) || contains_bytes(stdout, under.as_slice())
            || contains_bytes(stdout, over.as_slice())
    }
}

impl Validator for LifeCycle {
    fn validate(
        &self,
        _args: &Vec<String>,
        _comm_out: Option<Vec<u8>>,
        result: ProcessOutput,
        _cwd: &std::path::PathBuf,
    ) -> (r: bool)
        ensures
            r == life_cycle_holds(result.stdout@),
    {
        self.check(result.stdout.as_slice())
    }
}

/// Whether a Valgrind report says it found no error.
pub fn check_valgrind_leaks(log_contents: &str) -> (r: bool)
    ensures
        r == occurs_in(log_contents@, "ERROR SUMMARY: 0 errors from 0 contexts"@),
{
    let text = chars_of(log_contents);
    let marker = chars_of("ERROR SUMMARY: 0 errors from 0 contexts");
    contains_chars(text.as_slice(), marker.as_slice())
}

/// The cases whose Valgrind reports the `Valgrind` check reads.
pub open spec fn checked_reports() -> Seq<Seq<char>> {
    seq![
        memcheck_log_spec("Life Cycle"@),
        memcheck_log_spec("Absolute Redirect"@),
        memcheck_log_spec("Relative Redirect N Times"@),
    ]
}

impl Valgrind {
    /// The Valgrind reports to read from the working directory.
    pub fn reports(&self) -> (r: Vec<String>)
        ensures
            views_of(r@) == checked_reports(),
    {
        let mut v: Vec<String> = Vec::new();
        v.push(memcheck_log_name("Life Cycle"));
        v.push(memcheck_log_name("Absolute Redirect"));
        v.push(memcheck_log_name("Relative Redirect N Times"));
        assert(views_of(v@) =~= checked_reports());
        v
    }

    /// The life-cycle case's output log, whose size is checked.
    pub fn output_log(&self) -> (r: String)
        ensures
            r@ == output_log_spec("Life Cycle"@),
    {
        output_log_name("Life Cycle")
    }

    /// Judges the reports' contents and the size in bytes of the life-cycle
    /// case's output log.
    pub fn check(&self, output_log_len: u64, reports: &Vec<String>) -> (r: bool)
        ensures
            r == ((forall|k: int|
                0 <= k < reports@.len() ==> occurs_in(
                    #[trigger] reports@[k]@,
                    "ERROR SUMMARY: 0 errors from 0 contexts"@,
                )) && output_log_len >= 20000),
    {
        let mut k: usize = 0;
        while k < reports.len()
            invariant
                k <= reports@.len(),
                forall|j: int|
                    0 <= j < k ==> occurs_in(
                        #[trigger] reports@[j]@,
                        "ERROR SUMMARY: 0 errors from 0 contexts"@,
                    ),
            decreases reports@.len() - k,
        {
            if !check_valgrind_leaks(reports[k].as_str()) {
                return false;
            }
            k = k + 1;
        }
        output_log_len >= 20000
    }
}

/// A case run twice is judged alike when the subject behaves alike: each
/// check of this library decides from the run's output and command line
/// alone, so two runs with the same output get the same verdict.
pub proof fn lemma_same_output_same_verdict(args: Seq<Seq<char>>, a: ProcessOutput, b: ProcessOutput)
    requires
        a.stdout@ == b.stdout@,
        a.stderr@ == b.stderr@,
    ensures
        lowered(&a) == lowered(&b),
        life_cycle_holds(a.stdout@) == life_cycle_holds(b.stdout@),
        occurs_in(lowered(&a), "usage: client"@) == occurs_in(lowered(&b), "usage: client"@),
        (match redirect_times(args) {
            Some(n) => redirects_followed(lowered(&a), n),
            None => false,
        }) == (match redirect_times(args) {
            Some(n) => redirects_followed(lowered(&b), n),
            None => false,
        }),
{
}

} // verus!
