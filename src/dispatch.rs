//! The decisions of the three operations: what to fetch, and what to answer
//! once the transport has answered.
use vstd::prelude::*;
use crate::classify::{is_crate_page_url, is_docsrs_crate_page};
use crate::page::{
    first_region, parse_docsrs_page_structured, region_content, region_selectors,
    DocsrsPageStructured,
};
use crate::search::{
    parse_crate_search_results, records_model, records_of, release_entries_of, CrateSearchResult,
    RecordModel,
};
use crate::text::{chars_of, push_all, string_of};

verus! {

/// What an operation hands back: a success payload or an error message.
#[derive(Debug, Clone, PartialEq, Eq)]
pub enum ToolOutcome {
    Success(String),
    Error(String),
}

pub enum OutcomeModel {
    Success(Seq<char>),
    Error(Seq<char>),
}

impl ToolOutcome {
    pub open spec fn model(&self) -> OutcomeModel {
        match self {
            ToolOutcome::Success(s) => OutcomeModel::Success(s@),
            ToolOutcome::Error(s) => OutcomeModel::Error(s@),
        }
    }
}

/// Why the transport could not hand over a body, with its own message.
#[derive(Debug, Clone, PartialEq, Eq)]
pub enum TransportFailure {
    /// The request could not be completed.
    Request(String),
    /// The response body could not be read or decoded.
    Body(String),
}

/// What the next step of a page-structure request is.
#[derive(Debug, Clone, PartialEq, Eq)]
pub enum DocsrsStep {
    /// Fetch this URL and hand the answer to `fetch_docsrs_outcome`.
    Fetch(String),
    /// Answer at once, without any network call.
    Reply(ToolOutcome),
}

/// The origin that search-result links are relative to.
pub open spec fn docs_origin() -> Seq<char> {
    "https://docs.rs"@
}

pub open spec fn search_endpoint() -> Seq<char> {
    "https://docs.rs/releases/search?query="@
}

pub open spec fn body_failure_prefix() -> Seq<char> {
    "Failed to read response body: "@
}

pub open spec fn fetch_failure_prefix() -> Seq<char> {
    "Failed to fetch the web page: "@
}

pub open spec fn search_failure_prefix() -> Seq<char> {
    "Failed to search crates: "@
}

pub open spec fn docsrs_failure_prefix() -> Seq<char> {
    "Failed to fetch the docs.rs page: "@
}

pub open spec fn rejection_message() -> Seq<char> {
    "Not a recognized docs.rs crate page URL. The URL must be of the form https://docs.rs/cratename/version/cratename/"@
}

/// The outcome for a transport answer: the body on success, and on failure
/// the failure's message after `request_prefix` or the body-read prefix.
pub open spec fn transport_outcome(
    resp: Result<String, TransportFailure>,
    success: Seq<char>,
    request_prefix: Seq<char>,
) -> OutcomeModel {
    match resp {
        Ok(_) => OutcomeModel::Success(success),
        Err(TransportFailure::Request(e)) => OutcomeModel::Error(request_prefix + e@),
        Err(TransportFailure::Body(e)) => OutcomeModel::Error(body_failure_prefix() + e@),
    }
}

/// The characters not percent-encoded: ASCII letters and digits, `-`, `.`, `_`, `~`.
pub open spec fn is_unreserved(c: char) -> bool {
    ('0' <= c && c <= '9') || ('A' <= c && c <= 'Z') || ('a' <= c && c <= 'z') || c == '-'
        || c == '.' || c == '_' || c == '~'
}

/// Percent-encoding of the UTF-8 bytes of `s`.
pub uninterp spec fn percent_encoded(s: Seq<char>) -> Seq<char>;

/// Relies on `urlencoding::encode`: percent-encodes every byte but the
/// unreserved ones, so a string of unreserved characters comes back as it is.
#[verifier::external_body]
fn url_encode(s: &str) -> (r: String)
    ensures
        r@ == percent_encoded(s@),
        (forall|i: int| 0 <= i < s@.len() ==> is_unreserved(#[trigger] s@[i])) ==> r@ == s@,
{
    urlencoding::encode(s).into_owned()
}

/// A hexadecimal digit in lower case.
pub open spec fn hex_digit(n: int) -> char {
    if n < 10 {
        ('0' as int + n) as char
    } else {
        ('a' as int + n - 10) as char
    }
}

/// How one character stands inside a JSON string literal: quote and
/// backslash behind a backslash, the five control characters with a short
/// escape by it, other control characters as `\u00XX`, and all else as it is.
pub open spec fn json_escape(c: char) -> Seq<char> {
    if c == '"' {
        seq!['\\', '"']
    } else if c == '\\' {
        seq!['\\', '\\']
    } else if c == '\u{8}' {
        seq!['\\', 'b']
    } else if c == '\t' {
        seq!['\\', 't']
    } else if c == '\n' {
        seq!['\\', 'n']
    } else if c == '\u{c}' {
        seq!['\\', 'f']
    } else if c == '\r' {
        seq!['\\', 'r']
    } else if (c as int) < 0x20 {
        seq!['\\', 'u', '0', '0', hex_digit(c as int / 16), hex_digit(c as int % 16)]
    } else {
        seq![c]
    }
}

/// The escaped characters of `s`, one after another.
pub open spec fn json_escaped(s: Seq<char>) -> Seq<char>
    decreases s.len(),
{
    if s.len() == 0 {
        Seq::<char>::empty()
    } else {
        json_escaped(s.drop_last()) + json_escape(s.last())
    }
}

/// The JSON string literal of `s`.
pub open spec fn json_quoted(s: Seq<char>) -> Seq<char> {
    seq!['"'] + json_escaped(s) + seq!['"']
}

/// Relies on `serde_json::to_string` on a `str`: the string between double
/// quotes, escaped by the table of `format_escaped_str_contents`. Writing
/// into the in-memory buffer cannot fail, so no error comes back.
#[verifier::external_body]
fn json_string(s: &str) -> (r: String)
    ensures
        r@ == json_quoted(s@),
{
    serde_json::to_string(s).expect("a str always serializes")
}

/// A record as a JSON object with fields in the order name, version,
/// description, url.
pub open spec fn record_json(r: RecordModel) -> Seq<char> {
    "{\"name\":"@ + json_quoted(r.0) + ",\"version\":"@ + json_quoted(r.1) + ",\"description\":"@
        + json_quoted(r.2) + ",\"url\":"@ + json_quoted(r.3) + "}"@
}

/// The records' objects separated by commas.
pub open spec fn records_json_items(rs: Seq<RecordModel>) -> Seq<char>
    decreases rs.len(),
{
    if rs.len() == 0 {
        Seq::<char>::empty()
    } else if rs.len() == 1 {
        record_json(rs.last())
    } else {
        records_json_items(rs.drop_last()) + ","@ + record_json(rs.last())
    }
}

/// The records as a JSON array.
pub open spec fn records_json(rs: Seq<RecordModel>) -> Seq<char> {
    "["@ + records_json_items(rs) + "]"@
}

/// A document as a JSON object with its one `content` field.
pub open spec fn document_json(content: Seq<char>) -> Seq<char> {
    "{\"content\":"@ + json_quoted(content) + "}"@
}

fn append_str(out: &mut Vec<char>, s: &str)
    ensures
        final(out)@ == old(out)@ + s@,
{
    let c = chars_of(s);
    push_all(out, &c);
}

fn record_to_json(r: &CrateSearchResult) -> (j: Vec<char>)
    ensures
        j@ == record_json(r.model()),
{
    let n = json_string(r.name.as_str());
    let v = json_string(r.version.as_str());
    let d = json_string(r.description.as_str());
    let u = json_string(r.url.as_str());
    let mut out: Vec<char> = Vec::new();
    append_str(&mut out, "{\"name\":");
    append_str(&mut out, n.as_str());
    append_str(&mut out, ",\"version\":");
    append_str(&mut out, v.as_str());
    append_str(&mut out, ",\"description\":");
    append_str(&mut out, d.as_str());
    append_str(&mut out, ",\"url\":");
    append_str(&mut out, u.as_str());
    append_str(&mut out, "}");
    assert(out@ =~= "{\"name\":"@ + n@ + ",\"version\":"@ + v@ + ",\"description\":"@
        + d@ + ",\"url\":"@ + u@ + "}"@);
    out
}

/// The search results as a JSON array of objects, in order.
pub fn search_results_json(results: &Vec<CrateSearchResult>) -> (r: String)
    ensures
        r@ == records_json(records_model(results@)),
{
    let mut items: Vec<char> = Vec::new();
    let mut i: usize = 0;
    while i < results.len()
        invariant
            i <= results@.len(),
            records_json_items(records_model(results@.subrange(0, i as int))) == items@,
        decreases results@.len() - i,
    {
        let ghost pre = records_model(results@.subrange(0, i + 1));
        assert(pre.drop_last() =~= records_model(results@.subrange(0, i as int)));
        assert(pre.last() == results@[i as int].model());
        let obj = record_to_json(&results[i]);
        let ghost prev = items@;
        if i > 0 {
            items.push(',');
        }
        push_all(&mut items, &obj);
        proof {
            reveal_strlit(",");
            if i == 0 {
                assert(items@ =~= obj@);
            } else {
                assert(items@ =~= prev + ","@ + obj@);
            }
        }
        i = i + 1;
    }
    assert(results@.subrange(0, results@.len() as int) =~= results@);
    let mut out: Vec<char> = Vec::new();
    append_str(&mut out, "[");
    push_all(&mut out, &items);
    append_str(&mut out, "]");
    string_of(&out)
}

/// The document as a JSON object with its one `content` field.
pub fn document_json_text(doc: &DocsrsPageStructured) -> (r: String)
    ensures
        r@ == document_json(doc.content@),
{
    let c = json_string(doc.content.as_str());
    let mut out: Vec<char> = Vec::new();
    append_str(&mut out, "{\"content\":");
    append_str(&mut out, c.as_str());
    append_str(&mut out, "}");
    string_of(&out)
}

fn failure_message(prefix: &str, e: &String) -> (r: String)
    ensures
        r@ == prefix@ + e@,
{
    let mut out = chars_of(prefix);
    append_str(&mut out, e.as_str());
    string_of(&out)
}

fn outcome_of(resp: &Result<String, TransportFailure>, success: String, request_prefix: &str) -> (r:
    ToolOutcome)
    ensures
        r.model() == transport_outcome(*resp, success@, request_prefix@),
{
    match resp {
        Ok(_) => ToolOutcome::Success(success),
        Err(TransportFailure::Request(e)) => ToolOutcome::Error(failure_message(request_prefix, e)),
        Err(TransportFailure::Body(e)) => ToolOutcome::Error(
            failure_message("Failed to read response body: ", e),
        ),
    }
}

/// The answer of a plain fetch: the body unchanged, or the transport's failure.
pub fn fetch_outcome(resp: &Result<String, TransportFailure>) -> (r: ToolOutcome)
    ensures
        r.model() == transport_outcome(
            *resp,
            match resp {
                Ok(body) => body@,
                Err(_) => Seq::<char>::empty(),
            },
            fetch_failure_prefix(),
        ),
{
    let body = match resp {
        Ok(body) => body.clone(),
        Err(_) => String::new(),
    };
    outcome_of(resp, body, "Failed to fetch the web page: ")
}

/// The URL of the search-results page for `query`.
pub fn search_url(query: &str) -> (r: String)
    ensures
        r@ == search_endpoint() + percent_encoded(query@),
{
    let encoded = url_encode(query);
    let mut out = chars_of("https://docs.rs/releases/search?query=");
    append_str(&mut out, encoded.as_str());
    string_of(&out)
}

/// The answer of a crate search: the records that the fetched page holds as
/// a JSON array, or the transport's failure.
pub fn search_crate_outcome(resp: &Result<String, TransportFailure>) -> (r: ToolOutcome)
    ensures
        r.model() == transport_outcome(
            *resp,
            match resp {
                Ok(body) => records_json(
                    records_of(
                        release_entries_of(
                            body@,
                            "a.release"@,
                            "href"@,
                            "div.name"@,
                            "div.description"@,
                        ),
                        docs_origin(),
                    ),
                ),
                Err(_) => Seq::<char>::empty(),
            },
            search_failure_prefix(),
        ),
{
    let json = match resp {
        Ok(body) => {
            let results = parse_crate_search_results(body.as_str(), "https://docs.rs");
            search_results_json(&results)
        },
        Err(_) => String::new(),
    };
    outcome_of(resp, json, "Failed to search crates: ")
}

/// The first step of a page-structure request: a URL that is not a
/// documentation-crate landing page is rejected at once; any other is fetched.
pub fn fetch_docsrs_step(url: &str) -> (r: DocsrsStep)
    ensures
        match r {
            DocsrsStep::Fetch(u) => is_crate_page_url(url@) && u@ == url@,
            DocsrsStep::Reply(o) => !is_crate_page_url(url@) && o.model() == OutcomeModel::Error(
                rejection_message(),
            ),
        },
{
    if is_docsrs_crate_page(url) {
        DocsrsStep::Fetch(String::from_str(url))
    } else {
        DocsrsStep::Reply(
            ToolOutcome::Error(
                String::from_str(
                    "Not a recognized docs.rs crate page URL. The URL must be of the form https://docs.rs/cratename/version/cratename/",
                ),
            ),
        )
    }
}

/// The answer of a page-structure request once the page was fetched: its
/// structured document as a JSON object, or the transport's failure.
pub fn fetch_docsrs_outcome(resp: &Result<String, TransportFailure>) -> (r: ToolOutcome)
    ensures
        r.model() == transport_outcome(
            *resp,
            match resp {
                Ok(body) => document_json(region_content(first_region(body@, region_selectors()))),
                Err(_) => Seq::<char>::empty(),
            },
            docsrs_failure_prefix(),
        ),
{
    let json = match resp {
        Ok(body) => {
            let doc = parse_docsrs_page_structured(body.as_str());
            document_json_text(&doc)
        },
        Err(_) => String::new(),
    };
    outcome_of(resp, json, "Failed to fetch the docs.rs page: ")
}

} // verus!
