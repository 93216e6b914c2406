//! The `fetch_url` tool: it fetches a web page over HTTP(S) for the model,
//! refusing hosts on loopback, private and other internal ranges (also
//! after DNS resolution and across redirects), capping the body size, and
//! summarising the readable text.
use vstd::prelude::*;
use crate::json::{json_entries, json_views, lemma_json_entries, lemma_json_views, Json, JsonValue};
use vstd::utf8::{decode_utf8, valid_utf8};
use crate::text::{
    ascii_lower, ascii_lower_chars, chars_of, collapse_ws, concat2, concat3, contains_chars,
    contains_seq, owned, sanitize_whitespace, str_eq, string_of, take_chars, take_chars_exec,
};
use crate::tools::html::{extract_html_text, html_readable_text};
use crate::tools::create_directory::{trimmed_arg, trimmed_arg_value};
use crate::tools::ip::{blocked_host, blocked_ip, ip_literal, is_blocked_host, is_blocked_ip, is_ip_literal, unbracket, IpAddress};
use crate::tools::types::{object_schema, object_schema_value, string_param, string_param_schema, ToolDef, ToolDefView};

verus! {

/// The most characters of readable text a summary keeps.
pub const MAX_SUMMARY_CHARS: usize = 2000;

/// The time limit of one request, in seconds.
pub const REQUEST_TIMEOUT_SECONDS: u64 = 10;

/// The largest response body accepted, in bytes.
pub const MAX_RESPONSE_BYTES: usize = 1048576;

/// The most redirects followed.
pub const MAX_REDIRECTS: usize = 5;

/// The tool that fetches a URL and summarises its text.
pub struct FetchUrlTool;

/// The definition of the `fetch_url` tool.
pub open spec fn fetch_url_def() -> ToolDefView {
    ToolDefView {
        id: "fetch_url"@,
        name: "fetch_url"@,
        description: "Fetch URL contents and return readable text summary"@,
        parameters: object_schema(
            seq![("url"@, string_param("Absolute URL to fetch via HTTP GET"@))],
            seq![Json::Str("url"@)],
        ),
    }
}

/// The URL a `fetch_url` call asks for: its trimmed `url` argument.
pub open spec fn fetch_url_arg(args: Json) -> Result<Seq<char>, Seq<char>> {
    let url = trimmed_arg(args, "url"@);
    if url.len() == 0 {
        Err("missing required argument: url"@)
    } else {
        Ok(url)
    }
}

impl FetchUrlTool {
    pub fn new() -> (r: FetchUrlTool) {
        FetchUrlTool
    }

    /// The tool's name, description and parameter schema.
    pub fn definition(&self) -> (r: ToolDef)
        ensures
            r@ == fetch_url_def(),
    {
        let mut props: Vec<(String, JsonValue)> = Vec::new();
        props.push((owned("url"), string_param_schema("Absolute URL to fetch via HTTP GET")));
        let mut required: Vec<JsonValue> = Vec::new();
        required.push(JsonValue::from_str("url"));
        proof {
            lemma_json_entries(props@);
            assert(json_entries(props@) =~= seq![("url"@, string_param("Absolute URL to fetch via HTTP GET"@))]);
            lemma_json_views(required@);
            assert(json_views(required@) =~= seq![Json::Str("url"@)]);
        }
        ToolDef {
            id: owned("fetch_url"),
            name: owned("fetch_url"),
            description: owned("Fetch URL contents and return readable text summary"),
            parameters: object_schema_value(props, required),
        }
    }

    /// The URL that a call with the arguments `args` asks to fetch.
    pub fn url_argument(args: &JsonValue) -> (r: Result<String, String>)
        ensures
            match r {
                Ok(u) => fetch_url_arg(args@) == Ok::<Seq<char>, Seq<char>>(u@),
                Err(e) => fetch_url_arg(args@) == Err::<Seq<char>, Seq<char>>(e@),
            },
    {
        let url = trimmed_arg_value(args, "url");
        if url.as_str().is_empty() {
            proof {
                assert(url@.len() == 0);
            }
            return Err(owned("missing required argument: url"));
        }
        Ok(url)
    }
}

/// The parts of a parsed URL that the fetch reads.
pub struct UrlParts {
    /// The URL's serialization.
    pub href: String,
    pub scheme: String,
    /// The host as written in the URL (an IPv6 literal keeps its brackets).
    pub host: Option<String>,
    /// The port, or the scheme's default one.
    pub port: Option<u16>,
}

/// The model of the parts of a URL.
pub struct UrlView {
    pub href: Seq<char>,
    pub scheme: Seq<char>,
    pub host: Option<Seq<char>>,
    pub port: Option<u16>,
}

/// The model of an optional string.
pub open spec fn opt_chars(o: Option<String>) -> Option<Seq<char>> {
    match o {
        Some(s) => Some(s@),
        None => None,
    }
}

impl View for UrlParts {
    type V = UrlView;

    open spec fn view(&self) -> UrlView {
        UrlView { href: self.href@, scheme: self.scheme@, host: opt_chars(self.host), port: self.port }
    }
}

/// What `reqwest::Url::parse` makes of `text`: the parts of the URL, or the
/// parse error's message.
pub uninterp spec fn url_parse(text: Seq<char>) -> Result<UrlView, Seq<char>>;

/// What `reqwest::Url::join` makes of `location` relative to the URL
/// serialized as `base`: the parts of the URL, or the error's message.
pub uninterp spec fn url_join(base: Seq<char>, location: Seq<char>) -> Result<UrlView, Seq<char>>;

/// The text of an HTTP status code as `reqwest::StatusCode` displays it.
pub uninterp spec fn http_status_text(code: u16) -> Seq<char>;

/// Parses `text` with `reqwest::Url::parse` and reads its serialization,
/// scheme, host text and port (or the scheme's default port).
#[verifier::external_body]
fn parse_url(text: &str) -> (r: Result<UrlParts, String>)
    ensures
        match r {
            Ok(u) => url_parse(text@) == Ok::<UrlView, Seq<char>>(u@),
            Err(e) => url_parse(text@) == Err::<UrlView, Seq<char>>(e@),
        },
{
    let u = reqwest::Url::parse(text).map_err(|e| e.to_string())?;
    Ok(UrlParts {
        href: u.as_str().to_string(),
        scheme: u.scheme().to_string(),
        host: u.host_str().map(|h| h.to_string()),
        port: u.port_or_known_default(),
    })
}

/// Resolves `location` against the URL serialized as `base` with
/// `reqwest::Url::join`, and reads the parts of the result.
#[verifier::external_body]
fn join_url(base: &str, location: &str) -> (r: Result<UrlParts, String>)
    ensures
        match r {
            Ok(u) => url_join(base@, location@) == Ok::<UrlView, Seq<char>>(u@),
            Err(e) => url_join(base@, location@) == Err::<UrlView, Seq<char>>(e@),
        },
{
    let base = reqwest::Url::parse(base).map_err(|e| e.to_string())?;
    let u = base.join(location).map_err(|e| e.to_string())?;
    Ok(UrlParts {
        href: u.as_str().to_string(),
        scheme: u.scheme().to_string(),
        host: u.host_str().map(|h| h.to_string()),
        port: u.port_or_known_default(),
    })
}

/// The display text of the status `code` (`reqwest::StatusCode`), defined
/// for the three-digit codes that `StatusCode::from_u16` accepts.
#[verifier::external_body]
fn status_text(code: u16) -> (r: String)
    requires
        100 <= code <= 999,
    ensures
        r@ == http_status_text(code),
{
    reqwest::StatusCode::from_u16(code).map(|s| s.to_string()).unwrap_or_default()
}

/// A resolved socket address.
#[derive(Clone, Copy, Debug, PartialEq, Eq)]
pub struct SocketAddress {
    pub ip: IpAddress,
    pub port: u16,
}

/// A host with the addresses it resolved to, all of them allowed; requests
/// to the host go to these addresses only.
pub struct ValidatedDnsTarget {
    pub host: String,
    pub addrs: Vec<SocketAddress>,
}

/// The model of a validated target: its host and the octets of its addresses.
pub struct TargetView {
    pub host: Seq<char>,
    pub addrs: Seq<SocketAddress>,
}

impl View for ValidatedDnsTarget {
    type V = TargetView;

    open spec fn view(&self) -> TargetView {
        TargetView { host: self.host@, addrs: self.addrs@ }
    }
}

/// How a URL's host is reached once its URL passed the checks.
pub enum TargetCheck {
    /// Send directly: private hosts are allowed, or the host is an allowed
    /// IP literal.
    Direct,
    /// The host name must be resolved first, on this port.
    Resolve { host: String, port: u16 },
}

/// The model of a target check.
pub enum TargetCheckView {
    Direct,
    Resolve { host: Seq<char>, port: u16 },
}

impl View for TargetCheck {
    type V = TargetCheckView;

    open spec fn view(&self) -> TargetCheckView {
        match self {
            TargetCheck::Direct => TargetCheckView::Direct,
            TargetCheck::Resolve { host, port } => TargetCheckView::Resolve { host: host@, port: *port },
        }
    }
}

/// The checks a URL passes before a request: an HTTP(S) scheme and, unless
/// private hosts are allowed, a host that is neither `localhost` nor a
/// blocked IP literal; a host name is then resolved.
pub open spec fn target_check(u: UrlView, allow_private_hosts: bool) -> Result<TargetCheckView, Seq<char>> {
    if u.scheme != "http"@ && u.scheme != "https"@ {
        Err("url scheme must be http or https"@)
    } else if allow_private_hosts {
        Ok(TargetCheckView::Direct)
    } else {
        match u.host {
            None => Err("url must include a valid host"@),
            Some(h) => if blocked_host(h) {
                Err("url host is not allowed"@)
            } else if ip_literal(unbracket(h)) is Some {
                Ok(TargetCheckView::Direct)
            } else {
                match u.port {
                    None => Err("url must include a valid host"@),
                    Some(p) => Ok(TargetCheckView::Resolve { host: h, port: p }),
                }
            },
        }
    }
}

/// Whether some address of `addrs` is in a blocked range.
pub open spec fn any_blocked(addrs: Seq<SocketAddress>) -> bool {
    exists|i: int| 0 <= i < addrs.len() && blocked_ip(#[trigger] addrs[i].ip@)
}

/// What the resolved addresses of `host` make of the target: an error when
/// there are none or one is blocked.
pub open spec fn resolved_check(host: Seq<char>, addrs: Seq<SocketAddress>) -> Result<TargetView, Seq<char>> {
    if addrs.len() == 0 {
        Err("failed to resolve host: no addresses found"@)
    } else if any_blocked(addrs) {
        Err("url host is not allowed"@)
    } else {
        Ok(TargetView { host, addrs })
    }
}

/// Checks a URL before a request (see `target_check`).
pub fn check_url_target(u: &UrlParts, allow_private_hosts: bool) -> (r: Result<TargetCheck, String>)
    ensures
        match r {
            Ok(t) => target_check(u@, allow_private_hosts) == Ok::<TargetCheckView, Seq<char>>(t@),
            Err(e) => target_check(u@, allow_private_hosts) == Err::<TargetCheckView, Seq<char>>(e@),
        },
{
    proof {
        reveal_strlit("http");
        reveal_strlit("https");
    }
    if !str_eq(u.scheme.as_str(), "http") && !str_eq(u.scheme.as_str(), "https") {
        return Err(owned("url scheme must be http or https"));
    }
    if allow_private_hosts {
        return Ok(TargetCheck::Direct);
    }
    let host = match &u.host {
        Some(h) => h,
        None => return Err(owned("url must include a valid host")),
    };
    if is_blocked_host(host.as_str()) {
        return Err(owned("url host is not allowed"));
    }
    if is_ip_literal(host.as_str()) {
        return Ok(TargetCheck::Direct);
    }
    match u.port {
        Some(p) => Ok(TargetCheck::Resolve { host: host.clone(), port: p }),
        None => Err(owned("url must include a valid host")),
    }
}

/// Accepts the addresses `host` resolved to, unless there are none or one
/// of them is blocked.
pub fn accept_resolved(host: String, addrs: Vec<SocketAddress>) -> (r: Result<ValidatedDnsTarget, String>)
    ensures
        match r {
            Ok(t) => resolved_check(host@, addrs@) == Ok::<TargetView, Seq<char>>(t@),
            Err(e) => resolved_check(host@, addrs@) == Err::<TargetView, Seq<char>>(e@),
        },
{
    if addrs.len() == 0 {
        return Err(owned("failed to resolve host: no addresses found"));
    }
    let mut i: usize = 0;
    while i < addrs.len()
        invariant
            i <= addrs@.len(),
            forall|k: int| 0 <= k < i ==> !blocked_ip(#[trigger] addrs@[k].ip@),
        decreases addrs@.len() - i,
    {
        if is_blocked_ip(addrs[i].ip) {
            return Err(owned("url host is not allowed"));
        }
        i = i + 1;
    }
    Ok(ValidatedDnsTarget { host, addrs })
}

/// Rejects a target without addresses, to which no request could be bound.
pub fn check_bound_target(target: &ValidatedDnsTarget) -> (r: Result<(), String>)
    ensures
        r is Ok <==> target@.addrs.len() > 0,
        r matches Err(e) ==> e@ == "failed to resolve host: no addresses found"@,
{
    if target.addrs.len() == 0 {
        return Err(owned("failed to resolve host: no addresses found"));
    }
    Ok(())
}

/// The error when every address of `host` failed: each address with its
/// error, separated by ` | `.
pub open spec fn all_addresses_failed_text(host: Seq<char>, errors: Seq<Seq<char>>) -> Seq<char> {
    "all resolved addresses failed for host "@ + host + ": "@ + crate::text::join_with(errors, " | "@)
}

/// The error after every address of `host` failed with `errors`.
pub fn all_addresses_failed(host: &str, errors: &Vec<String>) -> (r: String)
    ensures
        r@ == all_addresses_failed_text(host@, errors@.map_values(|e: String| e@)),
{
    let joined = crate::text::join_strings(errors, " | ");
    concat3(concat2("all resolved addresses failed for host ", host).as_str(), ": ", joined.as_str())
}

/// What comes after a response: follow a redirect to a URL, or read the
/// body.
pub enum ResponseStep {
    Follow(UrlParts),
    ReadBody,
}

/// The model of what comes after a response.
pub enum ResponseStepView {
    Follow(UrlView),
    ReadBody,
}

impl View for ResponseStep {
    type V = ResponseStepView;

    open spec fn view(&self) -> ResponseStepView {
        match self {
            ResponseStep::Follow(u) => ResponseStepView::Follow(u@),
            ResponseStep::ReadBody => ResponseStepView::ReadBody,
        }
    }
}

/// What a response with `status` and `location` (absent; present but not
/// UTF-8; or its text) leads to, after `redirects` redirects from the URL
/// serialized as `href`: a redirect (3xx) is followed at most
/// `MAX_REDIRECTS` times, resolved against the current URL; any other
/// status but 2xx is an error.
pub open spec fn response_step(
    redirects: nat,
    href: Seq<char>,
    status: u16,
    location: Option<Option<Seq<char>>>,
) -> Result<ResponseStepView, Seq<char>> {
    if 300 <= status <= 399 {
        if redirects >= 5 {
            Err("too many redirects (>5)"@)
        } else {
            match location {
                None => Err("redirect response missing Location header"@),
                Some(None) => Err("redirect Location header is not valid UTF-8"@),
                Some(Some(l)) => match url_join(href, l) {
                    Err(e) => Err("invalid redirect location: "@ + e),
                    Ok(u) => Ok(ResponseStepView::Follow(u)),
                },
            }
        }
    } else if !(200 <= status <= 299) {
        Err("request failed with HTTP status "@ + http_status_text(status))
    } else {
        Ok(ResponseStepView::ReadBody)
    }
}

/// Decides what a response leads to (see `response_step`).
pub fn next_after_response(
    redirects: usize,
    href: &str,
    status: u16,
    location: &Option<Option<String>>,
) -> (r: Result<ResponseStep, String>)
    requires
        100 <= status <= 999,
    ensures
        match r {
            Ok(s) => response_step(redirects as nat, href@, status, opt_opt_chars(*location))
                == Ok::<ResponseStepView, Seq<char>>(s@),
            Err(e) => response_step(redirects as nat, href@, status, opt_opt_chars(*location))
                == Err::<ResponseStepView, Seq<char>>(e@),
        },
{
    if 300 <= status && status <= 399 {
        if redirects >= MAX_REDIRECTS {
            return Err(owned("too many redirects (>5)"));
        }
        match location {
            None => Err(owned("redirect response missing Location header")),
            Some(None) => Err(owned("redirect Location header is not valid UTF-8")),
            Some(Some(l)) => match join_url(href, l.as_str()) {
                Err(e) => Err(concat2("invalid redirect location: ", e.as_str())),
                Ok(u) => Ok(ResponseStep::Follow(u)),
            },
        }
    } else if !(200 <= status && status <= 299) {
        let t = status_text(status);
        Err(concat2("request failed with HTTP status ", t.as_str()))
    } else {
        Ok(ResponseStep::ReadBody)
    }
}

/// The model of an optional header value that may not be text.
pub open spec fn opt_opt_chars(o: Option<Option<String>>) -> Option<Option<Seq<char>>> {
    match o {
        None => None,
        Some(None) => Some(None),
        Some(Some(s)) => Some(Some(s@)),
    }
}

/// Whether a `Content-Type` value marks HTML (`text/html` in any ASCII case).
pub open spec fn html_content(content_type: Option<Seq<char>>) -> bool {
    match content_type {
        Some(v) => contains_seq(ascii_lower(v), "text/html"@),
        None => false,
    }
}

/// Whether the `Content-Type` value `content_type` marks HTML.
pub fn is_html_content(content_type: &Option<String>) -> (r: bool)
    ensures
        r == html_content(opt_chars(*content_type)),
{
    match content_type {
        Some(v) => {
            let c = chars_of(v.as_str());
            let lower = ascii_lower_chars(c.as_slice());
            let needle = chars_of("text/html");
            contains_chars(lower.as_slice(), needle.as_slice())
        },
        None => false,
    }
}

/// The error for a body over the size limit.
pub open spec fn body_too_large() -> Seq<char> {
    "response body exceeds maximum allowed size of 1048576 bytes"@
}

/// Rejects a response whose announced length is over the limit.
pub fn check_content_length(len: Option<u64>) -> (r: Result<(), String>)
    ensures
        r is Ok <==> (len is None || len->0 <= MAX_RESPONSE_BYTES),
        r matches Err(e) ==> e@ == body_too_large(),
{
    match len {
        Some(n) => if n > 1048576 {
            Err(owned("response body exceeds maximum allowed size of 1048576 bytes"))
        } else {
            Ok(())
        },
        None => Ok(()),
    }
}

/// Appends a received chunk to the body, unless the body would go over the
/// limit; then the body stays as it was.
pub fn append_body_chunk(body: &mut Vec<u8>, chunk: &[u8]) -> (r: Result<(), String>)
    ensures
        old(body)@.len() + chunk@.len() <= MAX_RESPONSE_BYTES ==> r is Ok && final(body)@ == old(body)@
            + chunk@,
        old(body)@.len() + chunk@.len() > MAX_RESPONSE_BYTES ==> (r matches Err(e) && e@ == body_too_large())
            && final(body)@ == old(body)@,
{
    if chunk.len() > MAX_RESPONSE_BYTES || body.len() > MAX_RESPONSE_BYTES - chunk.len() {
        return Err(owned("response body exceeds maximum allowed size of 1048576 bytes"));
    }
    let ghost b0 = body@;
    let mut i: usize = 0;
    while i < chunk.len()
        invariant
            i <= chunk@.len(),
            body@ == b0 + chunk@.take(i as int),
        decreases chunk@.len() - i,
    {
        body.push(chunk[i]);
        i = i + 1;
        assert(body@ =~= b0 + chunk@.take(i as int));
    }
    assert(chunk@.take(i as int) =~= chunk@);
    Ok(())
}

/// The text `String::from_utf8_lossy` makes of `bytes` (each invalid
/// sequence replaced by U+FFFD).
pub uninterp spec fn utf8_lossy(bytes: Seq<u8>) -> Seq<char>;

/// Decodes the body `bytes` with `String::from_utf8_lossy`; valid UTF-8
/// decodes exactly.
#[verifier::external_body]
pub(crate) fn body_text(bytes: &[u8]) -> (r: String)
    ensures
        r@ == utf8_lossy(bytes@),
        valid_utf8(bytes@) ==> r@ == decode_utf8(bytes@),
{
    String::from_utf8_lossy(bytes).into_owned()
}

/// The reply of the tool for a fetched body: its readable text (HTML by its
/// body's text, else the whole text), whitespace collapsed, cut to
/// `MAX_SUMMARY_CHARS` characters.
pub open spec fn fetch_summary(body: Seq<char>, is_html: bool) -> Result<Seq<char>, Seq<char>> {
    let readable = if is_html {
        html_readable_text(body)
    } else {
        Ok(collapse_ws(body))
    };
    match readable {
        Err(e) => Err(e),
        Ok(t) => Ok("Fetched URL content summary: "@ + take_chars(t, 2000)),
    }
}

/// The first `max_chars` characters of `input`.
pub fn truncate_chars(input: &str, max_chars: usize) -> (r: String)
    ensures
        r@ == take_chars(input@, max_chars as nat),
{
    let c = chars_of(input);
    let cut = take_chars_exec(c.as_slice(), max_chars);
    string_of(cut.as_slice())
}

/// Summarises a fetched body (see `fetch_summary`).
pub fn summarize_body(body: &str, is_html: bool) -> (r: Result<String, String>)
    ensures
        match r {
            Ok(s) => fetch_summary(body@, is_html) == Ok::<Seq<char>, Seq<char>>(s@),
            Err(e) => fetch_summary(body@, is_html) == Err::<Seq<char>, Seq<char>>(e@),
        },
{
    let readable = if is_html {
        match extract_html_text(body) {
            Ok(t) => t,
            Err(e) => return Err(e),
        }
    } else {
        sanitize_whitespace(body)
    };
    let summary = truncate_chars(readable.as_str(), MAX_SUMMARY_CHARS);
    Ok(concat2("Fetched URL content summary: ", summary.as_str()))
}

/// The status line and headers of a response that the fetch reads.
pub struct HttpHead {
    pub status: u16,
    /// The `Location` header: absent, present but not text, or its text.
    pub location: Option<Option<String>>,
    /// The `Content-Type` header as text, if present and text.
    pub content_type: Option<String>,
}

/// The model of a response head.
pub struct HeadView {
    pub status: u16,
    pub location: Option<Option<Seq<char>>>,
    pub content_type: Option<Seq<char>>,
}

impl View for HttpHead {
    type V = HeadView;

    open spec fn view(&self) -> HeadView {
        HeadView {
            status: self.status,
            location: opt_opt_chars(self.location),
            content_type: opt_chars(self.content_type),
        }
    }
}

/// What the outside world reports back to a fetch.
pub enum FetchEvent {
    /// The addresses the host resolved to, or the resolver's error.
    Resolved(Result<Vec<SocketAddress>, String>),
    /// The response's head, or the error of the request.
    Sent(Result<HttpHead, String>),
    /// The body's bytes, or the error of reading them.
    BodyRead(Result<Vec<u8>, String>),
}

/// The model of an event.
pub enum FetchEventView {
    Resolved(Result<Seq<SocketAddress>, Seq<char>>),
    Sent(Result<HeadView, Seq<char>>),
    BodyRead(Result<Seq<u8>, Seq<char>>),
}

impl View for FetchEvent {
    type V = FetchEventView;

    open spec fn view(&self) -> FetchEventView {
        match self {
            FetchEvent::Resolved(Ok(a)) => FetchEventView::Resolved(Ok(a@)),
            FetchEvent::Resolved(Err(e)) => FetchEventView::Resolved(Err(e@)),
            FetchEvent::Sent(Ok(h)) => FetchEventView::Sent(Ok(h@)),
            FetchEvent::Sent(Err(e)) => FetchEventView::Sent(Err(e@)),
            FetchEvent::BodyRead(Ok(b)) => FetchEventView::BodyRead(Ok(b@)),
            FetchEvent::BodyRead(Err(e)) => FetchEventView::BodyRead(Err(e@)),
        }
    }
}

/// What a fetch asks the outside world to do next.
pub enum FetchAction {
    /// Resolve `host` (for `port`) and report the addresses.
    Resolve { host: String, port: u16 },
    /// Send a GET request for `url`, to the addresses of `target` only when
    /// there is one; report the response head.
    Send { url: UrlParts, target: Option<ValidatedDnsTarget> },
    /// Read the body (within `MAX_RESPONSE_BYTES`) and report its bytes.
    ReadBody,
    /// The fetch is over, with the tool's reply or error.
    Finish(Result<String, String>),
}

/// The model of an action.
pub enum FetchActionView {
    Resolve { host: Seq<char>, port: u16 },
    Send { url: UrlView, target: Option<TargetView> },
    ReadBody,
    Finish(Result<Seq<char>, Seq<char>>),
}

impl View for FetchAction {
    type V = FetchActionView;

    open spec fn view(&self) -> FetchActionView {
        match self {
            FetchAction::Resolve { host, port } => FetchActionView::Resolve { host: host@, port: *port },
            FetchAction::Send { url, target } => FetchActionView::Send {
                url: url@,
                target: match target {
                    Some(t) => Some(t@),
                    None => None,
                },
            },
            FetchAction::ReadBody => FetchActionView::ReadBody,
            FetchAction::Finish(Ok(s)) => FetchActionView::Finish(Ok(s@)),
            FetchAction::Finish(Err(e)) => FetchActionView::Finish(Err(e@)),
        }
    }
}

/// Where a fetch stands.
pub enum FetchPhase {
    /// Waiting for the addresses of `host`.
    Resolving { host: String },
    /// Waiting for a response.
    Sending,
    /// Waiting for the body of a response that is HTML or not.
    Reading { is_html: bool },
    /// Over.
    Done,
}

/// The model of a phase.
pub enum FetchPhaseView {
    Resolving { host: Seq<char> },
    Sending,
    Reading { is_html: bool },
    Done,
}

impl View for FetchPhase {
    type V = FetchPhaseView;

    open spec fn view(&self) -> FetchPhaseView {
        match self {
            FetchPhase::Resolving { host } => FetchPhaseView::Resolving { host: host@ },
            FetchPhase::Sending => FetchPhaseView::Sending,
            FetchPhase::Reading { is_html } => FetchPhaseView::Reading { is_html: *is_html },
            FetchPhase::Done => FetchPhaseView::Done,
        }
    }
}

/// A fetch in progress: the current URL, the redirects followed so far,
/// whether private hosts are allowed, and the phase.
pub struct FetchRun {
    pub url: UrlParts,
    pub redirects: usize,
    pub allow_private_hosts: bool,
    pub phase: FetchPhase,
}

/// The model of a fetch in progress.
pub struct FetchRunView {
    pub url: UrlView,
    pub redirects: nat,
    pub allow_private_hosts: bool,
    pub phase: FetchPhaseView,
}

impl View for FetchRun {
    type V = FetchRunView;

    open spec fn view(&self) -> FetchRunView {
        FetchRunView {
            url: self.url@,
            redirects: self.redirects as nat,
            allow_private_hosts: self.allow_private_hosts,
            phase: self.phase@,
        }
    }
}

/// The URL parts held before any URL was parsed.
pub open spec fn no_url() -> UrlView {
    UrlView { href: Seq::empty(), scheme: Seq::empty(), host: None, port: None }
}

/// A fetch that goes to `url` after `redirects` redirects: its checks, then
/// a resolution of its host name or a request.
pub open spec fn enter_url(url: UrlView, redirects: nat, allow: bool) -> (FetchRunView, FetchActionView) {
    let run = |p: FetchPhaseView| FetchRunView { url, redirects, allow_private_hosts: allow, phase: p };
    match target_check(url, allow) {
        Err(e) => (run(FetchPhaseView::Done), FetchActionView::Finish(Err(e))),
        Ok(TargetCheckView::Direct) => (run(FetchPhaseView::Sending), FetchActionView::Send { url, target: None }),
        Ok(TargetCheckView::Resolve { host, port }) => (
            run(FetchPhaseView::Resolving { host }),
            FetchActionView::Resolve { host, port },
        ),
    }
}

/// The start of a fetch of `raw_url`: an unparsable URL ends it.
pub open spec fn fetch_begin(raw_url: Seq<char>, allow: bool) -> (FetchRunView, FetchActionView) {
    match url_parse(raw_url) {
        Err(e) => (
            FetchRunView { url: no_url(), redirects: 0, allow_private_hosts: allow, phase: FetchPhaseView::Done },
            FetchActionView::Finish(Err("invalid url: "@ + e)),
        ),
        Ok(u) => enter_url(u, 0, allow),
    }
}

/// Whether `ev` is the report that the phase of `st` waits for (with a
/// status that `reqwest::StatusCode` can hold).
pub open spec fn event_expected(st: FetchRunView, ev: FetchEventView) -> bool {
    match (st.phase, ev) {
        (FetchPhaseView::Resolving { .. }, FetchEventView::Resolved(_)) => true,
        (FetchPhaseView::Sending, FetchEventView::Sent(Ok(h))) => 100 <= h.status <= 999,
        (FetchPhaseView::Sending, FetchEventView::Sent(Err(_))) => true,
        (FetchPhaseView::Reading { .. }, FetchEventView::BodyRead(_)) => true,
        _ => false,
    }
}

/// The next state and action of the fetch `st` on the expected event `ev`.
pub open spec fn fetch_step(st: FetchRunView, ev: FetchEventView) -> (FetchRunView, FetchActionView) {
    let done = FetchRunView { phase: FetchPhaseView::Done, ..st };
    match ev {
        FetchEventView::Resolved(Err(e)) => (done, FetchActionView::Finish(Err(e))),
        FetchEventView::Resolved(Ok(addrs)) => {
            let host = match st.phase {
                FetchPhaseView::Resolving { host } => host,
                _ => Seq::empty(),
            };
            match resolved_check(host, addrs) {
                Err(e) => (done, FetchActionView::Finish(Err(e))),
                Ok(t) => (
                    FetchRunView { phase: FetchPhaseView::Sending, ..st },
                    FetchActionView::Send { url: st.url, target: Some(t) },
                ),
            }
        },
        FetchEventView::Sent(Err(e)) => (done, FetchActionView::Finish(Err(e))),
        FetchEventView::Sent(Ok(h)) => match response_step(st.redirects, st.url.href, h.status, h.location) {
            Err(e) => (done, FetchActionView::Finish(Err(e))),
            Ok(ResponseStepView::Follow(u)) => enter_url(u, st.redirects + 1, st.allow_private_hosts),
            Ok(ResponseStepView::ReadBody) => (
                FetchRunView { phase: FetchPhaseView::Reading { is_html: html_content(h.content_type) }, ..st },
                FetchActionView::ReadBody,
            ),
        },
        FetchEventView::BodyRead(Err(e)) => (done, FetchActionView::Finish(Err(e))),
        FetchEventView::BodyRead(Ok(b)) => {
            let is_html = match st.phase {
                FetchPhaseView::Reading { is_html } => is_html,
                _ => false,
            };
            (done, FetchActionView::Finish(fetch_summary(utf8_lossy(b), is_html)))
        },
    }
}

/// Whether a fetch state is consistent: at most `MAX_REDIRECTS` redirects
/// followed, and a host is resolved only after its URL passed the checks.
pub open spec fn fetch_wf(st: FetchRunView) -> bool {
    &&& st.redirects <= 5
    &&& st.phase matches FetchPhaseView::Resolving { host } ==> target_check(
        st.url,
        st.allow_private_hosts,
    ) matches Ok(TargetCheckView::Resolve { host: h, .. }) && h == host
    &&& st.phase is Sending ==> target_check(st.url, st.allow_private_hosts) is Ok
}

/// Whether a request may go where the action `a` sends it: with private
/// hosts refused, only to an HTTP(S) URL whose host is neither `localhost`
/// nor a blocked address, and, for a host name, only to resolved addresses
/// none of which is blocked.
pub open spec fn request_allowed(allow: bool, a: FetchActionView) -> bool {
    match a {
        FetchActionView::Send { url, target } => {
            &&& (url.scheme == "http"@ || url.scheme == "https"@)
            &&& !allow ==> {
                &&& url.host matches Some(h)
                &&& !blocked_host(url.host->0)
                &&& match target {
                    None => ip_literal(unbracket(url.host->0)) is Some,
                    Some(t) => t.addrs.len() > 0 && !any_blocked(t.addrs),
                }
            }
        },
        _ => true,
    }
}

/// Entering a URL keeps a fetch consistent and sends no request that is not
/// allowed.
pub proof fn lemma_enter_url_safe(url: UrlView, redirects: nat, allow: bool)
    requires
        redirects <= 5,
    ensures
        fetch_wf(enter_url(url, redirects, allow).0),
        request_allowed(allow, enter_url(url, redirects, allow).1),
        enter_url(url, redirects, allow).0.allow_private_hosts == allow,
{
}

/// Every step of a consistent fetch keeps it consistent and sends no
/// request to a host or address that is refused: no request reaches
/// loopback, private or internal addresses, also after DNS resolution and
/// across redirects.
pub proof fn lemma_fetch_step_safe(st: FetchRunView, ev: FetchEventView)
    requires
        fetch_wf(st),
        event_expected(st, ev),
    ensures
        fetch_wf(fetch_step(st, ev).0),
        request_allowed(st.allow_private_hosts, fetch_step(st, ev).1),
        fetch_step(st, ev).0.allow_private_hosts == st.allow_private_hosts,
{
    match ev {
        FetchEventView::Sent(Ok(h)) => {
            match response_step(st.redirects, st.url.href, h.status, h.location) {
                Ok(ResponseStepView::Follow(u)) => {
                    lemma_enter_url_safe(u, st.redirects + 1, st.allow_private_hosts);
                },
                _ => {},
            }
        },
        _ => {},
    }
}

/// A fetch never follows more than `MAX_REDIRECTS` redirects.
pub proof fn lemma_fetch_redirects_bounded(st: FetchRunView, ev: FetchEventView)
    requires
        fetch_wf(st),
        event_expected(st, ev),
    ensures
        fetch_step(st, ev).0.redirects <= 5,
{
    lemma_fetch_step_safe(st, ev);
}

/// A copy of the URL parts `u`.
pub fn copy_url(u: &UrlParts) -> (r: UrlParts)
    ensures
        r@ == u@,
{
    UrlParts {
        href: owned(u.href.as_str()),
        scheme: owned(u.scheme.as_str()),
        host: match &u.host {
            Some(h) => Some(owned(h.as_str())),
            None => None,
        },
        port: u.port,
    }
}

impl FetchRun {
    /// The state after entering `url` (see `enter_url`).
    fn enter(url: UrlParts, redirects: usize, allow: bool) -> (r: (FetchRun, FetchAction))
        requires
            redirects <= 5,
        ensures
            (r.0@, r.1@) == enter_url(url@, redirects as nat, allow),
    {
        let check = check_url_target(&url, allow);
        match check {
            Err(e) => (
                FetchRun { url, redirects, allow_private_hosts: allow, phase: FetchPhase::Done },
                FetchAction::Finish(Err(e)),
            ),
            Ok(TargetCheck::Direct) => {
                let sent = copy_url(&url);
                (
                    FetchRun { url, redirects, allow_private_hosts: allow, phase: FetchPhase::Sending },
                    FetchAction::Send { url: sent, target: None },
                )
            },
            Ok(TargetCheck::Resolve { host, port }) => {
                let h = owned(host.as_str());
                (
                    FetchRun { url, redirects, allow_private_hosts: allow, phase: FetchPhase::Resolving { host: h } },
                    FetchAction::Resolve { host, port },
                )
            },
        }
    }

    /// Starts a fetch of `raw_url`; `allow_private_hosts` lifts the host
    /// checks (for local testing).
    pub fn begin(raw_url: &str, allow_private_hosts: bool) -> (r: (FetchRun, FetchAction))
        ensures
            (r.0@, r.1@) == fetch_begin(raw_url@, allow_private_hosts),
            fetch_wf(r.0@),
            request_allowed(allow_private_hosts, r.1@),
            r.0@.allow_private_hosts == allow_private_hosts,
    {
        match parse_url(raw_url) {
            Err(e) => {
                proof {
                    reveal_strlit("");
                }
                let href = owned("");
                let scheme = owned("");
                assert(href@ =~= Seq::<char>::empty());
                assert(scheme@ =~= Seq::<char>::empty());
                let run = FetchRun {
                    url: UrlParts { href, scheme, host: None, port: None },
                    redirects: 0,
                    allow_private_hosts,
                    phase: FetchPhase::Done,
                };
                assert(run@.url == no_url());
                (run, FetchAction::Finish(Err(concat2("invalid url: ", e.as_str()))))
            },
            Ok(u) => {
                proof {
                    lemma_enter_url_safe(u@, 0, allow_private_hosts);
                }
                FetchRun::enter(u, 0, allow_private_hosts)
            },
        }
    }

    /// Whether `ev` is the report this fetch waits for.
    pub fn expects(&self, ev: &FetchEvent) -> (r: bool)
        ensures
            r == event_expected(self@, ev@),
    {
        match (&self.phase, ev) {
            (FetchPhase::Resolving { .. }, FetchEvent::Resolved(_)) => true,
            (FetchPhase::Sending, FetchEvent::Sent(Ok(h))) => 100 <= h.status && h.status <= 999,
            (FetchPhase::Sending, FetchEvent::Sent(Err(_))) => true,
            (FetchPhase::Reading { .. }, FetchEvent::BodyRead(_)) => true,
            _ => false,
        }
    }

    /// Takes the report `ev` and decides the next action (see `fetch_step`).
    pub fn on_event(&mut self, ev: FetchEvent) -> (a: FetchAction)
        requires
            fetch_wf(old(self)@),
            event_expected(old(self)@, ev@),
        ensures
            (final(self)@, a@) == fetch_step(old(self)@, ev@),
            fetch_wf(final(self)@),
            request_allowed(old(self)@.allow_private_hosts, a@),
    {
        proof {
            lemma_fetch_step_safe(self@, ev@);
        }
        match ev {
            FetchEvent::Resolved(Err(e)) => {
                self.phase = FetchPhase::Done;
                FetchAction::Finish(Err(e))
            },
            FetchEvent::Resolved(Ok(addrs)) => {
                let host = match &self.phase {
                    FetchPhase::Resolving { host } => owned(host.as_str()),
                    _ => {
                        proof {
                            reveal_strlit("");
                        }
                        owned("")
                    },
                };
                match accept_resolved(host, addrs) {
                    Err(e) => {
                        self.phase = FetchPhase::Done;
                        FetchAction::Finish(Err(e))
                    },
                    Ok(t) => {
                        self.phase = FetchPhase::Sending;
                        FetchAction::Send { url: copy_url(&self.url), target: Some(t) }
                    },
                }
            },
            FetchEvent::Sent(Err(e)) => {
                self.phase = FetchPhase::Done;
                FetchAction::Finish(Err(e))
            },
            FetchEvent::Sent(Ok(h)) => {
                match next_after_response(self.redirects, self.url.href.as_str(), h.status, &h.location) {
                    Err(e) => {
                        self.phase = FetchPhase::Done;
                        FetchAction::Finish(Err(e))
                    },
                    Ok(ResponseStep::Follow(u)) => {
                        let (run, a) = FetchRun::enter(u, self.redirects + 1, self.allow_private_hosts);
                        *self = run;
                        a
                    },
                    Ok(ResponseStep::ReadBody) => {
                        let is_html = is_html_content(&h.content_type);
                        self.phase = FetchPhase::Reading { is_html };
                        FetchAction::ReadBody
                    },
                }
            },
            FetchEvent::BodyRead(Err(e)) => {
                self.phase = FetchPhase::Done;
                FetchAction::Finish(Err(e))
            },
            FetchEvent::BodyRead(Ok(b)) => {
                let is_html = match self.phase {
                    FetchPhase::Reading { is_html } => is_html,
                    _ => false,
                };
                self.phase = FetchPhase::Done;
                let text = body_text(b.as_slice());
                FetchAction::Finish(summarize_body(text.as_str(), is_html))
            },
        }
    }
}


/// Every redirect is followed while fewer than `MAX_REDIRECTS` were
/// followed: a response with any status from 300 to 399 whose `Location`
/// joins onto the current URL leads to that joined URL, whatever the
/// particular redirect status (301, 302, 303, 307, 308, ...). A success status
/// (200 to 299) leads to reading the body; any other status is an error.
pub proof fn lemma_redirects_followed(
    redirects: nat,
    href: Seq<char>,
    status: u16,
    location: Option<Option<Seq<char>>>,
)
    ensures
        300 <= status <= 399 && redirects < MAX_REDIRECTS && location is Some && location->Some_0 is Some
            && url_join(href, location->Some_0->Some_0) is Ok ==> response_step(redirects, href, status, location) == Ok::<ResponseStepView, Seq<char>>(
            ResponseStepView::Follow(url_join(href, location->Some_0->Some_0)->Ok_0),
        ),
        300 <= status <= 399 && redirects >= MAX_REDIRECTS ==> response_step(redirects, href, status, location) is Err,
        200 <= status <= 299 ==> response_step(redirects, href, status, location) == Ok::<ResponseStepView, Seq<char>>(
            ResponseStepView::ReadBody,
        ),
        !(200 <= status <= 399) ==> response_step(redirects, href, status, location) is Err,
{
}

} // verus!
