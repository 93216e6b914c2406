//! The `web_search` tool: a DuckDuckGo search whose results are shown to the
//! model as a few numbered lines.
use vstd::prelude::*;
use crate::json::{json_entries, json_views, lemma_json_entries, lemma_json_views, Json, JsonValue};
use crate::text::{
    chars_of, collapse_ws, decimal, decimal_chars, join_strings, join_with, owned,
    push_chars, push_str, sanitize_whitespace, string_of, sub_chars,
};
use crate::tools::create_directory::{trimmed_arg, trimmed_arg_value};
use crate::tools::html::{scraped_elements, select_elements, ScrapedView};
use crate::tools::types::{object_schema, object_schema_value, string_param, string_param_schema, ToolDef, ToolDefView};

verus! {

/// The most results shown.
pub const MAX_RESULTS: usize = 5;

/// The characters per result line when the caller names none.
pub const DEFAULT_SNIPPET_CHARS: usize = 150;

/// The time a whole search may take, in milliseconds.
pub const DEFAULT_TIMEOUT_MS: u64 = 15000;

/// The time the HTML search request may take, in milliseconds.
pub const HTML_REQUEST_TIMEOUT_MS: u64 = 8000;

/// The endpoint of DuckDuckGo's HTML search.
pub const FALLBACK_DDG_HTML_ENDPOINT: &'static str = "https://html.duckduckgo.com/html/";

/// The user agent sent with the HTML search request.
pub const FALLBACK_USER_AGENT: &'static str = "mini-agent/0.1 (+https://github.com/miaoray/mini-agent)";

/// One search result.
#[derive(Debug, PartialEq, Eq)]
pub struct SearchResult {
    pub title: String,
    pub snippet: String,
    pub url: String,
}

/// The model of a search result.
pub struct SearchResultView {
    pub title: Seq<char>,
    pub snippet: Seq<char>,
    pub url: Seq<char>,
}

impl View for SearchResult {
    type V = SearchResultView;

    open spec fn view(&self) -> SearchResultView {
        SearchResultView { title: self.title@, snippet: self.snippet@, url: self.url@ }
    }
}

impl SearchResult {
    /// A copy of this result.
    pub fn duplicate(&self) -> (r: SearchResult)
        ensures
            r@ == self@,
    {
        SearchResult {
            title: owned(self.title.as_str()),
            snippet: owned(self.snippet.as_str()),
            url: owned(self.url.as_str()),
        }
    }
}

/// The models of the results `v`.
pub open spec fn result_views(v: Seq<SearchResult>) -> Seq<SearchResultView> {
    v.map_values(|r: SearchResult| r@)
}

/// `s` cut to `max` characters, the last three of them `...` when it was
/// cut (only dots when `max` is three or less).
pub open spec fn truncated(s: Seq<char>, max: nat) -> Seq<char> {
    if max == 0 {
        Seq::empty()
    } else if s.len() <= max {
        s
    } else if max <= 3 {
        Seq::new(max, |i: int| '.')
    } else {
        s.take(max - 3) + "..."@
    }
}

/// The line for the result `r` at position `i` (from zero), within `m`
/// characters where the snippet allows: `N. title - snippet (url)`, each
/// part with its whitespace collapsed.
pub open spec fn result_line(i: nat, r: SearchResultView, m: nat) -> Seq<char> {
    let prefix = decimal(i + 1) + ". "@ + collapse_ws(r.title) + " - "@;
    let suffix = " ("@ + collapse_ws(r.url) + ")"@;
    let used = prefix.len() + suffix.len();
    let avail: nat = if m >= used {
        (m - used) as nat
    } else {
        0
    };
    prefix + truncated(collapse_ws(r.snippet), avail) + suffix
}

/// The lines for the first `MAX_RESULTS` results of `rs`.
pub open spec fn result_lines(rs: Seq<SearchResultView>, m: nat) -> Seq<Seq<char>> {
    let n = if rs.len() < 5 {
        rs.len()
    } else {
        5
    };
    Seq::new(n, |i: int| result_line(i as nat, rs[i], m))
}

/// The text shown for the results `rs` with `max_per_result` characters per
/// line (at least 40): one line per result, at most `MAX_RESULTS` lines.
pub open spec fn formatted_results(rs: Seq<SearchResultView>, max_per_result: nat) -> Seq<char> {
    if rs.len() == 0 {
        "No results found."@
    } else {
        let m: nat = if max_per_result < 40 {
            40
        } else {
            max_per_result
        };
        join_with(result_lines(rs, m), "\n"@)
    }
}

/// A cut text never exceeds its limit.
pub proof fn lemma_truncated_len(s: Seq<char>, max: nat)
    ensures
        truncated(s, max).len() <= max,
        s.len() <= max ==> truncated(s, max) == s,
{
    reveal_strlit("...");
    if max > 3 && s.len() > max {
        assert((s.take(max - 3) + "..."@).len() == max);
    }
}

/// The search results shown are at most `MAX_RESULTS` lines, and a line
/// stays within the width whenever its number, title and URL leave room
/// for the snippet.
pub proof fn lemma_result_lines_bounded(rs: Seq<SearchResultView>, m: nat)
    ensures
        result_lines(rs, m).len() <= 5,
        forall|i: int|
            0 <= i < result_lines(rs, m).len() ==> {
                let r = rs[i];
                let used = (decimal((i + 1) as nat) + ". "@ + collapse_ws(r.title) + " - "@).len() + (" ("@
                    + collapse_ws(r.url) + ")"@).len();
                used <= m ==> #[trigger] result_lines(rs, m)[i].len() <= m
            },
{
    assert forall|i: int| 0 <= i < result_lines(rs, m).len() implies {
        let r = rs[i];
        let used = (decimal((i + 1) as nat) + ". "@ + collapse_ws(r.title) + " - "@).len() + (" ("@
            + collapse_ws(r.url) + ")"@).len();
        used <= m ==> #[trigger] result_lines(rs, m)[i].len() <= m
    } by {
        let r = rs[i];
        let prefix = decimal((i + 1) as nat) + ". "@ + collapse_ws(r.title) + " - "@;
        let suffix = " ("@ + collapse_ws(r.url) + ")"@;
        let used = prefix.len() + suffix.len();
        if used <= m {
            lemma_truncated_len(collapse_ws(r.snippet), (m - used) as nat);
        }
    }
}

/// `input` cut to `max_chars` characters with an ellipsis (see `truncated`).
pub fn truncate_with_ellipsis(input: &str, max_chars: usize) -> (r: String)
    ensures
        r@ == truncated(input@, max_chars as nat),
{
    if max_chars == 0 {
        proof {
            reveal_strlit("");
        }
        return owned("");
    }
    let c = chars_of(input);
    if c.len() <= max_chars {
        return owned(input);
    }
    if max_chars <= 3 {
        let mut dots: Vec<char> = Vec::new();
        let mut i: usize = 0;
        while i < max_chars
            invariant
                i <= max_chars,
                dots@ == Seq::new(i as nat, |k: int| '.'),
            decreases max_chars - i,
        {
            dots.push('.');
            i = i + 1;
            assert(dots@ =~= Seq::new(i as nat, |k: int| '.'));
        }
        return string_of(dots.as_slice());
    }
    let mut out = sub_chars(c.as_slice(), 0, max_chars - 3);
    push_str(&mut out, "...");
    assert(out@ =~= input@.take(max_chars - 3) + "..."@);
    string_of(out.as_slice())
}

/// The line for `r` at position `i` within `m` characters.
fn format_result_line(i: usize, r: &SearchResult, m: usize) -> (line: String)
    requires
        i < 5,
    ensures
        line@ == result_line(i as nat, r@, m as nat),
{
    let title = sanitize_whitespace(r.title.as_str());
    let snippet = sanitize_whitespace(r.snippet.as_str());
    let url = sanitize_whitespace(r.url.as_str());
    let mut prefix = decimal_chars((i + 1) as u64);
    push_str(&mut prefix, ". ");
    push_str(&mut prefix, title.as_str());
    push_str(&mut prefix, " - ");
    let mut suffix: Vec<char> = Vec::new();
    push_str(&mut suffix, " (");
    push_str(&mut suffix, url.as_str());
    push_str(&mut suffix, ")");
    let used = prefix.len().saturating_add(suffix.len());
    let avail = m.saturating_sub(used);
    let cut = truncate_with_ellipsis(snippet.as_str(), avail);
    let mut out = prefix;
    push_str(&mut out, cut.as_str());
    push_chars(&mut out, suffix.as_slice());
    string_of(out.as_slice())
}

/// The text shown for `results` (see `formatted_results`).
pub fn format_search_results(results: &[SearchResult], max_per_result: usize) -> (r: String)
    ensures
        r@ == formatted_results(result_views(results@), max_per_result as nat),
{
    if results.len() == 0 {
        return owned("No results found.");
    }
    let m = if max_per_result < 40 {
        40
    } else {
        max_per_result
    };
    let ghost rv = result_views(results@);
    let n = if results.len() < MAX_RESULTS {
        results.len()
    } else {
        MAX_RESULTS
    };
    let mut lines: Vec<String> = Vec::new();
    let mut i: usize = 0;
    while i < n
        invariant
            i <= n <= 5,
            n <= results@.len(),
            rv == result_views(results@),
            lines@.len() == i,
            forall|k: int| 0 <= k < i ==> #[trigger] lines@[k]@ == result_line(k as nat, rv[k], m as nat),
        decreases n - i,
    {
        let line = format_result_line(i, &results[i], m);
        lines.push(line);
        i = i + 1;
    }
    assert(lines@.map_values(|p: String| p@) =~= result_lines(rv, m as nat));
    join_strings(&lines, "\n")
}

/// Whether ` - ` starts at position `i` of `s`.
pub open spec fn dash_at(s: Seq<char>, i: int) -> bool {
    0 <= i && i + 3 <= s.len() && s[i] == ' ' && s[i + 1] == '-' && s[i + 2] == ' '
}

/// The result for an answer `text` of the search API and its `url`: the text
/// up to the first ` - ` is the title and the rest the snippet; without a
/// ` - `, both are the whole text.
pub open spec fn text_result(text: Seq<char>, url: Seq<char>) -> SearchResultView {
    if exists|i: int| #[trigger] dash_at(text, i) {
        let i = choose|i: int| #[trigger] dash_at(text, i) && forall|j: int| 0 <= j < i ==> !dash_at(text, j);
        SearchResultView { title: text.take(i), snippet: text.skip(i + 3), url }
    } else {
        SearchResultView { title: text, snippet: text, url }
    }
}

/// The result for the answer `text` with its `url` (see `text_result`).
pub fn text_to_result(text: String, url: String) -> (r: SearchResult)
    ensures
        r@ == text_result(text@, url@),
{
    let c = chars_of(text.as_str());
    let mut i: usize = 0;
    while i < c.len()
        invariant
            c@ == text@,
            i <= c@.len(),
            forall|j: int| 0 <= j < i ==> !#[trigger] dash_at(text@, j),
        decreases c@.len() - i,
    {
        if c.len() - i >= 3 && c[i] == ' ' && c[i + 1] == '-' && c[i + 2] == ' ' {
            proof {
                let k = i as int;
                assert(dash_at(text@, k));
                assert(dash_at(text@, k) && forall|j: int| 0 <= j < k ==> !dash_at(text@, j));
                let w = choose|w: int| #[trigger] dash_at(text@, w) && forall|j: int| 0 <= j < w ==> !dash_at(text@, j);
                if w < k {
                    assert(!dash_at(text@, w));
                } else if w > k {
                    assert(!dash_at(text@, k));
                }
            }
            let title = string_of(sub_chars(c.as_slice(), 0, i).as_slice());
            let snippet = string_of(sub_chars(c.as_slice(), i + 3, c.len()).as_slice());
            assert(title@ =~= text@.take(i as int));
            assert(snippet@ =~= text@.skip(i + 3));
            return SearchResult { title, snippet, url };
        }
        i = i + 1;
    }
    assert forall|j: int| !#[trigger] dash_at(text@, j) by {
        if 0 <= j < i {
        }
    }
    let title = owned(text.as_str());
    SearchResult { title, snippet: text, url }
}

/// The results for the answers of the search API, in order.
pub fn results_from_answers(answers: Vec<(String, String)>) -> (r: Vec<SearchResult>)
    ensures
        r@.len() == answers@.len(),
        forall|i: int| 0 <= i < r@.len() ==> #[trigger] r@[i]@ == text_result(answers@[i].0@, answers@[i].1@),
{
    let mut out: Vec<SearchResult> = Vec::new();
    let mut i: usize = 0;
    while i < answers.len()
        invariant
            i <= answers@.len(),
            out@.len() == i,
            forall|k: int| 0 <= k < i ==> #[trigger] out@[k]@ == text_result(answers@[k].0@, answers@[k].1@),
        decreases answers@.len() - i,
    {
        let t = owned(answers[i].0.as_str());
        let u = owned(answers[i].1.as_str());
        out.push(text_to_result(t, u));
        i = i + 1;
    }
    out
}

/// The HTML results to show, when the HTML search succeeded with some;
/// otherwise `None`, and the search API is asked instead.
pub fn usable_html_results(html: Result<Vec<SearchResult>, String>) -> (r: Option<Vec<SearchResult>>)
    ensures
        match html {
            Ok(v) => if v@.len() > 0 {
                r matches Some(w) && w@ == v@
            } else {
                r is None
            },
            Err(_) => r is None,
        },
{
    match html {
        Ok(v) => if v.len() > 0 {
            Some(v)
        } else {
            None
        },
        Err(_) => None,
    }
}

/// The URL that `reqwest::Url::parse_with_params` makes of `base` with the
/// query pair `key`=`value` appended, or the parse error's message.
pub uninterp spec fn url_with_query(base: Seq<char>, key: Seq<char>, value: Seq<char>) -> Result<Seq<char>, Seq<char>>;

/// Parses `base` and appends the query pair `key`=`value` with
/// `reqwest::Url::parse_with_params`.
#[verifier::external_body]
fn append_query_pair(base: &str, key: &str, value: &str) -> (r: Result<String, String>)
    ensures
        match r {
            Ok(u) => url_with_query(base@, key@, value@) == Ok::<Seq<char>, Seq<char>>(u@),
            Err(e) => url_with_query(base@, key@, value@) == Err::<Seq<char>, Seq<char>>(e@),
        },
{
    reqwest::Url::parse_with_params(base, &[(key, value)]).map(|u| u.to_string()).map_err(|e| e.to_string())
}

/// The HTML search URL for `query`.
pub fn html_search_url(query: &str) -> (r: Result<String, String>)
    ensures
        match r {
            Ok(u) => url_with_query(FALLBACK_DDG_HTML_ENDPOINT@, "q"@, query@) == Ok::<Seq<char>, Seq<char>>(u@),
            Err(e) => url_with_query(FALLBACK_DDG_HTML_ENDPOINT@, "q"@, query@) == Err::<Seq<char>, Seq<char>>(e@),
        },
{
    append_query_pair(FALLBACK_DDG_HTML_ENDPOINT, "q", query)
}

/// The text of a picked element: its pieces joined by spaces, whitespace
/// collapsed.
pub open spec fn element_text(e: ScrapedView) -> Seq<char> {
    collapse_ws(join_with(e.texts, " "@))
}

/// The elements `selector` picks out of `html`; none when the selector is
/// rejected.
pub open spec fn picked(html: Seq<char>, selector: Seq<char>) -> Seq<ScrapedView> {
    match scraped_elements(html, selector) {
        Ok(els) => els,
        Err(_) => Seq::empty(),
    }
}

/// The selector of result links in DuckDuckGo's HTML results.
pub open spec fn title_selector() -> Seq<char> {
    "a.result__a"@
}

/// The selector of result snippets in DuckDuckGo's HTML results.
pub open spec fn snippet_selector() -> Seq<char> {
    "a.result__snippet, div.result__snippet"@
}

/// The results read from the first `n` result links `links`, each with the
/// snippet at its own position in `snippets`: a link without text or
/// `href` is skipped, and reading stops at `MAX_RESULTS` results.
pub open spec fn html_results(links: Seq<ScrapedView>, snippets: Seq<Seq<char>>, n: nat) -> Seq<SearchResultView>
    decreases n,
{
    if n == 0 {
        Seq::empty()
    } else {
        let prev = html_results(links, snippets, (n - 1) as nat);
        if prev.len() >= 5 {
            prev
        } else {
            let link = links[n - 1];
            let title = element_text(link);
            let url = match link.href {
                Some(h) => collapse_ws(h),
                None => Seq::empty(),
            };
            if title.len() == 0 || url.len() == 0 {
                prev
            } else {
                let snippet = if n - 1 < snippets.len() {
                    snippets[n - 1]
                } else {
                    Seq::empty()
                };
                prev.push(SearchResultView { title, snippet, url })
            }
        }
    }
}

/// The results of a DuckDuckGo HTML result page.
pub open spec fn ddg_html_results(html: Seq<char>) -> Seq<SearchResultView> {
    let links = picked(html, title_selector());
    let snippets = picked(html, snippet_selector()).map_values(|e: ScrapedView| element_text(e));
    html_results(links, snippets, links.len())
}

/// The elements that `selector` picks out of `html` (none when rejected).
fn pick(html: &str, selector: &str) -> (r: Vec<crate::tools::html::ScrapedElement>)
    ensures
        crate::tools::html::scraped_views(r@) == picked(html@, selector@),
{
    match select_elements(html, selector) {
        Ok(v) => v,
        Err(_) => {
            let v: Vec<crate::tools::html::ScrapedElement> = Vec::new();
            assert(crate::tools::html::scraped_views(v@) =~= Seq::<ScrapedView>::empty());
            v
        },
    }
}

/// The text of the picked element `e`.
fn element_text_exec(e: &crate::tools::html::ScrapedElement) -> (r: String)
    ensures
        r@ == element_text(e@),
{
    let joined = join_strings(&e.texts, " ");
    sanitize_whitespace(joined.as_str())
}

/// The results of the DuckDuckGo HTML result page `html` (see
/// `ddg_html_results`).
pub fn parse_duckduckgo_html_results(html: &str) -> (r: Vec<SearchResult>)
    ensures
        result_views(r@) == ddg_html_results(html@),
{
    let snippet_els = pick(html, "a.result__snippet, div.result__snippet");
    let links = pick(html, "a.result__a");
    let ghost lv = crate::tools::html::scraped_views(links@);
    let ghost sv = crate::tools::html::scraped_views(snippet_els@);
    let mut snippets: Vec<String> = Vec::new();
    let mut k: usize = 0;
    while k < snippet_els.len()
        invariant
            k <= snippet_els@.len(),
            sv == crate::tools::html::scraped_views(snippet_els@),
            snippets@.len() == k,
            forall|q: int| 0 <= q < k ==> #[trigger] snippets@[q]@ == element_text(sv[q]),
        decreases snippet_els@.len() - k,
    {
        snippets.push(element_text_exec(&snippet_els[k]));
        k = k + 1;
    }
    let ghost snv = sv.map_values(|e: ScrapedView| element_text(e));
    let mut results: Vec<SearchResult> = Vec::new();
    let mut i: usize = 0;
    assert(snippets@.len() == snv.len());
    assert(ddg_html_results(html@) == html_results(lv, snv, lv.len()));
    assert(result_views(results@) =~= html_results(lv, snv, 0));
    while i < links.len()
        invariant
            i <= links@.len(),
            lv == crate::tools::html::scraped_views(links@),
            snippets@.len() == snv.len(),
            forall|q: int| 0 <= q < snv.len() ==> #[trigger] snippets@[q]@ == snv[q],
            result_views(results@) == html_results(lv, snv, i as nat),
            ddg_html_results(html@) == html_results(lv, snv, lv.len()),
            lv.len() == links@.len(),
        decreases links@.len() - i,
    {
        assert(result_views(results@).len() == results@.len());
        if results.len() >= MAX_RESULTS {
            proof {
                lemma_html_results_saturated(lv, snv, i as nat, links@.len());
            }
            return results;
        }
        let link = &links[i];
        assert(lv[i as int] == links@[i as int]@);
        let title = element_text_exec(link);
        let url = match &link.href {
            Some(h) => sanitize_whitespace(h.as_str()),
            None => {
                proof {
                    reveal_strlit("");
                }
                owned("")
            },
        };
        let ghost prev = result_views(results@);
        let ghost link_v = lv[i as int];
        assert(title@ == element_text(link_v));
        assert(url@ == match link_v.href {
            Some(h) => collapse_ws(h),
            None => Seq::<char>::empty(),
        });
        if title.as_str().is_empty() || url.as_str().is_empty() {
            assert(title@.len() == 0 || url@.len() == 0);
            assert(html_results(lv, snv, (i + 1) as nat) == prev);
        } else {
            let snippet = if i < snippets.len() {
                assert(snippets@[i as int]@ == snv[i as int]);
                owned(snippets[i].as_str())
            } else {
                proof {
                    reveal_strlit("");
                }
                owned("")
            };
            assert(snippet@ == if i < snv.len() {
                snv[i as int]
            } else {
                Seq::<char>::empty()
            });
            results.push(SearchResult { title, snippet, url });
            assert(result_views(results@) =~= prev.push(results@.last()@));
            assert(html_results(lv, snv, (i + 1) as nat) == prev.push(results@.last()@));
        }
        i = i + 1;
    }
    assert(ddg_html_results(html@) == html_results(lv, snv, lv.len()));
    results
}

/// Once `MAX_RESULTS` results are read, later links change nothing.
proof fn lemma_html_results_saturated(links: Seq<ScrapedView>, snippets: Seq<Seq<char>>, n: nat, m: nat)
    requires
        n <= m,
        html_results(links, snippets, n).len() >= 5,
    ensures
        html_results(links, snippets, m) == html_results(links, snippets, n),
    decreases m - n,
{
    if n < m {
        lemma_html_results_saturated(links, snippets, n, (m - 1) as nat);
    }
}

/// How a search ended.
pub enum SearchOutcome {
    /// The provider did not answer in time.
    TimedOut,
    /// The provider failed with this message.
    Failed(String),
    /// The provider's results.
    Found(Vec<SearchResult>),
}

/// The reply of the tool for a search outcome.
pub open spec fn search_reply(found: Option<Result<Seq<SearchResultView>, Seq<char>>>) -> Result<Seq<char>, Seq<char>> {
    match found {
        None => Err("web search timed out"@),
        Some(Err(e)) => Err(e),
        Some(Ok(rs)) => Ok(formatted_results(rs, 150)),
    }
}

/// The model of a search outcome: `None` when it timed out.
pub open spec fn outcome_view(o: SearchOutcome) -> Option<Result<Seq<SearchResultView>, Seq<char>>> {
    match o {
        SearchOutcome::TimedOut => None,
        SearchOutcome::Failed(e) => Some(Err(e@)),
        SearchOutcome::Found(v) => Some(Ok(result_views(v@))),
    }
}

/// The web search tool; a whole search may take `timeout_ms` milliseconds.
pub struct WebSearchTool {
    pub timeout_ms: u64,
}

/// The definition of the `web_search` tool.
pub open spec fn web_search_def() -> ToolDefView {
    ToolDefView {
        id: "web_search"@,
        name: "web_search"@,
        description: "Search the web for up-to-date information using DuckDuckGo"@,
        parameters: object_schema(
            seq![("query"@, string_param("The search query to run on DuckDuckGo"@))],
            seq![Json::Str("query"@)],
        ),
    }
}

/// The query a `web_search` call asks for: its trimmed `query` argument.
pub open spec fn search_query(args: Json) -> Result<Seq<char>, Seq<char>> {
    let q = trimmed_arg(args, "query"@);
    if q.len() == 0 {
        Err("missing required argument: query"@)
    } else {
        Ok(q)
    }
}

impl WebSearchTool {
    /// The tool with the default time limit.
    pub fn new() -> (r: WebSearchTool)
        ensures
            r.timeout_ms == DEFAULT_TIMEOUT_MS,
    {
        WebSearchTool { timeout_ms: DEFAULT_TIMEOUT_MS }
    }

    /// The tool's name, description and parameter schema.
    pub fn definition(&self) -> (r: ToolDef)
        ensures
            r@ == web_search_def(),
    {
        let mut props: Vec<(String, JsonValue)> = Vec::new();
        props.push((owned("query"), string_param_schema("The search query to run on DuckDuckGo")));
        let mut required: Vec<JsonValue> = Vec::new();
        required.push(JsonValue::from_str("query"));
        proof {
            lemma_json_entries(props@);
            assert(json_entries(props@) =~= seq![("query"@, string_param("The search query to run on DuckDuckGo"@))]);
            lemma_json_views(required@);
            assert(json_views(required@) =~= seq![Json::Str("query"@)]);
        }
        ToolDef {
            id: owned("web_search"),
            name: owned("web_search"),
            description: owned("Search the web for up-to-date information using DuckDuckGo"),
            parameters: object_schema_value(props, required),
        }
    }

    /// The query of a call with the arguments `args`.
    pub fn parse_query(args: &JsonValue) -> (r: Result<String, String>)
        ensures
            match r {
                Ok(q) => search_query(args@) == Ok::<Seq<char>, Seq<char>>(q@),
                Err(e) => search_query(args@) == Err::<Seq<char>, Seq<char>>(e@),
            },
    {
        let q = trimmed_arg_value(args, "query");
        if q.as_str().is_empty() {
            proof {
                assert(q@.len() == 0);
            }
            return Err(owned("missing required argument: query"));
        }
        Ok(q)
    }

    /// The tool's reply once the search ended as `outcome`.
    pub fn finish(outcome: SearchOutcome) -> (r: Result<String, String>)
        ensures
            match r {
                Ok(s) => search_reply(outcome_view(outcome)) == Ok::<Seq<char>, Seq<char>>(s@),
                Err(e) => search_reply(outcome_view(outcome)) == Err::<Seq<char>, Seq<char>>(e@),
            },
    {
        match outcome {
            SearchOutcome::TimedOut => Err(owned("web search timed out")),
            SearchOutcome::Failed(e) => Err(e),
            SearchOutcome::Found(v) => Ok(format_search_results(v.as_slice(), DEFAULT_SNIPPET_CHARS)),
        }
    }
}

} // verus!
