//! Reading text out of HTML documents with `scraper`.
use vstd::prelude::*;
use crate::text::{collapse_ws, join_strings, join_with, sanitize_whitespace, trim};

verus! {

/// An element picked out of a document: its text pieces in document order
/// and its `href` attribute.
pub struct ScrapedElement {
    pub texts: Vec<String>,
    pub href: Option<String>,
}

/// The model of a picked element.
pub struct ScrapedView {
    pub texts: Seq<Seq<char>>,
    pub href: Option<Seq<char>>,
}

impl View for ScrapedElement {
    type V = ScrapedView;

    open spec fn view(&self) -> ScrapedView {
        ScrapedView {
            texts: self.texts@.map_values(|t: String| t@),
            href: match self.href {
                Some(h) => Some(h@),
                None => None,
            },
        }
    }
}

/// The elements of the HTML document `html` that the CSS selector
/// `selector` matches, in document order, as `scraper` finds them; or the
/// message of the selector's parse error.
pub uninterp spec fn scraped_elements(html: Seq<char>, selector: Seq<char>) -> Result<Seq<ScrapedView>, Seq<char>>;

/// The models of the picked elements `v`.
pub open spec fn scraped_views(v: Seq<ScrapedElement>) -> Seq<ScrapedView> {
    v.map_values(|e: ScrapedElement| e@)
}

/// Parses `html` with `scraper::Html::parse_document` and returns the text
/// pieces and `href` of each element that `scraper::Selector::parse(selector)`
/// matches.
#[verifier::external_body]
pub(crate) fn select_elements(html: &str, selector: &str) -> (r: Result<Vec<ScrapedElement>, String>)
    ensures
        match r {
            Ok(v) => scraped_elements(html@, selector@) == Ok::<Seq<ScrapedView>, Seq<char>>(scraped_views(v@)),
            Err(e) => scraped_elements(html@, selector@) == Err::<Seq<ScrapedView>, Seq<char>>(e@),
        },
{
    let sel = scraper::Selector::parse(selector).map_err(|e| e.to_string())?;
    let doc = scraper::Html::parse_document(html);
    Ok(doc.select(&sel).map(|n| ScrapedElement {
        texts: n.text().map(|t| t.to_string()).collect(),
        href: n.attr("href").map(|h| h.to_string()),
    }).collect())
}

/// The text pieces of all the elements `els`, in order.
pub open spec fn all_texts(els: Seq<ScrapedView>) -> Seq<Seq<char>>
    decreases els.len(),
{
    if els.len() == 0 {
        Seq::empty()
    } else {
        all_texts(els.drop_last()) + els.last().texts
    }
}

/// The readable text of an HTML page: the text of its `body`, joined by
/// spaces with whitespace collapsed; the whole input collapsed when the body
/// holds no text.
pub open spec fn html_readable_text(html: Seq<char>) -> Result<Seq<char>, Seq<char>> {
    match scraped_elements(html, "body"@) {
        Err(e) => Err(e),
        Ok(els) => {
            let text = join_with(all_texts(els), " "@);
            if trim(text).len() == 0 {
                Ok(collapse_ws(html))
            } else {
                Ok(collapse_ws(text))
            }
        },
    }
}

/// The readable text of the HTML page `html` (see `html_readable_text`).
pub fn extract_html_text(html: &str) -> (r: Result<String, String>)
    ensures
        match r {
            Ok(t) => html_readable_text(html@) == Ok::<Seq<char>, Seq<char>>(t@),
            Err(e) => html_readable_text(html@) == Err::<Seq<char>, Seq<char>>(e@),
        },
{
    let els = match select_elements(html, "body") {
        Ok(v) => v,
        Err(e) => return Err(e),
    };
    let ghost ev = scraped_views(els@);
    let mut pieces: Vec<String> = Vec::new();
    let mut i: usize = 0;
    while i < els.len()
        invariant
            i <= els@.len(),
            ev == scraped_views(els@),
            pieces@.map_values(|t: String| t@) == all_texts(ev.take(i as int)),
        decreases els@.len() - i,
    {
        let ghost before = pieces@;
        let mut j: usize = 0;
        while j < els[i].texts.len()
            invariant
                i < els@.len(),
                j <= els@[i as int].texts@.len(),
                pieces@.map_values(|t: String| t@) == before.map_values(|t: String| t@) + els@[i as int].texts@.take(
                    j as int,
                ).map_values(|t: String| t@),
            decreases els@[i as int].texts@.len() - j,
        {
            let t = crate::text::owned(els[i].texts[j].as_str());
            let ghost p0 = pieces@;
            pieces.push(t);
            j = j + 1;
            let ghost tx = els@[i as int].texts@;
            assert(tx.take(j as int) =~= tx.take(j - 1 as int).push(tx[j - 1]));
            assert(tx.take(j as int).map_values(|t: String| t@) =~= tx.take(j - 1 as int).map_values(
                |t: String| t@,
            ).push(tx[j - 1]@));
            assert(pieces@.map_values(|t: String| t@) =~= p0.map_values(|t: String| t@).push(tx[j - 1]@));
            assert(pieces@.map_values(|t: String| t@) =~= before.map_values(|t: String| t@)
                + els@[i as int].texts@.take(j as int).map_values(|t: String| t@));
        }
        assert(els@[i as int].texts@.take(j as int) =~= els@[i as int].texts@);
        assert(ev.take(i + 1 as int).drop_last() =~= ev.take(i as int));
        i = i + 1;
    }
    assert(ev.take(i as int) =~= ev);
    let text = join_strings(&pieces, " ");
    if crate::text::is_blank(text.as_str()) {
        Ok(sanitize_whitespace(html))
    } else {
        Ok(sanitize_whitespace(text.as_str()))
    }
}

} // verus!
