//! Flattens the content region of a documentation page into lines of text.
use vstd::prelude::*;
use crate::text::{chars_of, push_all, string_of, trim_chars, trimmed};

verus! {

/// The text block extracted from a documentation page.
#[derive(Debug, Clone, PartialEq, Eq)]
pub struct DocsrsPageStructured {
    pub content: String,
}

pub open spec fn texts_model(v: Seq<String>) -> Seq<Seq<char>> {
    v.map_values(|s: String| s@)
}

pub open spec fn opt_texts_model(o: Option<Vec<String>>) -> Option<Seq<Seq<char>>> {
    match o {
        Some(v) => Some(texts_model(v@)),
        None => None,
    }
}

/// The descendant text nodes, in tree order, of the first element of `html`
/// (in the order of the parser's tree) that matches `selector`, or `None` when no element matches.
pub uninterp spec fn region_texts_of(html: Seq<char>, selector: Seq<char>) -> Option<
    Seq<Seq<char>>,
>;

/// Relies on scraper 0.27: `Html::parse_document`, `Selector::parse`,
/// `Html::select` and `ElementRef::text`. The result depends on the
/// arguments alone; a selector that does not parse matches nothing.
#[verifier::external_body]
fn region_text_nodes(html: &str, selector: &str) -> (r: Option<Vec<String>>)
    ensures
        opt_texts_model(r) == region_texts_of(html@, selector@),
{
    let sel = scraper::Selector::parse(selector).ok()?;
    let doc = scraper::Html::parse_document(html);
    let found = doc.select(&sel).next().map(|e| e.text().map(String::from).collect());
    found
}

/// The content-region identifiers, in the order they are tried.
pub open spec fn region_selectors() -> Seq<Seq<char>> {
    seq!["#main-content"@, "#main"@]
}

/// The text nodes of the region found by the first candidate that matches.
pub open spec fn first_region(html: Seq<char>, candidates: Seq<Seq<char>>) -> Option<Seq<Seq<char>>>
    decreases candidates.len(),
{
    if candidates.len() == 0 {
        None
    } else {
        match region_texts_of(html, candidates[0]) {
            Some(t) => Some(t),
            None => first_region(html, candidates.drop_first()),
        }
    }
}

/// The trimmed text nodes that are not empty, in order.
pub open spec fn kept_lines(nodes: Seq<Seq<char>>) -> Seq<Seq<char>>
    decreases nodes.len(),
{
    if nodes.len() == 0 {
        Seq::<Seq<char>>::empty()
    } else {
        let rest = kept_lines(nodes.drop_last());
        let t = trimmed(nodes.last());
        if t.len() > 0 {
            rest.push(t)
        } else {
            rest
        }
    }
}

/// The lines joined with one newline between each two.
pub open spec fn join_lines(lines: Seq<Seq<char>>) -> Seq<char>
    decreases lines.len(),
{
    if lines.len() == 0 {
        Seq::<char>::empty()
    } else if lines.len() == 1 {
        lines[0]
    } else {
        join_lines(lines.drop_last()) + seq!['\n'] + lines.last()
    }
}

/// The content that a region with these text nodes yields.
pub open spec fn region_content(region: Option<Seq<Seq<char>>>) -> Seq<char> {
    match region {
        Some(nodes) => join_lines(kept_lines(nodes)),
        None => Seq::<char>::empty(),
    }
}

/// Joins the non-empty trimmed text nodes with single newlines.
pub fn join_text_nodes(nodes: &Vec<String>) -> (r: String)
    ensures
        r@ == join_lines(kept_lines(texts_model(nodes@))),
{
    let mut out: Vec<char> = Vec::new();
    let mut count: usize = 0;
    let mut i: usize = 0;
    while i < nodes.len()
        invariant
            i <= nodes@.len(),
            out@ == join_lines(kept_lines(texts_model(nodes@.subrange(0, i as int)))),
            count as int == kept_lines(texts_model(nodes@.subrange(0, i as int))).len(),
            count <= i,
        decreases nodes@.len() - i,
    {
        let ghost pre = texts_model(nodes@.subrange(0, i + 1));
        assert(pre.drop_last() =~= texts_model(nodes@.subrange(0, i as int)));
        assert(pre.last() == nodes@[i as int]@);
        let chars = chars_of(nodes[i].as_str());
        let t = trim_chars(&chars);
        if t.len() > 0 {
            let ghost lines = kept_lines(pre);
            assert(lines.drop_last() =~= kept_lines(pre.drop_last()));
            if count > 0 {
                out.push('\n');
            }
            push_all(&mut out, &t);
            count = count + 1;
            assert(out@ =~= join_lines(lines));
        }
        i = i + 1;
    }
    assert(nodes@.subrange(0, nodes@.len() as int) =~= nodes@);
    string_of(&out)
}

/// The document whose content is what the region's text nodes yield.
pub fn document_from_region(region: &Option<Vec<String>>) -> (r: DocsrsPageStructured)
    ensures
        r.content@ == region_content(opt_texts_model(*region)),
{
    match region {
        Some(nodes) => DocsrsPageStructured { content: join_text_nodes(nodes) },
        None => DocsrsPageStructured { content: String::new() },
    }
}

pub open spec fn strs_model(v: Seq<&str>) -> Seq<Seq<char>> {
    v.map_values(|s: &str| s@)
}

/// Tries the candidate selectors in order and returns the text nodes of the
/// region that the first matching one finds.
fn first_region_texts(html: &str, candidates: &Vec<&str>) -> (r: Option<Vec<String>>)
    ensures
        opt_texts_model(r) == first_region(html@, strs_model(candidates@)),
{
    let mut i: usize = 0;
    assert(strs_model(candidates@).subrange(0, candidates@.len() as int) =~= strs_model(
        candidates@,
    ));
    while i < candidates.len()
        invariant
            i <= candidates@.len(),
            first_region(html@, strs_model(candidates@)) == first_region(
                html@,
                strs_model(candidates@).subrange(i as int, candidates@.len() as int),
            ),
        decreases candidates@.len() - i,
    {
        let ghost rest = strs_model(candidates@).subrange(i as int, candidates@.len() as int);
        assert(rest[0] == candidates@[i as int]@);
        assert(rest.drop_first() =~= strs_model(candidates@).subrange(
            i + 1,
            candidates@.len() as int,
        ));
        let found = region_text_nodes(html, candidates[i]);
        if found.is_some() {
            return found;
        }
        i = i + 1;
    }
    None
}

/// The content of a documentation page: the non-empty trimmed text nodes of
/// its content region, one per line, where the region is the first element
/// matching `#main-content`, or else `#main`; empty when neither matches.
pub fn parse_docsrs_page_structured(html: &str) -> (r: DocsrsPageStructured)
    ensures
        r.content@ == region_content(first_region(html@, region_selectors())),
{
    let candidates: Vec<&str> = vec!["#main-content", "#main"];
    assert(strs_model(candidates@) =~= region_selectors());
    let region = first_region_texts(html, &candidates);
    document_from_region(&region)
}

} // verus!
