//! Turns a search-results page into an ordered list of release records.
use vstd::prelude::*;
use crate::text::{chars_of, push_all, slice_chars, string_of};

verus! {

/// One search hit: a crate, its version, its description and the page it links to.
#[derive(Debug, Clone, PartialEq, Eq)]
pub struct CrateSearchResult {
    pub name: String,
    pub version: String,
    pub description: String,
    pub url: String,
}

/// A record as plain text: name, version, description, url.
pub type RecordModel = (Seq<char>, Seq<char>, Seq<char>, Seq<char>);

impl CrateSearchResult {
    pub open spec fn model(&self) -> RecordModel {
        (self.name@, self.version@, self.description@, self.url@)
    }
}

pub open spec fn records_model(v: Seq<CrateSearchResult>) -> Seq<RecordModel> {
    v.map_values(|r: CrateSearchResult| r.model())
}

/// What the markup holds for one release entry, each part absent when the
/// entry lacks it: the link target, the text of its name element and the
/// text of its description element.
#[derive(Debug, PartialEq, Eq)]
pub struct ReleaseEntry {
    pub href: Option<String>,
    pub name_text: Option<String>,
    pub description_text: Option<String>,
}

pub type EntryModel = (Option<Seq<char>>, Option<Seq<char>>, Option<Seq<char>>);

pub open spec fn opt_model(o: Option<String>) -> Option<Seq<char>> {
    match o {
        Some(s) => Some(s@),
        None => None,
    }
}

impl ReleaseEntry {
    pub open spec fn model(&self) -> EntryModel {
        (opt_model(self.href), opt_model(self.name_text), opt_model(self.description_text))
    }
}

pub open spec fn entries_model(v: Seq<ReleaseEntry>) -> Seq<EntryModel> {
    v.map_values(|e: ReleaseEntry| e.model())
}

/// The release entries that an HTML parser finds in `html`: the elements
/// matching `entry`, in the order of the parser's tree (document order for
/// well-formed markup), each with its `attr` attribute and
/// the text of its first descendants matching `name` and `desc`.
pub uninterp spec fn release_entries_of(
    html: Seq<char>,
    entry: Seq<char>,
    attr: Seq<char>,
    name: Seq<char>,
    desc: Seq<char>,
) -> Seq<EntryModel>;

/// Relies on scraper 0.27: `Html::parse_document`, `Selector::parse`,
/// `Html::select`, `ElementRef::select`, `ElementRef::attr` and
/// `ElementRef::text`, collected into plain values. The result depends on
/// the arguments alone; a selector that does not parse matches nothing.
#[verifier::external_body]
fn release_entries(html: &str, entry: &str, attr: &str, name: &str, desc: &str) -> (r: Vec<
    ReleaseEntry,
>)
    ensures
        entries_model(r@) == release_entries_of(html@, entry@, attr@, name@, desc@),
{
    let (Ok(e), Ok(n), Ok(d)) = (scraper::Selector::parse(entry), scraper::Selector::parse(name),
        scraper::Selector::parse(desc)) else { return Vec::new() };
    let first_text = |a: scraper::ElementRef, s: &scraper::Selector| a.select(s).next().map(|x| x.text().collect());
    scraper::Html::parse_document(html).select(&e).map(|a| ReleaseEntry {
        href: a.value().attr(attr).map(String::from),
        name_text: first_text(a, &n),
        description_text: first_text(a, &d),
    }).collect()
}

pub open spec fn text_or_empty(o: Option<Seq<char>>) -> Seq<char> {
    match o {
        Some(t) => t,
        None => Seq::<char>::empty(),
    }
}

/// Index of the last `c` in `s[..n]`, or -1 when there is none.
pub open spec fn last_index_of(s: Seq<char>, c: char, n: int) -> int
    decreases n,
{
    if n <= 0 {
        -1
    } else if s[n - 1] == c {
        n - 1
    } else {
        last_index_of(s, c, n - 1)
    }
}

/// The part of a `name-version` token before its last hyphen, or the whole
/// token when it has none.
pub open spec fn token_name(tok: Seq<char>) -> Seq<char> {
    let i = last_index_of(tok, '-', tok.len() as int);
    if i < 0 {
        tok
    } else {
        tok.subrange(0, i)
    }
}

/// The part of a `name-version` token after its last hyphen, or empty when
/// it has none.
pub open spec fn token_version(tok: Seq<char>) -> Seq<char> {
    let i = last_index_of(tok, '-', tok.len() as int);
    if i < 0 {
        Seq::<char>::empty()
    } else {
        tok.subrange(i + 1, tok.len() as int)
    }
}

/// The record that one entry yields, if its name and version are both present.
pub open spec fn entry_record(e: EntryModel, base: Seq<char>) -> Option<RecordModel> {
    let tok = text_or_empty(e.1);
    let n = token_name(tok);
    let v = token_version(tok);
    if n.len() > 0 && v.len() > 0 {
        Some((n, v, text_or_empty(e.2), base + text_or_empty(e.0)))
    } else {
        None
    }
}

/// The records of the complete entries, in the entries' order.
pub open spec fn records_of(entries: Seq<EntryModel>, base: Seq<char>) -> Seq<RecordModel>
    decreases entries.len(),
{
    if entries.len() == 0 {
        Seq::<RecordModel>::empty()
    } else {
        let rest = records_of(entries.drop_last(), base);
        match entry_record(entries.last(), base) {
            Some(r) => rest.push(r),
            None => rest,
        }
    }
}

/// Every record made from entries has a non-empty name and a non-empty version.
pub proof fn lemma_records_complete(entries: Seq<EntryModel>, base: Seq<char>)
    ensures
        forall|i: int|
            0 <= i < records_of(entries, base).len() ==> (#[trigger] records_of(entries, base)[i]).0.len()
                > 0 && records_of(entries, base)[i].1.len() > 0,
    decreases entries.len(),
{
    if entries.len() > 0 {
        let rest = records_of(entries.drop_last(), base);
        lemma_records_complete(entries.drop_last(), base);
        assert forall|i: int| 0 <= i < records_of(entries, base).len() implies (#[trigger] records_of(
            entries,
            base,
        )[i]).0.len() > 0 && records_of(entries, base)[i].1.len() > 0 by {
            if i < rest.len() {
                assert(records_of(entries, base)[i] == rest[i]);
            }
        }
    }
}

/// Extracting twice from the same page under the same origin gives the
/// same records, in the same order.
pub proof fn lemma_extraction_repeatable(
    html: Seq<char>,
    base: Seq<char>,
    first: Seq<CrateSearchResult>,
    second: Seq<CrateSearchResult>,
)
    requires
        records_model(first) == records_of(
            release_entries_of(html, "a.release"@, "href"@, "div.name"@, "div.description"@),
            base,
        ),
        records_model(second) == records_of(
            release_entries_of(html, "a.release"@, "href"@, "div.name"@, "div.description"@),
            base,
        ),
    ensures
        records_model(first) == records_model(second),
{
}

/// No `c` stands after the last one in `s[..n]`.
proof fn lemma_last_index_of_is_last(s: Seq<char>, c: char, n: int)
    requires
        0 <= n <= s.len(),
    ensures
        -1 <= last_index_of(s, c, n) < n,
        last_index_of(s, c, n) >= 0 ==> s[last_index_of(s, c, n)] == c,
        forall|k: int| last_index_of(s, c, n) < k < n ==> s[k] != c,
    decreases n,
{
    if n > 0 && s[n - 1] != c {
        lemma_last_index_of_is_last(s, c, n - 1);
    }
}

/// In `s[..n]`, with no `c` in `s[i + 1..n]` and `c` at `i`, the last `c` is at `i`.
proof fn lemma_last_index_of_at(s: Seq<char>, c: char, i: int, n: int)
    requires
        0 <= i < n <= s.len(),
        s[i] == c,
        forall|k: int| i < k < n ==> s[k] != c,
    ensures
        last_index_of(s, c, n) == i,
    decreases n,
{
    if n - 1 > i {
        lemma_last_index_of_at(s, c, i, n - 1);
    }
}

/// The release entry that a record reads back as: its url as link, its
/// name and version joined by a hyphen, and its description.
pub open spec fn entry_of_record(r: RecordModel) -> EntryModel {
    (Some(r.3), Some(r.0 + seq!['-'] + r.1), Some(r.2))
}

/// Reading back records as entries, under an empty origin, gives the same
/// records: every record passes the filter again and splits as it was.
pub proof fn lemma_records_reread(entries: Seq<EntryModel>, base: Seq<char>)
    ensures
        records_of(records_of(entries, base).map_values(|r: RecordModel| entry_of_record(r)), Seq::<char>::empty())
            == records_of(entries, base),
    decreases entries.len(),
{
    let rs = records_of(entries, base);
    let back = rs.map_values(|r: RecordModel| entry_of_record(r));
    if entries.len() > 0 {
        let rest = records_of(entries.drop_last(), base);
        lemma_records_reread(entries.drop_last(), base);
        let back_rest = rest.map_values(|r: RecordModel| entry_of_record(r));
        match entry_record(entries.last(), base) {
            Some(r) => {
                assert(back.drop_last() =~= back_rest);
                let tok = text_or_empty(entries.last().1);
                let i = last_index_of(tok, '-', tok.len() as int);
                lemma_last_index_of_is_last(tok, '-', tok.len() as int);
                let joined = r.0 + seq!['-'] + r.1;
                assert forall|k: int| r.0.len() < k < joined.len() implies joined[k] != '-' by {
                    assert(joined[k] == tok[i + 1 + (k - r.0.len() - 1)]);
                }
                lemma_last_index_of_at(joined, '-', r.0.len() as int, joined.len() as int);
                assert(joined.subrange(0, r.0.len() as int) =~= r.0);
                assert(joined.subrange(r.0.len() as int + 1, joined.len() as int) =~= r.1);
                assert(Seq::<char>::empty() + r.3 =~= r.3);
                assert(entry_record(back.last(), Seq::<char>::empty()) == Some(r));
            },
            None => {
                assert(back =~= back_rest);
            },
        }
    }
}

/// A token with a hyphen is its name, a hyphen and its version, and the
/// version holds no hyphen: the split is at the last hyphen, and the name
/// keeps every earlier one.
pub proof fn lemma_split_at_last_hyphen(tok: Seq<char>)
    requires
        exists|i: int| 0 <= i < tok.len() && tok[i] == '-',
    ensures
        tok == token_name(tok) + seq!['-'] + token_version(tok),
        forall|k: int| 0 <= k < token_version(tok).len() ==> #[trigger] token_version(tok)[k] != '-',
{
    let n = tok.len() as int;
    let j = choose|i: int| 0 <= i < tok.len() && tok[i] == '-';
    lemma_last_index_of_is_last(tok, '-', n);
    let i = last_index_of(tok, '-', n);
    if i < 0 {
        assert(tok[j] != '-');
    }
    assert(tok =~= token_name(tok) + seq!['-'] + token_version(tok));
    assert forall|k: int| 0 <= k < token_version(tok).len() implies #[trigger] token_version(tok)[k]
        != '-' by {
        assert(token_version(tok)[k] == tok[i + 1 + k]);
    }
}

fn last_hyphen(tok: &Vec<char>) -> (r: Option<usize>)
    ensures
        match r {
            Some(i) => i < tok@.len() && i as int == last_index_of(tok@, '-', tok@.len() as int),
            None => last_index_of(tok@, '-', tok@.len() as int) < 0,
        },
{
    let mut n: usize = tok.len();
    while n > 0 && tok[n - 1] != '-'
        invariant
            n <= tok@.len(),
            last_index_of(tok@, '-', n as int) == last_index_of(tok@, '-', tok@.len() as int),
        decreases n,
    {
        n = n - 1;
    }
    if n == 0 {
        None
    } else {
        Some(n - 1)
    }
}

/// Splits a `name-version` token at its last hyphen into name and version.
pub fn split_name_version(token: &str) -> (r: (String, String))
    ensures
        r.0@ == token_name(token@),
        r.1@ == token_version(token@),
{
    let tok = chars_of(token);
    let len = tok.len();
    match last_hyphen(&tok) {
        Some(i) => {
            let n = slice_chars(&tok, 0, i);
            let v = slice_chars(&tok, i + 1, len);
            (string_of(&n), string_of(&v))
        },
        None => (string_of(&tok), String::new()),
    }
}

fn text_of(o: &Option<String>) -> (r: String)
    ensures
        r@ == text_or_empty(opt_model(*o)),
{
    match o {
        Some(t) => t.clone(),
        None => String::new(),
    }
}

/// The record that one release entry yields under `base_url`, if any.
pub fn record_from_entry(e: &ReleaseEntry, base_url: &str) -> (r: Option<CrateSearchResult>)
    ensures
        match r {
            Some(rec) => entry_record(e.model(), base_url@) == Some(rec.model()),
            None => entry_record(e.model(), base_url@) is None,
        },
{
    let token = text_of(&e.name_text);
    let (name, version) = split_name_version(token.as_str());
    if name.as_str().is_empty() || version.as_str().is_empty() {
        return None;
    }
    let mut url = chars_of(base_url);
    let href = text_of(&e.href);
    let href_chars = chars_of(href.as_str());
    push_all(&mut url, &href_chars);
    Some(CrateSearchResult {
        name,
        version,
        description: text_of(&e.description_text),
        url: string_of(&url),
    })
}

/// The records of the complete entries, in order, with links resolved
/// against `base_url`.
pub fn records_from_entries(entries: &Vec<ReleaseEntry>, base_url: &str) -> (r: Vec<
    CrateSearchResult,
>)
    ensures
        records_model(r@) == records_of(entries_model(entries@), base_url@),
        forall|i: int|
            0 <= i < r@.len() ==> (#[trigger] r@[i]).name@.len() > 0 && r@[i].version@.len() > 0,
{
    let mut out: Vec<CrateSearchResult> = Vec::new();
    let mut i: usize = 0;
    while i < entries.len()
        invariant
            i <= entries@.len(),
            records_model(out@) == records_of(entries_model(entries@.subrange(0, i as int)), base_url@),
        decreases entries@.len() - i,
    {
        let ghost prev = out@;
        let rec = record_from_entry(&entries[i], base_url);
        let ghost pre = entries_model(entries@.subrange(0, i + 1));
        assert(pre.drop_last() =~= entries_model(entries@.subrange(0, i as int)));
        assert(pre.last() == entries@[i as int].model());
        match rec {
            Some(r) => {
                out.push(r);
                assert(records_model(out@) =~= records_model(prev).push(r.model()));
            },
            None => {},
        }
        i = i + 1;
    }
    assert(entries@.subrange(0, entries@.len() as int) =~= entries@);
    proof {
        lemma_records_complete(entries_model(entries@), base_url@);
        assert forall|k: int| 0 <= k < out@.len() implies (#[trigger] out@[k]).name@.len() > 0
            && out@[k].version@.len() > 0 by {
            assert(records_model(out@)[k] == out@[k].model());
        }
    }
    out
}

/// The release records of a search-results page, in the order the parser
/// finds the entries (document order for well-formed markup): each
/// `a.release` element whose `div.name` text splits into a non-empty name
/// and version gives one record, its link resolved against `base_url`.
pub fn parse_crate_search_results(html: &str, base_url: &str) -> (r: Vec<CrateSearchResult>)
    ensures
        records_model(r@) == records_of(
            release_entries_of(html@, "a.release"@, "href"@, "div.name"@, "div.description"@),
            base_url@,
        ),
        forall|i: int|
            0 <= i < r@.len() ==> (#[trigger] r@[i]).name@.len() > 0 && r@[i].version@.len() > 0,
{
    let entries = release_entries(html, "a.release", "href", "div.name", "div.description");
    records_from_entries(&entries, base_url)
}

} // verus!
