use vstd::prelude::*;
use crate::text::{
    Entry, EntryView, ExtractError, block_entry, entries_from_texts, entries_of,
    free_of_separator, lemma_entry_free_of_separator, lemma_first_malformed_unique,
    malformed_index,
};
use scraper::{Html, Selector};

verus! {

/// Whether scraper accepts `css` as a selector group.
pub uninterp spec fn selector_accepted(css: Seq<char>) -> bool;

/// The texts of the elements matching `block` inside the first element of
/// `page` matching `container`, in document order; `None` when nothing in the
/// page matches `container`.
pub uninterp spec fn scraped_texts(page: Seq<char>, container: Seq<char>, block: Seq<char>) -> Option<
    Seq<Seq<char>>,
>;

/// Relies on scraper's Selector::parse: whether it accepts `css`, which
/// depends on the text alone.
#[verifier::external_body]
fn selector_ok(css: &str) -> (r: bool)
    ensures
        r == selector_accepted(css@),
{
    Selector::parse(css).is_ok()
}

/// Relies on scraper's Html::parse_document, Html::select, ElementRef::select
/// and ElementRef::text: the page is parsed, its first `container` element
/// taken, and the text of each `block` element inside it collected in document
/// order. What comes back depends on the three texts alone.
#[verifier::external_body]
fn scrape(page: &str, container: &str, block: &str) -> (r: Option<Vec<String>>)
    requires
        selector_accepted(container@),
        selector_accepted(block@),
    ensures
        r is None ==> scraped_texts(page@, container@, block@) is None,
        r matches Some(v) ==> scraped_texts(page@, container@, block@) == Some(
            v@.map_values(|t: String| t@),
        ),
{
    let document = Html::parse_document(page);
    let outer = Selector::parse(container).ok()?;
    let inner = Selector::parse(block).ok()?;
    let found = document.select(&outer).next()?;
    let mut texts = Vec::new();
    for element in found.select(&inner) {
        texts.push(element.text().collect());
    }
    Some(texts)
}

/// Relies on str::replace with a `char` pattern and an empty replacement: every
/// occurrence of `c` is dropped and the rest kept in order.
#[verifier::external_body]
fn without_char(s: &str, c: char) -> (r: String)
    ensures
        r@ == s@.filter(|x: char| x != c),
{
    s.replace(c, "")
}

/// The container of the result list: the second column of a row.
pub open spec fn container_css() -> Seq<char> {
    "div.row > div.col-md-8"@
}

/// One package's block inside the container.
pub open spec fn block_css() -> Seq<char> {
    "div.position-relative div.new-block"@
}

/// The texts of a page's result blocks, in document order: empty when the page
/// has no result container, `None` when scraper refuses one of the selectors.
pub open spec fn page_texts(page: Seq<char>) -> Option<Seq<Seq<char>>> {
    if !selector_accepted(container_css()) || !selector_accepted(block_css()) {
        None
    } else {
        match scraped_texts(page, container_css(), block_css()) {
            None => Some(Seq::empty()),
            Some(ts) => Some(ts),
        }
    }
}

/// What a response body lists: its entries in document order, or why it
/// cannot be read.
pub open spec fn extraction_of(body: Seq<char>) -> Result<Seq<EntryView>, ExtractError> {
    match page_texts(flattened(body)) {
        None => Err(ExtractError::BadSelector),
        Some(ts) => match entries_of(ts) {
            Some(es) => Ok(es),
            None => Err(ExtractError::MalformedBlock(malformed_index(ts) as usize)),
        },
    }
}

/// A response body with its line breaks and tabs removed.
pub open spec fn flattened(body: Seq<char>) -> Seq<char> {
    body.filter(|x: char| x != '\n').filter(|x: char| x != '\t')
}

/// Removes every newline and tab from a response body.
pub fn flatten(body: &str) -> (r: String)
    ensures
        r@ == flattened(body@),
{
    let a = without_char(body, '\n');
    without_char(a.as_str(), '\t')
}

/// The texts of the result blocks of a page, in document order: empty when the
/// page has no result container.
pub fn block_texts(page: &str) -> (r: Result<Vec<String>, ExtractError>)
    ensures
        match r {
            Ok(v) => page_texts(page@) == Some(v@.map_values(|t: String| t@)),
            Err(e) => e == ExtractError::BadSelector && page_texts(page@) is None,
        },
{
    let container = "div.row > div.col-md-8";
    let block = "div.position-relative div.new-block";
    if !selector_ok(container) || !selector_ok(block) {
        return Err(ExtractError::BadSelector);
    }
    match scrape(page, container, block) {
        None => {
            let v: Vec<String> = Vec::new();
            assert(v@.map_values(|t: String| t@) =~= Seq::<Seq<char>>::empty());
            Ok(v)
        },
        Some(v) => Ok(v),
    }
}

/// The entries listed on a search result page, in document order. No name or
/// description in the result holds a separator.
pub fn extract_entries(body: &str) -> (r: Result<Vec<Entry>, ExtractError>)
    ensures
        match r {
            Ok(v) => extraction_of(body@) == Ok::<Seq<EntryView>, ExtractError>(
                v@.map_values(|e: Entry| e@),
            ),
            Err(e) => extraction_of(body@) == Err::<Seq<EntryView>, ExtractError>(e),
        },
        r matches Ok(v) ==> forall|i: int|
            0 <= i < v@.len() ==> free_of_separator(#[trigger] v@[i]@.name) && free_of_separator(
                v@[i]@.description,
            ),
{
    let page = flatten(body);
    let texts = block_texts(page.as_str())?;
    let ghost ts = texts@.map_values(|t: String| t@);
    let v = match entries_from_texts(&texts) {
        Ok(v) => v,
        Err(e) => {
            proof {
                if let ExtractError::MalformedBlock(i) = e {
                    lemma_first_malformed_unique(ts, i as int);
                }
            }
            return Err(e);
        },
    };
    proof {
        assert forall|i: int| 0 <= i < v@.len() implies free_of_separator(
            #[trigger] v@[i]@.name,
        ) && free_of_separator(v@[i]@.description) by {
            let ev = v@.map_values(|e: Entry| e@);
            assert(ev[i] == v@[i]@);
            assert(entries_of(ts) == Some(ev));
            assert(ts.map_values(|t: Seq<char>| block_entry(t)->0) == ev);
            assert(ts.map_values(|t: Seq<char>| block_entry(t)->0).len() == ts.len());
            assert(block_entry(ts[i]) is Some);
            assert(ev[i] == block_entry(ts[i])->0);
            lemma_entry_free_of_separator(ts[i]);
        }
    }
    Ok(v)
}

} // verus!
