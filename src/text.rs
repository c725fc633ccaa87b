use vstd::prelude::*;

verus! {

/// The separator between a package's name and its description in a result block.
pub open spec fn separator() -> Seq<char> {
    seq![' ', '-', ' ']
}

/// `p` occurs in `s` starting at position `i`.
pub open spec fn occurs_at(s: Seq<char>, p: Seq<char>, i: int) -> bool {
    0 <= i && i + p.len() <= s.len() && s.subrange(i, i + p.len()) == p
}

/// The first position at or after `i` where `p` occurs in `s`.
pub open spec fn find_from(s: Seq<char>, p: Seq<char>, i: int) -> Option<int>
    decreases s.len() + 1 - i,
{
    if i < 0 || i + p.len() > s.len() {
        None
    } else if occurs_at(s, p, i) {
        Some(i)
    } else {
        find_from(s, p, i + 1)
    }
}

/// A package found by a search: its name and its one-line description.
pub struct Entry {
    pub name: String,
    pub description: String,
}

pub struct EntryView {
    pub name: Seq<char>,
    pub description: Seq<char>,
}

impl View for Entry {
    type V = EntryView;

    open spec fn view(&self) -> EntryView {
        EntryView { name: self.name@, description: self.description@ }
    }
}

/// What a block's flattened text means, if it holds the separator: the name is
/// the part before the first separator, the description the part between the
/// first separator and the next one (or the end of the text).
pub open spec fn block_entry(t: Seq<char>) -> Option<EntryView> {
    match find_from(t, separator(), 0) {
        None => None,
        Some(i) => {
            let rest = t.subrange(i + 3, t.len() as int);
            let description = match find_from(rest, separator(), 0) {
                None => rest,
                Some(j) => rest.subrange(0, j),
            };
            Some(EntryView { name: t.subrange(0, i), description })
        },
    }
}

pub(crate) fn chars_of(s: &str) -> (r: Vec<char>)
    ensures
        r@ == s@,
{
    let n = s.unicode_len();
    let mut r: Vec<char> = Vec::new();
    let mut i: usize = 0;
    while i < n
        invariant
            n == s@.len(),
            i <= n,
            r@ == s@.subrange(0, i as int),
        decreases n - i,
    {
        r.push(s.get_char(i));
        i = i + 1;
    }
    r
}

fn occurs_here(s: &Vec<char>, i: usize) -> (r: bool)
    requires
        i <= s@.len(),
    ensures
        r == occurs_at(s@, separator(), i as int),
{
    if s.len() - i < 3 {
        false
    } else {
        let r = s[i] == ' ' && s[i + 1] == '-' && s[i + 2] == ' ';
        assert(r <==> s@.subrange(i as int, i + 3) =~= separator());
        r
    }
}

/// Position of the first separator in `s` at or after `start`.
fn find_separator(s: &Vec<char>, start: usize) -> (r: Option<usize>)
    requires
        start <= s@.len(),
    ensures
        r is None <==> find_from(s@, separator(), start as int) is None,
        r is Some ==> find_from(s@, separator(), start as int) == Some(r->0 as int),
        r is Some ==> start <= r->0 && r->0 + 3 <= s@.len(),
{
    let mut i = start;
    while i < s.len()
        invariant
            start <= i <= s@.len(),
            find_from(s@, separator(), start as int) == find_from(s@, separator(), i as int),
        decreases s@.len() - i,
    {
        if occurs_here(s, i) {
            return Some(i);
        }
        i = i + 1;
    }
    None
}

/// Splits one block's flattened text into the package's name and description;
/// `None` when the text holds no separator.
pub fn parse_block(text: &str) -> (r: Option<Entry>)
    ensures
        r matches Some(e) ==> block_entry(text@) == Some(e@),
        r is None ==> block_entry(text@) is None,
{
    let cs = chars_of(text);
    let n = cs.len();
    match find_separator(&cs, 0) {
        None => None,
        Some(i) => {
            let name = String::from_str(text.substring_char(0, i));
            let ghost rest = text@.subrange(i + 3, text@.len() as int);
            proof {
                lemma_find_shifted(text@, separator(), i + 3, 0);
            }
            let end = match find_separator(&cs, i + 3) {
                None => {
                    assert(rest =~= text@.subrange(i + 3, n as int));
                    n
                },
                Some(j) => {
                    assert(rest.subrange(0, j - i - 3) =~= text@.subrange(i + 3, j as int));
                    j
                },
            };
            let description = String::from_str(text.substring_char(i + 3, end));
            Some(Entry { name, description })
        },
    }
}

/// Searching a suffix of `s` finds what searching `s` finds, shifted.
proof fn lemma_find_shifted(s: Seq<char>, p: Seq<char>, k: int, i: int)
    requires
        0 <= k <= s.len(),
        0 <= i,
    ensures
        find_from(s.subrange(k, s.len() as int), p, i) == (match find_from(s, p, k + i) {
            Some(j) => Some(j - k),
            None => None::<int>,
        }),
    decreases s.len() + 1 - (k + i),
{
    let t = s.subrange(k, s.len() as int);
    if i + p.len() > t.len() {
    } else {
        assert(t.subrange(i, i + p.len()) =~= s.subrange(k + i, k + i + p.len()));
        if !occurs_at(t, p, i) {
            lemma_find_shifted(s, p, k, i + 1);
        }
    }
}

/// `s` holds no separator anywhere.
pub open spec fn free_of_separator(s: Seq<char>) -> bool {
    forall|j: int| !(#[trigger] occurs_at(s, separator(), j))
}

/// No occurrence lies between `k` and what `find_from` returns from `k`.
proof fn lemma_find_first(s: Seq<char>, p: Seq<char>, k: int, j: int)
    requires
        0 <= k <= j,
        occurs_at(s, p, j),
    ensures
        find_from(s, p, k) matches Some(i) && i <= j,
    decreases j - k,
{
    if !occurs_at(s, p, k) {
        lemma_find_first(s, p, k + 1, j);
    }
}

/// What `find_from` returns is an occurrence at or after `k`.
proof fn lemma_find_bounds(s: Seq<char>, p: Seq<char>, k: int)
    ensures
        find_from(s, p, k) matches Some(i) ==> k <= i && occurs_at(s, p, i),
    decreases s.len() + 1 - k,
{
    if k >= 0 && k + p.len() <= s.len() && !occurs_at(s, p, k) {
        lemma_find_bounds(s, p, k + 1);
    }
}

/// Neither the name nor the description of a block's entry holds a separator.
pub proof fn lemma_entry_free_of_separator(t: Seq<char>)
    requires
        block_entry(t) is Some,
    ensures
        free_of_separator(block_entry(t)->0.name),
        free_of_separator(block_entry(t)->0.description),
{
    let e = block_entry(t)->0;
    let i = find_from(t, separator(), 0)->0;
    lemma_find_bounds(t, separator(), 0);
    assert forall|j: int| !(#[trigger] occurs_at(e.name, separator(), j)) by {
        if occurs_at(e.name, separator(), j) {
            assert(t.subrange(j, j + 3) =~= e.name.subrange(j, j + 3));
            lemma_find_first(t, separator(), 0, j);
        }
    }
    let rest = t.subrange(i + 3, t.len() as int);
    lemma_find_bounds(rest, separator(), 0);
    assert forall|j: int| !(#[trigger] occurs_at(e.description, separator(), j)) by {
        if occurs_at(e.description, separator(), j) {
            assert(rest.subrange(j, j + 3) =~= e.description.subrange(j, j + 3));
            lemma_find_first(rest, separator(), 0, j);
        }
    }
}

/// The entries of a result page, one per block text and in the same order;
/// `None` when some block text holds no separator.
pub open spec fn entries_of(texts: Seq<Seq<char>>) -> Option<Seq<EntryView>> {
    if forall|i: int| 0 <= i < texts.len() ==> (#[trigger] block_entry(texts[i])) is Some {
        Some(texts.map_values(|t: Seq<char>| block_entry(t)->0))
    } else {
        None
    }
}

/// `i` is the position of the first block text that holds no separator.
pub open spec fn first_malformed(texts: Seq<Seq<char>>, i: int) -> bool {
    0 <= i < texts.len() && block_entry(texts[i]) is None && forall|j: int|
        0 <= j < i ==> (#[trigger] block_entry(texts[j])) is Some
}

/// The position of the first block text that holds no separator.
pub open spec fn malformed_index(texts: Seq<Seq<char>>) -> int {
    choose|i: int| first_malformed(texts, i)
}

/// Only one position is the first malformed one, and it is what
/// `malformed_index` picks; the texts then give no entries.
pub proof fn lemma_first_malformed_unique(texts: Seq<Seq<char>>, i: int)
    requires
        first_malformed(texts, i),
    ensures
        malformed_index(texts) == i,
        entries_of(texts) is None,
{
    let k = malformed_index(texts);
    assert(first_malformed(texts, k));
    if k < i {
        assert(block_entry(texts[k]) is Some);
    } else if i < k {
        assert(block_entry(texts[i]) is Some);
    }
}

/// Why a result page yields no list of entries.
#[derive(PartialEq, Eq, Structural, Clone, Copy, Debug)]
pub enum ExtractError {
    /// A selector the extractor relies on was refused by the HTML library.
    BadSelector,
    /// The block at this position holds no separator.
    MalformedBlock(usize),
}

/// Turns the texts of a page's result blocks into entries, in order.
pub fn entries_from_texts(texts: &Vec<String>) -> (r: Result<Vec<Entry>, ExtractError>)
    ensures
        match r {
            Ok(v) => entries_of(texts@.map_values(|t: String| t@)) == Some(
                v@.map_values(|e: Entry| e@),
            ),
            Err(ExtractError::MalformedBlock(i)) => first_malformed(
                texts@.map_values(|t: String| t@),
                i as int,
            ),
            Err(ExtractError::BadSelector) => false,
        },
{
    let ghost ts = texts@.map_values(|t: String| t@);
    let mut v: Vec<Entry> = Vec::new();
    let mut i: usize = 0;
    while i < texts.len()
        invariant
            i <= texts@.len(),
            ts == texts@.map_values(|t: String| t@),
            v@.len() == i,
            forall|j: int| 0 <= j < i ==> block_entry(ts[j]) == Some(#[trigger] v@[j]@),
            forall|j: int| 0 <= j < i ==> (#[trigger] block_entry(ts[j])) is Some,
        decreases texts@.len() - i,
    {
        match parse_block(texts[i].as_str()) {
            None => {
                assert(ts[i as int] == texts[i as int]@);
                return Err(ExtractError::MalformedBlock(i));
            },
            Some(e) => {
                assert(ts[i as int] == texts[i as int]@);
                v.push(e);
            },
        }
        i = i + 1;
    }
    proof {
        assert(entries_of(ts) is Some);
        assert(ts.map_values(|t: Seq<char>| block_entry(t)->0) =~= v@.map_values(|e: Entry| e@));
    }
    Ok(v)
}

/// A page whose every block holds the separator yields exactly one entry per
/// block, and the entries stand in the order of the blocks.
pub proof fn lemma_one_entry_per_block(texts: Seq<Seq<char>>)
    requires
        forall|i: int| 0 <= i < texts.len() ==> (#[trigger] block_entry(texts[i])) is Some,
    ensures
        entries_of(texts) matches Some(v) && v.len() == texts.len() && forall|i: int|
            0 <= i < texts.len() ==> Some(#[trigger] v[i]) == block_entry(texts[i]),
{
}

} // verus!
