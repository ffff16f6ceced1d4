use vstd::prelude::*;
use vstd::string::StrSliceExecFns;
use crate::entry::Item;

verus! {

/// What `str::to_lowercase` makes of a string.
pub uninterp spec fn lower_of(s: Seq<char>) -> Seq<char>;

/// Relies on `str::to_lowercase`: the lowercase form of a string, which
/// depends on its characters alone.
#[verifier::external_body]
fn lowercase(s: &str) -> (r: String)
    ensures
        r@ == lower_of(s@),
{
    s.to_lowercase()
}

/// A key matches a first character equal to it, or to its ASCII lowercase form.
pub open spec fn key_matches(first: char, key: char) -> bool {
    first == key || (65 <= key as u32 <= 90 && first as u32 == key as u32 + 32)
}

/// Whether an already lowercased name starts with the key.
pub open spec fn folded_starts_with(folded: Seq<char>, key: char) -> bool {
    folded.len() > 0 && key_matches(folded[0], key)
}

/// Whether the item is a real entry whose lowercased name starts with the key.
pub open spec fn item_hit(item: Item, key: char) -> bool {
    match item {
        Item::Entry(e) => folded_starts_with(lower_of(e.name@), key),
        _ => false,
    }
}

/// Position `d` steps after `start` in a cyclic list of `len` positions.
pub open spec fn cyclic_index(len: int, start: int, d: int) -> int {
    if start + d < len {
        start + d
    } else {
        start + d - len
    }
}

/// First hit at `d` or more steps after `start`, before coming back to it;
/// `start` where there is none.
pub open spec fn search_from(hits: Seq<bool>, start: int, d: int) -> int
    decreases hits.len() - d,
{
    if d >= hits.len() || d < 1 {
        start
    } else if hits[cyclic_index(hits.len() as int, start, d)] {
        cyclic_index(hits.len() as int, start, d)
    } else {
        search_from(hits, start, d + 1)
    }
}

/// The selection after a letter jump over `hits`, starting just after `start`.
pub open spec fn cyclic_next(hits: Seq<bool>, start: int) -> int {
    search_from(hits, start, 1)
}

proof fn lemma_search_skips(hits: Seq<bool>, start: int, d: int)
    requires
        0 <= start < hits.len(),
        1 <= d,
        forall|i: int| 0 <= i < hits.len() && i != start ==> !#[trigger] hits[i],
    ensures
        search_from(hits, start, d) == start,
    decreases hits.len() - d,
{
    if d < hits.len() {
        lemma_search_skips(hits, start, d + 1);
    }
}

proof fn lemma_search_finds(hits: Seq<bool>, start: int, d: int, m: int, k: int)
    requires
        0 <= start < hits.len(),
        0 <= m < hits.len(),
        1 <= d <= k < hits.len(),
        cyclic_index(hits.len() as int, start, k) == m,
        hits[m],
        forall|i: int| 0 <= i < hits.len() && i != m ==> !#[trigger] hits[i],
    ensures
        search_from(hits, start, d) == m,
    decreases hits.len() - d,
{
    if d < k {
        lemma_search_finds(hits, start, d + 1, m, k);
    }
}

/// Letter jump over a list with exactly one matching item lands on that item,
/// from any starting position.
pub proof fn lemma_letter_jump_unique(items: Seq<Item>, key: char, start: int, m: int)
    requires
        0 <= start < items.len(),
        0 <= m < items.len(),
        item_hit(items[m], key),
        forall|i: int| 0 <= i < items.len() && i != m ==> !item_hit(#[trigger] items[i], key),
    ensures
        cyclic_next(items.map_values(|it: Item| item_hit(it, key)), start) == m,
{
    let hits = items.map_values(|it: Item| item_hit(it, key));
    assert forall|i: int| 0 <= i < hits.len() && i != m implies !#[trigger] hits[i] by {
        assert(!item_hit(items[i], key));
    }
    if m == start {
        lemma_search_skips(hits, start, 1);
    } else {
        let k = if m > start { m - start } else { m + hits.len() - start };
        lemma_search_finds(hits, start, 1, m, k);
    }
}

/// Letter jump over a list with no matching item keeps the selection.
pub proof fn lemma_letter_jump_none(items: Seq<Item>, key: char, start: int)
    requires
        0 <= start < items.len(),
        forall|i: int| 0 <= i < items.len() ==> !item_hit(#[trigger] items[i], key),
    ensures
        cyclic_next(items.map_values(|it: Item| item_hit(it, key)), start) == start,
{
    let hits = items.map_values(|it: Item| item_hit(it, key));
    assert forall|i: int| 0 <= i < hits.len() && i != start implies !#[trigger] hits[i] by {
        assert(!item_hit(items[i], key));
    }
    lemma_search_skips(hits, start, 1);
}

/// Whether an already lowercased name starts with the key.
pub fn starts_with_key(folded: &str, key: char) -> (r: bool)
    ensures
        r == folded_starts_with(folded@, key),
{
    if folded.unicode_len() == 0 {
        false
    } else {
        let first = folded.get_char(0);
        first == key || (65 <= key as u32 && key as u32 <= 90 && first as u32 == key as u32 + 32)
    }
}

/// Finds the next hit after `start`, wrapping around; `start` where no other
/// position is a hit.
pub fn next_match(hits: &Vec<bool>, start: usize) -> (r: usize)
    requires
        start < hits@.len(),
    ensures
        r == cyclic_next(hits@, start as int),
        r < hits@.len(),
{
    let len = hits.len();
    let mut d: usize = 1;
    while d < len
        invariant
            1 <= d <= len,
            len == hits@.len(),
            start < len,
            search_from(hits@, start as int, 1) == search_from(hits@, start as int, d as int),
        decreases len - d,
    {
        let idx: usize = if d < len - start { start + d } else { d - (len - start) };
        assert(idx == cyclic_index(len as int, start as int, d as int));
        if hits[idx] {
            return idx;
        }
        d = d + 1;
    }
    start
}

/// Marks the items that a letter jump with `key` may land on.
pub fn letter_hits(items: &Vec<Item>, key: char) -> (r: Vec<bool>)
    ensures
        r@.len() == items@.len(),
        forall|i: int| 0 <= i < items@.len() ==> r@[i] == item_hit(#[trigger] items@[i], key),
{
    let mut hits: Vec<bool> = Vec::new();
    let mut i: usize = 0;
    while i < items.len()
        invariant
            i <= items@.len(),
            hits@.len() == i,
            forall|j: int| 0 <= j < i ==> hits@[j] == item_hit(#[trigger] items@[j], key),
        decreases items@.len() - i,
    {
        let hit = match &items[i] {
            Item::Entry(e) => {
                let folded = lowercase(e.name.as_str());
                starts_with_key(folded.as_str(), key)
            },
            _ => false,
        };
        hits.push(hit);
        i = i + 1;
    }
    hits
}

/// The selection after pressing a letter: the next real entry after the
/// selected one whose name starts with the letter, ignoring case, wrapping
/// around; the selection is kept where no other entry matches.
pub fn letter_jump(items: &Vec<Item>, selected: usize, key: char) -> (r: usize)
    requires
        selected < items@.len(),
    ensures
        r == cyclic_next(items@.map_values(|it: Item| item_hit(it, key)), selected as int),
        r < items@.len(),
{
    let hits = letter_hits(items, key);
    assert(hits@ == items@.map_values(|it: Item| item_hit(it, key)));
    next_match(&hits, selected)
}

} // verus!
