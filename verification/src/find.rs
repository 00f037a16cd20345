//! Finding an entry of a menu by its id.

use crate::menu::MenuEntry;
use vstd::prelude::*;

verus! {

/// The id of an entry. Separators and native entries have none.
pub open spec fn entry_id(entry: MenuEntry) -> Option<Seq<char>> {
    match entry {
        MenuEntry::Submenu { id, .. } => Some(id@),
        MenuEntry::Check { id, .. } => Some(id@),
        _ => None,
    }
}

/// The way from an entry to the first entry with this id, in the order of a
/// depth-first walk: no step where the entry itself has the id, else the way
/// through the entries below it.
pub open spec fn found_in(entry: MenuEntry, id: Seq<char>) -> Option<Seq<int>>
    decreases entry, 0nat,
{
    if entry_id(entry) == Some(id) {
        Some(Seq::empty())
    } else {
        match entry {
            MenuEntry::Submenu { entries, .. } => found_from(entries, 0, id),
            _ => None,
        }
    }
}

/// The way to the first entry with this id among the entries from position
/// `from` on and what is below them: the position of the entry to go
/// through, then the way from there.
pub open spec fn found_from(entries: Vec<MenuEntry>, from: int, id: Seq<char>) -> Option<Seq<int>>
    decreases entries, entries.len() - from,
{
    if 0 <= from < entries.len() {
        match found_in(entries[from], id) {
            Some(way) => Some(seq![from] + way),
            None => found_from(entries, from + 1, id),
        }
    } else {
        None
    }
}

/// Whether the entry, or an entry below it at any depth, has this id.
pub open spec fn holds_id(entry: MenuEntry, id: Seq<char>) -> bool
    decreases entry, 0nat,
{
    entry_id(entry) == Some(id) || match entry {
        MenuEntry::Submenu { entries, .. } => holds_id_from(entries, 0, id),
        _ => false,
    }
}

/// [`holds_id`] for the entries from position `from` on.
pub open spec fn holds_id_from(entries: Vec<MenuEntry>, from: int, id: Seq<char>) -> bool
    decreases entries, entries.len() - from,
{
    0 <= from < entries.len() && (holds_id(entries[from], id) || holds_id_from(
        entries,
        from + 1,
        id,
    ))
}

/// The entry at the end of a way through `entries`, if the way leads to one.
pub open spec fn entry_along(entries: Vec<MenuEntry>, way: Seq<int>) -> Option<MenuEntry>
    decreases way.len(),
{
    if way.len() == 0 || !(0 <= way[0] < entries.len()) {
        None
    } else if way.len() == 1 {
        Some(entries[way[0]])
    } else {
        match entries[way[0]] {
            MenuEntry::Submenu { entries: below, .. } => entry_along(below, way.drop_first()),
            _ => None,
        }
    }
}

/// A way as a mathematical value.
pub open spec fn steps(way: Seq<usize>) -> Seq<int> {
    Seq::new(way.len(), |i: int| way[i] as int)
}

/// The view of a way that may be absent.
pub open spec fn option_steps(way: Option<Vec<usize>>) -> Option<Seq<int>> {
    match way {
        Some(found) => Some(steps(found@)),
        None => None,
    }
}

/// Whether an entry has this id.
fn has_id(entry: &MenuEntry, id: &str) -> (same: bool)
    ensures
        same == (entry_id(*entry) == Some(id@)),
{
    match entry {
        MenuEntry::Submenu { id: own, .. } => own.as_str().eq(id),
        MenuEntry::Check { id: own, .. } => own.as_str().eq(id),
        _ => false,
    }
}

/// Finds the first entry with this id, in the order of a depth-first walk,
/// and gives the way to it: the position of each entry to go through, from
/// the top. `None` where no entry has the id.
pub fn find_entry(entries: &Vec<MenuEntry>, id: &str) -> (way: Option<Vec<usize>>)
    ensures
        option_steps(way) == found_from(*entries, 0, id@),
    decreases entries,
{
    let mut index: usize = 0;
    while index < entries.len()
        invariant
            index <= entries.len(),
            found_from(*entries, 0, id@) == found_from(*entries, index as int, id@),
        decreases entries.len() - index,
    {
        let entry = &entries[index];
        let ghost below_entry = found_in(*entry, id@);
        if has_id(entry, id) {
            let mut way: Vec<usize> = Vec::new();
            way.push(index);
            assert(below_entry == Some(Seq::<int>::empty()));
            assert(steps(way@) =~= seq![index as int] + Seq::<int>::empty());
            return Some(way);
        }
        if let MenuEntry::Submenu { entries: below, .. } = entry {
            if let Some(mut way) = find_entry(below, id) {
                let ghost rest = steps(way@);
                way.insert(0, index);
                assert(below_entry == Some(rest));
                assert(steps(way@) =~= seq![index as int] + rest);
                return Some(way);
            }
        }
        assert(below_entry is None);
        index += 1;
    }
    None
}

/// The way that is found leads to an entry, and that entry has the id.
pub proof fn lemma_found_leads_to_id(entries: Vec<MenuEntry>, from: int, id: Seq<char>)
    ensures
        found_from(entries, from, id) matches Some(way) ==> entry_along(entries, way) matches Some(
            entry,
        ) && entry_id(entry) == Some(id),
    decreases entries, entries.len() - from,
{
    if 0 <= from < entries.len() {
        let entry = entries[from];
        match found_in(entry, id) {
            Some(below) => {
                let way = seq![from] + below;
                assert(way[0] == from);
                if below.len() > 0 {
                    assert(way.drop_first() =~= below);
                    match entry {
                        MenuEntry::Submenu { entries: inner, .. } => {
                            lemma_found_leads_to_id(inner, 0, id);
                        },
                        _ => {},
                    }
                } else {
                    lemma_found_is_longer(entry, id);
                }
            },
            None => {
                lemma_found_leads_to_id(entries, from + 1, id);
            },
        }
    }
}

/// A way that is found below an entry has a step: only the entry itself is
/// found without one.
proof fn lemma_found_is_longer(entry: MenuEntry, id: Seq<char>)
    ensures
        found_in(entry, id) matches Some(way) ==> (way.len() == 0 <==> entry_id(entry) == Some(
            id,
        )),
{
    if entry_id(entry) != Some(id) {
        match entry {
            MenuEntry::Submenu { entries, .. } => {
                if 0 < entries.len() {
                    match found_in(entries[0], id) {
                        Some(way) => {
                            assert((seq![0int] + way).len() > 0);
                        },
                        None => {
                            lemma_found_has_steps(entries, 1, id);
                        },
                    }
                }
            },
            _ => {},
        }
    }
}

/// A way that is found among entries has a step.
proof fn lemma_found_has_steps(entries: Vec<MenuEntry>, from: int, id: Seq<char>)
    ensures
        found_from(entries, from, id) matches Some(way) ==> way.len() > 0,
    decreases entries.len() - from,
{
    if 0 <= from < entries.len() {
        match found_in(entries[from], id) {
            Some(way) => {
                assert((seq![from] + way).len() > 0);
            },
            None => {
                lemma_found_has_steps(entries, from + 1, id);
            },
        }
    }
}

/// Something is found below an entry exactly where the entry, or an entry
/// below it at any depth, has the id.
pub proof fn lemma_found_in_iff_held(entry: MenuEntry, id: Seq<char>)
    ensures
        found_in(entry, id) is Some <==> holds_id(entry, id),
    decreases entry, 0nat,
{
    match entry {
        MenuEntry::Submenu { entries, .. } => {
            lemma_found_iff_held(entries, 0, id);
        },
        _ => {},
    }
}

/// Nothing is found exactly where no entry, at any depth, has the id.
pub proof fn lemma_found_iff_held(entries: Vec<MenuEntry>, from: int, id: Seq<char>)
    ensures
        found_from(entries, from, id) is Some <==> holds_id_from(entries, from, id),
    decreases entries, entries.len() - from,
{
    if 0 <= from < entries.len() {
        lemma_found_in_iff_held(entries[from], id);
        lemma_found_iff_held(entries, from + 1, id);
    }
}

} // verus!
