//! Roles as selectable items: a role's marker is its custom emoji, when the
//! emoji guild has it; and the split of roles into a preselected part and the
//! rest.

use vstd::prelude::*;
use crate::marker::Marker;
use crate::models::{Role, to_unsigned, unsigned_of};
use crate::selection::SelectableItem;
use crate::text::same_text;

verus! {

/// The marker of an emoji id, if the emoji is available.
pub open spec fn marker_for(emoji: i64, available: Seq<u64>) -> Option<Marker> {
    if available.contains(unsigned_of(emoji)) {
        Some(Marker::Custom(unsigned_of(emoji)))
    } else {
        None
    }
}

/// The item that stands for a role.
pub open spec fn role_item_spec(role: Role, available: Seq<u64>) -> SelectableItem {
    SelectableItem {
        id: role.id as i64,
        code: role.repr,
        title: role.title,
        marker: marker_for(role.emoji, available),
    }
}

/// Resolves a stored emoji id against the emojis that are available.
pub fn resolve_marker(emoji: i64, available: &Vec<u64>) -> (r: Option<Marker>)
    ensures
        r == marker_for(emoji, available@),
{
    let id = to_unsigned(emoji);
    let mut i: usize = 0;
    while i < available.len()
        invariant
            id == unsigned_of(emoji),
            i <= available@.len(),
            forall|k: int| 0 <= k < i ==> available@[k] != id,
        decreases available@.len() - i,
    {
        if available[i] == id {
            assert(available@[i as int] == id);
            return Some(Marker::Custom(id));
        }
        i = i + 1;
    }
    None
}

/// The item for a role: its id, its short code and title, and its emoji as
/// marker when available.
pub fn role_item(role: &Role, available: &Vec<u64>) -> (r: SelectableItem)
    ensures
        r == role_item_spec(*role, available@),
{
    SelectableItem {
        id: role.id as i64,
        code: role.repr.clone(),
        title: role.title.clone(),
        marker: resolve_marker(role.emoji, available),
    }
}

/// The items for a list of roles, in order.
pub fn role_items(roles: &Vec<Role>, available: &Vec<u64>) -> (r: Vec<SelectableItem>)
    ensures
        r@.len() == roles@.len(),
        forall|k: int| 0 <= k < roles@.len() ==> r@[k] == role_item_spec(#[trigger] roles@[k], available@),
{
    let mut r: Vec<SelectableItem> = Vec::new();
    let mut i: usize = 0;
    while i < roles.len()
        invariant
            i <= roles@.len(),
            r@.len() == i,
            forall|k: int| 0 <= k < i ==> r@[k] == role_item_spec(#[trigger] roles@[k], available@),
        decreases roles@.len() - i,
    {
        r.push(role_item(&roles[i], available));
        i = i + 1;
    }
    r
}

/// The items among the first `n` whose code is listed (`side`) or is not
/// (`!side`), in order.
pub open spec fn coded(items: Seq<SelectableItem>, codes: Seq<Seq<char>>, side: bool, n: int) -> Seq<SelectableItem>
    decreases n,
{
    if n <= 0 {
        Seq::<SelectableItem>::empty()
    } else if codes.contains(items[n - 1].code@) == side {
        coded(items, codes, side, n - 1).push(items[n - 1])
    } else {
        coded(items, codes, side, n - 1)
    }
}

/// The views of a list of strings.
pub open spec fn views_of(codes: Seq<String>) -> Seq<Seq<char>> {
    codes.map_values(|c: String| c@)
}

fn listed(codes: &Vec<String>, code: &String) -> (r: bool)
    ensures
        r == views_of(codes@).contains(code@),
{
    let mut i: usize = 0;
    while i < codes.len()
        invariant
            i <= codes@.len(),
            forall|k: int| 0 <= k < i ==> codes@[k]@ != code@,
        decreases codes@.len() - i,
    {
        if same_text(codes[i].as_str(), code.as_str()) {
            assert(views_of(codes@)[i as int] == code@);
            return true;
        }
        i = i + 1;
    }
    assert forall|k: int| 0 <= k < views_of(codes@).len() implies views_of(codes@)[k] != code@ by {
        assert(views_of(codes@)[k] == codes@[k]@);
    }
    false
}

/// Splits items into those whose code is among `codes` (the preselected
/// part) and the rest, each in the order given.
pub fn split_by_codes(items: Vec<SelectableItem>, codes: &Vec<String>) -> (r: (Vec<SelectableItem>, Vec<SelectableItem>))
    ensures
        r.0@ == coded(items@, views_of(codes@), true, items@.len() as int),
        r.1@ == coded(items@, views_of(codes@), false, items@.len() as int),
{
    let ghost all = items@;
    let n = items.len();
    let mut rest = items;
    let mut chosen: Vec<SelectableItem> = Vec::new();
    let mut others: Vec<SelectableItem> = Vec::new();
    let mut i: usize = 0;
    while i < n
        invariant
            n == all.len(),
            i <= n,
            rest@ == all.subrange(i as int, n as int),
            chosen@ == coded(all, views_of(codes@), true, i as int),
            others@ == coded(all, views_of(codes@), false, i as int),
        decreases n - i,
    {
        let it = rest.remove(0);
        assert(it == all[i as int]);
        if listed(codes, &it.code) {
            chosen.push(it);
        } else {
            others.push(it);
        }
        i = i + 1;
        assert(rest@ =~= all.subrange(i as int, n as int));
    }
    (chosen, others)
}

} // verus!
