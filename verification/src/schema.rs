//! A menu from a description that carries its own labels.

use crate::menu::{are_planned, is_planned, MenuEntry, Planned};
use crate::text::option_text;
use vstd::prelude::*;

verus! {

/// One entry of a menu description that carries its own labels.
#[derive(Debug)]
pub struct MenuItemSchema {
    pub id: String,
    pub label: String,
    pub shortcut: Option<String>,
    pub submenu: Option<Vec<MenuItemSchema>>,
    pub tauri: Option<bool>,
}

/// The menu that one item of the description becomes. With items below it,
/// it holds what they become, see [`schema_below`]; without, it holds one
/// entry, the item itself, without shortcut.
pub open spec fn schema_plan(item: MenuItemSchema) -> Planned
    decreases item, 0nat,
{
    match item.submenu {
        Some(below) => Planned::Submenu {
            id: item.id@,
            label: item.label@,
            entries: schema_below(below, below.len() as int),
        },
        None => Planned::Submenu {
            id: item.id@,
            label: item.label@,
            entries: seq![Planned::Check { id: item.id@, label: item.label@, shortcut: None }],
        },
    }
}

/// What the `count` first items below a menu become, in their order: an
/// item with items below it is a menu, any other an entry of the application
/// with its shortcut.
pub open spec fn schema_below(items: Vec<MenuItemSchema>, count: int) -> Seq<Planned>
    decreases items, count,
{
    if 0 < count <= items.len() {
        let item = items[count - 1];
        schema_below(items, count - 1).push(
            if item.submenu is Some {
                schema_plan(item)
            } else {
                Planned::Check {
                    id: item.id@,
                    label: item.label@,
                    shortcut: option_text(item.shortcut),
                }
            },
        )
    } else {
        Seq::empty()
    }
}

/// The menu bar of a description: one menu for each item at the top.
pub open spec fn schema_bar(items: Vec<MenuItemSchema>, count: int) -> Seq<Planned>
    decreases count,
{
    if 0 < count <= items.len() {
        schema_bar(items, count - 1).push(schema_plan(items[count - 1]))
    } else {
        Seq::empty()
    }
}

/// One entry more behind entries that are as planned leaves them as planned.
proof fn lemma_planned_push(
    before: Seq<MenuEntry>,
    planned: Seq<Planned>,
    entry: MenuEntry,
    plan: Planned,
)
    requires
        are_planned(before, planned),
        is_planned(entry, plan),
    ensures
        are_planned(before.push(entry), planned.push(plan)),
{
    assert forall|i: int| 0 <= i < planned.push(plan).len() implies is_planned(
        before.push(entry)[i],
        #[trigger] planned.push(plan)[i],
    ) by {
        if i < planned.len() {
            assert(planned.push(plan)[i] == planned[i]);
            assert(before.push(entry)[i] == before[i]);
        }
    }
}

/// Plans the menu that one item of the description becomes.
pub fn create_menu_item(item: &MenuItemSchema) -> (entry: MenuEntry)
    ensures
        is_planned(entry, schema_plan(*item)),
    decreases item,
{
    let mut entries: Vec<MenuEntry> = Vec::new();
    match &item.submenu {
        Some(below) => {
            let mut index: usize = 0;
            while index < below.len()
                invariant
                    index <= below.len(),
                    item.submenu == Some(*below),
                    are_planned(entries@, schema_below(*below, index as int)),
                decreases below.len() - index,
            {
                let sub_item = &below[index];
                let ghost before = entries@;
                let ghost planned = schema_below(*below, index as int);
                if sub_item.submenu.is_some() {
                    proof {
                        let list = item.submenu->0;
                        assert(list == *below);
                        assert(decreases_to!(item => list));
                        assert(decreases_to!(list => list[index as int]));
                    }
                    entries.push(create_menu_item(sub_item));
                } else {
                    entries.push(
                        MenuEntry::Check {
                            id: sub_item.id.clone(),
                            label: sub_item.label.clone(),
                            shortcut: sub_item.shortcut.clone(),
                        },
                    );
                }
                index += 1;
                proof {
                    let plan = schema_below(*below, index as int).last();
                    assert(is_planned(entries@.last(), plan));
                    lemma_planned_push(before, planned, entries@.last(), plan);
                    assert(entries@ =~= before.push(entries@.last()));
                    assert(schema_below(*below, index as int) =~= planned.push(plan));
                }
            }
        },
        None => {
            entries.push(
                MenuEntry::Check {
                    id: item.id.clone(),
                    label: item.label.clone(),
                    shortcut: None,
                },
            );
            proof {
                let only = Planned::Check { id: item.id@, label: item.label@, shortcut: None };
                assert(is_planned(entries@[0], only));
                assert(are_planned(entries@, seq![only]));
            }
        },
    }
    MenuEntry::Submenu { id: item.id.clone(), label: item.label.clone(), entries }
}

/// Plans the menu bar of a description: one menu for each item at the top.
pub fn create_menu_from_schema(schema: &Vec<MenuItemSchema>) -> (entries: Vec<MenuEntry>)
    ensures
        are_planned(entries@, schema_bar(*schema, schema.len() as int)),
{
    let mut entries: Vec<MenuEntry> = Vec::new();
    let mut index: usize = 0;
    while index < schema.len()
        invariant
            index <= schema.len(),
            are_planned(entries@, schema_bar(*schema, index as int)),
        decreases schema.len() - index,
    {
        let ghost before = entries@;
        let ghost planned = schema_bar(*schema, index as int);
        entries.push(create_menu_item(&schema[index]));
        index += 1;
        proof {
            let plan = schema_plan(schema[index - 1]);
            lemma_planned_push(before, planned, entries@.last(), plan);
            assert(entries@ =~= before.push(entries@.last()));
        }
    }
    entries
}

} // verus!
