//! The application menu: which entries of its description show on a
//! platform, under which label, and as what kind of entry.

use crate::text::{option_text, split, split_text};
use serde_json::Value;
use vstd::prelude::*;

verus! {

/// A JSON document of `serde_json`. The menu reads its labels from one.
#[verifier::external_type_specification]
#[verifier::external_body]
pub struct ExValue(serde_json::Value);

/// The text that the document holds under `key` in the object under
/// `section`, as `Value`'s indexing by name and `Value::as_str` give it:
/// `None` where either name is missing or what is there is no text.
pub uninterp spec fn label_text(labels: Value, section: Seq<char>, key: Seq<char>) -> Option<
    Seq<char>,
>;

/// `Value`'s indexing by name, twice, then `Value::as_str`.
#[verifier::external_body]
pub(crate) fn label(labels: &Value, section: &str, key: &str) -> (text: Option<String>)
    ensures
        option_text(text) == label_text(*labels, section@, key@),
{
    labels[section][key].as_str().map(String::from)
}

/// One entry of the application menu description.
#[derive(Debug)]
pub struct MenuItem {
    pub id: String,
    pub shortcut: Option<String>,
    pub submenu: Option<Vec<MenuItem>>,
    pub maconly: Option<bool>,
    pub winlinuxonly: Option<bool>,
    pub keepopen: Option<bool>,
}

/// Whether an item is shown on the platform named `os`.
pub open spec fn item_included(item: &MenuItem, os: Seq<char>) -> bool {
    if item.maconly == Some(true) {
        os == "macos"@
    } else if item.winlinuxonly == Some(true) {
        os == "windows"@ || os == "linux"@
    } else {
        true
    }
}

pub fn should_include_item(item: &MenuItem, os: &str) -> (included: bool)
    ensures
        included == item_included(item, os@),
{
    if let Some(true) = item.maconly {
        return os.eq("macos");
    }
    if let Some(true) = item.winlinuxonly {
        return os.eq("windows") || os.eq("linux");
    }
    true
}

/// Whether an item is a real entry that shows on `os`: it is no separator and
/// it is included there.
pub open spec fn shown_entry(item: &MenuItem, os: Seq<char>) -> bool {
    item.id@ != "separator"@ && item_included(item, os)
}

/// Whether a separator at `index` has a shown entry on both sides.
pub open spec fn separator_needed(items: Seq<MenuItem>, index: int, os: Seq<char>) -> bool {
    &&& 0 < index
    &&& index + 1 < items.len()
    &&& shown_entry(&items[index - 1], os)
    &&& shown_entry(&items[index + 1], os)
}

pub fn should_add_separator(index: usize, items: &[MenuItem], os: &str) -> (needed: bool)
    requires
        0 < items@.len(),
        index <= items@.len(),
    ensures
        needed == separator_needed(items@, index as int, os@),
{
    let previous_item = index > 0 && !items[index - 1].id.as_str().eq("separator")
        && should_include_item(&items[index - 1], os);
    let next_item = index < items.len() - 1 && !items[index + 1].id.as_str().eq("separator")
        && should_include_item(&items[index + 1], os);
    previous_item && next_item
}

/// What the front end last reported about one menu entry.
#[derive(Debug)]
pub struct MenuItemState {
    disabled: Option<bool>,
    selected: Option<bool>,
}

impl MenuItemState {
    pub closed spec fn spec_disabled(&self) -> Option<bool> {
        self.disabled
    }

    pub closed spec fn spec_selected(&self) -> Option<bool> {
        self.selected
    }

    pub fn new(disabled: Option<bool>, selected: Option<bool>) -> (state: MenuItemState)
        ensures
            state.spec_disabled() == disabled,
            state.spec_selected() == selected,
    {
        MenuItemState { disabled, selected }
    }

    /// The entry can be used unless it was reported as disabled.
    pub fn enabled(&self) -> (on: bool)
        ensures
            on == (self.spec_disabled() != Some(true)),
    {
        match self.disabled {
            Some(d) => !d,
            None => true,
        }
    }

    /// The entry is ticked only when it was reported as selected.
    pub fn checked(&self) -> (on: bool)
        ensures
            on == (self.spec_selected() == Some(true)),
    {
        match self.selected {
            Some(s) => s,
            None => false,
        }
    }
}

/// The label of the entry with this id. An id with a dot names the section
/// and the key of its label by its two first parts; any other id is a key of
/// the section `menu`. An entry without label shows its id. An id has more
/// than one part exactly where it holds a dot, see
/// [`lemma_split_count`](crate::text::lemma_split_count).
pub open spec fn label_model(id: Seq<char>, labels: Value) -> Seq<char> {
    let parts = split_text(id, '.');
    let found = if parts.len() > 1 {
        label_text(labels, parts[0], parts[1])
    } else {
        label_text(labels, "menu"@, id)
    };
    match found {
        Some(text) => text,
        None => id,
    }
}

/// The label of the entry with this id.
pub fn entry_label(id: &String, labels: &Value) -> (text: String)
    ensures
        text@ == label_model(id@, *labels),
{
    let parts = split(id.as_str(), '.');
    let found = if parts.len() > 1 {
        label(labels, parts[0].as_str(), parts[1].as_str())
    } else {
        label(labels, "menu", id.as_str())
    };
    match found {
        Some(text) => text,
        None => id.clone(),
    }
}

/// The entries that the platform provides itself.
#[derive(Clone, Copy, Debug, PartialEq, Eq, Structural)]
pub enum NativeKind {
    Services,
    Hide,
    HideOthers,
    ShowAll,
    Minimize,
    Zoom,
}

/// The native entry that an id asks for, if it asks for one.
pub open spec fn native_kind(id: Seq<char>) -> Option<NativeKind> {
    if id == "macServices"@ {
        Some(NativeKind::Services)
    } else if id == "macHide"@ {
        Some(NativeKind::Hide)
    } else if id == "macHideOthers"@ {
        Some(NativeKind::HideOthers)
    } else if id == "macShowAll"@ {
        Some(NativeKind::ShowAll)
    } else if id == "macMinimize"@ {
        Some(NativeKind::Minimize)
    } else if id == "macZoom"@ {
        Some(NativeKind::Zoom)
    } else {
        None
    }
}

/// Exec form of [`native_kind`].
pub fn native_kind_of(id: &str) -> (kind: Option<NativeKind>)
    ensures
        kind == native_kind(id@),
{
    if id.eq("macServices") {
        Some(NativeKind::Services)
    } else if id.eq("macHide") {
        Some(NativeKind::Hide)
    } else if id.eq("macHideOthers") {
        Some(NativeKind::HideOthers)
    } else if id.eq("macShowAll") {
        Some(NativeKind::ShowAll)
    } else if id.eq("macMinimize") {
        Some(NativeKind::Minimize)
    } else if id.eq("macZoom") {
        Some(NativeKind::Zoom)
    } else {
        None
    }
}

/// One entry of the menu that is built.
#[derive(Debug)]
pub enum MenuEntry {
    /// A menu below this one.
    Submenu { id: String, label: String, entries: Vec<MenuEntry> },
    /// A line between two entries.
    Separator,
    /// An entry that the platform provides.
    Native { kind: NativeKind, label: String },
    /// An entry of the application, which can be ticked.
    Check { id: String, label: String, shortcut: Option<String> },
}

/// [`MenuEntry`] as a mathematical value.
pub enum Planned {
    Submenu { id: Seq<char>, label: Seq<char>, entries: Seq<Planned> },
    Separator,
    Native { kind: NativeKind, label: Seq<char> },
    Check { id: Seq<char>, label: Seq<char>, shortcut: Option<Seq<char>> },
}

/// Whether `entry` is the entry that `planned` describes.
pub open spec fn is_planned(entry: MenuEntry, planned: Planned) -> bool
    decreases planned,
{
    match planned {
        Planned::Submenu { id, label, entries } => entry matches MenuEntry::Submenu {
            id: entry_id,
            label: entry_label,
            entries: below,
        } && entry_id@ == id && entry_label@ == label && below@.len() == entries.len()
            && forall|i: int|
            0 <= i < entries.len() ==> is_planned(below@[i], #[trigger] entries[i]),
        Planned::Separator => entry is Separator,
        Planned::Native { kind, label } => entry matches MenuEntry::Native {
            kind: entry_kind,
            label: entry_label,
        } && entry_kind == kind && entry_label@ == label,
        Planned::Check { id, label, shortcut } => entry matches MenuEntry::Check {
            id: entry_id,
            label: entry_label,
            shortcut: entry_shortcut,
        } && entry_id@ == id && entry_label@ == label && option_text(entry_shortcut) == shortcut,
    }
}

/// Whether `entries` are, one by one, the entries that `planned` describes.
pub open spec fn are_planned(entries: Seq<MenuEntry>, planned: Seq<Planned>) -> bool {
    entries.len() == planned.len() && forall|i: int|
        0 <= i < planned.len() ==> is_planned(entries[i], #[trigger] planned[i])
}

/// The entry that the item at `index` of `items` becomes on the platform
/// `os`, or `None` where it does not show. An item with a menu below it is a
/// submenu; a separator shows between two entries only; an item whose id
/// asks for a native entry is that entry; any other item is an entry of the
/// application.
pub open spec fn entry_at(items: Vec<MenuItem>, index: int, labels: Value, os: Seq<char>) -> Option<
    Planned,
>
    decreases items, 0nat,
{
    if 0 <= index < items.len() {
        let item = items[index];
        let label = label_model(item.id@, labels);
        if !item_included(&item, os) {
            None
        } else {
            match item.submenu {
                Some(below) => Some(
                    Planned::Submenu {
                        id: item.id@,
                        label,
                        entries: entries_upto(below, below.len() as int, labels, os),
                    },
                ),
                None => if item.id@ == "separator"@ {
                    if separator_needed(items@, index, os) {
                        Some(Planned::Separator)
                    } else {
                        None
                    }
                } else {
                    match native_kind(item.id@) {
                        Some(kind) => Some(Planned::Native { kind, label }),
                        None => Some(
                            Planned::Check {
                                id: item.id@,
                                label,
                                shortcut: option_text(item.shortcut),
                            },
                        ),
                    }
                },
            }
        }
    } else {
        None
    }
}

/// The entries that the `count` first items of `items` become, in their
/// order.
pub open spec fn entries_upto(items: Vec<MenuItem>, count: int, labels: Value, os: Seq<char>) -> Seq<
    Planned,
>
    decreases items, count,
{
    if 0 < count <= items.len() {
        let before = entries_upto(items, count - 1, labels, os);
        match entry_at(items, count - 1, labels, os) {
            Some(entry) => before.push(entry),
            None => before,
        }
    } else {
        Seq::empty()
    }
}

/// The menu that a description becomes on the platform `os`.
pub open spec fn menu_plan(items: Vec<MenuItem>, labels: Value, os: Seq<char>) -> Seq<Planned> {
    entries_upto(items, items.len() as int, labels, os)
}

/// Plans the menu that a description becomes on the platform `os`, with the
/// labels of `labels`.
pub fn plan_menu(items: &Vec<MenuItem>, labels: &Value, os: &str) -> (entries: Vec<MenuEntry>)
    ensures
        are_planned(entries@, menu_plan(*items, *labels, os@)),
    decreases items,
{
    let mut entries: Vec<MenuEntry> = Vec::new();
    let mut index: usize = 0;
    while index < items.len()
        invariant
            index <= items.len(),
            are_planned(entries@, entries_upto(*items, index as int, *labels, os@)),
        decreases items.len() - index,
    {
        let item = &items[index];
        let ghost before = entries@;
        let ghost planned = entries_upto(*items, index as int, *labels, os@);
        if should_include_item(item, os) {
            let label = entry_label(&item.id, labels);
            match &item.submenu {
                Some(below) => {
                    let inner = plan_menu(below, labels, os);
                    entries.push(MenuEntry::Submenu { id: item.id.clone(), label, entries: inner });
                },
                None => {
                    if item.id.as_str().eq("separator") {
                        if should_add_separator(index, items.as_slice(), os) {
                            entries.push(MenuEntry::Separator);
                        }
                    } else {
                        match native_kind_of(item.id.as_str()) {
                            Some(kind) => entries.push(MenuEntry::Native { kind, label }),
                            None => entries.push(
                                MenuEntry::Check {
                                    id: item.id.clone(),
                                    label,
                                    shortcut: item.shortcut.clone(),
                                },
                            ),
                        }
                    }
                },
            }
        }
        index += 1;
        proof {
            match entry_at(*items, index - 1, *labels, os@) {
                Some(entry) => {
                    assert(entries@ =~= before.push(entries@.last()));
                    assert(is_planned(entries@.last(), entry));
                    assert forall|i: int| 0 <= i < planned.push(entry).len() implies is_planned(
                        entries@[i],
                        #[trigger] planned.push(entry)[i],
                    ) by {
                        if i < planned.len() {
                            assert(planned.push(entry)[i] == planned[i]);
                            assert(entries@[i] == before[i]);
                        }
                    }
                },
                None => {
                    assert(entries@ =~= before);
                },
            }
        }
    }
    entries
}

/// The label of a menu by its id: its label in the section `menu`, or the id
/// where it has none.
pub open spec fn menu_label(id: Seq<char>, labels: Value) -> Seq<char> {
    match label_text(labels, "menu"@, id) {
        Some(text) => text,
        None => id,
    }
}

/// Exec form of [`menu_label`].
pub fn label_of_menu(id: &String, labels: &Value) -> (text: String)
    ensures
        text@ == menu_label(id@, *labels),
{
    match label(labels, "menu", id.as_str()) {
        Some(text) => text,
        None => id.clone(),
    }
}

/// The menu that one item of the description becomes when every item at the
/// top is a menu of its own. Its label is that of [`menu_label`]. With items
/// below it, it holds what they become, see [`below_at`]; without, it holds
/// one entry, the item itself.
pub open spec fn item_plan(item: MenuItem, labels: Value, os: Seq<char>) -> Planned
    decreases item, 0nat,
{
    let label = menu_label(item.id@, labels);
    match item.submenu {
        Some(below) => Planned::Submenu {
            id: item.id@,
            label,
            entries: below_upto(below, below.len() as int, labels, os),
        },
        None => Planned::Submenu {
            id: item.id@,
            label,
            entries: seq![Planned::Check { id: item.id@, label, shortcut: None }],
        },
    }
}

/// The entry that the item at `index` of the items below a menu becomes, or
/// `None` where it does not show. A separator shows between two entries
/// only; an item whose id asks for a native entry is that entry; any other
/// item with items below it is a menu, see [`item_plan`]; the rest are
/// entries of the application.
pub open spec fn below_at(items: Vec<MenuItem>, index: int, labels: Value, os: Seq<char>) -> Option<
    Planned,
>
    decreases items, 0nat,
{
    if 0 <= index < items.len() {
        let item = items[index];
        let label = label_model(item.id@, labels);
        if !item_included(&item, os) {
            None
        } else if item.id@ == "separator"@ {
            if separator_needed(items@, index, os) {
                Some(Planned::Separator)
            } else {
                None
            }
        } else {
            match native_kind(item.id@) {
                Some(kind) => Some(Planned::Native { kind, label }),
                None => if item.submenu is Some {
                    Some(item_plan(item, labels, os))
                } else {
                    Some(
                        Planned::Check {
                            id: item.id@,
                            label,
                            shortcut: option_text(item.shortcut),
                        },
                    )
                },
            }
        }
    } else {
        None
    }
}

/// The entries that the `count` first items below a menu become, in their
/// order.
pub open spec fn below_upto(items: Vec<MenuItem>, count: int, labels: Value, os: Seq<char>) -> Seq<
    Planned,
>
    decreases items, count,
{
    if 0 < count <= items.len() {
        let before = below_upto(items, count - 1, labels, os);
        match below_at(items, count - 1, labels, os) {
            Some(entry) => before.push(entry),
            None => before,
        }
    } else {
        Seq::empty()
    }
}

/// Plans the menu that one item of the description becomes when every item
/// at the top is a menu of its own.
pub fn plan_menu_item(item: &MenuItem, labels: &Value, os: &str) -> (entry: MenuEntry)
    ensures
        is_planned(entry, item_plan(*item, *labels, os@)),
    decreases item,
{
    let label = label_of_menu(&item.id, labels);
    let mut entries: Vec<MenuEntry> = Vec::new();
    match &item.submenu {
        Some(below) => {
            let mut index: usize = 0;
            while index < below.len()
                invariant
                    index <= below.len(),
                    item.submenu == Some(*below),
                    are_planned(entries@, below_upto(*below, index as int, *labels, os@)),
                decreases below.len() - index,
            {
                let sub_item = &below[index];
                let ghost before = entries@;
                let ghost planned = below_upto(*below, index as int, *labels, os@);
                if should_include_item(sub_item, os) {
                    if sub_item.id.as_str().eq("separator") {
                        if should_add_separator(index, below.as_slice(), os) {
                            entries.push(MenuEntry::Separator);
                        }
                    } else {
                        let sub_label = entry_label(&sub_item.id, labels);
                        match native_kind_of(sub_item.id.as_str()) {
                            Some(kind) => entries.push(
                                MenuEntry::Native { kind, label: sub_label },
                            ),
                            None => if sub_item.submenu.is_some() {
                                proof {
                                    let list = item.submenu->0;
                                    assert(list == *below);
                                    assert(decreases_to!(item => list));
                                    assert(decreases_to!(list => list[index as int]));
                                }
                                entries.push(plan_menu_item(sub_item, labels, os));
                            } else {
                                entries.push(
                                    MenuEntry::Check {
                                        id: sub_item.id.clone(),
                                        label: sub_label,
                                        shortcut: sub_item.shortcut.clone(),
                                    },
                                );
                            },
                        }
                    }
                }
                index += 1;
                proof {
                    match below_at(*below, index - 1, *labels, os@) {
                        Some(entry) => {
                            assert(entries@ =~= before.push(entries@.last()));
                            assert(is_planned(entries@.last(), entry));
                            assert forall|i: int|
                                0 <= i < planned.push(entry).len() implies is_planned(
                                entries@[i],
                                #[trigger] planned.push(entry)[i],
                            ) by {
                                if i < planned.len() {
                                    assert(planned.push(entry)[i] == planned[i]);
                                    assert(entries@[i] == before[i]);
                                }
                            }
                        },
                        None => {
                            assert(entries@ =~= before);
                        },
                    }
                }
            }
        },
        None => {
            entries.push(
                MenuEntry::Check { id: item.id.clone(), label: label.clone(), shortcut: None },
            );
            proof {
                let only = Planned::Check {
                    id: item.id@,
                    label: menu_label(item.id@, *labels),
                    shortcut: None,
                };
                assert(is_planned(entries@[0], only));
                assert(are_planned(entries@, seq![only]));
            }
        },
    }
    MenuEntry::Submenu { id: item.id.clone(), label, entries }
}

/// The menu bar in which every item of the description that shows is a menu
/// of its own.
pub open spec fn menus_upto(items: Vec<MenuItem>, count: int, labels: Value, os: Seq<char>) -> Seq<
    Planned,
>
    decreases count,
{
    if 0 < count <= items.len() {
        let before = menus_upto(items, count - 1, labels, os);
        if item_included(&items[count - 1], os) {
            before.push(item_plan(items[count - 1], labels, os))
        } else {
            before
        }
    } else {
        Seq::empty()
    }
}

/// Plans the menu bar in which every item of the description that shows is a
/// menu of its own.
pub fn plan_menu_bar(items: &Vec<MenuItem>, labels: &Value, os: &str) -> (entries: Vec<MenuEntry>)
    ensures
        are_planned(entries@, menus_upto(*items, items.len() as int, *labels, os@)),
{
    let mut entries: Vec<MenuEntry> = Vec::new();
    let mut index: usize = 0;
    while index < items.len()
        invariant
            index <= items.len(),
            are_planned(entries@, menus_upto(*items, index as int, *labels, os@)),
        decreases items.len() - index,
    {
        let ghost before = entries@;
        let ghost planned = menus_upto(*items, index as int, *labels, os@);
        if should_include_item(&items[index], os) {
            entries.push(plan_menu_item(&items[index], labels, os));
            proof {
                let entry = item_plan(items[index as int], *labels, os@);
                assert(entries@ =~= before.push(entries@.last()));
                assert forall|i: int| 0 <= i < planned.push(entry).len() implies is_planned(
                    entries@[i],
                    #[trigger] planned.push(entry)[i],
                ) by {
                    if i < planned.len() {
                        assert(planned.push(entry)[i] == planned[i]);
                        assert(entries@[i] == before[i]);
                    }
                }
            }
        }
        index += 1;
    }
    entries
}

} // verus!
