//! The entries the interface's pickers list — skills, MCP servers and
//! models — and what happens when a picker would open with nothing in it.
use vstd::prelude::*;
use crate::text::{first_line, first_line_of, join, join_strings, push_str, string_of, views};
use crate::tui::picker::{item_views, ItemView, PickerItem, PickerKind};

verus! {

/// A skill's entry: its name, the first line of its description, and its
/// first tag as badge (`skill` when it has none).
pub fn skill_item(name: &str, description: &str, tags: &Vec<String>) -> (it: PickerItem)
    ensures
        it@ == (ItemView {
            id: name@,
            title: name@,
            description: first_line(description@),
            badge: Some(if tags.len() > 0 { tags@[0]@ } else { "skill"@ }),
        }),
{
    let brief = first_line_of(description);
    let it = PickerItem::new(name, name, brief.as_str());
    if tags.len() > 0 {
        it.with_badge(tags[0].as_str())
    } else {
        it.with_badge("skill")
    }
}

/// An MCP server's entry: its command line and the configuration file that
/// declares it, badged by whether it is enabled.
pub fn mcp_server_item(name: &str, command: &str, args: &Vec<String>, config_path: &str, disabled: bool) -> (it: PickerItem)
    ensures
        it@ == (ItemView {
            id: name@,
            title: name@,
            description: command@ + " "@ + join(views(args@), " "@) + "  ("@ + config_path@ + ")"@,
            badge: Some(if disabled { "Disabled"@ } else { "Active"@ }),
        }),
{
    let mut d = string_of(command);
    push_str(&mut d, " ");
    let joined = join_strings(args, " ");
    push_str(&mut d, joined.as_str());
    push_str(&mut d, "  (");
    push_str(&mut d, config_path);
    push_str(&mut d, ")");
    let it = PickerItem::new(name, name, d.as_str());
    if disabled {
        it.with_badge("Disabled")
    } else {
        it.with_badge("Active")
    }
}

/// A model's entry: selected by its selection id, described by its API and
/// endpoint, badged by its provider.
pub fn model_item(selection_id: &str, title: &str, api_label: &str, base_url: &str, provider: &str) -> (it: PickerItem)
    ensures
        it@ == (ItemView {
            id: selection_id@,
            title: title@,
            description: api_label@ + " · "@ + base_url@,
            badge: Some(provider@),
        }),
{
    let mut d = string_of(api_label);
    push_str(&mut d, " · ");
    push_str(&mut d, base_url);
    PickerItem::new(selection_id, title, d.as_str()).with_badge(provider)
}

/// What a request to open a picker comes to: the picker opens on its
/// items, or, with none, the conversation gets a note instead.
pub enum PickerOpening {
    Open { kind: PickerKind, title: String, items: Vec<PickerItem> },
    Note(String),
}

/// Opens the picker when there is something to pick; otherwise the note is
/// the picker's own empty message, or `No items found.`.
pub fn picker_opening(kind: PickerKind, title: String, items: Vec<PickerItem>, empty_message: Option<String>) -> (r: PickerOpening)
    ensures
        items.len() > 0 ==> (r matches PickerOpening::Open { kind: k, title: t, items: its } && k == kind && t
            == title && item_views(its@) == item_views(items@)),
        items.len() == 0 ==> (r matches PickerOpening::Note(n) && n@ == match empty_message {
            Some(m) => m@,
            None => "No items found."@,
        }),
{
    if items.len() == 0 {
        match empty_message {
            Some(m) => PickerOpening::Note(m),
            None => PickerOpening::Note(string_of("No items found.")),
        }
    } else {
        PickerOpening::Open { kind, title, items }
    }
}

} // verus!
