//! The modal picker: a filterable list navigated from the keyboard.
use vstd::prelude::*;
use crate::text::{contains, lowercase, push_char, str_contains, string_of, to_lowercase};
use crate::types::message::{clone_opt_string, opt_view};

verus! {

/// What a picker is choosing.
#[derive(Debug, Clone, Copy, PartialEq, Eq, Structural)]
pub enum PickerKind {
    ResumeSession,
    SelectModel,
    SelectMode,
    SelectSkill,
    SelectMcp,
    SlashCommand,
}

pub open spec fn kind_title(k: PickerKind) -> Seq<char> {
    match k {
        PickerKind::ResumeSession => "📁 Resume Conversation Session"@,
        PickerKind::SelectModel => "🧠 Select Active LLM Model"@,
        PickerKind::SelectMode => "⚡ Select Multi-Agent Execution Mode"@,
        PickerKind::SelectSkill => "📖 Browse & Load Agent Skill"@,
        PickerKind::SelectMcp => "🔌 Connected MCP Servers & Tools"@,
        PickerKind::SlashCommand => "⚡ Slash Commands"@,
    }
}

impl PickerKind {
    pub fn default_title(&self) -> (r: &'static str)
        ensures
            r@ == kind_title(*self),
    {
        match self {
            PickerKind::ResumeSession => "📁 Resume Conversation Session",
            PickerKind::SelectModel => "🧠 Select Active LLM Model",
            PickerKind::SelectMode => "⚡ Select Multi-Agent Execution Mode",
            PickerKind::SelectSkill => "📖 Browse & Load Agent Skill",
            PickerKind::SelectMcp => "🔌 Connected MCP Servers & Tools",
            PickerKind::SlashCommand => "⚡ Slash Commands",
        }
    }
}

/// One entry of a picker.
#[derive(Debug)]
pub struct PickerItem {
    pub id: String,
    pub title: String,
    pub description: String,
    pub badge: Option<String>,
}

pub struct ItemView {
    pub id: Seq<char>,
    pub title: Seq<char>,
    pub description: Seq<char>,
    pub badge: Option<Seq<char>>,
}

impl View for PickerItem {
    type V = ItemView;

    open spec fn view(&self) -> ItemView {
        ItemView {
            id: self.id@,
            title: self.title@,
            description: self.description@,
            badge: opt_view(self.badge),
        }
    }
}

pub open spec fn item_views(v: Seq<PickerItem>) -> Seq<ItemView> {
    v.map_values(|it: PickerItem| it@)
}

impl PickerItem {
    pub fn new(id: &str, title: &str, description: &str) -> (it: PickerItem)
        ensures
            it.id@ == id@,
            it.title@ == title@,
            it.description@ == description@,
            it.badge is None,
    {
        PickerItem {
            id: string_of(id),
            title: string_of(title),
            description: string_of(description),
            badge: None,
        }
    }

    pub fn with_badge(self, badge: &str) -> (it: PickerItem)
        ensures
            it.id == self.id,
            it.title == self.title,
            it.description == self.description,
            it.badge matches Some(b) && b@ == badge@,
    {
        PickerItem { badge: Some(string_of(badge)), ..self }
    }

    pub fn duplicate(&self) -> (it: PickerItem)
        ensures
            it@ == self@,
    {
        PickerItem {
            id: self.id.clone(),
            title: self.title.clone(),
            description: self.description.clone(),
            badge: clone_opt_string(&self.badge),
        }
    }
}

/// Whether an item matches the lower-cased query `q`: its title,
/// description, id or badge contains it, compared lower-cased.
pub open spec fn item_matches(it: ItemView, q: Seq<char>) -> bool {
    ||| contains(lowercase(it.title), q)
    ||| contains(lowercase(it.description), q)
    ||| contains(lowercase(it.id), q)
    ||| (it.badge matches Some(b) && contains(lowercase(b), q))
}

/// The items of `items` matching `q`, in order.
pub open spec fn matching_items(items: Seq<ItemView>, q: Seq<char>) -> Seq<ItemView>
    decreases items.len(),
{
    if items.len() == 0 {
        Seq::empty()
    } else {
        let rest = matching_items(items.drop_last(), q);
        if item_matches(items.last(), q) {
            rest.push(items.last())
        } else {
            rest
        }
    }
}

/// The items shown under filter text `filter`: all of them when it is empty.
pub open spec fn shown_items(items: Seq<ItemView>, filter: Seq<char>) -> Seq<ItemView> {
    if filter.len() == 0 {
        items
    } else {
        matching_items(items, lowercase(filter))
    }
}

/// Keys the picker reacts to.
#[derive(Debug, Clone, Copy, PartialEq, Eq, Structural)]
pub enum KeyCode {
    Esc,
    Up,
    Down,
    PageUp,
    PageDown,
    Home,
    End,
    Enter,
    Backspace,
    Delete,
    Tab,
    Char(char),
    Other,
}

/// A key press: the key, and whether no modifier was held.
#[derive(Debug, Clone, Copy, PartialEq, Eq, Structural)]
pub struct KeyPress {
    pub code: KeyCode,
    pub plain: bool,
}

impl KeyPress {
    pub fn new(code: KeyCode, plain: bool) -> (k: KeyPress)
        ensures
            k.code == code,
            k.plain == plain,
    {
        KeyPress { code, plain }
    }
}

/// What a key did to the picker.
#[derive(Debug)]
pub enum PickerResult {
    Navigating,
    Filtering,
    Selected(PickerKind, PickerItem),
    Cancelled,
    Ignored,
}

/// A picker: open or not, what it picks, its title, its items, the selected
/// position among the shown items, and the filter typed so far.
#[derive(Debug)]
pub struct PickerState {
    pub is_open: bool,
    pub kind: PickerKind,
    pub title: String,
    pub items: Vec<PickerItem>,
    pub selected_index: usize,
    pub filter_text: String,
}

impl Default for PickerState {
    fn default() -> (p: PickerState)
        ensures
            !p.is_open,
            p.kind == PickerKind::SlashCommand,
            p.title@ == Seq::<char>::empty(),
            p.items@.len() == 0,
            p.selected_index == 0,
            p.filter_text@ == Seq::<char>::empty(),
    {
        PickerState {
            is_open: false,
            kind: PickerKind::SlashCommand,
            title: String::new(),
            items: Vec::new(),
            selected_index: 0,
            filter_text: String::new(),
        }
    }
}

/// Position after moving up among `count` shown items (wrapping to the end).
pub open spec fn index_up(idx: usize, count: nat) -> usize {
    if count == 0 {
        idx
    } else if idx == 0 {
        (count - 1) as usize
    } else {
        (idx - 1) as usize
    }
}

/// Position after moving down among `count` shown items (wrapping to 0).
pub open spec fn index_down(idx: usize, count: nat) -> usize {
    if count == 0 {
        idx
    } else {
        ((idx + 1) % (count as int)) as usize
    }
}

/// Position after moving `step` down, stopping at the last shown item.
pub open spec fn index_page_down(idx: usize, step: usize, count: nat) -> usize {
    if count == 0 {
        idx
    } else if idx + step < count - 1 {
        (idx + step) as usize
    } else {
        (count - 1) as usize
    }
}

/// Position after moving `step` up, stopping at 0.
pub open spec fn index_page_up(idx: usize, step: usize) -> usize {
    if idx >= step {
        (idx - step) as usize
    } else {
        0
    }
}

/// The selected item among `shown`: the one at `idx`, or the last when `idx`
/// is past the end; `None` when nothing is shown.
pub open spec fn selection(shown: Seq<ItemView>, idx: usize) -> Option<ItemView> {
    if shown.len() == 0 {
        None
    } else if idx < shown.len() - 1 {
        Some(shown[idx as int])
    } else {
        Some(shown[shown.len() - 1])
    }
}

/// The picker key bindings that move the selection: arrows always, `k` and
/// `j` when no modifier is held and nothing is typed.
pub open spec fn moves_up(key: KeyPress, filter: Seq<char>) -> bool {
    key.code == KeyCode::Up || (key.code == KeyCode::Char('k') && key.plain && filter.len() == 0)
}

pub open spec fn moves_down(key: KeyPress, filter: Seq<char>) -> bool {
    key.code == KeyCode::Down || (key.code == KeyCode::Char('j') && key.plain && filter.len() == 0)
}

impl PickerState {
    /// The items shown under the current filter.
    pub open spec fn shown(&self) -> Seq<ItemView> {
        shown_items(item_views(self.items@), self.filter_text@)
    }

    /// Whether `key` can be handled without the selected position
    /// overflowing.
    pub open spec fn key_fits(&self, key: KeyPress) -> bool {
        &&& moves_down(key, self.filter_text@) && self.shown().len() > 0 ==> self.selected_index < usize::MAX
        &&& key.code == KeyCode::PageDown && self.shown().len() > 0 ==> self.selected_index + 5 <= usize::MAX
    }

    pub fn new() -> (p: PickerState)
        ensures
            !p.is_open,
            p.kind == PickerKind::SlashCommand,
            p.title@ == Seq::<char>::empty(),
            p.items@.len() == 0,
            p.selected_index == 0,
            p.filter_text@ == Seq::<char>::empty(),
    {
        PickerState::default()
    }

    /// Opens the picker on `items`, titled `title` or else by its kind.
    pub fn open(&mut self, kind: PickerKind, title: Option<String>, items: Vec<PickerItem>)
        ensures
            final(self).is_open,
            final(self).kind == kind,
            final(self).title@ == (match title {
                Some(t) => t@,
                None => kind_title(kind),
            }),
            final(self).items@ == items@,
            final(self).selected_index == 0,
            final(self).filter_text@ == Seq::<char>::empty(),
    {
        self.is_open = true;
        self.title = match title {
            Some(t) => t,
            None => string_of(kind.default_title()),
        };
        self.kind = kind;
        self.items = items;
        self.selected_index = 0;
        self.filter_text = String::new();
    }

    /// Closes the picker and drops its items and filter; the kind and title
    /// stay.
    pub fn close(&mut self)
        ensures
            !final(self).is_open,
            final(self).kind == old(self).kind,
            final(self).title == old(self).title,
            final(self).items@.len() == 0,
            final(self).selected_index == 0,
            final(self).filter_text@ == Seq::<char>::empty(),
    {
        self.is_open = false;
        self.items = Vec::new();
        self.selected_index = 0;
        self.filter_text = String::new();
    }

    /// The items shown under the current filter, in order.
    pub fn filtered_items(&self) -> (r: Vec<PickerItem>)
        ensures
            item_views(r@) == self.shown(),
    {
        if self.filter_text.as_str().is_empty() {
            let mut all: Vec<PickerItem> = Vec::new();
            let mut i: usize = 0;
            while i < self.items.len()
                invariant
                    i <= self.items.len(),
                    item_views(all@) == item_views(self.items@).subrange(0, i as int),
                decreases self.items.len() - i,
            {
                let ghost before = item_views(all@);
                all.push(self.items[i].duplicate());
                assert(item_views(all@) =~= before.push(self.items@[i as int]@));
                assert(item_views(all@) =~= item_views(self.items@).subrange(0, i + 1));
                i += 1;
            }
            assert(item_views(self.items@).subrange(0, i as int) =~= item_views(self.items@));
            assert(self.filter_text@.len() == 0);
            return all;
        }
        let q = to_lowercase(self.filter_text.as_str());
        let mut out: Vec<PickerItem> = Vec::new();
        let mut i: usize = 0;
        while i < self.items.len()
            invariant
                i <= self.items.len(),
                q@ == lowercase(self.filter_text@),
                item_views(out@) == matching_items(item_views(self.items@).subrange(0, i as int), q@),
            decreases self.items.len() - i,
        {
            let it = &self.items[i];
            proof {
                let pre = item_views(self.items@).subrange(0, i + 1);
                assert(pre.drop_last() =~= item_views(self.items@).subrange(0, i as int));
                assert(pre.last() == it@);
            }
            let hit = str_contains(to_lowercase(it.title.as_str()).as_str(), q.as_str())
                || str_contains(to_lowercase(it.description.as_str()).as_str(), q.as_str())
                || str_contains(to_lowercase(it.id.as_str()).as_str(), q.as_str())
                || match &it.badge {
                Some(b) => str_contains(to_lowercase(b.as_str()).as_str(), q.as_str()),
                None => false,
            };
            if hit {
                let ghost before = item_views(out@);
                out.push(it.duplicate());
                assert(item_views(out@) =~= before.push(it@));
            }
            i += 1;
        }
        assert(item_views(self.items@).subrange(0, i as int) =~= item_views(self.items@));
        out
    }

    /// The selected item among those shown.
    pub fn selected_item(&self) -> (r: Option<PickerItem>)
        ensures
            match r {
                Some(it) => selection(self.shown(), self.selected_index) == Some(it@),
                None => selection(self.shown(), self.selected_index) is None,
            },
    {
        let filtered = self.filtered_items();
        if filtered.len() == 0 {
            return None;
        }
        let last = filtered.len() - 1;
        let idx = if self.selected_index < last {
            self.selected_index
        } else {
            last
        };
        assert(item_views(filtered@)[idx as int] == filtered@[idx as int]@);
        Some(filtered[idx].duplicate())
    }

    pub fn move_up(&mut self)
        ensures
            final(self).selected_index == index_up(old(self).selected_index, old(self).shown().len()),
            final(self).is_open == old(self).is_open,
            final(self).kind == old(self).kind,
            final(self).title == old(self).title,
            final(self).items == old(self).items,
            final(self).filter_text == old(self).filter_text,
    {
        let count = self.filtered_items().len();
        if count > 0 {
            if self.selected_index == 0 {
                self.selected_index = count - 1;
            } else {
                self.selected_index = self.selected_index - 1;
            }
        }
    }

    pub fn move_down(&mut self)
        requires
            old(self).shown().len() > 0 ==> old(self).selected_index < usize::MAX,
        ensures
            final(self).selected_index == index_down(old(self).selected_index, old(self).shown().len()),
            final(self).is_open == old(self).is_open,
            final(self).kind == old(self).kind,
            final(self).title == old(self).title,
            final(self).items == old(self).items,
            final(self).filter_text == old(self).filter_text,
    {
        let count = self.filtered_items().len();
        if count > 0 {
            self.selected_index = (self.selected_index + 1) % count;
        }
    }

    pub fn page_up(&mut self, step: usize)
        ensures
            final(self).selected_index == index_page_up(old(self).selected_index, step),
            final(self).is_open == old(self).is_open,
            final(self).kind == old(self).kind,
            final(self).title == old(self).title,
            final(self).items == old(self).items,
            final(self).filter_text == old(self).filter_text,
    {
        self.selected_index = self.selected_index.saturating_sub(step);
    }

    pub fn page_down(&mut self, step: usize)
        requires
            old(self).shown().len() > 0 ==> old(self).selected_index + step <= usize::MAX,
        ensures
            final(self).selected_index == index_page_down(old(self).selected_index, step, old(self).shown().len()),
            final(self).is_open == old(self).is_open,
            final(self).kind == old(self).kind,
            final(self).title == old(self).title,
            final(self).items == old(self).items,
            final(self).filter_text == old(self).filter_text,
    {
        let count = self.filtered_items().len();
        if count > 0 {
            let target = self.selected_index + step;
            self.selected_index = if target < count - 1 {
                target
            } else {
                count - 1
            };
        }
    }

    /// Whether `self` equals `other` in everything but the selected position.
    pub open spec fn same_but_index(&self, other: &PickerState) -> bool {
        &&& self.is_open == other.is_open
        &&& self.kind == other.kind
        &&& self.title == other.title
        &&& self.items == other.items
        &&& self.filter_text == other.filter_text
    }

    /// Whether `self` is `before` after `close`.
    pub open spec fn closed_from(&self, before: &PickerState) -> bool {
        &&& !self.is_open
        &&& self.kind == before.kind
        &&& self.title == before.title
        &&& self.items@.len() == 0
        &&& self.selected_index == 0
        &&& self.filter_text@ == Seq::<char>::empty()
    }

    /// Handles a key while the picker is shown: Esc cancels, arrows (and `k`,
    /// `j` when nothing is typed) move with wrap-around, PageUp/PageDown move
    /// by five, Home/End jump, Enter picks the selected item, Backspace and
    /// characters edit the filter and reset the selection; other keys are
    /// ignored.
    pub fn handle_key(&mut self, key: KeyPress) -> (r: PickerResult)
        requires
            old(self).key_fits(key),
        ensures
            key.code == KeyCode::Esc ==> final(self).closed_from(old(self)) && r is Cancelled,
            moves_up(key, old(self).filter_text@) ==> {
                &&& final(self).same_but_index(old(self))
                &&& final(self).selected_index == index_up(old(self).selected_index, old(self).shown().len())
                &&& r is Navigating
            },
            moves_down(key, old(self).filter_text@) ==> {
                &&& final(self).same_but_index(old(self))
                &&& final(self).selected_index == index_down(old(self).selected_index, old(self).shown().len())
                &&& r is Navigating
            },
            key.code == KeyCode::PageUp ==> {
                &&& final(self).same_but_index(old(self))
                &&& final(self).selected_index == index_page_up(old(self).selected_index, 5)
                &&& r is Navigating
            },
            key.code == KeyCode::PageDown ==> {
                &&& final(self).same_but_index(old(self))
                &&& final(self).selected_index == index_page_down(old(self).selected_index, 5, old(self).shown().len())
                &&& r is Navigating
            },
            key.code == KeyCode::Home ==> {
                &&& final(self).same_but_index(old(self))
                &&& final(self).selected_index == 0
                &&& r is Navigating
            },
            key.code == KeyCode::End ==> {
                &&& final(self).same_but_index(old(self))
                &&& final(self).selected_index == (if old(self).shown().len() > 0 {
                    (old(self).shown().len() - 1) as usize
                } else {
                    old(self).selected_index
                })
                &&& r is Navigating
            },
            key.code == KeyCode::Enter ==> {
                &&& final(self).closed_from(old(self))
                &&& match selection(old(self).shown(), old(self).selected_index) {
                    Some(v) => r matches PickerResult::Selected(k, it) && k == old(self).kind && it@ == v,
                    None => r is Cancelled,
                }
            },
            key.code == KeyCode::Backspace ==> {
                &&& final(self).is_open == old(self).is_open
                &&& final(self).kind == old(self).kind
                &&& final(self).title == old(self).title
                &&& final(self).items == old(self).items
                &&& final(self).filter_text@ == (if old(self).filter_text@.len() > 0 {
                    old(self).filter_text@.drop_last()
                } else {
                    old(self).filter_text@
                })
                &&& final(self).selected_index == 0
                &&& r is Filtering
            },
            key.code matches KeyCode::Char(c) ==> (!moves_up(key, old(self).filter_text@) && !moves_down(
                key,
                old(self).filter_text@,
            ) ==> {
                &&& final(self).is_open == old(self).is_open
                &&& final(self).kind == old(self).kind
                &&& final(self).title == old(self).title
                &&& final(self).items == old(self).items
                &&& final(self).filter_text@ == old(self).filter_text@.push(c)
                &&& final(self).selected_index == 0
                &&& r is Filtering
            }),
            key.code == KeyCode::Tab || key.code == KeyCode::Delete || key.code == KeyCode::Other ==> {
                &&& final(self).same_but_index(old(self))
                &&& final(self).selected_index == old(self).selected_index
                &&& r is Ignored
            },
    {
        let typed_nothing = self.filter_text.as_str().is_empty();
        match key.code {
            KeyCode::Esc => {
                self.close();
                PickerResult::Cancelled
            },
            KeyCode::Up => {
                self.move_up();
                PickerResult::Navigating
            },
            KeyCode::Down => {
                self.move_down();
                PickerResult::Navigating
            },
            KeyCode::PageUp => {
                self.page_up(5);
                PickerResult::Navigating
            },
            KeyCode::PageDown => {
                self.page_down(5);
                PickerResult::Navigating
            },
            KeyCode::Home => {
                self.selected_index = 0;
                PickerResult::Navigating
            },
            KeyCode::End => {
                let count = self.filtered_items().len();
                if count > 0 {
                    self.selected_index = count - 1;
                }
                PickerResult::Navigating
            },
            KeyCode::Enter => {
                let item = self.selected_item();
                let kind = self.kind;
                self.close();
                match item {
                    Some(selected) => PickerResult::Selected(kind, selected),
                    None => PickerResult::Cancelled,
                }
            },
            KeyCode::Backspace => {
                crate::text::pop_char(&mut self.filter_text);
                self.selected_index = 0;
                PickerResult::Filtering
            },
            KeyCode::Char(c) => {
                if c == 'k' && key.plain && typed_nothing {
                    self.move_up();
                    PickerResult::Navigating
                } else if c == 'j' && key.plain && typed_nothing {
                    self.move_down();
                    PickerResult::Navigating
                } else {
                    push_char(&mut self.filter_text, c);
                    self.selected_index = 0;
                    PickerResult::Filtering
                }
            },
            _ => PickerResult::Ignored,
        }
    }
}

} // verus!
