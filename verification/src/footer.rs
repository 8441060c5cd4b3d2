//! The key hints shown at the bottom of the main screen.

use crate::state::Tab;
use vstd::prelude::*;

verus! {

/// The narrowest footer that shows the full hints.
pub const MIN_FOOTER_WIDTH: u16 = 60;

/// A key and what it does.
#[derive(PartialEq, Eq, Debug)]
pub struct Hint {
    pub key: &'static str,
    pub label: &'static str,
}

pub open spec fn hint_view(h: Hint) -> (Seq<char>, Seq<char>) {
    (h.key@, h.label@)
}

pub open spec fn hint_views(hs: Seq<Hint>) -> Seq<(Seq<char>, Seq<char>)> {
    hs.map_values(|h: Hint| hint_view(h))
}

/// The navigation hints (left) and the action hints (right) of a tab.
pub open spec fn tab_hints(tab: Tab) -> (Seq<(Seq<char>, Seq<char>)>, Seq<(Seq<char>, Seq<char>)>) {
    match tab {
        Tab::Selector => (
            seq![("↑↓"@, ": 移動"@), ("←→"@, ": カラム切替"@), ("Tab"@, ": タブ切替"@)],
            seq![("Space"@, ": 選択"@), ("Enter"@, ": 確定"@), ("q"@, ": 終了"@)],
        ),
        _ => (seq![("↑↓"@, ": 移動"@), ("Tab"@, ": タブ切替"@)], seq![("q"@, ": 終了"@)]),
    }
}

/// The single line of hints of a footer too narrow for the full ones.
pub open spec fn compact_hints() -> Seq<(Seq<char>, Seq<char>)> {
    seq![("Tab"@, ": タブ"@), ("q"@, ": 終了"@)]
}

fn hint(key: &'static str, label: &'static str) -> (h: Hint)
    ensures
        h.key@ == key@,
        h.label@ == label@,
{
    Hint { key, label }
}

/// The hints of the footer of a tab at a given inner width: the full
/// navigation and action hints when the footer is at least
/// `MIN_FOOTER_WIDTH` wide, otherwise the compact hints on the left alone.
pub fn footer_hints(tab: Tab, width: u16) -> (r: (Vec<Hint>, Vec<Hint>))
    ensures
        width >= MIN_FOOTER_WIDTH ==> (hint_views(r.0@), hint_views(r.1@)) == tab_hints(tab),
        width < MIN_FOOTER_WIDTH ==> hint_views(r.0@) == compact_hints() && r.1@.len() == 0,
{
    if width < MIN_FOOTER_WIDTH {
        let left = vec![hint("Tab", ": タブ"), hint("q", ": 終了")];
        assert(hint_views(left@) =~= compact_hints());
        let right: Vec<Hint> = Vec::new();
        return (left, right);
    }
    match tab {
        Tab::Selector => {
            let left = vec![hint("↑↓", ": 移動"), hint("←→", ": カラム切替"), hint("Tab", ": タブ切替")];
            let right = vec![hint("Space", ": 選択"), hint("Enter", ": 確定"), hint("q", ": 終了")];
            assert(hint_views(left@) =~= tab_hints(tab).0);
            assert(hint_views(right@) =~= tab_hints(tab).1);
            (left, right)
        },
        _ => {
            let left = vec![hint("↑↓", ": 移動"), hint("Tab", ": タブ切替")];
            let right = vec![hint("q", ": 終了")];
            assert(hint_views(left@) =~= tab_hints(tab).0);
            assert(hint_views(right@) =~= tab_hints(tab).1);
            (left, right)
        },
    }
}

/// The position of a tab in the tab bar.
pub fn tab_index(tab: Tab) -> (i: usize)
    ensures
        tab == Tab::Selector ==> i == 0,
        tab == Tab::Download ==> i == 1,
        tab == Tab::Settings ==> i == 2,
{
    match tab {
        Tab::Selector => 0,
        Tab::Download => 1,
        Tab::Settings => 2,
    }
}

} // verus!
