//! The decisions of the terminal interface: which tab is shown after a key
//! press, and what each tab shows.

use vstd::prelude::*;

verus! {

/// The titles of the menu tabs, in tab order.
pub const MENU_TITLES: [&'static str; 2] = ["Device Management (d)", "Device Stats (s)"];

/// The tab shown after pressing `key` (the character of a character key,
/// `None` for any other key or for no key at all) while `active_tab` is
/// shown; `None` when the key ends the interface.
pub open spec fn next_tab_spec(active_tab: usize, key: Option<char>) -> Option<usize> {
    match key {
        Some(c) => if c == 'q' || c == 'c' {
            None
        } else if c == 'd' {
            Some(0)
        } else if c == 's' {
            Some(1)
        } else {
            Some(active_tab)
        },
        None => Some(active_tab),
    }
}

/// The tab shown after a key press: `q` and `c` quit (`None`), `d` shows
/// the device management tab, `s` the device stats tab, and any other key
/// leaves the tab as it is.
pub fn next_tab(active_tab: usize, key: Option<char>) -> (res: Option<usize>)
    ensures
        res == next_tab_spec(active_tab, key),
        res is None <==> (key == Some('q') || key == Some('c')),
        key == Some('d') ==> res == Some(0usize),
        key == Some('s') ==> res == Some(1usize),
        (key is None || (key matches Some(c) && c != 'q' && c != 'c' && c != 'd' && c != 's'))
            ==> res == Some(active_tab),
{
    match key {
        Some(c) => {
            if c == 'q' || c == 'c' {
                None
            } else if c == 'd' {
                Some(0)
            } else if c == 's' {
                Some(1)
            } else {
                Some(active_tab)
            }
        },
        None => Some(active_tab),
    }
}

/// What the content area of a tab shows.
pub struct TabContent {
    pub text: &'static str,
    pub bold: bool,
}

/// The content shown under tab `selected_tab` (one of the three tabs 0, 1, 2).
pub fn content_for_tab(selected_tab: usize) -> (res: TabContent)
    requires
        selected_tab <= 2,
    ensures
        selected_tab == 0 ==> res.text@ == "Great terminal interfaces start with a single widget."@
            && !res.bold,
        selected_tab == 1 ==> res.text@
            == "In the terminal, we don't just render widgets; we create dreams."@ && !res.bold,
        selected_tab == 2 ==> res.text@ == "Render boldly, style with purpose."@ && res.bold,
{
    if selected_tab == 0 {
        TabContent { text: "Great terminal interfaces start with a single widget.", bold: false }
    } else if selected_tab == 1 {
        TabContent {
            text: "In the terminal, we don't just render widgets; we create dreams.",
            bold: false,
        }
    } else {
        TabContent { text: "Render boldly, style with purpose.", bold: true }
    }
}

/// `d` shows the device management tab and `s` the device stats tab
/// whichever tab is shown; `q` and `c` quit; any other key, or no key,
/// leaves the shown tab as it is.
pub proof fn lemma_tab_keys(active_tab: usize)
    ensures
        next_tab_spec(active_tab, Some('d')) == Some(0usize),
        next_tab_spec(active_tab, Some('s')) == Some(1usize),
        next_tab_spec(active_tab, Some('q')) is None,
        next_tab_spec(active_tab, Some('c')) is None,
        next_tab_spec(active_tab, None) == Some(active_tab),
        forall|c: char|
            c != 'q' && c != 'c' && c != 'd' && c != 's' ==> #[trigger] next_tab_spec(active_tab, Some(c))
                == Some(active_tab),
{
}

/// Starting from the first tab, every sequence of key presses that has not
/// quit shows one of the menu's tabs: each key press keeps the tab shown
/// below the number of menu titles.
pub proof fn lemma_next_tab_stays_in_menu(active_tab: usize, key: Option<char>)
    requires
        active_tab < 2,
    ensures
        next_tab_spec(active_tab, key) matches Some(t) ==> t < 2,
{
}

} // verus!
