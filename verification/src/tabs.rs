//! The tab bar: how wide the tabs are, what a click on the bar does, and
//! which tab is shown after one is closed.
//!
//! Tabs are laid out from the left edge, all of the same width, followed by
//! the new-tab button; the right end of each tab holds its close button.

use vstd::prelude::*;

verus! {

/// Maximum width of a single tab in pixels.
pub const TAB_MAX_WIDTH: u32 = 200;

/// Width of the close button area in each tab.
pub const CLOSE_BTN_WIDTH: u32 = 20;

/// Width of the new tab (+) button.
pub const NEW_TAB_BTN_WIDTH: u32 = 32;

/// `a - b`, or 0 when `b` is larger.
pub open spec fn minus(a: u32, b: u32) -> u32 {
    if a >= b { (a - b) as u32 } else { 0 }
}

/// The width of each of `n` tabs in a window `window_width` pixels wide: an
/// even share of the space left of the new-tab button, at most the maximum.
pub open spec fn tab_width_of(window_width: u32, n: u32) -> u32 {
    let available = minus(window_width, NEW_TAB_BTN_WIDTH);
    if n > 0 {
        let share = (available / n) as u32;
        if share < TAB_MAX_WIDTH { share } else { TAB_MAX_WIDTH }
    } else {
        TAB_MAX_WIDTH
    }
}

/// The width of each of `num_tabs` tabs in a window `window_width` pixels
/// wide.
pub fn tab_width(window_width: u32, num_tabs: u32) -> (res: u32)
    ensures
        res == tab_width_of(window_width, num_tabs),
{
    let available = window_width.saturating_sub(NEW_TAB_BTN_WIDTH);
    if num_tabs > 0 {
        let share = available / num_tabs;
        if share < TAB_MAX_WIDTH {
            share
        } else {
            TAB_MAX_WIDTH
        }
    } else {
        TAB_MAX_WIDTH
    }
}

/// The tab shown after the tab `closed` of `len` tabs is closed, when `active`
/// was shown: the same tab, moved one place left when it came after the
/// closed one, or the new last tab when it is past the end.
pub open spec fn active_after_close(len: nat, active: nat, closed: nat) -> nat {
    let remaining = (len - 1) as nat;
    if active >= remaining {
        (remaining - 1) as nat
    } else if active > closed {
        (active - 1) as nat
    } else {
        active
    }
}

/// What closing the shown tab does: `None` when it is the only tab (it
/// stays), else the tab shown afterwards.
pub open spec fn close_current(len: nat, active: nat) -> Option<nat> {
    if len <= 1 {
        None
    } else {
        let remaining = (len - 1) as nat;
        Some(if active >= remaining { (remaining - 1) as nat } else { active })
    }
}

/// Close the shown tab `active` of `len` tabs: `None` when it is the only
/// one, else the index of the tab shown afterwards.
pub fn close_current_tab(len: usize, active: usize) -> (res: Option<usize>)
    requires
        len > 1 ==> active < len,
    ensures
        match res {
            Some(a) => close_current(len as nat, active as nat) == Some(a as nat),
            None => close_current(len as nat, active as nat) is None,
        },
{
    if len <= 1 {
        return None;
    }
    let remaining = len - 1;
    if active >= remaining {
        Some(remaining - 1)
    } else {
        Some(active)
    }
}

/// What a click on the tab bar does.
#[derive(Debug, Clone, Copy, PartialEq, Eq, Structural)]
pub enum TabClick {
    /// Nothing
    Nothing,
    /// Open a new tab (the + button)
    NewTab,
    /// Close tab `index`; tab `active` is shown afterwards
    Close { index: usize, active: usize },
    /// Show tab `index`
    Switch(usize),
}

/// What a click at `x` pixels from the left of the tab bar does, with
/// `num_tabs` tabs of which `active` is shown, in a window `window_width`
/// pixels wide. The number of tabs is taken modulo 2^32, as a pixel count.
pub open spec fn tab_click(x: u32, window_width: u32, num_tabs: nat, active: nat) -> TabClick {
    let n = num_tabs as u32;
    let w = tab_width_of(window_width, n);
    let end = n * w;
    if num_tabs == 0 {
        TabClick::Nothing
    } else if end <= x && x < end + NEW_TAB_BTN_WIDTH {
        TabClick::NewTab
    } else if x < end {
        let index = x / w;
        if index < num_tabs {
            let close_start = index * w + minus(w, CLOSE_BTN_WIDTH);
            if x >= close_start && num_tabs > 1 {
                TabClick::Close {
                    index: index as usize,
                    active: active_after_close(num_tabs, active, index as nat) as usize,
                }
            } else if index != active {
                TabClick::Switch(index as usize)
            } else {
                TabClick::Nothing
            }
        } else {
            TabClick::Nothing
        }
    } else {
        TabClick::Nothing
    }
}

/// What a click at `x` pixels from the left of the tab bar does.
pub fn tab_bar_click(x: u32, window_width: u32, num_tabs: usize, active: usize) -> (res: TabClick)
    ensures
        res == tab_click(x, window_width, num_tabs as nat, active as nat),
{
    if num_tabs == 0 {
        return TabClick::Nothing;
    }
    #[verifier::truncate]
    let n: u32 = num_tabs as u32;
    let w = tab_width(window_width, n);
    proof {
        let available = minus(window_width, NEW_TAB_BTN_WIDTH);
        if n > 0 {
            assert(n * (available / n) <= available) by (nonlinear_arith)
                requires
                    n > 0,
            ;
            assert(n * w <= n * (available / n)) by (nonlinear_arith)
                requires
                    w <= available / n,
            ;
        }
    }
    let end = n * w;
    if end <= x && x < end + NEW_TAB_BTN_WIDTH {
        return TabClick::NewTab;
    }
    if x < end {
        assert(w > 0) by (nonlinear_arith)
            requires
                x < n * w,
        ;
        let index = x / w;
        if (index as usize) < num_tabs {
            proof {
                assert(index * w + w <= n * w) by (nonlinear_arith)
                    requires
                        index == x / w,
                        w > 0,
                        x < n * w,
                ;
            }
            let close_start = index * w + w.saturating_sub(CLOSE_BTN_WIDTH);
            if x >= close_start && num_tabs > 1 {
                let i = index as usize;
                let remaining = num_tabs - 1;
                let new_active = if active >= remaining {
                    remaining - 1
                } else if active > i {
                    active - 1
                } else {
                    active
                };
                return TabClick::Close { index: i, active: new_active };
            }
            if index as usize != active {
                return TabClick::Switch(index as usize);
            }
        }
    }
    TabClick::Nothing
}

/// After a tab is closed, the tab shown is one of those that remain.
pub proof fn lemma_close_shows_remaining_tab(len: nat, active: nat, closed: nat)
    requires
        len > 1,
        active < len,
        closed < len,
    ensures
        active_after_close(len, active, closed) < len - 1,
        close_current(len, active) is Some,
        close_current(len, active).unwrap() < len - 1,
{
}

} // verus!
