//! Navigation: keyboard and pad speak the same language (`NavAction`) and
//! the grid moves by plain arithmetic.

use vstd::prelude::*;

use crate::input::{NavAction, PadKind};

verus! {

/// What is being played with right now, to know which button to show.
#[derive(Debug, Clone, Copy, PartialEq, Eq, Structural)]
pub enum InputSource {
    Xbox,
    PlayStation,
    KeyboardMouse,
}

impl InputSource {
    pub fn from_pad_kind(kind: PadKind) -> (s: InputSource)
        ensures
            s == (match kind {
                PadKind::Xbox => InputSource::Xbox,
                PadKind::PlayStation => InputSource::PlayStation,
            }),
    {
        match kind {
            PadKind::Xbox => InputSource::Xbox,
            PadKind::PlayStation => InputSource::PlayStation,
        }
    }

    /// Short name for the header ("1 mando (PlayStation)").
    pub fn short_name(self) -> (s: &'static str)
        ensures
            s@ == (match self {
                InputSource::Xbox => "Xbox"@,
                InputSource::PlayStation => "PlayStation"@,
                InputSource::KeyboardMouse => "teclado"@,
            }),
    {
        match self {
            InputSource::Xbox => "Xbox",
            InputSource::PlayStation => "PlayStation",
            InputSource::KeyboardMouse => "teclado",
        }
    }
}

/// The glyph of the button that fires `action` with this source.
/// Directions share one neutral glyph; face buttons follow the brand.
pub open spec fn label_of(source: InputSource, action: NavAction) -> Seq<char> {
    match action {
        NavAction::Up => "▲"@,
        NavAction::Down => "▼"@,
        NavAction::Left => "◀"@,
        NavAction::Right => "▶"@,
        _ => match source {
            InputSource::KeyboardMouse => match action {
                NavAction::Accept => "Enter"@,
                NavAction::Back => "Esc"@,
                NavAction::Context => "F2"@,
                NavAction::Favorite => "F"@,
                NavAction::Menu => "F1"@,
                NavAction::Search => "/"@,
                NavAction::TabPrev => "Mayus+Tab"@,
                NavAction::TabNext => "Tab"@,
                NavAction::PageUp => "RePag"@,
                NavAction::PageDown => "AvPag"@,
                _ => "F12"@,
            },
            InputSource::Xbox => match action {
                NavAction::Accept => "A"@,
                NavAction::Back => "B"@,
                NavAction::Context => "X"@,
                NavAction::Favorite => "Y"@,
                NavAction::Menu => "Start"@,
                NavAction::Search => "Select"@,
                NavAction::TabPrev => "LB"@,
                NavAction::TabNext => "RB"@,
                NavAction::PageUp => "LT"@,
                NavAction::PageDown => "RT"@,
                _ => "Guia"@,
            },
            InputSource::PlayStation => match action {
                NavAction::Accept => "✕"@,
                NavAction::Back => "○"@,
                NavAction::Context => "□"@,
                NavAction::Favorite => "△"@,
                NavAction::Menu => "Options"@,
                NavAction::Search => "Share"@,
                NavAction::TabPrev => "L1"@,
                NavAction::TabNext => "R1"@,
                NavAction::PageUp => "L2"@,
                NavAction::PageDown => "R2"@,
                _ => "PS"@,
            },
        },
    }
}

pub fn button_label(source: InputSource, action: NavAction) -> (s: &'static str)
    ensures
        s@ == label_of(source, action),
{
    match action {
        NavAction::Up => "▲",
        NavAction::Down => "▼",
        NavAction::Left => "◀",
        NavAction::Right => "▶",
        _ => match source {
            InputSource::KeyboardMouse => match action {
                NavAction::Accept => "Enter",
                NavAction::Back => "Esc",
                NavAction::Context => "F2",
                NavAction::Favorite => "F",
                NavAction::Menu => "F1",
                NavAction::Search => "/",
                NavAction::TabPrev => "Mayus+Tab",
                NavAction::TabNext => "Tab",
                NavAction::PageUp => "RePag",
                NavAction::PageDown => "AvPag",
                _ => "F12",
            },
            InputSource::Xbox => match action {
                NavAction::Accept => "A",
                NavAction::Back => "B",
                NavAction::Context => "X",
                NavAction::Favorite => "Y",
                NavAction::Menu => "Start",
                NavAction::Search => "Select",
                NavAction::TabPrev => "LB",
                NavAction::TabNext => "RB",
                NavAction::PageUp => "LT",
                NavAction::PageDown => "RT",
                _ => "Guia",
            },
            InputSource::PlayStation => match action {
                NavAction::Accept => "✕",
                NavAction::Back => "○",
                NavAction::Context => "□",
                NavAction::Favorite => "△",
                NavAction::Menu => "Options",
                NavAction::Search => "Share",
                NavAction::TabPrev => "L1",
                NavAction::TabNext => "R1",
                NavAction::PageUp => "L2",
                NavAction::PageDown => "R2",
                _ => "PS",
            },
        },
    }
}

/// The keys the shell listens to.
#[derive(Debug, Clone, Copy, PartialEq, Eq, Structural)]
pub enum Key {
    ArrowUp,
    W,
    ArrowDown,
    S,
    ArrowLeft,
    A,
    ArrowRight,
    D,
    Enter,
    Space,
    Escape,
    Backspace,
    F2,
    F,
    F1,
    Tab,
    PageUp,
    PageDown,
    F12,
    Slash,
}

/// The bindings, in the order they are checked.
pub open spec fn bindings() -> Seq<(Key, NavAction)> {
    seq![
        (Key::ArrowUp, NavAction::Up),
        (Key::W, NavAction::Up),
        (Key::ArrowDown, NavAction::Down),
        (Key::S, NavAction::Down),
        (Key::ArrowLeft, NavAction::Left),
        (Key::A, NavAction::Left),
        (Key::ArrowRight, NavAction::Right),
        (Key::D, NavAction::Right),
        (Key::Enter, NavAction::Accept),
        (Key::Space, NavAction::Accept),
        (Key::Escape, NavAction::Back),
        (Key::Backspace, NavAction::Back),
        (Key::F2, NavAction::Context),
        (Key::F, NavAction::Favorite),
        (Key::F1, NavAction::Menu),
        (Key::Tab, NavAction::TabNext),
        (Key::PageUp, NavAction::PageUp),
        (Key::PageDown, NavAction::PageDown),
        (Key::F12, NavAction::Guide),
    ]
}

fn binding_table() -> (v: Vec<(Key, NavAction)>)
    ensures
        v@ == bindings(),
{
    let mut v: Vec<(Key, NavAction)> = Vec::new();
    v.push((Key::ArrowUp, NavAction::Up));
    v.push((Key::W, NavAction::Up));
    v.push((Key::ArrowDown, NavAction::Down));
    v.push((Key::S, NavAction::Down));
    v.push((Key::ArrowLeft, NavAction::Left));
    v.push((Key::A, NavAction::Left));
    v.push((Key::ArrowRight, NavAction::Right));
    v.push((Key::D, NavAction::Right));
    v.push((Key::Enter, NavAction::Accept));
    v.push((Key::Space, NavAction::Accept));
    v.push((Key::Escape, NavAction::Back));
    v.push((Key::Backspace, NavAction::Back));
    v.push((Key::F2, NavAction::Context));
    v.push((Key::F, NavAction::Favorite));
    v.push((Key::F1, NavAction::Menu));
    v.push((Key::Tab, NavAction::TabNext));
    v.push((Key::PageUp, NavAction::PageUp));
    v.push((Key::PageDown, NavAction::PageDown));
    v.push((Key::F12, NavAction::Guide));
    assert(v@ =~= bindings());
    v
}

/// The actions of the bindings from the first up to `k`, given the keys
/// pressed this frame; Shift+Tab goes back a tab.
pub open spec fn bound_actions(pressed: Seq<Key>, shift: bool, k: int) -> Seq<NavAction>
    decreases k,
{
    if k <= 0 {
        seq![]
    } else {
        let prev = bound_actions(pressed, shift, k - 1);
        let (key, action) = bindings()[k - 1];
        if pressed.contains(key) {
            prev.push(if key == Key::Tab && shift {
                NavAction::TabPrev
            } else {
                action
            })
        } else {
            prev
        }
    }
}

/// The navigation actions of the keys pressed this frame: the bindings in
/// order, then search (`/`, or Ctrl+F).
pub open spec fn keyboard_actions_of(pressed: Seq<Key>, shift: bool, ctrl: bool) -> Seq<NavAction> {
    let b = bound_actions(pressed, shift, bindings().len() as int);
    if pressed.contains(Key::Slash) || (ctrl && pressed.contains(Key::F)) {
        b.push(NavAction::Search)
    } else {
        b
    }
}

fn pressed_has(pressed: &[Key], key: Key) -> (r: bool)
    ensures
        r == pressed@.contains(key),
{
    let mut i: usize = 0;
    while i < pressed.len()
        invariant
            i <= pressed.len(),
            forall|j: int| 0 <= j < i ==> pressed@[j] != key,
        decreases pressed.len() - i,
    {
        if pressed[i] == key {
            return true;
        }
        i += 1;
    }
    false
}

/// Translates the keys pressed this frame into navigation actions. The
/// keyboard's own repeat comes from the system.
pub fn keyboard_actions(pressed: &[Key], shift: bool, ctrl: bool) -> (actions: Vec<NavAction>)
    ensures
        actions@ == keyboard_actions_of(pressed@, shift, ctrl),
{
    let table = binding_table();
    let mut actions: Vec<NavAction> = Vec::new();
    let mut k: usize = 0;
    while k < table.len()
        invariant
            k <= table.len(),
            table@ == bindings(),
            actions@ == bound_actions(pressed@, shift, k as int),
        decreases table.len() - k,
    {
        let (key, action) = table[k];
        if pressed_has(pressed, key) {
            if key == Key::Tab && shift {
                actions.push(NavAction::TabPrev);
            } else {
                actions.push(action);
            }
        }
        k += 1;
    }
    if pressed_has(pressed, Key::Slash) || (ctrl && pressed_has(pressed, Key::F)) {
        actions.push(NavAction::Search);
    }
    actions
}

/// The focus after `action` in a grid of `columns` columns and `len` items.
///
/// Sideways moves never leave the row; up from the first row and down from
/// the last row stay put; down from an incomplete row lands on the last
/// item; a page is three rows, and Page Up keeps the column, going up as
/// many whole rows (at most three) as there are above.
pub open spec fn focus_after(current: nat, len: nat, columns: nat, action: NavAction) -> nat {
    if len == 0 {
        0
    } else {
        let last = (len - 1) as nat;
        let columns = if columns >= 1 {
            columns
        } else {
            1
        };
        let current = if current <= last {
            current
        } else {
            last
        };
        let page = columns * 3;
        match action {
            NavAction::Up => if current < columns {
                current
            } else {
                (current - columns) as nat
            },
            NavAction::Down => if current + columns <= last {
                current + columns
            } else if current / columns < last / columns {
                last
            } else {
                current
            },
            NavAction::Left => if current % columns == 0 {
                current
            } else {
                (current - 1) as nat
            },
            NavAction::Right => if current % columns == columns - 1 || current == last {
                current
            } else {
                current + 1
            },
            NavAction::PageUp => {
                let rows = if current / columns >= 3 {
                    3nat
                } else {
                    current / columns
                };
                (current - rows * columns) as nat
            },
            NavAction::PageDown => if current + page <= last {
                current + page
            } else {
                last
            },
            _ => current,
        }
    }
}

/// Moves the focus inside a grid of `columns` columns.
pub fn move_focus(current: usize, len: usize, columns: usize, action: NavAction) -> (r: usize)
    ensures
        r == focus_after(current as nat, len as nat, columns as nat, action),
{
    if len == 0 {
        return 0;
    }
    let last = len - 1;
    let columns = if columns >= 1 {
        columns
    } else {
        1
    };
    let current = if current <= last {
        current
    } else {
        last
    };
    match action {
        NavAction::Up => if current < columns {
            current
        } else {
            current - columns
        },
        NavAction::Down => if columns <= last - current {
            current + columns
        } else if current / columns < last / columns {
            last
        } else {
            current
        },
        NavAction::Left => if current % columns == 0 {
            current
        } else {
            assert(current >= 1) by (nonlinear_arith)
                requires
                    current % columns != 0,
                    columns >= 1,
            ;
            current - 1
        },
        NavAction::Right => if current % columns == columns - 1 || current == last {
            current
        } else {
            current + 1
        },
        NavAction::PageUp => {
            // Whole rows up, at most three, keeping the column.
            let row = current / columns;
            let rows: usize = if row >= 3 {
                3
            } else {
                row
            };
            assert(rows * columns <= current) by (nonlinear_arith)
                requires
                    rows <= current / columns,
                    columns >= 1,
            ;
            current - rows * columns
        },
        NavAction::PageDown => {
            if columns > (last - current) / 3 {
                assert(current + columns * 3 > last) by (nonlinear_arith)
                    requires
                        columns > (last - current) / 3,
                        current <= last,
                ;
                last
            } else {
                assert(current + columns * 3 <= last) by (nonlinear_arith)
                    requires
                        columns <= (last - current) / 3,
                        current <= last,
                ;
                current + columns * 3
            }
        },
        _ => current,
    }
}

/// The position after `action` in a plain vertical list that wraps at its
/// ends; a page is five items.
pub open spec fn list_after(current: nat, len: nat, action: NavAction) -> nat {
    if len == 0 {
        0
    } else {
        let last = (len - 1) as nat;
        let current = if current <= last {
            current
        } else {
            last
        };
        match action {
            NavAction::Up => if current == 0 {
                last
            } else {
                (current - 1) as nat
            },
            NavAction::Down => if current == last {
                0
            } else {
                current + 1
            },
            NavAction::PageUp => if current >= 5 {
                (current - 5) as nat
            } else {
                0
            },
            NavAction::PageDown => if current + 5 <= last {
                current + 5
            } else {
                last
            },
            _ => current,
        }
    }
}

/// Moves in a plain vertical list, wrapping at both ends.
pub fn move_list(current: usize, len: usize, action: NavAction) -> (r: usize)
    ensures
        r == list_after(current as nat, len as nat, action),
{
    if len == 0 {
        return 0;
    }
    let last = len - 1;
    let current = if current <= last {
        current
    } else {
        last
    };
    match action {
        NavAction::Up => if current == 0 {
            last
        } else {
            current - 1
        },
        NavAction::Down => if current == last {
            0
        } else {
            current + 1
        },
        NavAction::PageUp => current.saturating_sub(5),
        NavAction::PageDown => if last - current >= 5 {
            current + 5
        } else {
            last
        },
        _ => current,
    }
}

/// The focus always lands on an item (or on 0 in an empty grid).
pub proof fn lemma_focus_in_bounds(current: nat, len: nat, columns: nat, action: NavAction)
    ensures
        len > 0 ==> focus_after(current, len, columns, action) < len,
        len == 0 ==> focus_after(current, len, columns, action) == 0,
{
    if len > 0 {
        let last = (len - 1) as nat;
        let cols = if columns >= 1 {
            columns
        } else {
            1
        };
        let c = if current <= last {
            current
        } else {
            last
        };
        assert(c / cols <= last / cols) by (nonlinear_arith)
            requires
                c <= last,
                cols >= 1,
        ;
        assert(c % cols != 0 ==> c >= 1) by (nonlinear_arith)
            requires
                cols >= 1,
        ;
        let rows = if c / cols >= 3 {
            3nat
        } else {
            c / cols
        };
        assert(rows * cols <= c) by (nonlinear_arith)
            requires
                rows <= c / cols,
                cols >= 1,
        ;
    }
}

/// Page Up keeps the column: it goes up whole rows, three of them when
/// there are that many above, else as many as there are.
pub proof fn lemma_page_up_keeps_column(current: nat, len: nat, columns: nat)
    requires
        current < len,
        columns >= 1,
    ensures
        focus_after(current, len, columns, NavAction::PageUp) % columns == current % columns,
        focus_after(current, len, columns, NavAction::PageUp) == current - (if current / columns >= 3 {
            3 * columns
        } else {
            (current / columns) * columns
        }),
{
    let rows = if current / columns >= 3 {
        3nat
    } else {
        current / columns
    };
    assert(rows * columns <= current) by (nonlinear_arith)
        requires
            rows <= current / columns,
            columns >= 1,
    ;
    let x: int = current - rows * columns;
    vstd::arithmetic::div_mod::lemma_mod_multiples_vanish(rows as int, x, columns as int);
    assert(columns * rows + x == current) by (nonlinear_arith)
        requires
            x == current - rows * columns,
    ;
    assert(rows * columns == (if current / columns >= 3 {
        3 * columns
    } else {
        (current / columns) * columns
    })) by (nonlinear_arith)
        requires
            rows == (if current / columns >= 3 {
                3nat
            } else {
                current / columns
            }),
    ;
}

/// Moving sideways never leaves the row.
pub proof fn lemma_sideways_keeps_row(current: nat, len: nat, columns: nat, action: NavAction)
    requires
        current < len,
        columns >= 1,
        action == NavAction::Left || action == NavAction::Right,
    ensures
        focus_after(current, len, columns, action) / columns == current / columns,
{
    let r = focus_after(current, len, columns, action);
    if action == NavAction::Left && current % columns != 0 {
        assert(current >= 1) by (nonlinear_arith)
            requires
                current % columns != 0,
                columns >= 1,
        ;
        assert(((current - 1) as nat) / columns == current / columns) by (nonlinear_arith)
            requires
                current % columns != 0,
                columns >= 1,
                current >= 1,
        ;
    }
    if action == NavAction::Right && current % columns != columns - 1 && current != len - 1 {
        assert((current + 1) / columns == current / columns) by (nonlinear_arith)
            requires
                current % columns != columns - 1,
                columns >= 1,
        ;
    }
}

/// The list position always lands on an item, and wraps at both ends.
pub proof fn lemma_list_in_bounds_and_wraps(current: nat, len: nat, action: NavAction)
    ensures
        len > 0 ==> list_after(current, len, action) < len,
        len > 0 ==> list_after(0, len, NavAction::Up) == len - 1,
        len > 0 ==> list_after((len - 1) as nat, len, NavAction::Down) == 0,
{
}

} // verus!
