//! The main menu: what each answer selects.
use vstd::prelude::*;

use crate::config::model::{is_tcp_mode, spec_is_tcp_mode};
use crate::prompts::connection::{answer_u8, read_u8_answer};
use crate::text::{decimal, law_parse_decimal_round_trip, lemma_decimal_digits};

verus! {

/// The main menu's entries that an answer can select.
pub open spec fn is_main_menu_entry(c: u8) -> bool {
    c == 1 || c == 2 || c == 3 || c == 4 || c == 5 || c == 9
}

pub open spec fn spec_main_menu_choice(input: Seq<char>) -> u8 {
    match answer_u8(input) {
        Some(c) => if is_main_menu_entry(c) {
            c
        } else {
            3
        },
        None => 3,
    }
}

/// The entry selected at a menu, and whether the answer named it (rather
/// than the menu falling back to its default entry).
#[derive(Debug, Clone, Copy, PartialEq, Eq, Structural)]
pub struct MenuChoice {
    pub entry: u8,
    pub typed: bool,
}

/// The entry that the answer selects: 1-5 or 9 as typed, anything else
/// starts polling (entry 3).
pub fn main_menu_choice(input: &str) -> (r: MenuChoice)
    ensures
        r.entry == spec_main_menu_choice(input@),
        r.typed == (answer_u8(input@) matches Some(c) && is_main_menu_entry(c)),
        is_main_menu_entry(r.entry),
{
    match read_u8_answer(input) {
        Some(c) => {
            if c == 1 || c == 2 || c == 3 || c == 4 || c == 5 || c == 9 {
                MenuChoice { entry: c, typed: true }
            } else {
                MenuChoice { entry: 3, typed: false }
            }
        },
        None => MenuChoice { entry: 3, typed: false },
    }
}

pub open spec fn spec_switch_mode_label(mode: Seq<char>) -> Seq<char> {
    if spec_is_tcp_mode(mode) {
        "Перейти в режим TRU"@
    } else {
        "Перейти в режим TCP"@
    }
}

/// The label of the entry that switches the connection mode.
pub fn switch_mode_label(mode: &str) -> (r: String)
    ensures
        r@ == spec_switch_mode_label(mode@),
{
    if is_tcp_mode(mode) {
        String::from_str("Перейти в режим TRU")
    } else {
        String::from_str("Перейти в режим TCP")
    }
}

/// What the program does for a main menu entry.
#[derive(Debug, Clone, Copy, PartialEq, Eq, Structural)]
pub enum MainMenuAction {
    ShowConnectionSettings,
    ChangeConnectionSettings,
    StartPolling,
    Registers,
    SwitchConnectionMode,
    Exit,
}

pub open spec fn spec_main_menu_action(choice: u8) -> MainMenuAction {
    if choice == 1 {
        MainMenuAction::ShowConnectionSettings
    } else if choice == 2 {
        MainMenuAction::ChangeConnectionSettings
    } else if choice == 3 {
        MainMenuAction::StartPolling
    } else if choice == 4 {
        MainMenuAction::Registers
    } else if choice == 5 {
        MainMenuAction::SwitchConnectionMode
    } else {
        MainMenuAction::Exit
    }
}

/// The action of a main menu entry.
pub fn main_menu_action(choice: u8) -> (r: MainMenuAction)
    requires
        is_main_menu_entry(choice),
    ensures
        r == spec_main_menu_action(choice),
{
    if choice == 1 {
        MainMenuAction::ShowConnectionSettings
    } else if choice == 2 {
        MainMenuAction::ChangeConnectionSettings
    } else if choice == 3 {
        MainMenuAction::StartPolling
    } else if choice == 4 {
        MainMenuAction::Registers
    } else if choice == 5 {
        MainMenuAction::SwitchConnectionMode
    } else {
        MainMenuAction::Exit
    }
}

/// Every answer typed at the main menu leads to an action: the menu never
/// selects an entry that has none.
pub proof fn law_main_menu_total(input: Seq<char>)
    ensures
        is_main_menu_entry(spec_main_menu_choice(input)),
{
}

/// An answer that reads as the number of a main menu entry selects that very
/// entry, and different entries lead to different actions.
pub proof fn law_main_menu_typed_entry(input: Seq<char>, c: u8)
    requires
        answer_u8(input) == Some(c),
        is_main_menu_entry(c),
    ensures
        spec_main_menu_choice(input) == c,
        forall|a: u8, b: u8|
            is_main_menu_entry(a) && is_main_menu_entry(b) && a != b ==> #[trigger] spec_main_menu_action(a)
                != #[trigger] spec_main_menu_action(b),
{
}

/// Typing an entry's number and pressing Enter selects that entry.
pub proof fn law_main_menu_number_and_enter(c: u8)
    requires
        is_main_menu_entry(c),
    ensures
        spec_main_menu_choice(decimal(c as nat) + "\n"@) == c,
{
    reveal_strlit("\n");
    let d = decimal(c as nat);
    let s = d + "\n"@;
    lemma_decimal_digits(c as nat);
    assert(d.len() == 1);
    assert(s[0] == d[0]);
    assert(crate::text::trim_start(s) == s);
    assert(s.drop_last() == d);
    assert(crate::text::trim_end(d) == d);
    assert(crate::text::trim(s) == d);
    law_parse_decimal_round_trip(c as nat, 255);
}

} // verus!
