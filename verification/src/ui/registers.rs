//! The register screens: menu answers, statistics, table columns and the
//! answers to the delete prompts.
use vstd::prelude::*;

use crate::config::model::{registers_view, RegisterConfig, RegisterView};
use crate::prompts::connection::{answer_u8, answer_usize, read_u8_answer, read_usize_answer};
use crate::ui::main_menu::MenuChoice;
use crate::text::{chars_of, push_char, push_chars, same_text, trim, trimmed_chars};

verus! {

/// The register menu's entries that an answer can select.
pub open spec fn is_registers_menu_entry(c: u8) -> bool {
    (1 <= c && c <= 6) || c == 9
}

pub open spec fn spec_registers_menu_choice(input: Seq<char>) -> u8 {
    match answer_u8(input) {
        Some(c) => if is_registers_menu_entry(c) {
            c
        } else {
            9
        },
        None => 9,
    }
}

/// The entry that the answer selects: 1-6 or 9 as typed, anything else
/// goes back to the main menu (entry 9).
pub fn registers_menu_choice(input: &str) -> (r: MenuChoice)
    ensures
        r.entry == spec_registers_menu_choice(input@),
        r.typed == (answer_u8(input@) matches Some(c) && is_registers_menu_entry(c)),
        is_registers_menu_entry(r.entry),
{
    match read_u8_answer(input) {
        Some(c) => {
            if (1 <= c && c <= 6) || c == 9 {
                MenuChoice { entry: c, typed: true }
            } else {
                MenuChoice { entry: 9, typed: false }
            }
        },
        None => MenuChoice { entry: 9, typed: false },
    }
}

/// What the program does for a register menu entry.
#[derive(Debug, Clone, Copy, PartialEq, Eq, Structural)]
pub enum RegistersMenuAction {
    ShowRegisters,
    DeleteRegister,
    AddRegister,
    EditRegister,
    SortByAddress,
    DeleteAllRegisters,
    Back,
}

pub open spec fn spec_registers_menu_action(choice: u8) -> RegistersMenuAction {
    if choice == 1 {
        RegistersMenuAction::ShowRegisters
    } else if choice == 2 {
        RegistersMenuAction::DeleteRegister
    } else if choice == 3 {
        RegistersMenuAction::AddRegister
    } else if choice == 4 {
        RegistersMenuAction::EditRegister
    } else if choice == 5 {
        RegistersMenuAction::SortByAddress
    } else if choice == 6 {
        RegistersMenuAction::DeleteAllRegisters
    } else {
        RegistersMenuAction::Back
    }
}

/// The action of a register menu entry.
pub fn registers_menu_action(choice: u8) -> (r: RegistersMenuAction)
    requires
        is_registers_menu_entry(choice),
    ensures
        r == spec_registers_menu_action(choice),
{
    if choice == 1 {
        RegistersMenuAction::ShowRegisters
    } else if choice == 2 {
        RegistersMenuAction::DeleteRegister
    } else if choice == 3 {
        RegistersMenuAction::AddRegister
    } else if choice == 4 {
        RegistersMenuAction::EditRegister
    } else if choice == 5 {
        RegistersMenuAction::SortByAddress
    } else if choice == 6 {
        RegistersMenuAction::DeleteAllRegisters
    } else {
        RegistersMenuAction::Back
    }
}

/// How many of the registers are enabled.
pub open spec fn enabled_count(regs: Seq<RegisterView>) -> nat
    decreases regs.len(),
{
    if regs.len() == 0 {
        0
    } else {
        enabled_count(regs.drop_last()) + if regs.last().enabled {
            1nat
        } else {
            0nat
        }
    }
}

proof fn lemma_enabled_count_bound(regs: Seq<RegisterView>)
    ensures
        enabled_count(regs) <= regs.len(),
    decreases regs.len(),
{
    if regs.len() > 0 {
        lemma_enabled_count_bound(regs.drop_last());
    }
}

/// Totals shown above the register table.
#[derive(Debug, Clone, Copy, PartialEq, Eq, Structural)]
pub struct RegisterCounts {
    pub total: usize,
    pub enabled: usize,
    pub disabled: usize,
}

/// How many registers there are, how many are enabled and how many are
/// disabled.
pub fn register_counts(regs: &[RegisterConfig]) -> (r: RegisterCounts)
    ensures
        r.total == regs@.len(),
        r.enabled == enabled_count(registers_view(regs@)),
        r.disabled == r.total - r.enabled,
{
    let n = regs.len();
    let mut enabled: usize = 0;
    for i in 0..n
        invariant
            n == regs@.len(),
            enabled == enabled_count(registers_view(regs@.take(i as int))),
            enabled <= i,
    {
        proof {
            let t = regs@.take(i + 1);
            assert(registers_view(t).drop_last() =~= registers_view(regs@.take(i as int)));
            assert(registers_view(t).last() == regs@[i as int]@);
        }
        if regs[i].enabled {
            enabled = enabled + 1;
        }
    }
    assert(regs@.take(n as int) == regs@);
    RegisterCounts { total: n, enabled, disabled: n - enabled }
}

pub open spec fn spec_truncated_column(s: Seq<char>, limit: nat, keep: nat) -> Seq<char> {
    if s.len() > limit {
        s.take(if keep <= s.len() { keep as int } else { s.len() as int }) + "..."@
    } else {
        s
    }
}

/// A table cell: texts longer than `limit` characters are cut to their
/// first `keep` characters (all of them when there are fewer) followed by
/// `...`.
pub fn truncated_column(s: &str, limit: usize, keep: usize) -> (r: String)
    ensures
        r@ == spec_truncated_column(s@, limit as nat, keep as nat),
{
    let v = chars_of(s);
    if v.len() > limit {
        let kept_count = if keep <= v.len() {
            keep
        } else {
            v.len()
        };
        let mut kept: Vec<char> = Vec::new();
        for i in 0..kept_count
            invariant
                kept_count <= v@.len(),
                kept@ == v@.take(i as int),
        {
            kept.push(v[i]);
            assert(v@.take(i + 1) == v@.take(i as int).push(v@[i as int]));
        }
        let mut r = String::new();
        push_chars(&mut r, &kept);
        push_char(&mut r, '.');
        push_char(&mut r, '.');
        push_char(&mut r, '.');
        proof {
            reveal_strlit("...");
            assert(r@ =~= v@.take(kept_count as int) + "..."@);
        }
        r
    } else {
        String::from_str(s)
    }
}

pub open spec fn spec_status_label(enabled: bool) -> Seq<char> {
    if enabled {
        "Активен"@
    } else {
        "Отключен"@
    }
}

/// The status shown for a register.
pub fn status_label(enabled: bool) -> (r: String)
    ensures
        r@ == spec_status_label(enabled),
{
    if enabled {
        String::from_str("Активен")
    } else {
        String::from_str("Отключен")
    }
}

/// The answer to "which register to delete".
#[derive(Debug, Clone, Copy, PartialEq, Eq, Structural)]
pub enum DeleteChoice {
    /// Not a number.
    Invalid,
    /// `0`: nothing is deleted.
    Cancel,
    /// A number above the number of registers.
    OutOfRange,
    /// Delete the register at this index (the typed number minus one).
    Remove(usize),
}

pub open spec fn spec_delete_choice(input: Seq<char>, count: usize) -> DeleteChoice {
    match answer_usize(input) {
        None => DeleteChoice::Invalid,
        Some(n) => if n == 0 {
            DeleteChoice::Cancel
        } else if n > count {
            DeleteChoice::OutOfRange
        } else {
            DeleteChoice::Remove((n - 1) as usize)
        },
    }
}

/// What the answer to the delete prompt selects among `count` registers.
pub fn delete_choice(input: &str, count: usize) -> (r: DeleteChoice)
    ensures
        r == spec_delete_choice(input@, count),
        r matches DeleteChoice::Remove(i) ==> i < count,
{
    match read_usize_answer(input) {
        None => DeleteChoice::Invalid,
        Some(n) => {
            if n == 0 {
                DeleteChoice::Cancel
            } else if n > count {
                DeleteChoice::OutOfRange
            } else {
                DeleteChoice::Remove(n - 1)
            }
        },
    }
}

pub open spec fn spec_is_delete_confirmation(input: Seq<char>) -> bool {
    let t = trim(input);
    t == "ДА"@ || t == "да"@ || t == "YES"@ || t == "yes"@
}

/// Whether the answer confirms deleting every register: `ДА`, `да`, `YES`
/// or `yes`, with surrounding whitespace ignored.
pub fn is_delete_confirmation(input: &str) -> (r: bool)
    ensures
        r == spec_is_delete_confirmation(input@),
{
    let t = trimmed_chars(input);
    same_text(&t, "ДА") || same_text(&t, "да") || same_text(&t, "YES") || same_text(&t, "yes")
}

/// The enabled registers never outnumber the registers, so the disabled
/// count shown is never negative.
pub proof fn law_counts_consistent(regs: Seq<RegisterView>)
    ensures
        enabled_count(regs) <= regs.len(),
{
    lemma_enabled_count_bound(regs);
}

/// A cut cell is `keep` characters and the three dots long, so with
/// `keep + 3 <= limit` no cell is longer than `limit` characters.
pub proof fn law_truncated_column_fits(s: Seq<char>, limit: nat, keep: nat)
    requires
        keep + 3 <= limit,
    ensures
        spec_truncated_column(s, limit, keep).len() <= limit,
{
    reveal_strlit("...");
}

/// Removes the register at `index` and returns it; the others keep their
/// order.
pub fn remove_register(regs: &mut Vec<RegisterConfig>, index: usize) -> (r: RegisterConfig)
    requires
        index < old(regs)@.len(),
    ensures
        r == old(regs)@[index as int],
        final(regs)@ == old(regs)@.remove(index as int),
{
    regs.remove(index)
}

/// An answer that reads as the number of a register menu entry selects that
/// very entry.
pub proof fn law_registers_menu_typed_entry(input: Seq<char>, c: u8)
    requires
        answer_u8(input) == Some(c),
        is_registers_menu_entry(c),
    ensures
        spec_registers_menu_choice(input) == c,
{
}

} // verus!
