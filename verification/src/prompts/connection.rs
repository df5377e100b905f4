//! What the answers typed at the connection prompts select. Each answer is
//! taken without surrounding whitespace.
use vstd::prelude::*;

use crate::config::constants::{AVAILABLE_BAUD_RATES, PARITY_OPTIONS};
use crate::ui::connection::{spec_parity_name, spec_stop_bits_count, SerialParity, SerialStopBits};
use crate::text::{
    decimal, is_white_space, trim_end, trim_start, parse_u16_text, parse_u8_text, parse_unsigned, parse_usize_text, push_decimal, string_of, trim, trimmed_chars,
};

verus! {

/// The answer read as a `u8`, as `str::parse` reads the trimmed text.
pub open spec fn answer_u8(input: Seq<char>) -> Option<u8> {
    match parse_unsigned(trim(input), 10, 255) {
        Some(v) => Some(v as u8),
        None => None,
    }
}

/// The answer read as a `u16`.
pub open spec fn answer_u16(input: Seq<char>) -> Option<u16> {
    match parse_unsigned(trim(input), 10, 65535) {
        Some(v) => Some(v as u16),
        None => None,
    }
}

/// The answer read as a `usize`.
pub open spec fn answer_usize(input: Seq<char>) -> Option<usize> {
    match parse_unsigned(trim(input), 10, usize::MAX as nat) {
        Some(v) => Some(v as usize),
        None => None,
    }
}

/// The trimmed answer read as a `u8`.
pub fn read_u8_answer(input: &str) -> (r: Option<u8>)
    ensures
        r == answer_u8(input@),
{
    let t = trimmed_chars(input);
    parse_u8_text(&t)
}

/// The trimmed answer read as a `u16`.
pub fn read_u16_answer(input: &str) -> (r: Option<u16>)
    ensures
        r == answer_u16(input@),
{
    let t = trimmed_chars(input);
    parse_u16_text(&t)
}

/// The trimmed answer read as a `usize`.
pub fn read_usize_answer(input: &str) -> (r: Option<usize>)
    ensures
        r == answer_usize(input@),
{
    let t = trimmed_chars(input);
    parse_usize_text(&t)
}

/// The answer when no COM port was found.
#[derive(Debug, Clone, Copy, PartialEq, Eq, Structural)]
pub enum NoPortsChoice {
    /// `0`: leave.
    Exit,
    /// `1`: search again.
    Retry,
    /// Anything else: ask again.
    Invalid,
}

pub open spec fn spec_no_ports_choice(input: Seq<char>) -> NoPortsChoice {
    match answer_u8(input) {
        Some(0) => NoPortsChoice::Exit,
        Some(1) => NoPortsChoice::Retry,
        _ => NoPortsChoice::Invalid,
    }
}

/// What the answer to "no ports found" selects.
pub fn no_ports_choice(input: &str) -> (r: NoPortsChoice)
    ensures
        r == spec_no_ports_choice(input@),
{
    match read_u8_answer(input) {
        Some(0) => NoPortsChoice::Exit,
        Some(1) => NoPortsChoice::Retry,
        _ => NoPortsChoice::Invalid,
    }
}

/// The name of COM port number `n`, e.g. `COM3`.
pub open spec fn spec_com_port_name(n: u8) -> Seq<char> {
    "COM"@ + decimal(n as nat)
}

pub fn com_port_name(n: u8) -> (r: String)
    ensures
        r@ == spec_com_port_name(n),
{
    let mut s = String::from_str("COM");
    proof {
        reveal_strlit("COM");
    }
    push_decimal(&mut s, n as u64);
    s
}

/// The port that the answer picks from the first `ports_count` found ports:
/// a number from 1 to `ports_count`, counting from the first port.
pub open spec fn spec_com_port_choice(
    input: Seq<char>,
    available_ports: Seq<u8>,
    ports_count: usize,
) -> Option<Seq<char>> {
    match answer_usize(input) {
        Some(choice) => if 1 <= choice <= ports_count {
            Some(spec_com_port_name(available_ports[choice - 1]))
        } else {
            None
        },
        None => None,
    }
}

/// The COM port that the answer selects, or `None` when the answer must be
/// asked again.
pub fn com_port_choice(input: &str, available_ports: &[u8; 10], ports_count: usize) -> (r: Option<
    String,
>)
    requires
        ports_count <= 10,
    ensures
        r.deep_view() == spec_com_port_choice(input@, available_ports@, ports_count),
{
    match read_usize_answer(input) {
        Some(choice) => {
            if choice >= 1 && choice <= ports_count {
                Some(com_port_name(available_ports[choice - 1]))
            } else {
                None
            }
        },
        None => None,
    }
}

/// The answer to the device address prompt.
#[derive(Debug, Clone, Copy, PartialEq, Eq, Structural)]
pub enum DeviceAddressInput {
    /// An address from 1 to 240.
    Valid(u8),
    /// A number outside 1..=240.
    OutOfRange(u8),
    /// Not a number.
    Invalid,
}

pub open spec fn spec_device_address_input(input: Seq<char>) -> DeviceAddressInput {
    match answer_u8(input) {
        Some(a) => if 1 <= a <= 240 {
            DeviceAddressInput::Valid(a)
        } else {
            DeviceAddressInput::OutOfRange(a)
        },
        None => DeviceAddressInput::Invalid,
    }
}

/// What the answer to the device address prompt gives.
pub fn device_address_input(input: &str) -> (r: DeviceAddressInput)
    ensures
        r == spec_device_address_input(input@),
{
    match read_u8_answer(input) {
        Some(a) => {
            if 1 <= a && a <= 240 {
                DeviceAddressInput::Valid(a)
            } else {
                DeviceAddressInput::OutOfRange(a)
            }
        },
        None => DeviceAddressInput::Invalid,
    }
}

pub open spec fn spec_tcp_host_input(input: Seq<char>, current: Seq<char>) -> Seq<char> {
    if trim(input).len() == 0 {
        current
    } else {
        trim(input)
    }
}

/// The TCP host after the prompt: the trimmed answer, or the current host
/// when the answer is blank.
pub fn tcp_host_input(input: &str, current_host: &str) -> (r: String)
    ensures
        r@ == spec_tcp_host_input(input@, current_host@),
{
    let t = trimmed_chars(input);
    if t.len() == 0 {
        String::from_str(current_host)
    } else {
        string_of(&t)
    }
}

pub open spec fn spec_tcp_port_input(input: Seq<char>, current: u16) -> Option<u16> {
    if trim(input).len() == 0 {
        Some(current)
    } else {
        match answer_u16(input) {
            Some(p) => if p >= 1 {
                Some(p)
            } else {
                None
            },
            None => None,
        }
    }
}

/// The TCP port after the prompt: the current port for a blank answer, a
/// port from 1 to 65535, or `None` when the answer must be asked again.
pub fn tcp_port_input(input: &str, current_port: u16) -> (r: Option<u16>)
    ensures
        r == spec_tcp_port_input(input@, current_port),
{
    let t = trimmed_chars(input);
    if t.len() == 0 {
        Some(current_port)
    } else {
        match parse_u16_text(&t) {
            Some(p) => {
                if p >= 1 {
                    Some(p)
                } else {
                    None
                }
            },
            None => None,
        }
    }
}

/// The answer to a numbered menu of options.
#[derive(Debug, Clone, Copy, PartialEq, Eq, Structural)]
pub enum OptionInput<T> {
    /// The option with that number.
    Selected(T),
    /// A number that no option has.
    OutOfRange(u8),
    /// Not a number.
    Invalid,
}

/// The baud rate listed under number `choice` (1 to 7), fastest first.
pub open spec fn spec_baud_rate_option(choice: u8) -> u32 {
    if choice == 1 {
        AVAILABLE_BAUD_RATES.6
    } else if choice == 2 {
        AVAILABLE_BAUD_RATES.5
    } else if choice == 3 {
        AVAILABLE_BAUD_RATES.4
    } else if choice == 4 {
        AVAILABLE_BAUD_RATES.3
    } else if choice == 5 {
        AVAILABLE_BAUD_RATES.2
    } else if choice == 6 {
        AVAILABLE_BAUD_RATES.1
    } else {
        AVAILABLE_BAUD_RATES.0
    }
}

pub open spec fn spec_baud_rate_input(input: Seq<char>) -> OptionInput<u32> {
    match answer_u8(input) {
        Some(c) => if 1 <= c <= 7 {
            OptionInput::Selected(spec_baud_rate_option(c))
        } else {
            OptionInput::OutOfRange(c)
        },
        None => OptionInput::Invalid,
    }
}

/// What the answer to the baud rate menu selects.
pub fn baud_rate_input(input: &str) -> (r: OptionInput<u32>)
    ensures
        r == spec_baud_rate_input(input@),
{
    match read_u8_answer(input) {
        Some(c) => {
            if 1 <= c && c <= 7 {
                let rate = if c == 1 {
                    AVAILABLE_BAUD_RATES.6
                } else if c == 2 {
                    AVAILABLE_BAUD_RATES.5
                } else if c == 3 {
                    AVAILABLE_BAUD_RATES.4
                } else if c == 4 {
                    AVAILABLE_BAUD_RATES.3
                } else if c == 5 {
                    AVAILABLE_BAUD_RATES.2
                } else if c == 6 {
                    AVAILABLE_BAUD_RATES.1
                } else {
                    AVAILABLE_BAUD_RATES.0
                };
                OptionInput::Selected(rate)
            } else {
                OptionInput::OutOfRange(c)
            }
        },
        None => OptionInput::Invalid,
    }
}

pub open spec fn spec_parity_input(input: Seq<char>) -> OptionInput<SerialParity> {
    match answer_u8(input) {
        Some(c) => if c == 1 {
            OptionInput::Selected(SerialParity::NoParity)
        } else if c == 2 {
            OptionInput::Selected(SerialParity::Even)
        } else if c == 3 {
            OptionInput::Selected(SerialParity::Odd)
        } else {
            OptionInput::OutOfRange(c)
        },
        None => OptionInput::Invalid,
    }
}

/// What the answer to the parity menu selects: 1 none, 2 even, 3 odd.
pub fn parity_input(input: &str) -> (r: OptionInput<SerialParity>)
    ensures
        r == spec_parity_input(input@),
{
    match read_u8_answer(input) {
        Some(c) => {
            if c == 1 {
                OptionInput::Selected(SerialParity::NoParity)
            } else if c == 2 {
                OptionInput::Selected(SerialParity::Even)
            } else if c == 3 {
                OptionInput::Selected(SerialParity::Odd)
            } else {
                OptionInput::OutOfRange(c)
            }
        },
        None => OptionInput::Invalid,
    }
}

pub open spec fn spec_stop_bits_input(input: Seq<char>) -> OptionInput<SerialStopBits> {
    match answer_u8(input) {
        Some(c) => if c == 1 {
            OptionInput::Selected(SerialStopBits::One)
        } else if c == 2 {
            OptionInput::Selected(SerialStopBits::Two)
        } else {
            OptionInput::OutOfRange(c)
        },
        None => OptionInput::Invalid,
    }
}

/// What the answer to the stop-bits menu selects: 1 one, 2 two.
pub fn stop_bits_input(input: &str) -> (r: OptionInput<SerialStopBits>)
    ensures
        r == spec_stop_bits_input(input@),
{
    match read_u8_answer(input) {
        Some(c) => {
            if c == 1 {
                OptionInput::Selected(SerialStopBits::One)
            } else if c == 2 {
                OptionInput::Selected(SerialStopBits::Two)
            } else {
                OptionInput::OutOfRange(c)
            }
        },
        None => OptionInput::Invalid,
    }
}

/// The baud rate menu only ever selects one of the offered rates.
pub proof fn law_baud_rate_is_offered(input: Seq<char>)
    ensures
        spec_baud_rate_input(input) matches OptionInput::Selected(rate) ==> (rate
            == AVAILABLE_BAUD_RATES.0 || rate == AVAILABLE_BAUD_RATES.1 || rate
            == AVAILABLE_BAUD_RATES.2 || rate == AVAILABLE_BAUD_RATES.3 || rate
            == AVAILABLE_BAUD_RATES.4 || rate == AVAILABLE_BAUD_RATES.5 || rate
            == AVAILABLE_BAUD_RATES.6),
{
}

/// The offered baud rates, slowest first.
pub open spec fn offered_baud_rates() -> Seq<u32> {
    seq![
        AVAILABLE_BAUD_RATES.0,
        AVAILABLE_BAUD_RATES.1,
        AVAILABLE_BAUD_RATES.2,
        AVAILABLE_BAUD_RATES.3,
        AVAILABLE_BAUD_RATES.4,
        AVAILABLE_BAUD_RATES.5,
        AVAILABLE_BAUD_RATES.6,
    ]
}

/// Entry `k` of the baud rate menu (1 to 7) selects the `k`-th fastest
/// offered rate: the offered rates are listed slowest first, so that is the
/// one at position `7 - k`.
pub proof fn law_baud_rate_entry_is_kth_fastest(input: Seq<char>, k: u8)
    requires
        answer_u8(input) == Some(k),
        1 <= k <= 7,
    ensures
        spec_baud_rate_input(input) == OptionInput::Selected(offered_baud_rates()[7 - k]),
        forall|i: int| 0 <= i < 6 ==> #[trigger] offered_baud_rates()[i] < offered_baud_rates()[i + 1],
{
}

/// A lower entry of the baud rate menu selects a strictly faster rate: the
/// seven entries select seven different rates, fastest first.
pub proof fn law_baud_rate_entries_decrease(a: Seq<char>, b: Seq<char>)
    requires
        answer_u8(a) matches Some(ka) && 1 <= ka,
        answer_u8(b) matches Some(kb) && kb <= 7,
        answer_u8(a)->Some_0 < answer_u8(b)->Some_0,
    ensures
        spec_baud_rate_input(a) matches OptionInput::Selected(ra) && spec_baud_rate_input(b) matches OptionInput::Selected(rb) && ra > rb,
{
}

proof fn lemma_trim_start_all_white(s: Seq<char>)
    requires
        forall|i: int| 0 <= i < s.len() ==> is_white_space(#[trigger] s[i]),
    ensures
        trim_start(s).len() == 0,
    decreases s.len(),
{
    if s.len() > 0 {
        lemma_trim_start_all_white(s.drop_first());
    }
}

proof fn lemma_trim_start_keeps_text(s: Seq<char>, i: int)
    requires
        0 <= i < s.len(),
        !is_white_space(s[i]),
    ensures
        trim_start(s).len() > 0,
        !is_white_space(trim_start(s)[0]),
    decreases s.len(),
{
    if is_white_space(s[0]) {
        lemma_trim_start_keeps_text(s.drop_first(), i - 1);
    }
}

proof fn lemma_trim_end_keeps_first(s: Seq<char>)
    requires
        s.len() > 0,
        !is_white_space(s[0]),
    ensures
        trim_end(s).len() > 0,
    decreases s.len(),
{
    if s.len() > 1 && is_white_space(s.last()) {
        lemma_trim_end_keeps_first(s.drop_last());
    }
}

/// A blank answer (nothing but whitespace) at the TCP host prompt keeps the
/// current host, whatever it is.
pub proof fn law_blank_host_keeps_current(input: Seq<char>, current: Seq<char>)
    requires
        forall|i: int| 0 <= i < input.len() ==> is_white_space(#[trigger] input[i]),
    ensures
        spec_tcp_host_input(input, current) == current,
{
    lemma_trim_start_all_white(input);
}

/// An answer with any non-whitespace character sets the host to that
/// answer without its surrounding whitespace, whatever the current host
/// was.
pub proof fn law_typed_host_replaces_current(input: Seq<char>, i: int, current: Seq<char>, other: Seq<char>)
    requires
        0 <= i < input.len(),
        !is_white_space(input[i]),
    ensures
        spec_tcp_host_input(input, current) == trim(input),
        spec_tcp_host_input(input, current) == spec_tcp_host_input(input, other),
        trim(input).len() > 0,
{
    lemma_trim_start_keeps_text(input, i);
    lemma_trim_end_keeps_first(trim_start(input));
}

/// A blank answer (nothing but whitespace) at the TCP port prompt keeps the
/// current port, whatever it is.
pub proof fn law_blank_port_keeps_current(input: Seq<char>, current: u16)
    requires
        forall|i: int| 0 <= i < input.len() ==> is_white_space(#[trigger] input[i]),
    ensures
        spec_tcp_port_input(input, current) == Some(current),
{
    lemma_trim_start_all_white(input);
}

/// Entry `k` of the parity menu (1 to 3) selects the parity stored under
/// the `k`-th listed option name.
pub proof fn law_parity_entry_is_listed_option(input: Seq<char>, k: u8)
    requires
        answer_u8(input) == Some(k),
        1 <= k <= 3,
    ensures
        spec_parity_input(input) matches OptionInput::Selected(p) && spec_parity_name(p)
            == seq![PARITY_OPTIONS.0@, PARITY_OPTIONS.1@, PARITY_OPTIONS.2@][k - 1],
{
}

/// Entry `k` of the stop-bits menu (1 or 2) selects `k` stop bits.
pub proof fn law_stop_bits_entry_is_count(input: Seq<char>, k: u8)
    requires
        answer_u8(input) == Some(k),
        1 <= k <= 2,
    ensures
        spec_stop_bits_input(input) matches OptionInput::Selected(s) && spec_stop_bits_count(s) == k,
{
}

} // verus!
