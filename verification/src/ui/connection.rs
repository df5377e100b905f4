//! The rules behind viewing, changing and switching the connection settings.
use vstd::prelude::*;

use crate::config::constants::{MODE_RTU, MODE_TCP, PARITY_OPTIONS, STOP_BITS_OPTIONS};
use crate::config::model::{is_tcp_mode, spec_is_tcp_mode, ConnectionSettings};
use crate::text::str_equal;

verus! {

/// The same settings in the other mode: TCP settings switch to `"RTU"`, all
/// others switch to `"TCP"`; nothing else changes.
pub fn switch_mode(conn: ConnectionSettings) -> (r: ConnectionSettings)
    ensures
        r.mode@ == (if spec_is_tcp_mode(conn.mode@) {
            MODE_RTU@
        } else {
            MODE_TCP@
        }),
        r.port == conn.port,
        r.device_address == conn.device_address,
        r.baud_rate == conn.baud_rate,
        r.parity == conn.parity,
        r.stop_bits == conn.stop_bits,
        r.tcp_host == conn.tcp_host,
        r.tcp_port == conn.tcp_port,
{
    let mut conn = conn;
    if is_tcp_mode(conn.mode.as_str()) {
        conn.mode = String::from_str(MODE_RTU);
    } else {
        conn.mode = String::from_str(MODE_TCP);
    }
    conn
}

/// Settings in TCP mode, built from the current settings and the entered
/// host, port and device address; the serial fields are kept.
pub fn tcp_connection_settings(
    current: ConnectionSettings,
    tcp_host: String,
    tcp_port: u16,
    device_address: u8,
) -> (r: ConnectionSettings)
    ensures
        r.port == current.port,
        r.device_address == device_address,
        r.baud_rate == current.baud_rate,
        r.parity == current.parity,
        r.stop_bits == current.stop_bits,
        r.mode@ == MODE_TCP@,
        r.tcp_host == tcp_host,
        r.tcp_port == tcp_port,
{
    ConnectionSettings {
        port: current.port,
        device_address,
        baud_rate: current.baud_rate,
        parity: current.parity,
        stop_bits: current.stop_bits,
        mode: String::from_str(MODE_TCP),
        tcp_host,
        tcp_port,
    }
}

/// Parity of the serial line.
#[derive(Debug, Clone, Copy, PartialEq, Eq, Structural)]
pub enum SerialParity {
    NoParity,
    Even,
    Odd,
}

/// Stop bits of the serial line.
#[derive(Debug, Clone, Copy, PartialEq, Eq, Structural)]
pub enum SerialStopBits {
    One,
    Two,
}

pub open spec fn spec_parity_name(p: SerialParity) -> Seq<char> {
    match p {
        SerialParity::NoParity => PARITY_OPTIONS.0@,
        SerialParity::Even => PARITY_OPTIONS.1@,
        SerialParity::Odd => PARITY_OPTIONS.2@,
    }
}

/// The name under which a parity is stored in the settings.
pub fn parity_name(p: SerialParity) -> (r: String)
    ensures
        r@ == spec_parity_name(p),
{
    match p {
        SerialParity::NoParity => String::from_str(PARITY_OPTIONS.0),
        SerialParity::Even => String::from_str(PARITY_OPTIONS.1),
        SerialParity::Odd => String::from_str(PARITY_OPTIONS.2),
    }
}

pub open spec fn spec_parity_from_name(name: Seq<char>) -> SerialParity {
    if name == PARITY_OPTIONS.1@ {
        SerialParity::Even
    } else if name == PARITY_OPTIONS.2@ {
        SerialParity::Odd
    } else {
        SerialParity::NoParity
    }
}

/// The parity that a stored name selects: `"Even"`, `"Odd"`, and no parity
/// for `"None"` and every unknown name.
pub fn parity_from_name(name: &str) -> (r: SerialParity)
    ensures
        r == spec_parity_from_name(name@),
{
    if str_equal(name, PARITY_OPTIONS.1) {
        SerialParity::Even
    } else if str_equal(name, PARITY_OPTIONS.2) {
        SerialParity::Odd
    } else {
        SerialParity::NoParity
    }
}

pub open spec fn spec_stop_bits_count(s: SerialStopBits) -> u8 {
    match s {
        SerialStopBits::One => 1,
        SerialStopBits::Two => 2,
    }
}

/// The number under which the stop bits are stored in the settings.
pub fn stop_bits_count(s: SerialStopBits) -> (r: u8)
    ensures
        r == spec_stop_bits_count(s),
{
    match s {
        SerialStopBits::One => 1,
        SerialStopBits::Two => 2,
    }
}

pub open spec fn spec_stop_bits_from_count(n: u8) -> SerialStopBits {
    if n == 2 {
        SerialStopBits::Two
    } else {
        SerialStopBits::One
    }
}

/// The stop bits that a stored number selects: two for 2, one otherwise.
pub fn stop_bits_from_count(n: u8) -> (r: SerialStopBits)
    ensures
        r == spec_stop_bits_from_count(n),
{
    if n == 2 {
        SerialStopBits::Two
    } else {
        SerialStopBits::One
    }
}

pub open spec fn spec_stop_bits_label(n: u8) -> Seq<char> {
    if n == 1 {
        STOP_BITS_OPTIONS.0@
    } else if n == 2 {
        STOP_BITS_OPTIONS.1@
    } else {
        "неизвестно"@
    }
}

/// The text shown for a stored number of stop bits.
pub fn stop_bits_label(n: u8) -> (r: String)
    ensures
        r@ == spec_stop_bits_label(n),
{
    if n == 1 {
        String::from_str(STOP_BITS_OPTIONS.0)
    } else if n == 2 {
        String::from_str(STOP_BITS_OPTIONS.1)
    } else {
        String::from_str("неизвестно")
    }
}

/// Settings in RTU mode, built from the current settings and the entered
/// serial parameters; the TCP endpoint is kept.
pub fn rtu_connection_settings(
    current: ConnectionSettings,
    port: String,
    device_address: u8,
    baud_rate: u32,
    parity: SerialParity,
    stop_bits: SerialStopBits,
) -> (r: ConnectionSettings)
    ensures
        r.port == port,
        r.device_address == device_address,
        r.baud_rate == baud_rate,
        r.parity@ == spec_parity_name(parity),
        r.stop_bits == spec_stop_bits_count(stop_bits),
        r.mode@ == MODE_RTU@,
        r.tcp_host == current.tcp_host,
        r.tcp_port == current.tcp_port,
{
    ConnectionSettings {
        port,
        device_address,
        baud_rate,
        parity: parity_name(parity),
        stop_bits: stop_bits_count(stop_bits),
        mode: String::from_str(MODE_RTU),
        tcp_host: current.tcp_host,
        tcp_port: current.tcp_port,
    }
}

/// Switching the mode always changes whether the settings are in TCP mode,
/// and switching twice returns to the original kind of mode.
pub proof fn law_switch_mode_flips(mode: Seq<char>)
    ensures
        spec_is_tcp_mode(if spec_is_tcp_mode(mode) { MODE_RTU@ } else { MODE_TCP@ }) == !spec_is_tcp_mode(mode),
{
    crate::config::model::law_default_settings_are_rtu();
}

/// A parity stored by name is read back as the same parity.
pub proof fn law_parity_name_round_trip(p: SerialParity)
    ensures
        spec_parity_from_name(spec_parity_name(p)) == p,
{
    reveal_strlit("None");
    reveal_strlit("Even");
    reveal_strlit("Odd");
    assert(PARITY_OPTIONS.0@[0] != PARITY_OPTIONS.1@[0]);
    assert(PARITY_OPTIONS.0@[0] != PARITY_OPTIONS.2@[0]);
    assert(PARITY_OPTIONS.1@[0] != PARITY_OPTIONS.2@[0]);
}

/// Stop bits stored as a number are read back as the same stop bits.
pub proof fn law_stop_bits_round_trip(s: SerialStopBits)
    ensures
        spec_stop_bits_from_count(spec_stop_bits_count(s)) == s,
{
}

/// The next step of choosing a COM port.
#[derive(Debug, Clone, Copy, PartialEq, Eq, Structural)]
pub enum ComPortStep {
    /// Offer the first `ports_count` ports found.
    ChoosePort { ports_count: usize },
    /// Report that no port was found and ask whether to search again.
    AskNoPorts,
    /// Leave without changing the settings.
    Leave,
}

pub open spec fn spec_com_port_step(offered_count: usize) -> ComPortStep {
    if offered_count == 0 {
        ComPortStep::AskNoPorts
    } else {
        ComPortStep::ChoosePort { ports_count: offered_count }
    }
}

/// The first step: offer the ports found, or report that there are none.
pub fn com_port_step(offered_count: usize) -> (r: ComPortStep)
    ensures
        r == spec_com_port_step(offered_count),
{
    if offered_count == 0 {
        ComPortStep::AskNoPorts
    } else {
        ComPortStep::ChoosePort { ports_count: offered_count }
    }
}

pub open spec fn spec_com_port_step_after_retry(offered_count: usize, retry: bool) -> ComPortStep {
    if retry {
        spec_com_port_step(offered_count)
    } else {
        ComPortStep::Leave
    }
}

/// The step after the answer to "no ports found": leave, or go on with
/// the count of the first search. A new search fills in the port numbers,
/// but the number of ports offered stays the one found first.
pub fn com_port_step_after_retry(offered_count: usize, retry: bool) -> (r: ComPortStep)
    ensures
        r == spec_com_port_step_after_retry(offered_count, retry),
{
    if retry {
        com_port_step(offered_count)
    } else {
        ComPortStep::Leave
    }
}

/// When the first search found no port, searching again never leads to a
/// port being offered: each retry asks again, until the user leaves.
pub proof fn law_retry_after_empty_search(retry: bool)
    ensures
        spec_com_port_step_after_retry(0, retry) == (if retry {
            ComPortStep::AskNoPorts
        } else {
            ComPortStep::Leave
        }),
{
}

} // verus!
