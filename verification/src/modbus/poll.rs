//! The decisions of the polling loop: which registers are polled, how each
//! is read, where to connect, and how failed cycles are counted.
use vstd::prelude::*;

use crate::config::model::{
    is_tcp_mode, registers_view, spec_is_tcp_mode, ConnectionSettings, RegisterConfig,
    RegisterView,
};
use crate::register::value::{
    compute_quantity, insufficient_data, law_quantity_is_enough, lemma_var_kind_names,
    spec_quantity, spec_register_reading, RegisterReading,
};
use crate::text::{decimal, push_char, push_decimal, str_equal};
use crate::ui::connection::{
    parity_from_name, spec_parity_from_name, spec_stop_bits_from_count, stop_bits_from_count,
    SerialParity, SerialStopBits,
};
use crate::ui::registers::enabled_count;

verus! {

/// The registers with `enabled` set, in their order.
pub open spec fn enabled_only(regs: Seq<RegisterView>) -> Seq<RegisterView>
    decreases regs.len(),
{
    if regs.len() == 0 {
        Seq::empty()
    } else if regs.last().enabled {
        enabled_only(regs.drop_last()).push(regs.last())
    } else {
        enabled_only(regs.drop_last())
    }
}

/// The registers that are polled: the enabled ones, in their order.
pub fn enabled_registers(regs: &[RegisterConfig]) -> (r: Vec<RegisterConfig>)
    ensures
        registers_view(r@) == enabled_only(registers_view(regs@)),
{
    let n = regs.len();
    let mut r: Vec<RegisterConfig> = Vec::new();
    assert(registers_view(r@) =~= Seq::<RegisterView>::empty());
    for i in 0..n
        invariant
            n == regs@.len(),
            registers_view(r@) == enabled_only(registers_view(regs@.take(i as int))),
    {
        let ghost before = r@;
        proof {
            let t = regs@.take(i + 1);
            assert(registers_view(t).drop_last() =~= registers_view(regs@.take(i as int)));
            assert(registers_view(t).last() == regs@[i as int]@);
        }
        if regs[i].enabled {
            r.push(regs[i].clone());
            assert(registers_view(r@) =~= registers_view(before).push(regs@[i as int]@));
        }
    }
    assert(regs@.take(n as int) == regs@);
    r
}

/// Whether polling can start.
#[derive(Debug, Clone, Copy, PartialEq, Eq, Structural)]
pub enum PollReadiness {
    /// The register table is empty.
    NoRegisters,
    /// There are registers, but none is enabled.
    NoEnabledRegisters { total: usize },
    /// At least one register is enabled.
    Ready,
}

pub open spec fn spec_poll_readiness(regs: Seq<RegisterView>) -> PollReadiness {
    if regs.len() == 0 {
        PollReadiness::NoRegisters
    } else if enabled_only(regs).len() == 0 {
        PollReadiness::NoEnabledRegisters { total: regs.len() as usize }
    } else {
        PollReadiness::Ready
    }
}

/// Whether polling `regs` can start, and why not.
pub fn poll_readiness(regs: &[RegisterConfig]) -> (r: PollReadiness)
    ensures
        r == spec_poll_readiness(registers_view(regs@)),
{
    if regs.len() == 0 {
        return PollReadiness::NoRegisters;
    }
    let enabled = enabled_registers(regs);
    if enabled.len() == 0 {
        PollReadiness::NoEnabledRegisters { total: regs.len() }
    } else {
        PollReadiness::Ready
    }
}

/// The Modbus request that reads a register.
#[derive(Debug, Clone, Copy, PartialEq, Eq, Structural)]
pub enum PollRequest {
    /// Read `quantity` input registers from `address`.
    InputRegisters { address: u16, quantity: u16 },
    /// Read `quantity` holding registers from `address`.
    HoldingRegisters { address: u16, quantity: u16 },
    /// Read one coil at `address`.
    Coil { address: u16 },
    /// Read one discrete input at `address`.
    DiscreteInput { address: u16 },
    /// The Modbus type is unknown; the register is skipped.
    Unknown,
}

pub open spec fn spec_poll_request(r: RegisterView) -> PollRequest {
    if r.modbus_type == "input_register"@ {
        PollRequest::InputRegisters { address: r.address, quantity: spec_quantity(r.var_type) }
    } else if r.modbus_type == "holding_register"@ {
        PollRequest::HoldingRegisters { address: r.address, quantity: spec_quantity(r.var_type) }
    } else if r.modbus_type == "coil"@ {
        PollRequest::Coil { address: r.address }
    } else if r.modbus_type == "discrete_input"@ {
        PollRequest::DiscreteInput { address: r.address }
    } else {
        PollRequest::Unknown
    }
}

/// How a register is read, by its Modbus type: input and holding registers
/// read as many words as the variable type needs, coils and discrete inputs
/// read one bit.
pub fn poll_request(register: &RegisterConfig) -> (r: PollRequest)
    ensures
        r == spec_poll_request(register@),
{
    let t = register.modbus_type.as_str();
    if str_equal(t, "input_register") {
        PollRequest::InputRegisters {
            address: register.address,
            quantity: compute_quantity(register.var_type.as_str()),
        }
    } else if str_equal(t, "holding_register") {
        PollRequest::HoldingRegisters {
            address: register.address,
            quantity: compute_quantity(register.var_type.as_str()),
        }
    } else if str_equal(t, "coil") {
        PollRequest::Coil { address: register.address }
    } else if str_equal(t, "discrete_input") {
        PollRequest::DiscreteInput { address: register.address }
    } else {
        PollRequest::Unknown
    }
}

/// The number of consecutive failed polling cycles after a cycle: reset by
/// a cycle in which every read succeeded, raised by one otherwise.
pub fn next_error_count(error_count: i32, all_success: bool) -> (r: i32)
    requires
        !all_success ==> error_count < i32::MAX,
    ensures
        r == (if all_success {
            0
        } else {
            error_count + 1
        }),
{
    if all_success {
        0
    } else {
        error_count + 1
    }
}

/// The `host:port` text of a TCP endpoint.
pub open spec fn spec_socket_text(host: Seq<char>, port: u16) -> Seq<char> {
    host + ":"@ + decimal(port as nat)
}

/// The `host:port` text that is resolved to connect over TCP.
pub fn tcp_socket_text(host: &str, port: u16) -> (r: String)
    ensures
        r@ == spec_socket_text(host@, port),
{
    let mut s = String::from_str(host);
    push_char(&mut s, ':');
    proof {
        reveal_strlit(":");
        assert(host@.push(':') =~= host@ + ":"@);
    }
    push_decimal(&mut s, port as u64);
    s
}

/// Where polling connects.
#[derive(Debug)]
pub enum PollTarget {
    /// Modbus TCP to the `host:port` text, addressing `slave`.
    Tcp { socket: String, slave: u8 },
    /// Modbus RTU over the serial `port`, eight data bits, addressing `slave`.
    Rtu {
        port: String,
        baud_rate: u32,
        parity: SerialParity,
        stop_bits: SerialStopBits,
        slave: u8,
    },
}

/// Where polling connects with the settings `conn`: over TCP in TCP mode,
/// over the serial line otherwise, with the parity and stop bits that the
/// stored names and numbers select.
pub fn polling_target(conn: &ConnectionSettings) -> (r: PollTarget)
    ensures
        match r {
            PollTarget::Tcp { socket, slave } => {
                &&& spec_is_tcp_mode(conn.mode@)
                &&& socket@ == spec_socket_text(conn.tcp_host@, conn.tcp_port)
                &&& slave == conn.device_address
            },
            PollTarget::Rtu { port, baud_rate, parity, stop_bits, slave } => {
                &&& !spec_is_tcp_mode(conn.mode@)
                &&& port == conn.port
                &&& baud_rate == conn.baud_rate
                &&& parity == spec_parity_from_name(conn.parity@)
                &&& stop_bits == spec_stop_bits_from_count(conn.stop_bits)
                &&& slave == conn.device_address
            },
        },
{
    if is_tcp_mode(conn.mode.as_str()) {
        PollTarget::Tcp {
            socket: tcp_socket_text(conn.tcp_host.as_str(), conn.tcp_port),
            slave: conn.device_address,
        }
    } else {
        PollTarget::Rtu {
            port: conn.port.clone(),
            baud_rate: conn.baud_rate,
            parity: parity_from_name(conn.parity.as_str()),
            stop_bits: stop_bits_from_count(conn.stop_bits),
            slave: conn.device_address,
        }
    }
}

/// The registers polled are exactly as many as the register screen counts
/// as enabled.
pub proof fn law_polled_count_is_enabled_count(regs: Seq<RegisterView>)
    ensures
        enabled_only(regs).len() == enabled_count(regs),
    decreases regs.len(),
{
    if regs.len() > 0 {
        law_polled_count_is_enabled_count(regs.drop_last());
    }
}

/// Every polled register is enabled, and every enabled register is polled.
pub proof fn law_polled_registers_are_enabled(regs: Seq<RegisterView>)
    ensures
        forall|i: int| 0 <= i < enabled_only(regs).len() ==> (#[trigger] enabled_only(regs)[i]).enabled,
        forall|i: int| 0 <= i < regs.len() && (#[trigger] regs[i]).enabled ==> enabled_only(regs).contains(regs[i]),
    decreases regs.len(),
{
    if regs.len() > 0 {
        let p = regs.drop_last();
        law_polled_registers_are_enabled(p);
        assert forall|i: int| 0 <= i < regs.len() && (#[trigger] regs[i]).enabled implies enabled_only(regs).contains(regs[i]) by {
            if i < regs.len() - 1 {
                assert(p[i] == regs[i]);
                let j = choose|j: int| 0 <= j < enabled_only(p).len() && enabled_only(p)[j] == p[i];
                if regs.last().enabled {
                    assert(enabled_only(regs)[j] == regs[i]);
                }
            } else {
                assert(enabled_only(regs).last() == regs[i]);
            }
        }
    }
}

/// How the read of one register in a polling cycle ended.
#[derive(Debug, Clone, Copy, PartialEq, Eq, Structural)]
pub enum ReadOutcome {
    /// A value was read.
    Read,
    /// The device answered with an error, the request failed, or it timed
    /// out.
    Failed,
    /// The register has an unknown Modbus type and was not read.
    Skipped,
}

/// A cycle succeeds when no read failed; skipped registers do not count.
pub open spec fn spec_cycle_succeeded(outcomes: Seq<ReadOutcome>) -> bool {
    forall|i: int| 0 <= i < outcomes.len() ==> outcomes[i] != ReadOutcome::Failed
}

/// Whether every read of a cycle succeeded.
pub fn cycle_succeeded(outcomes: &[ReadOutcome]) -> (r: bool)
    ensures
        r == spec_cycle_succeeded(outcomes@),
{
    let n = outcomes.len();
    for i in 0..n
        invariant
            n == outcomes@.len(),
            forall|k: int| 0 <= k < i ==> outcomes@[k] != ReadOutcome::Failed,
    {
        if outcomes[i] == ReadOutcome::Failed {
            return false;
        }
    }
    true
}

/// The error count after the cycles `cycles`, starting from 0.
pub open spec fn error_count_after(cycles: Seq<Seq<ReadOutcome>>) -> int
    decreases cycles.len(),
{
    if cycles.len() == 0 {
        0
    } else if spec_cycle_succeeded(cycles.last()) {
        0
    } else {
        error_count_after(cycles.drop_last()) + 1
    }
}

/// What the end of a polling cycle gives: the new error count, and whether
/// it is shown.
#[derive(Debug, Clone, Copy, PartialEq, Eq, Structural)]
pub struct CycleEnd {
    pub error_count: i32,
    pub show_error_count: bool,
}

/// The end of a polling cycle with the read outcomes `outcomes`: the error
/// count is reset when no read failed and raised by one otherwise, and it
/// is shown exactly when a read failed.
pub fn poll_cycle_end(error_count: i32, outcomes: &[ReadOutcome]) -> (r: CycleEnd)
    requires
        !spec_cycle_succeeded(outcomes@) ==> error_count < i32::MAX,
    ensures
        r.error_count == (if spec_cycle_succeeded(outcomes@) {
            0
        } else {
            error_count + 1
        }),
        r.show_error_count == !spec_cycle_succeeded(outcomes@),
{
    let ok = cycle_succeeded(outcomes);
    CycleEnd { error_count: next_error_count(error_count, ok), show_error_count: !ok }
}

/// Ending each cycle with `poll_cycle_end`, starting from 0, keeps the
/// error count at `error_count_after` the cycles run so far.
pub proof fn law_cycle_end_tracks_count(cycles: Seq<Seq<ReadOutcome>>, outcomes: Seq<ReadOutcome>)
    ensures
        error_count_after(cycles.push(outcomes)) == (if spec_cycle_succeeded(outcomes) {
            0
        } else {
            error_count_after(cycles) + 1
        }),
{
    assert(cycles.push(outcomes).drop_last() == cycles);
}

/// The error count after a run of cycles is the number of consecutive
/// failed cycles at its end: those last cycles all had a failed read, and
/// the cycle before them, if any, had none.
pub proof fn law_error_count_counts_failed_cycles(cycles: Seq<Seq<ReadOutcome>>)
    ensures
        0 <= error_count_after(cycles) <= cycles.len(),
        forall|i: int|
            cycles.len() - error_count_after(cycles) <= i < cycles.len() ==> !spec_cycle_succeeded(
                #[trigger] cycles[i],
            ),
        error_count_after(cycles) < cycles.len() ==> spec_cycle_succeeded(
            cycles[cycles.len() - error_count_after(cycles) - 1],
        ),
    decreases cycles.len(),
{
    if cycles.len() > 0 {
        let p = cycles.drop_last();
        law_error_count_counts_failed_cycles(p);
        if !spec_cycle_succeeded(cycles.last()) {
            assert forall|i: int|
                cycles.len() - error_count_after(cycles) <= i < cycles.len() implies !spec_cycle_succeeded(
                #[trigger] cycles[i],
            ) by {
                if i < cycles.len() - 1 {
                    assert(cycles[i] == p[i]);
                }
            }
            if error_count_after(cycles) < cycles.len() {
                assert(cycles[cycles.len() - error_count_after(cycles) - 1] == p[p.len()
                    - error_count_after(p) - 1]);
            }
        }
    }
}

/// The words a register of the 32-bit types (`u32`, `i32`, `float`) needs:
/// two; every other type needs one.
pub open spec fn words_needed(var_type: Seq<char>) -> u16 {
    if var_type == "u32"@ || var_type == "i32"@ || var_type == "float"@ {
        2
    } else {
        1
    }
}

/// A holding register and an input register of the same address and
/// variable type are read alike: each request starts at the register's
/// address and asks for two words for `u32`, `i32` and `float`, one word
/// otherwise. Decoding as many words as a request asks for never shows the
/// notice of missing data.
pub proof fn law_register_reads_fetch_the_whole_value(holding: RegisterView, input: RegisterView)
    requires
        holding.modbus_type == "holding_register"@,
        input.modbus_type == "input_register"@,
        input.address == holding.address,
        input.var_type == holding.var_type,
    ensures
        spec_poll_request(holding) == (PollRequest::HoldingRegisters {
            address: holding.address,
            quantity: words_needed(holding.var_type),
        }),
        spec_poll_request(input) == (PollRequest::InputRegisters {
            address: holding.address,
            quantity: words_needed(holding.var_type),
        }),
        forall|data: Seq<u16>|
            data.len() == words_needed(holding.var_type) ==> #[trigger] spec_register_reading(
                data,
                holding.var_type,
            ) != RegisterReading::Text(insufficient_data()),
{
    reveal_strlit("holding_register");
    reveal_strlit("input_register");
    assert("holding_register"@[0] != "input_register"@[0]);
    lemma_var_kind_names();
    assert(words_needed(holding.var_type) == spec_quantity(holding.var_type));
    assert forall|data: Seq<u16>|
        data.len() == words_needed(holding.var_type) implies #[trigger] spec_register_reading(
            data,
            holding.var_type,
        ) != RegisterReading::Text(insufficient_data()) by {
        law_quantity_is_enough(data, holding.var_type);
    }
}

} // verus!
