//! Connection settings, register descriptions and the defaults they fall
//! back to.
use vstd::prelude::*;

use crate::config::constants::{DEFAULT_TCP_HOST, DEFAULT_TCP_PORT, MODE_RTU, MODE_TCP};
use crate::text::{eq_ignore_ascii_case, equal_ignoring_ascii_case};

verus! {

/// Settings of the connection to the Modbus device.
#[derive(Debug)]
pub struct ConnectionSettings {
    pub port: String,
    pub device_address: u8,
    pub baud_rate: u32,
    pub parity: String,
    pub stop_bits: u8,
    pub mode: String,
    pub tcp_host: String,
    pub tcp_port: u16,
}

/// Bookkeeping written next to the settings and the registers.
#[derive(Debug)]
pub struct Metadata {
    pub last_updated: String,
    pub version: String,
    pub description: String,
}

/// One polled register.
#[derive(Debug)]
pub struct RegisterConfig {
    pub name: String,
    pub description: String,
    pub address: u16,
    pub var_type: String,
    pub modbus_type: String,
    pub enabled: bool,
}

/// The content of a `RegisterConfig`, its texts taken as characters.
pub struct RegisterView {
    pub name: Seq<char>,
    pub description: Seq<char>,
    pub address: u16,
    pub var_type: Seq<char>,
    pub modbus_type: Seq<char>,
    pub enabled: bool,
}

impl View for RegisterConfig {
    type V = RegisterView;

    open spec fn view(&self) -> RegisterView {
        RegisterView {
            name: self.name@,
            description: self.description@,
            address: self.address,
            var_type: self.var_type@,
            modbus_type: self.modbus_type@,
            enabled: self.enabled,
        }
    }
}

/// The contents of a list of registers.
pub open spec fn registers_view(regs: Seq<RegisterConfig>) -> Seq<RegisterView> {
    regs.map_values(|r: RegisterConfig| r@)
}

/// All registers together with their metadata.
#[derive(Debug)]
pub struct RegistersConfig {
    pub registers: Vec<RegisterConfig>,
    pub metadata: Metadata,
}

/// The settings file: connection settings and metadata.
#[derive(Debug)]
pub struct Config {
    pub connection: ConnectionSettings,
    pub metadata: Metadata,
}

impl Clone for ConnectionSettings {
    fn clone(&self) -> (r: Self)
        ensures
            r == *self,
    {
        ConnectionSettings {
            port: self.port.clone(),
            device_address: self.device_address,
            baud_rate: self.baud_rate,
            parity: self.parity.clone(),
            stop_bits: self.stop_bits,
            mode: self.mode.clone(),
            tcp_host: self.tcp_host.clone(),
            tcp_port: self.tcp_port,
        }
    }
}

impl Clone for RegisterConfig {
    fn clone(&self) -> (r: Self)
        ensures
            r == *self,
    {
        RegisterConfig {
            name: self.name.clone(),
            description: self.description.clone(),
            address: self.address,
            var_type: self.var_type.clone(),
            modbus_type: self.modbus_type.clone(),
            enabled: self.enabled,
        }
    }
}

/// Whether `mode` names Modbus TCP (ASCII case does not matter).
pub open spec fn spec_is_tcp_mode(mode: Seq<char>) -> bool {
    eq_ignore_ascii_case(mode, MODE_TCP@)
}

/// The mode used when the settings file does not name one.
pub fn default_connection_mode() -> (r: String)
    ensures
        r@ == MODE_RTU@,
{
    String::from_str(MODE_RTU)
}

/// The TCP host used when the settings file does not name one.
pub fn default_tcp_host() -> (r: String)
    ensures
        r@ == DEFAULT_TCP_HOST@,
{
    String::from_str(DEFAULT_TCP_HOST)
}

/// The TCP port used when the settings file does not name one.
pub fn default_tcp_port() -> (r: u16)
    ensures
        r == DEFAULT_TCP_PORT,
{
    DEFAULT_TCP_PORT
}

/// Whether `mode` selects Modbus TCP: it equals `"TCP"` up to ASCII case.
pub fn is_tcp_mode(mode: &str) -> (r: bool)
    ensures
        r == spec_is_tcp_mode(mode@),
{
    equal_ignoring_ascii_case(mode, MODE_TCP)
}

/// The mode that the defaults name is not TCP; the TCP mode name is.
pub proof fn law_default_settings_are_rtu()
    ensures
        !spec_is_tcp_mode(MODE_RTU@),
        spec_is_tcp_mode(MODE_TCP@),
{
    reveal_strlit("RTU");
    reveal_strlit("TCP");
    assert(MODE_RTU@ == "RTU"@);
    assert(MODE_TCP@ == "TCP"@);
    assert(crate::text::ascii_lower(MODE_RTU@[0]) != crate::text::ascii_lower(MODE_TCP@[0]));
}

} // verus!
