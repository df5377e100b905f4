//! Fixed choices offered for the connection.
use vstd::prelude::*;

verus! {

/// Baud rates offered for RS-485, slowest first.
pub const AVAILABLE_BAUD_RATES: (u32, u32, u32, u32, u32, u32, u32) = (
    2400,
    4800,
    9600,
    19200,
    38400,
    57600,
    115200,
);

/// Parity options offered for RS-485.
pub const PARITY_OPTIONS: (&'static str, &'static str, &'static str) = ("None", "Even", "Odd");

/// Stop-bit options offered for RS-485.
pub const STOP_BITS_OPTIONS: (&'static str, &'static str) = ("1 стоп-бит", "2 стоп-бита");

pub const MODE_RTU: &'static str = "RTU";

pub const MODE_TCP: &'static str = "TCP";

pub const DEFAULT_TCP_HOST: &'static str = "127.0.0.1";

pub const DEFAULT_TCP_PORT: u16 = 502;

} // verus!
