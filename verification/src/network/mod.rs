//! Network status as widgets see it.
use vstd::prelude::*;

verus! {

/// Network status of the device.
///
/// @wasm
pub trait Network {
    /// Returns 1 if connected to WiFi, 0 otherwise.
    ///
    /// @wasm builder_name="isConnected"
    fn is_connected(&mut self) -> u32;

    /// Returns the internal IPv4 address packed as a big-endian u32, or 0
    /// if DHCP has not yet assigned an address.
    ///
    /// @wasm builder_name="getInternalIp"
    fn get_internal_ip(&mut self) -> u32;
}

/// 1 when the link is up, 0 otherwise.
pub fn connection_flag(link_up: bool) -> (r: u32)
    ensures
        r == (if link_up {
            1u32
        } else {
            0u32
        }),
{
    if link_up {
        1
    } else {
        0
    }
}

/// The address `a.b.c.d` as the big-endian number `a·2²⁴ + b·2¹⁶ + c·2⁸ + d`,
/// or 0 when there is no address.
pub fn packed_ipv4(address: Option<[u8; 4]>) -> (r: u32)
    ensures
        r == match address {
            Some(o) => (o[0] as nat * 0x100_0000 + o[1] as nat * 0x1_0000 + o[2] as nat * 0x100
                + o[3] as nat) as u32,
            None => 0u32,
        },
{
    match address {
        Some(o) => (o[0] as u32) * 0x100_0000 + (o[1] as u32) * 0x1_0000 + (o[2] as u32) * 0x100
            + (o[3] as u32),
        None => 0,
    }
}

/// What the Wi-Fi supervisor does next.
#[derive(Clone, Copy, Debug, PartialEq, Eq, Structural)]
pub enum WifiStep {
    /// Configure the station and connect.
    Connect,
    /// Wait until the link drops.
    WaitForDisconnect,
}

/// Which step of the supervisor failed.
#[derive(Clone, Copy, Debug, PartialEq, Eq, Structural)]
pub enum WifiFailure {
    SetConfig,
    Connect,
    WaitForDisconnect,
}

/// Connect when not connected, otherwise wait for a disconnect.
pub fn next_wifi_step(connected: bool) -> (s: WifiStep)
    ensures
        s == (if connected {
            WifiStep::WaitForDisconnect
        } else {
            WifiStep::Connect
        }),
{
    if connected {
        WifiStep::WaitForDisconnect
    } else {
        WifiStep::Connect
    }
}

/// Pause before trying again after a failure, in milliseconds: 5 s after
/// a failed configuration or connection, 1 s after a failed wait.
pub fn retry_delay_ms(failure: WifiFailure) -> (ms: u64)
    ensures
        ms == match failure {
            WifiFailure::SetConfig => 5000u64,
            WifiFailure::Connect => 5000u64,
            WifiFailure::WaitForDisconnect => 1000u64,
        },
{
    match failure {
        WifiFailure::SetConfig => 5000,
        WifiFailure::Connect => 5000,
        WifiFailure::WaitForDisconnect => 1000,
    }
}

/// The 64-bit seed of the network stack from two 32-bit random words,
/// `hi` in the upper half.
pub fn network_seed(hi: u32, lo: u32) -> (seed: u64)
    ensures
        seed == hi as nat * 0x1_0000_0000 + lo as nat,
{
    (hi as u64) * 0x1_0000_0000 + (lo as u64)
}

} // verus!
