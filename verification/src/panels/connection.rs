//! Indicator colour of the daemon connection.

use vstd::prelude::*;

verus! {

/// Where the connection to the daemon stands.
#[derive(Clone, Copy, Debug, PartialEq, Eq, Structural)]
pub enum ConnectionState {
    Disconnected,
    Connecting,
    Connected,
    Reconnecting,
    Error,
}

/// The indicator colour of a connection state, as red, green and blue:
/// grey when disconnected, yellow while (re)connecting, green when
/// connected, red on error.
pub open spec fn connection_color(s: ConnectionState) -> (u8, u8, u8) {
    match s {
        ConnectionState::Disconnected => (160u8, 160u8, 160u8),
        ConnectionState::Connecting => (255u8, 255u8, 0u8),
        ConnectionState::Connected => (0u8, 255u8, 0u8),
        ConnectionState::Reconnecting => (255u8, 255u8, 0u8),
        ConnectionState::Error => (255u8, 0u8, 0u8),
    }
}

/// Display methods of a connection state.
pub trait ConnectionStateExt {
    /// The indicator colour, as red, green and blue.
    fn color(&self) -> (u8, u8, u8);
}

impl ConnectionStateExt for ConnectionState {
    fn color(&self) -> (r: (u8, u8, u8))
        ensures
            r == connection_color(*self),
    {
        match self {
            ConnectionState::Disconnected => (160, 160, 160),
            ConnectionState::Connecting => (255, 255, 0),
            ConnectionState::Connected => (0, 255, 0),
            ConnectionState::Reconnecting => (255, 255, 0),
            ConnectionState::Error => (255, 0, 0),
        }
    }
}

} // verus!
