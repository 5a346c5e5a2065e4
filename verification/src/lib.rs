//! Client library for the bspwm window manager's IPC socket.
//!
//! The manager exposes its runtime state and command interface over a Unix
//! domain socket.  This crate holds everything about that exchange that can
//! be stated and checked as logic: the wire codec (commands as
//! zero-terminated whitespace tokens, replies flagged by a failure sentinel
//! byte), the typed snapshot model of monitors, desktops and the binary
//! tiling tree, and the JSON decoding of that model.  The socket itself is
//! ordinary blocking I/O and lives with the caller; this crate hands it
//! plain byte payloads and interprets the plain bytes it got back.

use vstd::prelude::*;

pub mod codec;
pub mod reply;
pub mod common;
pub mod event;
pub mod json;
pub mod text;

use text::dec_chars;

verus! {

/// Everything that can go wrong between handing a command string to the
/// library and getting a typed reply back.  All failures are returned as
/// values; no operation of this crate panics on manager data.
#[derive(Debug, Clone, PartialEq, Eq)]
pub enum MessageError {
    /// No socket path could be determined at construction time.
    EndpointUnresolved,
    /// The transport could not be established.
    ConnectFailed,
    /// Writing the encoded command failed.
    Send,
    /// Reading the reply failed.
    Receive,
    /// The manager reported a command failure; carries its message.
    Status(String),
    /// The success payload was not a JSON document of the expected shape.
    JsonCouldntParse,
    /// The encoded command exceeds the transmission buffer capacity.
    CommandTooLarge,
}

impl MessageError {
    /// The fixed text of each variant; a `Status` payload does not alter it.
    pub open spec fn describe_text(self) -> Seq<char> {
        match self {
            MessageError::EndpointUnresolved => "no usable socket path"@,
            MessageError::ConnectFailed => "could not connect to bspwm"@,
            MessageError::Send => "Network error while sending message to bspwm"@,
            MessageError::Receive => "Network error while receiving message from bspwm"@,
            MessageError::Status(_) => "Bspwm command failed"@,
            MessageError::JsonCouldntParse => "Got a response from bspwm but couldn't parse the JSON"@,
            MessageError::CommandTooLarge => "encoded command exceeds the transmission buffer"@,
        }
    }

    /// A short human-readable account of the error.
    pub fn describe(&self) -> (r: String)
        ensures
            r@ == self.describe_text(),
    {
        match self {
            MessageError::EndpointUnresolved => "no usable socket path".to_owned(),
            MessageError::ConnectFailed => "could not connect to bspwm".to_owned(),
            MessageError::Send => "Network error while sending message to bspwm".to_owned(),
            MessageError::Receive => "Network error while receiving message from bspwm".to_owned(),
            MessageError::Status(_) => "Bspwm command failed".to_owned(),
            MessageError::JsonCouldntParse => "Got a response from bspwm but couldn't parse the JSON".to_owned(),
            MessageError::CommandTooLarge => "encoded command exceeds the transmission buffer".to_owned(),
        }
    }
}

/// The default socket path the manager binds when no override is given:
/// `/tmp/bspwm_<display>_<instance>-socket`.
pub open spec fn default_socket_path(display: u32, instance: u32) -> Seq<char> {
    "/tmp/bspwm_"@ + dec_chars(display as nat) + "_"@ + dec_chars(instance as nat) + "-socket"@
}

/// A handle on the manager's endpoint.  It records the resolved socket path;
/// the caller owns the actual stream and opens one exchange per command.
#[derive(Debug, Clone)]
pub struct BspwmConnection {
    socket_path: String,
}

impl BspwmConnection {
    /// The resolved socket path, as a sequence of characters.
    pub closed spec fn path_chars(self) -> Seq<char> {
        self.socket_path@
    }

    /// Resolves the manager's endpoint.  An explicit override wins; otherwise
    /// the default path is derived from the session identifiers (display and
    /// session-instance numbers).  With neither source available no path can
    /// be produced and construction fails with `EndpointUnresolved`.
    pub fn new(endpoint_override: Option<String>, session: Option<(u32, u32)>) -> (r: Result<
        BspwmConnection,
        MessageError,
    >)
        ensures
            match endpoint_override {
                Some(p) => r matches Ok(c) && c.path_chars() == p@,
                None => match session {
                    Some((d, i)) => r matches Ok(c) && c.path_chars() == default_socket_path(d, i),
                    None => r == Err::<BspwmConnection, MessageError>(
                        MessageError::EndpointUnresolved,
                    ),
                },
            },
    {
        match endpoint_override {
            Some(p) => Ok(BspwmConnection { socket_path: p }),
            None => match session {
                Some((display, instance)) => {
                    let mut path = "/tmp/bspwm_".to_owned();
                    path.append(text::u32_text(display).as_str());
                    path.append("_");
                    path.append(text::u32_text(instance).as_str());
                    path.append("-socket");
                    Ok(BspwmConnection { socket_path: path })
                },
                None => Err(MessageError::EndpointUnresolved),
            },
        }
    }

    /// The socket path the caller should connect to.
    pub fn path(&self) -> (r: &String)
        ensures
            r@ == self.path_chars(),
    {
        &self.socket_path
    }
}

} // verus!
