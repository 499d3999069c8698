//! How the GUI reaches its daemon: start one locally (mock or lab hardware)
//! or connect to a remote one.

use vstd::prelude::*;
use crate::text::{decimal, push_decimal, push_str, string_of};

verus! {

/// `std::time::Instant`, carried as an opaque value.
#[verifier::external_type_specification]
#[verifier::external_body]
pub struct ExInstant(std::time::Instant);

/// `Instant::clone`: `Instant` is `Copy`, so a clone is the same instant.
pub assume_specification[ <std::time::Instant as Clone>::clone ](i: &std::time::Instant) -> (r: std::time::Instant)
    ensures
        r == *i,
;

/// Where the daemon comes from.
#[derive(Debug, Clone, PartialEq, Eq)]
pub enum DaemonMode {
    /// Start a local daemon with mock hardware on the port.
    LocalAuto { port: u16 },
    /// Connect to the daemon at the URL; start nothing.
    Remote { url: String },
    /// Start a local daemon with the lab hardware configuration on the port.
    LabHardware { port: u16 },
}

impl Default for DaemonMode {
    fn default() -> (r: DaemonMode)
        ensures
            r == (DaemonMode::LocalAuto { port: 50051 }),
    {
        DaemonMode::LocalAuto { port: 50051 }
    }
}

/// URL of a local daemon on a port.
pub open spec fn local_url(port: u16) -> Seq<char> {
    "http://127.0.0.1:"@ + decimal(port as nat)
}

impl DaemonMode {
    /// URL the GUI connects to.
    pub fn daemon_url(&self) -> (r: String)
        ensures
            r@ == match *self {
                DaemonMode::LocalAuto { port } => local_url(port),
                DaemonMode::LabHardware { port } => local_url(port),
                DaemonMode::Remote { url } => url@,
            },
    {
        match self {
            DaemonMode::LocalAuto { port } | DaemonMode::LabHardware { port } => {
                let mut r = string_of("http://127.0.0.1:");
                push_decimal(&mut r, *port as u64);
                r
            },
            DaemonMode::Remote { url } => url.clone(),
        }
    }

    /// Does this mode start a local daemon?
    pub fn should_auto_start(&self) -> (r: bool)
        ensures
            r == !(*self is Remote),
    {
        match self {
            DaemonMode::LocalAuto { .. } | DaemonMode::LabHardware { .. } => true,
            DaemonMode::Remote { .. } => false,
        }
    }

    pub fn label(&self) -> (r: &'static str)
        ensures
            r@ == match *self {
                DaemonMode::LocalAuto { .. } => "Local (Mock)"@,
                DaemonMode::Remote { .. } => "Remote"@,
                DaemonMode::LabHardware { .. } => "Lab Hardware"@,
            },
    {
        match self {
            DaemonMode::LocalAuto { .. } => "Local (Mock)",
            DaemonMode::Remote { .. } => "Remote",
            DaemonMode::LabHardware { .. } => "Lab Hardware",
        }
    }

    /// The port of a local daemon; none for a remote one.
    pub fn port(&self) -> (r: Option<u16>)
        ensures
            r == match *self {
                DaemonMode::LocalAuto { port } => Some(port),
                DaemonMode::LabHardware { port } => Some(port),
                DaemonMode::Remote { .. } => None::<u16>,
            },
    {
        match self {
            DaemonMode::LocalAuto { port } | DaemonMode::LabHardware { port } => Some(*port),
            DaemonMode::Remote { .. } => None,
        }
    }
}

/// The message for an attempt to start a daemon in remote mode.
pub open spec fn remote_start_message() -> Seq<char> {
    "Cannot start daemon in Remote mode (should connect to existing daemon)"@
}

/// Arguments of the daemon program for a mode and port:
/// `daemon --port <port>`, plus `--lab-hardware` for lab hardware.
pub open spec fn launch_args(lab_hardware: bool, port: u16) -> Seq<Seq<char>> {
    if lab_hardware {
        seq!["daemon"@, "--port"@, decimal(port as nat), "--lab-hardware"@]
    } else {
        seq!["daemon"@, "--port"@, decimal(port as nat)]
    }
}

/// The arguments to start the daemon program with for a mode, the launcher
/// listening on `port`; a remote mode starts nothing and is refused.
pub fn launch_arguments(mode: &DaemonMode, port: u16) -> (r: Result<Vec<String>, String>)
    ensures
        r matches Ok(args) ==> !(*mode is Remote) && args@.map_values(|a: String| a@) == launch_args(
            *mode is LabHardware,
            port,
        ),
        r matches Err(m) ==> *mode is Remote && m@ == remote_start_message(),
        r is Ok <==> !(*mode is Remote),
{
    let lab = match mode {
        DaemonMode::Remote { .. } => {
            return Err(string_of("Cannot start daemon in Remote mode (should connect to existing daemon)"));
        },
        DaemonMode::LocalAuto { .. } => false,
        DaemonMode::LabHardware { .. } => true,
    };
    let mut args: Vec<String> = Vec::new();
    args.push(string_of("daemon"));
    args.push(string_of("--port"));
    let mut p = String::new();
    push_decimal(&mut p, port as u64);
    args.push(p);
    if lab {
        args.push(string_of("--lab-hardware"));
    }
    proof {
        assert(args@.map_values(|a: String| a@) =~= launch_args(lab, port));
    }
    Ok(args)
}

/// Stage of connecting to the daemon on start-up.
#[derive(Debug, Clone, PartialEq)]
pub enum AutoConnectState {
    /// The daemon process was started at `since`; waiting for it to come up.
    WaitingForDaemon { since: std::time::Instant },
    /// Ready to connect.
    ReadyToConnect,
    /// Done; connections are manual from here.
    Complete,
    /// Skipped (remote mode, or the user stepped in).
    Skipped,
}

impl Default for AutoConnectState {
    fn default() -> (r: AutoConnectState)
        ensures
            r is Complete,
    {
        AutoConnectState::Complete
    }
}

} // verus!
