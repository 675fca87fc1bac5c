//! The single error type shared by every subsystem.

use vstd::prelude::*;
use crate::text::{decimal, hex8, push_decimal, push_str, string_from_chars};

verus! {

/// Which COM interface a failing call went through. The platform layer
/// reports the interface it knows; conversions from a bare error code
/// use `Unknown`.
#[derive(Debug, Clone, Copy, PartialEq, Eq)]
pub enum ComInterfaceId {
    /// The interface could not be determined.
    Unknown,
}

/// The error type used by all subsystems. Each variant names a failure
/// mode so that callers can decide whether to retry, fall back or report.
#[derive(Debug, Clone, PartialEq, Eq)]
pub enum JacqueError {
    /// The workspace index lies outside `1..=9`.
    InvalidWorkspaceIndex(u8),
    /// The configuration file could not be loaded.
    ConfigLoad(String),
    /// The configuration holds invalid values.
    ConfigValidation(String),
    /// A virtual desktop could not be created.
    DesktopCreate(String),
    /// Switching desktops failed.
    DesktopSwitch { index: u8, reason: String },
    /// Enumerating desktops failed.
    DesktopEnumeration(String),
    /// Moving a window failed.
    WindowMove { hwnd: u64, index: u8, reason: String },
    /// Enumerating windows failed.
    WindowEnumeration(String),
    /// The keyboard hook could not be installed.
    HookInstall(String),
    /// A hotkey could not be registered.
    HotkeyRegister(String),
    /// A COM call returned a failing HRESULT.
    Com { interface: ComInterfaceId, hr: u32 },
    /// The COM apartment could not be initialised.
    ComInit(String),
    /// Explorer was not ready after the given number of seconds.
    ExplorerNotReady(Option<u64>),
    /// Auto-start registration failed.
    AutoStart(String),
    /// An I/O error, carried as its message.
    Io(String),
    /// A handle had an unexpected value.
    InvalidHandle(String),
    /// The logger could not be initialised.
    Logging(String),
    /// Any other failure.
    Other(String),
}

impl JacqueError {
    /// Wrap a message into [`JacqueError::Other`].
    pub fn other(msg: &str) -> (r: JacqueError)
        ensures
            r matches JacqueError::Other(m) && m@ == msg@,
    {
        JacqueError::Other(msg.to_string())
    }

    /// The error a COM call produces when only its HRESULT is known.
    pub fn from_hresult(code: i32) -> (r: JacqueError)
        ensures
            r == (JacqueError::Com { interface: ComInterfaceId::Unknown, hr: code as u32 }),
    {
        JacqueError::Com { interface: ComInterfaceId::Unknown, hr: code as u32 }
    }
}

impl ComInterfaceId {
    /// The interface's name.
    pub fn name(self) -> (r: &'static str)
        ensures
            r@ == "Unknown"@,
    {
        "Unknown"
    }
}

/// The `{:?}` text of an optional count of seconds.
pub open spec fn debug_opt(o: Option<u64>) -> Seq<char> {
    match o {
        Some(n) => "Some("@ + decimal(n as nat) + ")"@,
        None => "None"@,
    }
}

/// The message an error reads as.
pub open spec fn message(e: JacqueError) -> Seq<char> {
    match e {
        JacqueError::InvalidWorkspaceIndex(i) => "workspace index "@ + decimal(i as nat) + " is out of range (must be 1..=9)"@,
        JacqueError::ConfigLoad(m) => "could not load configuration: "@ + m@,
        JacqueError::ConfigValidation(m) => "invalid configuration: "@ + m@,
        JacqueError::DesktopCreate(m) => "failed to create virtual desktop: "@ + m@,
        JacqueError::DesktopSwitch { index, reason } => "failed to switch to desktop index "@ + decimal(index as nat)
            + ": "@ + reason@,
        JacqueError::DesktopEnumeration(m) => "failed to enumerate virtual desktops: "@ + m@,
        JacqueError::WindowMove { hwnd, index, reason } => "failed to move window "@ + decimal(hwnd as nat)
            + " to desktop index "@ + decimal(index as nat) + ": "@ + reason@,
        JacqueError::WindowEnumeration(m) => "failed to enumerate windows: "@ + m@,
        JacqueError::HookInstall(m) => "failed to install keyboard hook: "@ + m@,
        JacqueError::HotkeyRegister(m) => "failed to register hotkey "@ + m@,
        JacqueError::Com { interface, hr } => "COM call failed on interface "@ + "Unknown"@ + ": HRESULT 0x"@ + hex8(hr),
        JacqueError::ComInit(m) => "COM initialization failed: "@ + m@,
        JacqueError::ExplorerNotReady(o) => "Explorer.exe was not ready after waiting "@ + debug_opt(o) + " seconds"@,
        JacqueError::AutoStart(m) => "could not register JacqueWM for auto-start: "@ + m@,
        JacqueError::Io(m) => "I/O error: "@ + m@,
        JacqueError::InvalidHandle(m) => "invalid handle: "@ + m@,
        JacqueError::Logging(m) => "logger initialization failed: "@ + m@,
        JacqueError::Other(m) => m@,
    }
}

impl JacqueError {
    /// The message the error reads as.
    pub fn describe(&self) -> (r: String)
        ensures
            r@ == message(*self),
    {
        let mut out: Vec<char> = Vec::new();
        match self {
            JacqueError::InvalidWorkspaceIndex(i) => {
                push_str(&mut out, "workspace index ");
                push_decimal(*i as u64, &mut out);
                push_str(&mut out, " is out of range (must be 1..=9)");
            },
            JacqueError::ConfigLoad(m) => {
                push_str(&mut out, "could not load configuration: ");
                push_str(&mut out, m.as_str());
            },
            JacqueError::ConfigValidation(m) => {
                push_str(&mut out, "invalid configuration: ");
                push_str(&mut out, m.as_str());
            },
            JacqueError::DesktopCreate(m) => {
                push_str(&mut out, "failed to create virtual desktop: ");
                push_str(&mut out, m.as_str());
            },
            JacqueError::DesktopSwitch { index, reason } => {
                push_str(&mut out, "failed to switch to desktop index ");
                push_decimal(*index as u64, &mut out);
                push_str(&mut out, ": ");
                push_str(&mut out, reason.as_str());
            },
            JacqueError::DesktopEnumeration(m) => {
                push_str(&mut out, "failed to enumerate virtual desktops: ");
                push_str(&mut out, m.as_str());
            },
            JacqueError::WindowMove { hwnd, index, reason } => {
                push_str(&mut out, "failed to move window ");
                push_decimal(*hwnd, &mut out);
                push_str(&mut out, " to desktop index ");
                push_decimal(*index as u64, &mut out);
                push_str(&mut out, ": ");
                push_str(&mut out, reason.as_str());
            },
            JacqueError::WindowEnumeration(m) => {
                push_str(&mut out, "failed to enumerate windows: ");
                push_str(&mut out, m.as_str());
            },
            JacqueError::HookInstall(m) => {
                push_str(&mut out, "failed to install keyboard hook: ");
                push_str(&mut out, m.as_str());
            },
            JacqueError::HotkeyRegister(m) => {
                push_str(&mut out, "failed to register hotkey ");
                push_str(&mut out, m.as_str());
            },
            JacqueError::Com { interface, hr } => {
                push_str(&mut out, "COM call failed on interface ");
                push_str(&mut out, interface.name());
                push_str(&mut out, ": HRESULT 0x");
                let h = crate::text::hex8_string(*hr);
                push_str(&mut out, h.as_str());
            },
            JacqueError::ComInit(m) => {
                push_str(&mut out, "COM initialization failed: ");
                push_str(&mut out, m.as_str());
            },
            JacqueError::ExplorerNotReady(o) => {
                push_str(&mut out, "Explorer.exe was not ready after waiting ");
                match o {
                    Some(n) => {
                        push_str(&mut out, "Some(");
                        push_decimal(*n, &mut out);
                        push_str(&mut out, ")");
                    },
                    None => push_str(&mut out, "None"),
                }
                push_str(&mut out, " seconds");
            },
            JacqueError::AutoStart(m) => {
                push_str(&mut out, "could not register JacqueWM for auto-start: ");
                push_str(&mut out, m.as_str());
            },
            JacqueError::Io(m) => {
                push_str(&mut out, "I/O error: ");
                push_str(&mut out, m.as_str());
            },
            JacqueError::InvalidHandle(m) => {
                push_str(&mut out, "invalid handle: ");
                push_str(&mut out, m.as_str());
            },
            JacqueError::Logging(m) => {
                push_str(&mut out, "logger initialization failed: ");
                push_str(&mut out, m.as_str());
            },
            JacqueError::Other(m) => {
                push_str(&mut out, m.as_str());
            },
        }
        assert(out@ =~= message(*self));
        string_from_chars(out.as_slice())
    }
}

} // verus!
