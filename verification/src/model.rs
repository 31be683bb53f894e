//! The values that calls carry and return.

use vstd::prelude::*;
use vstd::string::StringExecFns;

verus! {

/// One line to be shipped under a named stream.
#[derive(Clone, Debug)]
pub struct LogEntry {
    pub category: Option<String>,
    pub message: Option<String>,
}

/// A log entry as mathematics.
pub ghost struct EntryView {
    pub category: Option<Seq<char>>,
    pub message: Option<Seq<char>>,
}

/// The text of an optional string.
pub open spec fn opt_text(o: Option<String>) -> Option<Seq<char>> {
    match o {
        Some(s) => Some(s@),
        None => None,
    }
}

impl View for LogEntry {
    type V = EntryView;

    open spec fn view(&self) -> EntryView {
        EntryView { category: opt_text(self.category), message: opt_text(self.message) }
    }
}

/// The views of a sequence of entries, in order.
pub open spec fn entries_view(es: Seq<LogEntry>) -> Seq<EntryView> {
    Seq::new(es.len(), |i: int| es[i]@)
}

/// Outcome of a `Log` call.
#[allow(non_camel_case_types)]
#[derive(Clone, Copy, PartialEq, Eq, Debug)]
pub enum ResultCode {
    /// The collector took the entries.
    OK,
    /// The collector asks the caller to come back later.
    TRY_LATER,
}

/// Health of the remote service.
#[allow(non_camel_case_types)]
#[derive(Clone, Copy, PartialEq, Eq, Debug)]
pub enum ServiceStatus {
    DEAD,
    STARTING,
    ALIVE,
    STOPPING,
    STOPPED,
    WARNING,
    /// A code that this client does not know, kept as it came.
    UNKNOWN(i32),
}

/// The status that a wire code stands for.
pub open spec fn spec_status_from_wire(code: i32) -> ServiceStatus {
    if code == 0 {
        ServiceStatus::DEAD
    } else if code == 1 {
        ServiceStatus::STARTING
    } else if code == 2 {
        ServiceStatus::ALIVE
    } else if code == 3 {
        ServiceStatus::STOPPING
    } else if code == 4 {
        ServiceStatus::STOPPED
    } else if code == 5 {
        ServiceStatus::WARNING
    } else {
        ServiceStatus::UNKNOWN(code)
    }
}

impl ServiceStatus {
    /// Maps a wire code to a status. Every code has one: a code outside the six
    /// known ones gives `Unknown` with that code.
    pub fn from_wire(code: i32) -> (s: ServiceStatus)
        ensures
            s == spec_status_from_wire(code),
            !(0 <= code <= 5) ==> s == ServiceStatus::UNKNOWN(code),
    {
        match code {
            0 => ServiceStatus::DEAD,
            1 => ServiceStatus::STARTING,
            2 => ServiceStatus::ALIVE,
            3 => ServiceStatus::STOPPING,
            4 => ServiceStatus::STOPPED,
            5 => ServiceStatus::WARNING,
            _ => ServiceStatus::UNKNOWN(code),
        }
    }

    /// The upper-case name of the status.
    pub fn name(&self) -> (n: &'static str)
        ensures
            n@ == self.spec_name(),
    {
        match self {
            ServiceStatus::DEAD => "DEAD",
            ServiceStatus::STARTING => "STARTING",
            ServiceStatus::ALIVE => "ALIVE",
            ServiceStatus::STOPPING => "STOPPING",
            ServiceStatus::STOPPED => "STOPPED",
            ServiceStatus::WARNING => "WARNING",
            ServiceStatus::UNKNOWN(_) => "UNKNOWN",
        }
    }

    /// The upper-case name of the status.
    pub open spec fn spec_name(&self) -> Seq<char> {
        match self {
            ServiceStatus::DEAD => "DEAD"@,
            ServiceStatus::STARTING => "STARTING"@,
            ServiceStatus::ALIVE => "ALIVE"@,
            ServiceStatus::STOPPING => "STOPPING"@,
            ServiceStatus::STOPPED => "STOPPED"@,
            ServiceStatus::WARNING => "WARNING"@,
            ServiceStatus::UNKNOWN(_) => "UNKNOWN"@,
        }
    }
}

/// The result code that a wire code stands for, if any.
pub open spec fn spec_result_code_from_wire(code: i32) -> Option<ResultCode> {
    if code == 0 {
        Some(ResultCode::OK)
    } else if code == 1 {
        Some(ResultCode::TRY_LATER)
    } else {
        None
    }
}

impl ResultCode {
    /// Maps a wire code to a result code; there is none for a code other than
    /// the two known ones.
    pub fn from_wire(code: i32) -> (r: Option<ResultCode>)
        ensures
            r == spec_result_code_from_wire(code),
    {
        if code == 0 {
            Some(ResultCode::OK)
        } else if code == 1 {
            Some(ResultCode::TRY_LATER)
        } else {
            None
        }
    }
}

/// The text shown for a status and its detail: the name alone where the detail
/// is empty, else the name, `" - "` and the detail.
pub open spec fn spec_render_status(status: ServiceStatus, details: Seq<char>) -> Seq<char> {
    if details.len() == 0 {
        status.spec_name()
    } else {
        status.spec_name() + " - "@ + details
    }
}

/// Renders a status with its detail for display.
pub fn render_status(status: ServiceStatus, details: &str) -> (r: String)
    ensures
        r@ == spec_render_status(status, details@),
{
    let mut out = String::from_str(status.name());
    if !details.is_empty() {
        out.append(" - ");
        out.append(details);
    }
    out
}

/// Why a call failed.
#[derive(Debug)]
pub enum ClientError {
    /// The connection could not be made, or is no longer usable.
    Connection,
    /// Reading or writing the stream failed.
    Io,
    /// The bytes received are not a reply to the call that was made.
    Protocol,
    /// The peer answered with a fault of its own.
    RemoteService { message: Option<String>, code: Option<i32> },
}

/// An error as mathematics.
pub ghost enum ErrorView {
    Connection,
    Io,
    Protocol,
    RemoteService { message: Option<Seq<char>>, code: Option<i32> },
}

impl View for ClientError {
    type V = ErrorView;

    open spec fn view(&self) -> ErrorView {
        match self {
            ClientError::Connection => ErrorView::Connection,
            ClientError::Io => ErrorView::Io,
            ClientError::Protocol => ErrorView::Protocol,
            ClientError::RemoteService { message, code } => ErrorView::RemoteService {
                message: opt_text(*message),
                code: *code,
            },
        }
    }
}

} // verus!
