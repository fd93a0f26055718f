//! What the USB interrupt handler does with each incoming report.
use vstd::prelude::*;

verus! {

/// Interval of the housekeeping task (indicator toggle, voltage sample), in
/// milliseconds.
pub const HOUSEKEEPING_PERIOD_MS: u32 = 500;

/// Size of the scratch buffer that receives a command's response.
pub const RESPONSE_BUFFER_SIZE: usize = 64;

/// The kinds of report the USB layer hands over.
#[derive(PartialEq, Eq, Structural, Clone, Copy, Debug)]
pub enum ReportKind {
    /// A command on the legacy (version 1) interface.
    Dap1Command,
    /// A command on the version 2 interface.
    Dap2Command,
    /// The host suspended the bus.
    Suspend,
}

/// Protocol version a command is processed under.
#[derive(PartialEq, Eq, Structural, Clone, Copy, Debug)]
pub enum DapVersion {
    V1,
    V2,
}

/// What to do with a report.
#[derive(PartialEq, Eq, Structural, Clone, Copy, Debug)]
pub enum Action {
    /// Process the payload as a command of this version and send any
    /// response back on the same interface.
    Process(DapVersion),
    /// Put the protocol engine into its quiescent state.
    Suspend,
}

/// Routes a report: commands go to the processor tagged with their
/// interface's version, a suspend notification quiesces the engine.
pub fn route(kind: ReportKind) -> (r: Action)
    ensures
        kind == ReportKind::Dap1Command ==> r == Action::Process(DapVersion::V1),
        kind == ReportKind::Dap2Command ==> r == Action::Process(DapVersion::V2),
        kind == ReportKind::Suspend ==> r == Action::Suspend,
{
    match kind {
        ReportKind::Dap1Command => Action::Process(DapVersion::V1),
        ReportKind::Dap2Command => Action::Process(DapVersion::V2),
        ReportKind::Suspend => Action::Suspend,
    }
}

/// How many response bytes to send back: none for an empty response, and
/// never more than the scratch buffer holds.
pub fn reply_length(len: usize) -> (r: Option<usize>)
    ensures
        len == 0 ==> r is None,
        0 < len <= RESPONSE_BUFFER_SIZE ==> r == Some(len),
        len > RESPONSE_BUFFER_SIZE ==> r == Some(RESPONSE_BUFFER_SIZE),
{
    if len == 0 {
        None
    } else if len <= RESPONSE_BUFFER_SIZE {
        Some(len)
    } else {
        Some(RESPONSE_BUFFER_SIZE)
    }
}

} // verus!
