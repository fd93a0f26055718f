//! SWD request framing and acknowledgment decoding.
use vstd::prelude::*;
use dap_rs::swd;

verus! {

/// Selects the debug port or an access port.
#[derive(PartialEq, Eq, Structural, Clone, Copy, Debug)]
pub enum APnDP {
    DP,
    AP,
}

/// Direction of a transaction.
#[derive(PartialEq, Eq, Structural, Clone, Copy, Debug)]
pub enum RnW {
    W,
    R,
}

/// The register address bits of a request.
#[derive(PartialEq, Eq, Structural, Clone, Copy, Debug)]
pub enum DPRegister {
    DPIDR,
    CTRLSTAT,
    SELECT,
    RDBUFF,
}

/// Turnaround period the host may ask for.
#[derive(PartialEq, Eq, Structural, Clone, Copy, Debug)]
pub enum TurnaroundPeriod {
    Cycles1,
    Cycles2,
    Cycles3,
    Cycles4,
}

/// Whether a data phase follows a WAIT or FAULT acknowledgment.
#[derive(PartialEq, Eq, Structural, Clone, Copy, Debug)]
pub enum DataPhase {
    NoDataPhase,
    AlwaysDataPhase,
}

/// Why a transaction failed.
#[derive(PartialEq, Eq, Structural, Clone, Copy, Debug)]
pub enum SwdError {
    /// The data's parity bit did not match its population count.
    BadParity,
    /// The target answered WAIT.
    AckWait,
    /// The target answered FAULT.
    AckFault,
    /// The target answered with all three bits set (no response).
    AckProtocol,
    /// The target answered with another code.
    AckUnknown(u8),
}

pub open spec fn port_bit(p: APnDP) -> int {
    match p {
        APnDP::DP => 0,
        APnDP::AP => 1,
    }
}

pub open spec fn rnw_bit(d: RnW) -> int {
    match d {
        RnW::W => 0,
        RnW::R => 1,
    }
}

pub open spec fn register_index(a: DPRegister) -> int {
    match a {
        DPRegister::DPIDR => 0,
        DPRegister::CTRLSTAT => 1,
        DPRegister::SELECT => 2,
        DPRegister::RDBUFF => 3,
    }
}

/// The request byte, least significant bit first on the wire: start bit,
/// port, direction, two address bits, parity of those four, stop bit (low)
/// and park bit (high).
pub open spec fn request_byte(p: APnDP, d: RnW, a: DPRegister) -> int {
    let x = port_bit(p) + rnw_bit(d) + register_index(a) % 2 + register_index(a) / 2;
    1 + 2 * port_bit(p) + 4 * rnw_bit(d) + 8 * register_index(a) + 32 * (x % 2) + 128
}

/// The error reported for a non-OK acknowledgment code.
pub open spec fn ack_error(code: u8) -> SwdError {
    if code == 0b010 {
        SwdError::AckWait
    } else if code == 0b100 {
        SwdError::AckFault
    } else if code == 0b111 {
        SwdError::AckProtocol
    } else {
        SwdError::AckUnknown(code)
    }
}

/// What an acknowledgment code means: OK is `0b001`.
pub open spec fn ack_result(code: u8) -> Result<(), SwdError> {
    if code == 0b001 {
        Ok(())
    } else {
        Err(ack_error(code))
    }
}

/// Relies on `dap_rs::swd::make_request`: builds the request byte from the
/// port, direction and address bits with even parity over those four.
#[verifier::external_body]
pub(crate) fn make_request(p: APnDP, d: RnW, a: DPRegister) -> (r: u8)
    ensures
        r as int == request_byte(p, d, a),
{
    let p = match p { APnDP::DP => swd::APnDP::DP, APnDP::AP => swd::APnDP::AP };
    let d = match d { RnW::W => swd::RnW::W, RnW::R => swd::RnW::R };
    let a = match a {
        DPRegister::DPIDR => swd::DPRegister::DPIDR,
        DPRegister::CTRLSTAT => swd::DPRegister::CTRLSTAT,
        DPRegister::SELECT => swd::DPRegister::SELECT,
        DPRegister::RDBUFF => swd::DPRegister::RDBUFF,
    };
    swd::make_request(p, d, a)
}

/// Relies on `dap_rs::swd::Ack::try_ok`: OK, WAIT, FAULT and the
/// all-ones code are told apart, any other code is returned as unknown.
#[verifier::external_body]
pub(crate) fn try_ok(code: u8) -> (r: Result<(), SwdError>)
    ensures
        r == ack_result(code),
{
    match swd::Ack::try_ok(code) {
        Ok(()) => Ok(()),
        Err(swd::Error::BadParity) => Err(SwdError::BadParity),
        Err(swd::Error::AckWait) => Err(SwdError::AckWait),
        Err(swd::Error::AckFault) => Err(SwdError::AckFault),
        Err(swd::Error::AckProtocol) => Err(SwdError::AckProtocol),
        Err(swd::Error::AckUnknown(v)) => Err(SwdError::AckUnknown(v)),
    }
}

} // verus!
