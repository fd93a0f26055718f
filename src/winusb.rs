//! Vendor-specific descriptor handling for automatic driver binding.
use vstd::prelude::*;

verus! {

/// Vendor request code under which the descriptor set is served.
pub const VENDOR_ID: u8 = 0x42;

/// Total length in bytes of the descriptor set.
pub const DESCRIPTOR_SIZE: u16 = 168;

/// Request index that asks for the descriptor set.
pub const DESCRIPTOR_INDEX: u16 = 7;

/// Interface number of the version 2 debug interface.
pub const DAP_V2_INTERFACE: u8 = 2;

/// Low byte of a 16-bit value.
pub fn u16_low(val: u16) -> (r: u8)
    ensures
        r as int == val as int % 256,
{
    (val % 256) as u8
}

/// High byte of a 16-bit value.
pub fn u16_high(val: u16) -> (r: u8)
    ensures
        r as int == val as int / 256,
{
    (val / 256) as u8
}

/// What to do with an incoming control-in request.
#[derive(PartialEq, Eq, Structural, Clone, Copy, Debug)]
pub enum ControlReply {
    /// Not addressed to this class: leave it to others.
    Ignore,
    /// Answer with the descriptor set.
    SendDescriptor,
    /// A vendor request of this class that cannot be served.
    Reject,
}

/// The class that serves the vendor descriptors.
pub struct MicrosoftDescriptors;

impl MicrosoftDescriptors {
    /// Decides how to answer a control-in request: vendor requests with
    /// this class's code get the descriptor set at its index and a
    /// rejection at any other; every other request is left alone.
    pub fn control_in(&self, is_vendor: bool, request: u8, index: u16) -> (r: ControlReply)
        ensures
            !is_vendor || request != VENDOR_ID ==> r == ControlReply::Ignore,
            is_vendor && request == VENDOR_ID && index == DESCRIPTOR_INDEX ==> r
                == ControlReply::SendDescriptor,
            is_vendor && request == VENDOR_ID && index != DESCRIPTOR_INDEX ==> r
                == ControlReply::Reject,
    {
        if !is_vendor || request != VENDOR_ID {
            ControlReply::Ignore
        } else if index == DESCRIPTOR_INDEX {
            ControlReply::SendDescriptor
        } else {
            ControlReply::Reject
        }
    }

    /// Body of the platform capability that announces the descriptor set:
    /// reserved byte, platform UUID, minimum OS version, the set's total
    /// length (little endian), the vendor code, and no alternate enumeration.
    pub fn bos_capability(&self) -> (r: Vec<u8>)
        ensures
            r@.len() == 25,
            r@[21] as int == DESCRIPTOR_SIZE as int % 256,
            r@[22] as int == DESCRIPTOR_SIZE as int / 256,
            r@[23] == VENDOR_ID,
            r@[24] == 0,
    {
        let mut r: Vec<u8> = vec![
            0, 0xdf, 0x60, 0xdd, 0xd8, 0x89, 0x45, 0xc7, 0x4c, 0x9c, 0xd2, 0x65, 0x9d, 0x9e,
            0x64, 0x8a, 0x9f, 0x00, 0x00, 0x03, 0x06,
        ];
        r.push(u16_low(DESCRIPTOR_SIZE));
        r.push(u16_high(DESCRIPTOR_SIZE));
        r.push(VENDOR_ID);
        r.push(0);
        r
    }
}

} // verus!
