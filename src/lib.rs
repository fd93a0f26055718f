//! A bit-banged Serial Wire Debug probe core: pin and timing control, raw
//! line sequences, and the SWD register read/write handshake.

pub mod bits;
pub mod context;
pub mod dispatch;
pub mod line;
pub mod protocol;
pub mod swd;
pub mod winusb;
