//! Resolution of the primary network interface and its hardware address.
//!
//! The crate holds the decisions of the probe: which interface carries the
//! default route, which adapter record belongs to it, and how its address is
//! decoded, checked and written. Reading files, running commands and calling
//! the operating system are left to the caller, who hands the values in.

use vstd::prelude::*;

pub mod error;
pub mod linux;
pub mod mac;
pub mod macos;
pub mod probe;
pub mod text;
pub mod utf16;
pub mod win;

pub use error::MacError;
pub use mac::is_valid_mac;

verus! {

/// The primary network interface: its display name and its hardware address.
///
/// `addr` is six hexadecimal octets separated by colons. Where the library
/// writes it from bytes the digits are upper-case; where it is read as text
/// it keeps the case it came in.
#[derive(Debug)]
pub struct MacInfo {
    pub name: String,
    pub addr: String,
}

/// What a `MacInfo` holds, as text.
pub struct MacText {
    pub name: Seq<char>,
    pub addr: Seq<char>,
}

impl View for MacInfo {
    type V = MacText;

    open spec fn view(&self) -> MacText {
        MacText { name: self.name@, addr: self.addr@ }
    }
}

impl MacInfo {
    /// The address has the shape that the validator accepts. Every
    /// `MacInfo` that this crate hands out is well formed.
    pub open spec fn wf(&self) -> bool {
        mac::mac_format(self.addr@)
    }
}

/// What the outcome of a resolution holds, as text.
pub open spec fn outcome_text(found: Result<MacInfo, MacError>) -> Result<MacText, MacError> {
    match found {
        Ok(info) => Ok(info@),
        Err(e) => Err(e),
    }
}

} // verus!
