//! The failures a resolution can end in.

use vstd::prelude::*;
use vstd::string::StringExecFns;

verus! {

/// Why no interface could be reported.
#[derive(Clone, Copy, Debug, PartialEq, Eq, Structural)]
pub enum MacError {
    /// A file could not be read.
    IoError,
    /// The routing table names no default route.
    NoDefaultRoute,
    /// No adapter belongs to the interface of the default route.
    NoAdapterFound,
    /// A command failed or printed something that could not be understood.
    CommandError,
    /// The operating system did not hand out its adapter list.
    AdapterQueryError,
    /// No buffer layout exists for the size the operating system asked for.
    AllocationError,
    /// The adapter's physical address is not six bytes long.
    InvalidMacLength,
    /// The address text is not six colon-separated hexadecimal octets.
    InvalidMacFormat,
    /// The adapter list is cyclic, too long or otherwise malformed.
    CorruptAdapterList,
}

impl MacError {
    /// The text of `message`, for each kind of failure.
    pub open spec fn message_text(self) -> Seq<char> {
        match self {
            MacError::IoError => "failed to read a file"@,
            MacError::NoDefaultRoute => "could not find default network interface"@,
            MacError::NoAdapterFound => "no adapter found"@,
            MacError::CommandError => "command failed or printed no usable output"@,
            MacError::AdapterQueryError => "failed to get adapters"@,
            MacError::AllocationError => "no layout for the adapter buffer"@,
            MacError::InvalidMacLength => "invalid MAC address length"@,
            MacError::InvalidMacFormat => "invalid MAC address format"@,
            MacError::CorruptAdapterList => "adapter list is corrupt"@,
        }
    }

    /// A sentence for the person who reads the failure.
    pub fn message(&self) -> (text: String)
        ensures
            text@ == self.message_text(),
    {
        match self {
            MacError::IoError => String::from_str("failed to read a file"),
            MacError::NoDefaultRoute => String::from_str("could not find default network interface"),
            MacError::NoAdapterFound => String::from_str("no adapter found"),
            MacError::CommandError => String::from_str("command failed or printed no usable output"),
            MacError::AdapterQueryError => String::from_str("failed to get adapters"),
            MacError::AllocationError => String::from_str("no layout for the adapter buffer"),
            MacError::InvalidMacLength => String::from_str("invalid MAC address length"),
            MacError::InvalidMacFormat => String::from_str("invalid MAC address format"),
            MacError::CorruptAdapterList => String::from_str("adapter list is corrupt"),
        }
    }
}

} // verus!
