//! The failures of resolution, and their messages.

use crate::addr::{hex_text, Addr};
use crate::text::{decimal, push_decimal};
use vstd::prelude::*;
use vstd::string::*;

verus! {

/// Why an address could not be resolved, or an image not be used.
#[derive(Clone, Copy, PartialEq, Eq, Structural, Debug)]
pub enum Error {
    /// The image has no segment named `__TEXT`.
    VmAddrTextSegmentNotFound,
    /// The image carries no UUID.
    ObjectHasNoUuid,
    /// The load address lies below the image's own address.
    InvalidLoadAddress(Addr),
    /// Moving the address by the base offset leaves 64 bits.
    InvalidAddress(Addr),
    /// No subprogram and no symbol covers the address.
    AddrNotFound(Addr),
    /// No address range table covers the address.
    AddrDebugInfoOffsetMissing(Addr),
    /// A reference into the debug information lies in no unit.
    AddrDebugInfoRefOffsetNotFound(Addr),
    /// A reference into the debug information lies outside its unit's entries.
    AddrDebugInfoRefOffsetOutOfBounds(Addr),
    /// The entry found for the address leads to no name.
    AddrSymbolMissing(Addr),
    /// The line program has no row for the address.
    AddrLineInfoMissing(Addr),
    /// The row for the address names a file that the line program lacks.
    AddrFileInfoMissing(Addr),
    /// The unit of the address records no compilation directory.
    CompUnitDirMissing(Addr),
    /// The unit of the address has no line program.
    CompUnitLineProgramMissing(Addr),
    /// An address range ends beyond 64 bits.
    InvalidAddressRange,
    /// No unit starts at the given offset of the debug information.
    NoUnitAtOffset(u64),
    /// No entry stands at the given offset of its unit.
    NoEntryAtOffset(u64),
    /// An attribute that should hold a text holds something else.
    ExpectedStringAttributeValue,
    /// The entry has no name attribute.
    AddrNameMissing,
    /// There is no address to resolve.
    NoInputAddress,
}

impl Error {
    /// Whether the symbol table is still to be asked after this failure.
    pub open spec fn falls_back(self) -> bool {
        self is AddrNotFound || self is AddrDebugInfoOffsetMissing
    }

    /// The message of the failure.
    pub open spec fn message_text(self) -> Seq<char> {
        match self {
            Error::VmAddrTextSegmentNotFound => "vmaddr: __TEXT segment not found"@,
            Error::ObjectHasNoUuid => "Object has no UUID"@,
            Error::InvalidLoadAddress(a) => "Invalid load address: "@ + hex_text(a@),
            Error::InvalidAddress(a) => "Invalid address: "@ + hex_text(a@),
            Error::AddrNotFound(a) => "Address not found ("@ + hex_text(a@) + ")"@,
            Error::AddrDebugInfoOffsetMissing(a) => "No debug info offset for address ("@
                + hex_text(a@) + ")"@,
            Error::AddrDebugInfoRefOffsetNotFound(a) => "No unit holds the debug info reference of address ("@
                + hex_text(a@) + ")"@,
            Error::AddrDebugInfoRefOffsetOutOfBounds(a) => "Debug info reference out of bounds for address ("@
                + hex_text(a@) + ")"@,
            Error::AddrSymbolMissing(a) => "Address has no symbol ("@ + hex_text(a@) + ")"@,
            Error::AddrLineInfoMissing(a) => "Address has no line information ("@ + hex_text(a@)
                + ")"@,
            Error::AddrFileInfoMissing(a) => "Address has no file information ("@ + hex_text(a@)
                + ")"@,
            Error::CompUnitDirMissing(a) => "Compilation unit has no directory ("@ + hex_text(a@)
                + ")"@,
            Error::CompUnitLineProgramMissing(a) => "Compilation unit has no line program ("@
                + hex_text(a@) + ")"@,
            Error::InvalidAddressRange => "Invalid address range"@,
            Error::NoUnitAtOffset(o) => "No unit at debug info offset "@ + decimal(o as nat),
            Error::NoEntryAtOffset(o) => "No entry at unit offset "@ + decimal(o as nat),
            Error::ExpectedStringAttributeValue => "Expected a string attribute value"@,
            Error::AddrNameMissing => "Address has no name"@,
            Error::NoInputAddress => "No input address"@,
        }
    }

    /// Whether the symbol table is still to be asked after this failure.
    pub fn is_recoverable(&self) -> (r: bool)
        ensures
            r == self.falls_back(),
    {
        match self {
            Error::AddrNotFound(_) => true,
            Error::AddrDebugInfoOffsetMissing(_) => true,
            _ => false,
        }
    }

    /// The message of the failure.
    pub fn message(&self) -> (r: String)
        ensures
            r@ == self.message_text(),
    {
        let mut out = String::new();
        match self {
            Error::VmAddrTextSegmentNotFound => {
                out.append("vmaddr: __TEXT segment not found");
            },
            Error::ObjectHasNoUuid => {
                out.append("Object has no UUID");
            },
            Error::InvalidLoadAddress(a) => {
                out.append("Invalid load address: ");
                out.append(a.to_string().as_str());
            },
            Error::InvalidAddress(a) => {
                out.append("Invalid address: ");
                out.append(a.to_string().as_str());
            },
            Error::AddrNotFound(a) => {
                out.append("Address not found (");
                out.append(a.to_string().as_str());
                out.append(")");
            },
            Error::AddrDebugInfoOffsetMissing(a) => {
                out.append("No debug info offset for address (");
                out.append(a.to_string().as_str());
                out.append(")");
            },
            Error::AddrDebugInfoRefOffsetNotFound(a) => {
                out.append("No unit holds the debug info reference of address (");
                out.append(a.to_string().as_str());
                out.append(")");
            },
            Error::AddrDebugInfoRefOffsetOutOfBounds(a) => {
                out.append("Debug info reference out of bounds for address (");
                out.append(a.to_string().as_str());
                out.append(")");
            },
            Error::AddrSymbolMissing(a) => {
                out.append("Address has no symbol (");
                out.append(a.to_string().as_str());
                out.append(")");
            },
            Error::AddrLineInfoMissing(a) => {
                out.append("Address has no line information (");
                out.append(a.to_string().as_str());
                out.append(")");
            },
            Error::AddrFileInfoMissing(a) => {
                out.append("Address has no file information (");
                out.append(a.to_string().as_str());
                out.append(")");
            },
            Error::CompUnitDirMissing(a) => {
                out.append("Compilation unit has no directory (");
                out.append(a.to_string().as_str());
                out.append(")");
            },
            Error::CompUnitLineProgramMissing(a) => {
                out.append("Compilation unit has no line program (");
                out.append(a.to_string().as_str());
                out.append(")");
            },
            Error::InvalidAddressRange => {
                out.append("Invalid address range");
            },
            Error::NoUnitAtOffset(o) => {
                out.append("No unit at debug info offset ");
                push_decimal(&mut out, *o);
            },
            Error::NoEntryAtOffset(o) => {
                out.append("No entry at unit offset ");
                push_decimal(&mut out, *o);
            },
            Error::ExpectedStringAttributeValue => {
                out.append("Expected a string attribute value");
            },
            Error::AddrNameMissing => {
                out.append("Address has no name");
            },
            Error::NoInputAddress => {
                out.append("No input address");
            },
        }
        assert(out@ =~= self.message_text());
        out
    }
}

} // verus!
