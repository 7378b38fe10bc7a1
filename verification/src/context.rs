//! What a run is asked to do.

use crate::addr::Addr;
use vstd::prelude::*;

verus! {

/// How the addresses that were observed relate to those of the image.
#[derive(Clone, Copy, PartialEq, Eq, Structural, Debug)]
pub enum BaseMode {
    /// The image was loaded at this address.
    LoadAddr(Addr),
    /// The image was moved up by this much when it was loaded.
    Slide(Addr),
    /// The addresses are offsets into the image.
    Offset,
}

/// What a run prints.
#[derive(Clone, Copy, PartialEq, Eq, Structural, Debug)]
pub enum Mode {
    /// The symbols of the addresses.
    Symbolicate,
    /// The UUID of the image.
    PrintUuid,
}

/// The input of a run.
#[derive(Clone, Debug)]
pub struct Context {
    /// The path of the image.
    pub obj_path: String,
    /// The architecture that was asked for, if any.
    pub arch: Option<String>,
    /// The addresses to resolve, where they were given one by one.
    pub addrs: Option<Vec<Addr>>,
    /// The file to read the addresses from, if any.
    pub input_addr_file: Option<String>,
    pub base_addr: BaseMode,
    /// Whether inlined calls get lines of their own.
    pub include_inlined: bool,
    /// Whether paths are printed whole.
    pub show_full_path: bool,
    /// The line that parts the output of one address from that of the next.
    pub delimiter: String,
    pub mode: Mode,
}

} // verus!
