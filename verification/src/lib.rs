//! Address-to-symbol resolution for Mach-O images with DWARF debug
//! information: address translation, unit location, DIE walking, inline
//! chain reconstruction and output formatting.

pub mod addr;
pub mod context;
pub mod dwarf;
pub mod error;
pub mod format;
pub mod header;
pub mod image;
pub mod laws;
pub mod locate;
pub mod lookup;
pub mod path;
pub mod symbol;
pub mod symbolicator;
pub mod text;
pub mod translate;

pub use addr::{Addr, ParseError};
pub use context::{BaseMode, Context, Mode};
pub use dwarf::{ArangeEntry, DebuggingInformationEntry, Dwarf};
pub use error::Error;
pub use format::{atos, delimit, format_result, symbolicate};
pub use header::{header_line, print_header};
pub use image::{atos_obj, File, SymbolMap};
pub use symbol::{SourceLoc, Symbol, SymbolLoc};
pub use symbolicator::atos_dwarf;
pub use lookup::Lookup;
pub use translate::{compute_addrs, parse_addrs, translate};
