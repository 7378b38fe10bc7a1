//! What resolution gives for an address: symbols with their places.

use crate::addr::Addr;
use vstd::prelude::*;

verus! {

/// A place in the source. Column 0 is the left edge, or unknown; line 0
/// marks what the compiler generated.
#[derive(Clone, Debug, PartialEq, Eq)]
pub struct SourceLoc {
    pub file: String,
    pub line: u16,
    pub col: u16,
}

/// A place in the source, as plain values.
pub struct SourceLocView {
    pub file: Seq<char>,
    pub line: u16,
    pub col: u16,
}

impl View for SourceLoc {
    type V = SourceLocView;

    open spec fn view(&self) -> SourceLocView {
        SourceLocView { file: self.file@, line: self.line, col: self.col }
    }
}

/// Where a symbol was found.
#[derive(Clone, Debug, PartialEq, Eq)]
pub enum SymbolLoc {
    /// In the debug information: a place in the source, where one is known.
    Source(Option<SourceLoc>),
    /// In the symbol table: the distance from the symbol's start.
    ObjectOffset(Addr),
}

/// Where a symbol was found, as plain values.
pub enum SymbolLocView {
    Source(Option<SourceLocView>),
    ObjectOffset(Addr),
}

impl View for SymbolLoc {
    type V = SymbolLocView;

    open spec fn view(&self) -> SymbolLocView {
        match self {
            SymbolLoc::Source(Some(loc)) => SymbolLocView::Source(Some(loc@)),
            SymbolLoc::Source(None) => SymbolLocView::Source(None),
            SymbolLoc::ObjectOffset(offset) => SymbolLocView::ObjectOffset(*offset),
        }
    }
}

/// A named place of the image.
#[derive(Clone, Debug, PartialEq, Eq)]
pub struct Symbol {
    pub addr: Addr,
    pub name: String,
    pub loc: SymbolLoc,
}

/// A named place of the image, as plain values.
pub struct SymbolView {
    pub addr: Addr,
    pub name: Seq<char>,
    pub loc: SymbolLocView,
}

impl View for Symbol {
    type V = SymbolView;

    open spec fn view(&self) -> SymbolView {
        SymbolView { addr: self.addr, name: self.name@, loc: self.loc@ }
    }
}

/// The views of a list of symbols.
pub open spec fn symbol_views(symbols: Seq<Symbol>) -> Seq<SymbolView> {
    Seq::new(symbols.len(), |i: int| symbols[i]@)
}

} // verus!
