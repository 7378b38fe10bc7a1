//! Resolution of an address: the enclosing subprogram, the inlined calls
//! around the address, their names and their places in the source.

use crate::addr::Addr;
use crate::dwarf::{
    low16, truncate16, AttrValue, DebuggingInformationEntry, Dwarf, FileEntry, LineProgram,
    LineRow, Tag, Unit,
};
use crate::error::Error;
use crate::path::{join, joined_path};
use crate::symbol::{
    symbol_views, SourceLoc, SourceLocView, Symbol, SymbolLoc, SymbolLocView, SymbolView,
};
use crate::text::views;
use vstd::prelude::*;
use vstd::string::*;

verus! {

/// How many references from entry to entry a name may lie away. A chain
/// of references that is longer, as every cyclic one is, ends the search
/// for the name.
pub const MAX_REFERENCE_DEPTH: usize = 64;

/// The first of two numbers that is there and fits in 16 bits.
pub open spec fn first_u16(first: Option<u64>, second: Option<u64>) -> Option<u16> {
    if first is Some && first.unwrap() <= u16::MAX {
        Some(first.unwrap() as u16)
    } else if second is Some && second.unwrap() <= u16::MAX {
        Some(second.unwrap() as u16)
    } else {
        None
    }
}

/// The index of the last of the first `end` rows that stands at `addr`.
pub open spec fn last_row_at(rows: Seq<LineRow>, addr: int, end: int) -> Option<int>
    decreases end,
{
    if end <= 0 || end > rows.len() {
        None
    } else if rows[end - 1].address == addr {
        Some(end - 1)
    } else {
        last_row_at(rows, addr, end - 1)
    }
}

/// The file that stands for what the compiler generated.
pub open spec fn generated_file() -> Seq<char> {
    "<compiler-generated>"@
}

impl FileEntry {
    /// The file's path as the line program records it: its name, in its
    /// directory unless that is the compilation directory.
    pub open spec fn recorded_path(&self) -> Seq<char> {
        if self.directory_index != 0 && self.directory is Some {
            joined_path(self.directory.unwrap()@, self.path_name@)
        } else {
            self.path_name@
        }
    }
}

impl LineProgram {
    /// The place that the line program gives for `addr`: the file, line
    /// and column of the last row that stands at `addr`, the file seen from
    /// `comp_dir`.
    pub open spec fn loc_at(&self, addr: Addr, comp_dir: Seq<char>) -> Result<
        SourceLocView,
        Error,
    > {
        match last_row_at(self.rows@, addr@, self.rows@.len() as int) {
            None => Err(Error::AddrLineInfoMissing(addr)),
            Some(i) => {
                let row = self.rows@[i];
                match self.file_at(row.file_index) {
                    None => Err(Error::AddrFileInfoMissing(addr)),
                    Some(file) => Ok(
                        SourceLocView {
                            file: joined_path(comp_dir, file.recorded_path()),
                            line: low16(row.line),
                            col: row.column.number(),
                        },
                    ),
                }
            },
        }
    }

    /// The path of the file of `row`, seen from `comp_dir`.
    pub fn line_row_file(&self, row: &LineRow, comp_dir: &str) -> (r: Result<String, Error>)
        ensures
            match r {
                Ok(path) => self.file_at(row.file_index) is Some && path@ == joined_path(
                    comp_dir@,
                    self.file_at(row.file_index).unwrap().recorded_path(),
                ),
                Err(e) => self.file_at(row.file_index) is None && e == Error::AddrFileInfoMissing(
                    Addr(row.address),
                ),
            },
    {
        match self.file(row.file_index) {
            None => Err(Error::AddrFileInfoMissing(Addr(row.address))),
            Some(file) => {
                let recorded = match &file.directory {
                    Some(dir) => {
                        if file.directory_index != 0 {
                            join(dir.as_str(), file.path_name.as_str())
                        } else {
                            file.path_name.clone()
                        }
                    },
                    None => file.path_name.clone(),
                };
                Ok(join(comp_dir, recorded.as_str()))
            },
        }
    }

    /// The place that the line program gives for `addr`: one pass over
    /// the rows, of which the last that stands at `addr` counts.
    pub fn entry_debug_line(&self, addr: Addr, comp_dir: &str) -> (r: Result<SourceLoc, Error>)
        ensures
            match r {
                Ok(loc) => self.loc_at(addr, comp_dir@) == Ok::<SourceLocView, Error>(loc@),
                Err(e) => self.loc_at(addr, comp_dir@) == Err::<SourceLocView, Error>(e),
            },
    {
        let mut found: Option<usize> = None;
        let mut i: usize = 0;
        while i < self.rows.len()
            invariant
                i <= self.rows.len(),
                found matches Some(k) ==> k < i,
                match found {
                    Some(k) => last_row_at(self.rows@, addr@, i as int) == Some(k as int),
                    None => last_row_at(self.rows@, addr@, i as int) is None,
                },
            decreases self.rows.len() - i,
        {
            if self.rows[i].address == addr.0 {
                found = Some(i);
            }
            i = i + 1;
        }
        match found {
            None => Err(Error::AddrLineInfoMissing(addr)),
            Some(k) => {
                let row = &self.rows[k];
                match self.line_row_file(row, comp_dir) {
                    Err(_) => Err(Error::AddrFileInfoMissing(addr)),
                    Ok(file) => Ok(
                        SourceLoc { file, line: truncate16(row.line), col: row.column.to_u16() },
                    ),
                }
            },
        }
    }
}

fn pick_u16(first: Option<u64>, second: Option<u64>) -> (r: Option<u16>)
    ensures
        r == first_u16(first, second),
{
    if let Some(v) = first {
        if v <= 0xffff {
            return Some(v as u16);
        }
    }
    if let Some(v) = second {
        if v <= 0xffff {
            return Some(v as u16);
        }
    }
    None
}

impl Unit {
    /// The place of the call that `entry` describes, the file seen from
    /// `comp_dir`. An entry that the compiler made up, or that names no
    /// file, lies in the generated file at line 0, column 0. Otherwise
    /// the file, line and column of the call count, each before that of
    /// the declaration; without a line that fits in 16 bits, or where
    /// the line program lacks the file or its directory, no place is
    /// known.
    pub open spec fn call_site(
        &self,
        entry: DebuggingInformationEntry,
        comp_dir: Seq<char>,
    ) -> Option<SourceLocView> {
        let file_index = if entry.call_file is Some {
            entry.call_file
        } else {
            entry.decl_file
        };
        if entry.artificial || file_index is None {
            Some(SourceLocView { file: joined_path(comp_dir, generated_file()), line: 0, col: 0 })
        } else if self.line_program is None {
            None
        } else {
            match self.line_program.unwrap().file_at(file_index.unwrap()) {
                None => None,
                Some(file) => match (
                    file.directory,
                    first_u16(entry.call_line, entry.decl_line),
                ) {
                    (Some(dir), Some(line)) => Some(
                        SourceLocView {
                            file: joined_path(comp_dir, joined_path(dir@, file.path_name@)),
                            line: line,
                            col: match first_u16(entry.call_column, entry.decl_column) {
                                Some(col) => col,
                                None => 0,
                            },
                        },
                    ),
                    _ => None,
                },
            }
        }
    }

    /// The place of the call that `entry` describes.
    pub fn entry_source_loc(&self, entry: &DebuggingInformationEntry, comp_dir: &str) -> (r:
        Option<SourceLoc>)
        ensures
            match r {
                Some(loc) => self.call_site(*entry, comp_dir@) == Some(loc@),
                None => self.call_site(*entry, comp_dir@) is None,
            },
            entry.artificial ==> r is Some && r.unwrap()@ == (SourceLocView {
                file: joined_path(comp_dir@, generated_file()),
                line: 0,
                col: 0,
            }),
    {
        let file_index = if entry.call_file.is_some() {
            entry.call_file
        } else {
            entry.decl_file
        };
        let index = match file_index {
            Some(index) if !entry.artificial => index,
            _ => {
                return Some(
                    SourceLoc { file: join(comp_dir, "<compiler-generated>"), line: 0, col: 0 },
                );
            },
        };
        let program = match &self.line_program {
            Some(program) => program,
            None => {
                return None;
            },
        };
        let file = match program.file(index) {
            Some(file) => file,
            None => {
                return None;
            },
        };
        let dir = match &file.directory {
            Some(dir) => dir,
            None => {
                return None;
            },
        };
        let line = match pick_u16(entry.call_line, entry.decl_line) {
            Some(line) => line,
            None => {
                return None;
            },
        };
        let col = match pick_u16(entry.call_column, entry.decl_column) {
            Some(col) => col,
            None => 0,
        };
        let recorded = join(dir.as_str(), file.path_name.as_str());
        Some(SourceLoc { file: join(comp_dir, recorded.as_str()), line, col })
    }
}

impl Dwarf {
    /// The name of `entry`, an entry of `unit`: the text of the attribute
    /// that names it. Where that attribute refers to another entry, of the
    /// same unit or of any, the name is that entry's, as long as not more
    /// than `fuel` references lead there.
    pub open spec fn name_of(
        &self,
        addr: Addr,
        entry: DebuggingInformationEntry,
        unit: Unit,
        fuel: nat,
    ) -> Result<Seq<char>, Error>
        decreases fuel,
    {
        match entry.symbol_attr() {
            None => Err(Error::AddrSymbolMissing(addr)),
            Some(AttrValue::String(s)) => Ok(s@),
            Some(AttrValue::Other) => Err(Error::ExpectedStringAttributeValue),
            Some(AttrValue::UnitRef(offset)) => if fuel == 0 {
                Err(Error::AddrSymbolMissing(addr))
            } else {
                match unit.entry_at(offset) {
                    Err(e) => Err(e),
                    Ok(target) => self.name_of(addr, target, unit, (fuel - 1) as nat),
                }
            },
            Some(AttrValue::DebugInfoRef(offset)) => if fuel == 0 {
                Err(Error::AddrSymbolMissing(addr))
            } else {
                match self.unit_of_offset(addr, offset) {
                    Err(e) => Err(e),
                    Ok(other) => match other.header.local_offset(offset) {
                        None => Err(Error::AddrDebugInfoRefOffsetOutOfBounds(addr)),
                        Some(local) => match other.entry_at(local) {
                            Err(e) => Err(e),
                            Ok(target) => self.name_of(addr, target, other, (fuel - 1) as nat),
                        },
                    },
                }
            },
        }
    }

    fn symbol_within(
        &self,
        addr: Addr,
        entry: &DebuggingInformationEntry,
        unit: &Unit,
        fuel: usize,
    ) -> (r: Result<String, Error>)
        ensures
            match r {
                Ok(name) => self.name_of(addr, *entry, *unit, fuel as nat) == Ok::<
                    Seq<char>,
                    Error,
                >(name@),
                Err(e) => self.name_of(addr, *entry, *unit, fuel as nat) == Err::<
                    Seq<char>,
                    Error,
                >(e),
            },
        decreases fuel,
    {
        match entry.symbol() {
            None => Err(Error::AddrSymbolMissing(addr)),
            Some(AttrValue::String(s)) => Ok(s.clone()),
            Some(AttrValue::Other) => Err(Error::ExpectedStringAttributeValue),
            Some(AttrValue::UnitRef(offset)) => {
                if fuel == 0 {
                    return Err(Error::AddrSymbolMissing(addr));
                }
                match unit.entry(*offset) {
                    Err(e) => Err(e),
                    Ok(target) => self.symbol_within(addr, target, unit, fuel - 1),
                }
            },
            Some(AttrValue::DebugInfoRef(offset)) => {
                if fuel == 0 {
                    return Err(Error::AddrSymbolMissing(addr));
                }
                let other = match self.unit_from_offset(addr, *offset) {
                    Ok(other) => other,
                    Err(e) => {
                        return Err(e);
                    },
                };
                let local = match other.header.to_unit_offset(*offset) {
                    Some(local) => local,
                    None => {
                        return Err(Error::AddrDebugInfoRefOffsetOutOfBounds(addr));
                    },
                };
                match other.entry(local) {
                    Err(e) => Err(e),
                    Ok(target) => self.symbol_within(addr, target, other, fuel - 1),
                }
            },
        }
    }

    /// The plain name of `entry`, an entry of `unit`: the text of its name
    /// attribute or, where that refers to another entry of the unit, that
    /// entry's plain name, as long as not more than `fuel` references lead
    /// there.
    pub open spec fn plain_name_of(
        &self,
        entry: DebuggingInformationEntry,
        unit: Unit,
        fuel: nat,
    ) -> Result<Seq<char>, Error>
        decreases fuel,
    {
        match entry.name {
            None => Err(Error::AddrNameMissing),
            Some(AttrValue::String(s)) => Ok(s@),
            Some(AttrValue::UnitRef(offset)) => if fuel == 0 {
                Err(Error::AddrNameMissing)
            } else {
                match unit.entry_at(offset) {
                    Err(e) => Err(e),
                    Ok(target) => self.plain_name_of(target, unit, (fuel - 1) as nat),
                }
            },
            Some(_) => Err(Error::ExpectedStringAttributeValue),
        }
    }

    fn name_within(&self, entry: &DebuggingInformationEntry, unit: &Unit, fuel: usize) -> (r:
        Result<String, Error>)
        ensures
            match r {
                Ok(name) => self.plain_name_of(*entry, *unit, fuel as nat) == Ok::<
                    Seq<char>,
                    Error,
                >(name@),
                Err(e) => self.plain_name_of(*entry, *unit, fuel as nat) == Err::<
                    Seq<char>,
                    Error,
                >(e),
            },
        decreases fuel,
    {
        match entry.name() {
            None => Err(Error::AddrNameMissing),
            Some(AttrValue::String(s)) => Ok(s.clone()),
            Some(AttrValue::UnitRef(offset)) => {
                if fuel == 0 {
                    return Err(Error::AddrNameMissing);
                }
                match unit.entry(*offset) {
                    Err(e) => Err(e),
                    Ok(target) => self.name_within(target, unit, fuel - 1),
                }
            },
            Some(_) => Err(Error::ExpectedStringAttributeValue),
        }
    }

    /// The plain name of `entry`, an entry of `unit`.
    pub fn entry_name(&self, entry: &DebuggingInformationEntry, unit: &Unit) -> (r: Result<
        String,
        Error,
    >)
        ensures
            match r {
                Ok(name) => self.plain_name_of(*entry, *unit, MAX_REFERENCE_DEPTH as nat) == Ok::<
                    Seq<char>,
                    Error,
                >(name@),
                Err(e) => self.plain_name_of(*entry, *unit, MAX_REFERENCE_DEPTH as nat) == Err::<
                    Seq<char>,
                    Error,
                >(e),
            },
    {
        self.name_within(entry, unit, MAX_REFERENCE_DEPTH)
    }

    /// The name of `entry`, an entry of `unit`, as it stands in the debug
    /// information.
    pub fn entry_symbol(&self, addr: Addr, entry: &DebuggingInformationEntry, unit: &Unit) -> (r:
        Result<String, Error>)
        ensures
            match r {
                Ok(name) => self.name_of(addr, *entry, *unit, MAX_REFERENCE_DEPTH as nat) == Ok::<
                    Seq<char>,
                    Error,
                >(name@),
                Err(e) => self.name_of(addr, *entry, *unit, MAX_REFERENCE_DEPTH as nat) == Err::<
                    Seq<char>,
                    Error,
                >(e),
            },
    {
        self.symbol_within(addr, entry, unit, MAX_REFERENCE_DEPTH)
    }
}

impl Unit {
    /// Whether the entry at `index` has the tag `tag` and covers `addr`.
    pub open spec fn is_frame(&self, index: int, tag: Tag, addr: int) -> bool {
        self.entries@[index].tag == tag && self.entries@[index].covers(addr)
    }

    /// The index of the first entry, from `from` on, that is a subprogram
    /// and covers `addr`.
    pub open spec fn subprogram_from(&self, addr: int, from: int) -> Option<int>
        decreases self.entries@.len() - from,
    {
        if from < 0 || from >= self.entries@.len() {
            None
        } else if self.is_frame(from, Tag::Subprogram, addr) {
            Some(from)
        } else {
            self.subprogram_from(addr, from + 1)
        }
    }

    /// Where the run of entries deeper than `base` ends that starts at `from`.
    pub open spec fn subtree_end(&self, base: u64, from: int) -> int
        decreases self.entries@.len() - from,
    {
        if from < 0 || from >= self.entries@.len() || self.entries@[from].depth <= base {
            from
        } else {
            self.subtree_end(base, from + 1)
        }
    }

    /// The indices, in order, of the entries from `from` up to `to` that
    /// are inlined subroutines and cover `addr`.
    pub open spec fn inlined_between(&self, addr: int, from: int, to: int) -> Seq<usize>
        decreases to - from,
    {
        if from < 0 || to <= from || to > self.entries@.len() {
            Seq::empty()
        } else if self.is_frame(to - 1, Tag::InlinedSubroutine, addr) {
            self.inlined_between(addr, from, to - 1).push((to - 1) as usize)
        } else {
            self.inlined_between(addr, from, to - 1)
        }
    }

    /// The inlined subroutines below the entry at `subprogram` that cover
    /// `addr`, outermost first: its descendants are the entries that
    /// follow it for as long as they lie deeper than it.
    pub open spec fn inlined_below(&self, subprogram: int, addr: int) -> Seq<usize> {
        self.inlined_between(
            addr,
            subprogram + 1,
            self.subtree_end(self.entries@[subprogram].depth, subprogram + 1),
        )
    }

    /// The frames of `addr`, outermost first: the first subprogram that
    /// covers `addr`, then, if asked for, the inlined subroutines below it
    /// that cover `addr`. There are none where no subprogram covers `addr`.
    pub open spec fn frames(&self, addr: int, include_inlined: bool) -> Option<Seq<usize>> {
        match self.subprogram_from(addr, 0) {
            None => None,
            Some(s) => Some(
                if include_inlined {
                    seq![s as usize] + self.inlined_below(s, addr)
                } else {
                    seq![s as usize]
                },
            ),
        }
    }

    /// The index of the first subprogram that covers `addr`.
    pub fn find_subprogram(&self, addr: Addr) -> (r: Option<usize>)
        ensures
            match r {
                Some(i) => i < self.entries@.len() && self.subprogram_from(addr@, 0) == Some(
                    i as int,
                ),
                None => self.subprogram_from(addr@, 0) is None,
            },
    {
        let mut i: usize = 0;
        while i < self.entries.len()
            invariant
                i <= self.entries.len(),
                self.subprogram_from(addr@, i as int) == self.subprogram_from(addr@, 0),
            decreases self.entries.len() - i,
        {
            let entry = &self.entries[i];
            if matches!(entry.tag, Tag::Subprogram) && entry.entry_contains(addr) {
                return Some(i);
            }
            i = i + 1;
        }
        None
    }

    /// The inlined subroutines below the entry at `subprogram` that cover
    /// `addr`, outermost first.
    pub fn inlined_chain(&self, subprogram: usize, addr: Addr) -> (r: Vec<usize>)
        ensures
            r@ == self.inlined_below(subprogram as int, addr@),
            forall|k: int| 0 <= k < r@.len() ==> r@[k] < self.entries@.len(),
    {
        if subprogram >= self.entries.len() {
            return Vec::new();
        }
        let base = self.entries[subprogram].depth;
        let first: usize = subprogram + 1;
        let mut chain: Vec<usize> = Vec::new();
        let mut i: usize = first;
        while i < self.entries.len() && self.entries[i].depth > base
            invariant
                first == subprogram + 1,
                first <= i <= self.entries.len(),
                self.subtree_end(base, i as int) == self.subtree_end(base, first as int),
                chain@ == self.inlined_between(addr@, first as int, i as int),
                forall|k: int| 0 <= k < chain@.len() ==> chain@[k] < self.entries@.len(),
            decreases self.entries.len() - i,
        {
            let entry = &self.entries[i];
            if matches!(entry.tag, Tag::InlinedSubroutine) && entry.entry_contains(addr) {
                chain.push(i);
            }
            i = i + 1;
        }
        chain
    }

    /// The frames of `addr`, outermost first.
    pub fn frames_for(&self, addr: Addr, include_inlined: bool) -> (r: Option<Vec<usize>>)
        ensures
            match r {
                Some(frames) => self.frames(addr@, include_inlined) == Some(frames@),
                None => self.frames(addr@, include_inlined) is None,
            },
            r matches Some(frames) ==> frames@.len() >= 1 && forall|k: int|
                0 <= k < frames@.len() ==> frames@[k] < self.entries@.len(),
    {
        let subprogram = match self.find_subprogram(addr) {
            Some(subprogram) => subprogram,
            None => {
                return None;
            },
        };
        let mut frames: Vec<usize> = Vec::new();
        frames.push(subprogram);
        if include_inlined {
            let mut chain = self.inlined_chain(subprogram, addr);
            frames.append(&mut chain);
            assert(frames@ =~= seq![subprogram] + self.inlined_below(subprogram as int, addr@));
        } else {
            assert(frames@ =~= seq![subprogram]);
        }
        Some(frames)
    }
}

impl Dwarf {
    /// The names of the entries of `unit` at the indices `frames`, in
    /// order; the first name that cannot be had fails them all.
    pub open spec fn names_of(&self, addr: Addr, unit: Unit, frames: Seq<usize>) -> Result<
        Seq<Seq<char>>,
        Error,
    >
        decreases frames.len(),
    {
        if frames.len() == 0 {
            Ok(Seq::empty())
        } else {
            match self.names_of(addr, unit, frames.drop_last()) {
                Err(e) => Err(e),
                Ok(names) => match self.name_of(
                    addr,
                    unit.entries@[frames.last() as int],
                    unit,
                    MAX_REFERENCE_DEPTH as nat,
                ) {
                    Err(e) => Err(e),
                    Ok(name) => Ok(names.push(name)),
                },
            }
        }
    }

    /// The symbols of the frames of `addr`, innermost first. Each bears
    /// the name of its entry. The innermost lies where the line program
    /// puts `addr`; every other lies at the call that the next inner frame
    /// describes. The names are had first, outermost first, then the
    /// place from the line program: the first that fails fails all.
    pub open spec fn symbols_of(&self, addr: Addr, unit: Unit, frames: Seq<usize>) -> Result<
        Seq<SymbolView>,
        Error,
    > {
        let comp_dir = unit.comp_dir.unwrap()@;
        match self.names_of(addr, unit, frames) {
            Err(e) => Err(e),
            Ok(names) => match unit.line_program.unwrap().loc_at(addr, comp_dir) {
                Err(e) => Err(e),
                Ok(line_loc) => Ok(
                    Seq::new(
                        frames.len(),
                        |i: int|
                            SymbolView {
                                addr: addr,
                                name: names[frames.len() - 1 - i],
                                loc: if i == 0 {
                                    SymbolLocView::Source(Some(line_loc))
                                } else {
                                    SymbolLocView::Source(
                                        unit.call_site(
                                            unit.entries@[frames[frames.len() - i] as int],
                                            comp_dir,
                                        ),
                                    )
                                },
                            },
                    ),
                ),
            },
        }
    }

    /// What the debug information gives for `addr`: the symbols of its
    /// frames in the unit that owns it. That unit must record a
    /// compilation directory that is not empty, and have a line program;
    /// an address that no subprogram of the unit covers is not found.
    pub open spec fn resolve(&self, addr: Addr, include_inlined: bool) -> Result<
        Seq<SymbolView>,
        Error,
    > {
        match self.unit_for(addr) {
            Err(e) => Err(e),
            Ok(unit) => if unit.comp_dir is None || unit.comp_dir.unwrap()@.len() == 0 {
                Err(Error::CompUnitDirMissing(addr))
            } else if unit.line_program is None {
                Err(Error::CompUnitLineProgramMissing(addr))
            } else {
                match unit.frames(addr@, include_inlined) {
                    None => Err(Error::AddrNotFound(addr)),
                    Some(frames) => self.symbols_of(addr, unit, frames),
                }
            },
        }
    }
}

impl Dwarf {
    /// The names of the entries of `unit` at the indices `frames`, in order.
    pub(crate) fn frame_names(&self, addr: Addr, unit: &Unit, frames: &Vec<usize>) -> (r: Result<
        Vec<String>,
        Error,
    >)
        requires
            forall|k: int| 0 <= k < frames@.len() ==> frames@[k] < unit.entries@.len(),
        ensures
            match r {
                Ok(names) => self.names_of(addr, *unit, frames@) == Ok::<Seq<Seq<char>>, Error>(
                    views(names@),
                ) && names@.len() == frames@.len(),
                Err(e) => self.names_of(addr, *unit, frames@) == Err::<Seq<Seq<char>>, Error>(e),
            },
    {
        let count = frames.len();
        let mut names: Vec<String> = Vec::new();
        let mut j: usize = 0;
        assert(views(names@) =~= Seq::<Seq<char>>::empty());
        assert(frames@.take(0).len() == 0);
        while j < count
            invariant
                j <= count,
                count == frames@.len(),
                names@.len() == j,
                forall|k: int| 0 <= k < frames@.len() ==> frames@[k] < unit.entries@.len(),
                self.names_of(addr, *unit, frames@.take(j as int)) == Ok::<Seq<Seq<char>>, Error>(
                    views(names@),
                ),
            decreases count - j,
        {
            proof {
                assert(frames@.take(j + 1).drop_last() =~= frames@.take(j as int));
                lemma_names_prefix_err(*self, addr, *unit, frames@, j + 1);
            }
            let ghost before = views(names@);
            match self.entry_symbol(addr, &unit.entries[frames[j]], unit) {
                Err(e) => {
                    return Err(e);
                },
                Ok(name) => {
                    names.push(name);
                    assert(views(names@) =~= before.push(name@));
                },
            }
            j = j + 1;
        }
        assert(frames@.take(count as int) =~= frames@);
        Ok(names)
    }
}

/// Once the names of the first frames cannot be had, those of all cannot.
proof fn lemma_names_prefix_err(dwarf: Dwarf, addr: Addr, unit: Unit, frames: Seq<usize>, n: int)
    requires
        0 <= n <= frames.len(),
    ensures
        dwarf.names_of(addr, unit, frames.take(n)) matches Err(e) ==> dwarf.names_of(
            addr,
            unit,
            frames,
        ) == Err::<Seq<Seq<char>>, Error>(e),
    decreases frames.len() - n,
{
    if n < frames.len() {
        lemma_names_prefix_err(dwarf, addr, unit, frames, n + 1);
        assert(frames.take(n + 1).drop_last() =~= frames.take(n));
    } else {
        assert(frames.take(n) =~= frames);
    }
}

/// Names, where they can be had, come one for each frame.
pub proof fn lemma_names_each(dwarf: Dwarf, addr: Addr, unit: Unit, frames: Seq<usize>)
    ensures
        dwarf.names_of(addr, unit, frames) matches Ok(names) ==> names.len() == frames.len()
            && forall|k: int|
            0 <= k < frames.len() ==> dwarf.name_of(
                addr,
                unit.entries@[#[trigger] frames[k] as int],
                unit,
                MAX_REFERENCE_DEPTH as nat,
            ) == Ok::<Seq<char>, Error>(names[k]),
    decreases frames.len(),
{
    if frames.len() > 0 {
        lemma_names_each(dwarf, addr, unit, frames.drop_last());
        if let Ok(names) = dwarf.names_of(addr, unit, frames) {
            let front = dwarf.names_of(addr, unit, frames.drop_last()).unwrap();
            assert forall|k: int| 0 <= k < frames.len() implies dwarf.name_of(
                addr,
                unit.entries@[#[trigger] frames[k] as int],
                unit,
                MAX_REFERENCE_DEPTH as nat,
            ) == Ok::<Seq<char>, Error>(names[k]) by {
                if k < frames.len() - 1 {
                    assert(frames.drop_last()[k] == frames[k]);
                    assert(names[k] == front[k]);
                }
            }
        }
    }
}

/// What the debug information gives for `addr`: one symbol for the
/// subprogram that covers it or, with `include_inlined`, one for each
/// frame, the innermost inlined call first and the subprogram last. The
/// names are those recorded in the debug information.
pub fn atos_dwarf(dwarf: &Dwarf, addr: Addr, include_inlined: bool) -> (r: Result<
    Vec<Symbol>,
    Error,
>)
    ensures
        match r {
            Ok(symbols) => dwarf.resolve(addr, include_inlined) == Ok::<Seq<SymbolView>, Error>(
                symbol_views(symbols@),
            ),
            Err(e) => dwarf.resolve(addr, include_inlined) == Err::<Seq<SymbolView>, Error>(e),
        },
{
    let unit = match dwarf.unit_from_addr(addr) {
        Ok(unit) => unit,
        Err(e) => {
            return Err(e);
        },
    };
    let comp_dir = match &unit.comp_dir {
        Some(dir) => dir,
        None => {
            return Err(Error::CompUnitDirMissing(addr));
        },
    };
    if comp_dir.as_str().unicode_len() == 0 {
        return Err(Error::CompUnitDirMissing(addr));
    }
    let program = match &unit.line_program {
        Some(program) => program,
        None => {
            return Err(Error::CompUnitLineProgramMissing(addr));
        },
    };
    let frames = match unit.frames_for(addr, include_inlined) {
        Some(frames) => frames,
        None => {
            return Err(Error::AddrNotFound(addr));
        },
    };
    let count = frames.len();
    let mut names = match dwarf.frame_names(addr, unit, &frames) {
        Ok(names) => names,
        Err(e) => {
            return Err(e);
        },
    };
    proof {
        lemma_names_each(*dwarf, addr, *unit, frames@);
    }
    let line_loc = match program.entry_debug_line(addr, comp_dir.as_str()) {
        Ok(loc) => loc,
        Err(e) => {
            return Err(e);
        },
    };
    let ghost all_names = views(names@);
    let ghost expected = dwarf.symbols_of(addr, *unit, frames@).unwrap();
    let mut symbols: Vec<Symbol> = Vec::new();
    let innermost = names.pop().unwrap();
    symbols.push(Symbol { addr, name: innermost, loc: SymbolLoc::Source(Some(line_loc)) });
    assert(symbols@[0]@ == expected[0]);
    let mut i: usize = 1;
    while i < count
        invariant
            1 <= i <= count,
            count == frames@.len(),
            forall|k: int| 0 <= k < frames@.len() ==> frames@[k] < unit.entries@.len(),
            unit.comp_dir == Some(*comp_dir),
            dwarf.symbols_of(addr, *unit, frames@) == Ok::<Seq<SymbolView>, Error>(expected),
            dwarf.names_of(addr, *unit, frames@) == Ok::<Seq<Seq<char>>, Error>(all_names),
            expected.len() == count,
            all_names.len() == count,
            names@.len() == count - i,
            forall|k: int| 0 <= k < count - i ==> (#[trigger] names@[k])@ == all_names[k],
            symbols@.len() == i,
            forall|k: int| 0 <= k < i ==> (#[trigger] symbols@[k])@ == expected[k],
        decreases count - i,
    {
        let name = names.pop().unwrap();
        let inner = &unit.entries[frames[count - i]];
        let loc = unit.entry_source_loc(inner, comp_dir.as_str());
        let symbol = Symbol { addr, name, loc: SymbolLoc::Source(loc) };
        assert(symbol@ == expected[i as int]);
        symbols.push(symbol);
        i = i + 1;
    }
    assert(symbol_views(symbols@) =~= expected);
    Ok(symbols)
}

} // verus!
