//! The debug information of an image, as plain values: address range
//! tables, units with their entries in depth-first order, and line programs.

use crate::addr::Addr;
use crate::error::Error;
use vstd::prelude::*;

verus! {

/// One span of an address range table: `length` bytes from `address`.
#[derive(Clone, Copy, PartialEq, Eq, Structural, Debug)]
pub struct ArangeEntry {
    pub address: u64,
    pub length: u64,
}

/// An address range table: the spans of one unit, and where in the debug
/// information that unit starts.
#[derive(Clone, Debug)]
pub struct ArangeHeader {
    pub debug_info_offset: u64,
    pub entries: Vec<ArangeEntry>,
}

/// What kind of thing an entry describes.
#[derive(Clone, Copy, PartialEq, Eq, Structural, Debug)]
pub enum Tag {
    /// A function.
    Subprogram,
    /// A call that was inlined.
    InlinedSubroutine,
    /// Anything else.
    Other,
}

/// The upper end of an entry's address range.
#[derive(Clone, Copy, PartialEq, Eq, Structural, Debug)]
pub enum HighPc {
    /// The first address behind the range.
    Addr(u64),
    /// The length of the range, counted from its lower end.
    Offset(u64),
}

/// The value of an attribute that may name its entry.
#[derive(Clone, Debug)]
pub enum AttrValue {
    /// A text.
    String(String),
    /// Another entry of the same unit, by its offset in that unit.
    UnitRef(u64),
    /// An entry of any unit, by its offset in the debug information.
    DebugInfoRef(u64),
    /// A value of any other form.
    Other,
}

/// A half-open address range, `begin` to `end`.
#[derive(Clone, Copy, PartialEq, Eq, Structural, Debug)]
pub struct Range {
    pub begin: u64,
    pub end: u64,
}

/// One entry of a unit, with the attributes that resolution reads.
#[derive(Clone, Debug)]
pub struct DebuggingInformationEntry {
    /// Where the entry stands in its unit.
    pub offset: u64,
    /// How deep the entry lies in the tree; the unit's root lies at 0.
    pub depth: u64,
    pub tag: Tag,
    /// The lower end of the address range, where given as an address.
    pub low_pc: Option<u64>,
    /// The upper end of the address range, as an address or a length.
    pub high_pc: Option<HighPc>,
    /// The entry's list of address ranges, where it has one that reads.
    pub ranges: Option<Vec<Range>>,
    pub linkage_name: Option<AttrValue>,
    pub abstract_origin: Option<AttrValue>,
    pub name: Option<AttrValue>,
    /// The file of the call, as an index into the line program's files.
    pub call_file: Option<u64>,
    pub call_line: Option<u64>,
    pub call_column: Option<u64>,
    /// The file of the declaration, as an index into the line program's files.
    pub decl_file: Option<u64>,
    pub decl_line: Option<u64>,
    pub decl_column: Option<u64>,
    /// Whether the compiler made the entry up.
    pub artificial: bool,
}

/// The column of a row of the line program.
#[derive(Clone, Copy, PartialEq, Eq, Structural, Debug)]
pub enum ColumnType {
    /// The statement starts at the left edge of its line.
    LeftEdge,
    /// A column, counted from 1.
    Column(u64),
}

/// One row of a line program.
#[derive(Clone, Copy, PartialEq, Eq, Structural, Debug)]
pub struct LineRow {
    pub address: u64,
    /// The file of the row, as an index into the line program's files.
    pub file_index: u64,
    /// The line, counted from 1; 0 where the row has none.
    pub line: u64,
    pub column: ColumnType,
}

/// A file of a line program.
#[derive(Clone, Debug)]
pub struct FileEntry {
    /// Which directory of the line program the file lies in; 0 is the
    /// compilation directory.
    pub directory_index: u64,
    /// That directory's path, where the line program has it.
    pub directory: Option<String>,
    pub path_name: String,
}

/// The line program of a unit: its files by index, and its rows in order.
#[derive(Clone, Debug)]
pub struct LineProgram {
    /// The file at each index; `None` where the index names no file.
    pub files: Vec<Option<FileEntry>>,
    pub rows: Vec<LineRow>,
}

/// Where a unit lies in the debug information.
#[derive(Clone, Copy, PartialEq, Eq, Structural, Debug)]
pub struct UnitHeader {
    /// Where the unit starts.
    pub offset: u64,
    /// The size of the unit's header: its entries start behind it.
    pub header_size: u64,
    /// The size of the unit's entries.
    pub entries_size: u64,
}

/// A compilation unit.
#[derive(Clone, Debug)]
pub struct Unit {
    pub header: UnitHeader,
    /// The compilation directory that the unit's root records.
    pub comp_dir: Option<String>,
    pub line_program: Option<LineProgram>,
    /// The unit's entries in depth-first order, the root first.
    pub entries: Vec<DebuggingInformationEntry>,
}

/// The debug information of an image.
#[derive(Clone, Debug)]
pub struct Dwarf {
    /// The address range tables, in section order.
    pub aranges: Vec<ArangeHeader>,
    /// The units, in section order.
    pub units: Vec<Unit>,
}

/// A number as a 16-bit one, keeping its low bits.
pub open spec fn low16(v: u64) -> u16 {
    (v % 0x1_0000) as u16
}

/// A number as a 16-bit one, keeping its low bits.
pub fn truncate16(v: u64) -> (r: u16)
    ensures
        r == low16(v),
{
    (v % 0x1_0000) as u16
}

impl ArangeEntry {
    /// Whether the span ends within 64 bits.
    pub open spec fn fits(&self) -> bool {
        self.address + self.length <= u64::MAX
    }

    /// Whether the span covers `addr`: it starts at `address` and ends
    /// before `address + length`.
    pub open spec fn covers(&self, addr: int) -> bool {
        self.address <= addr < self.address + self.length
    }

    /// Whether the span covers `addr`; a span that ends beyond 64 bits is
    /// an invalid address range.
    pub fn contains(&self, addr: Addr) -> (r: Result<bool, Error>)
        ensures
            r == if self.fits() {
                Ok::<bool, Error>(self.covers(addr@))
            } else {
                Err::<bool, Error>(Error::InvalidAddressRange)
            },
    {
        match self.address.checked_add(self.length) {
            Some(end) => Ok(self.address <= addr.0 && addr.0 < end),
            None => Err(Error::InvalidAddressRange),
        }
    }
}

impl Range {
    /// Whether the range covers `addr`.
    pub open spec fn covers(&self, addr: int) -> bool {
        self.begin <= addr < self.end
    }
}

/// Whether one of `ranges` covers `addr`.
pub open spec fn any_covers(ranges: Seq<Range>, addr: int) -> bool {
    exists|i: int| 0 <= i < ranges.len() && #[trigger] ranges[i].covers(addr)
}

impl ColumnType {
    /// The column as a 16-bit number: 0 for the left edge.
    pub open spec fn number(self) -> u16 {
        match self {
            ColumnType::LeftEdge => 0,
            ColumnType::Column(c) => low16(c),
        }
    }

    /// The column as a 16-bit number: 0 for the left edge.
    pub fn to_u16(&self) -> (r: u16)
        ensures
            r == self.number(),
            *self == ColumnType::LeftEdge ==> r == 0,
    {
        match self {
            ColumnType::LeftEdge => 0,
            ColumnType::Column(c) => truncate16(*c),
        }
    }
}

impl DebuggingInformationEntry {
    /// The entry's own address range, low end to high end: given by its
    /// low and high program counters, the high one an address or a length
    /// that is added to the low one. There is none where one of the two is
    /// missing or the range would end beyond 64 bits.
    pub open spec fn pc_range(&self) -> Option<(Addr, Addr)> {
        match (self.low_pc, self.high_pc) {
            (Some(low), Some(HighPc::Addr(high))) => Some((Addr(low), Addr(high))),
            (Some(low), Some(HighPc::Offset(len))) => if low + len <= u64::MAX {
                Some((Addr(low), Addr((low + len) as u64)))
            } else {
                None
            },
            _ => None,
        }
    }

    /// Whether the entry's own address range covers `addr`, where it has one.
    pub open spec fn pc_covers(&self, addr: int) -> Option<bool> {
        match self.pc_range() {
            Some((low, high)) => Some(low@ <= addr < high@),
            None => None,
        }
    }

    /// Whether one of the entry's listed ranges covers `addr`, where it has a list.
    pub open spec fn ranges_cover(&self, addr: int) -> Option<bool> {
        match self.ranges {
            Some(ranges) => Some(any_covers(ranges@, addr)),
            None => None,
        }
    }

    /// Whether the entry covers `addr`: by its own address range where it
    /// has one, else by its list of ranges, else not.
    pub open spec fn covers(&self, addr: int) -> bool {
        match self.pc_covers(addr) {
            Some(b) => b,
            None => match self.ranges_cover(addr) {
                Some(b) => b,
                None => false,
            },
        }
    }

    /// The attribute that names the entry: the linkage name, else the
    /// abstract origin, else the name.
    pub open spec fn symbol_attr(&self) -> Option<AttrValue> {
        if self.linkage_name is Some {
            self.linkage_name
        } else if self.abstract_origin is Some {
            self.abstract_origin
        } else {
            self.name
        }
    }

    /// The name attribute.
    pub fn name(&self) -> (r: Option<&AttrValue>)
        ensures
            match r {
                Some(v) => self.name == Some(*v),
                None => self.name is None,
            },
    {
        self.name.as_ref()
    }

    /// The linkage name attribute.
    pub fn linkage_name(&self) -> (r: Option<&AttrValue>)
        ensures
            match r {
                Some(v) => self.linkage_name == Some(*v),
                None => self.linkage_name is None,
            },
    {
        self.linkage_name.as_ref()
    }

    /// The abstract origin attribute.
    pub fn abstract_origin(&self) -> (r: Option<&AttrValue>)
        ensures
            match r {
                Some(v) => self.abstract_origin == Some(*v),
                None => self.abstract_origin is None,
            },
    {
        self.abstract_origin.as_ref()
    }

    /// The entry's own address range.
    pub fn pc(&self) -> (r: Option<(Addr, Addr)>)
        ensures
            r == self.pc_range(),
    {
        match (self.low_pc, self.high_pc) {
            (Some(low), Some(HighPc::Addr(high))) => Some((Addr(low), Addr(high))),
            (Some(low), Some(HighPc::Offset(len))) => match low.checked_add(len) {
                Some(high) => Some((Addr(low), Addr(high))),
                None => None,
            },
            _ => None,
        }
    }

    /// Whether the entry's own address range covers `addr`.
    pub fn entry_pc_contains(&self, addr: Addr) -> (r: Option<bool>)
        ensures
            r == self.pc_covers(addr@),
    {
        match self.pc() {
            Some((low, high)) => Some(low.0 <= addr.0 && addr.0 < high.0),
            None => None,
        }
    }

    /// Whether one of the entry's listed ranges covers `addr`.
    pub fn entry_ranges_contain(&self, addr: Addr) -> (r: Option<bool>)
        ensures
            r == self.ranges_cover(addr@),
    {
        match &self.ranges {
            Some(ranges) => {
                let mut i: usize = 0;
                while i < ranges.len()
                    invariant
                        i <= ranges.len(),
                        self.ranges == Some(*ranges),
                        forall|j: int| 0 <= j < i ==> !(#[trigger] ranges@[j].covers(addr@)),
                    decreases ranges.len() - i,
                {
                    if ranges[i].begin <= addr.0 && addr.0 < ranges[i].end {
                        assert(ranges@[i as int].covers(addr@));
                        assert(any_covers(ranges@, addr@));
                        return Some(true);
                    }
                    i = i + 1;
                }
                Some(false)
            },
            None => None,
        }
    }

    /// Whether the entry covers `addr`.
    pub fn entry_contains(&self, addr: Addr) -> (r: bool)
        ensures
            r == self.covers(addr@),
    {
        match self.entry_pc_contains(addr) {
            Some(b) => b,
            None => match self.entry_ranges_contain(addr) {
                Some(b) => b,
                None => false,
            },
        }
    }

    /// The attribute that names the entry.
    pub fn symbol(&self) -> (r: Option<&AttrValue>)
        ensures
            match r {
                Some(v) => self.symbol_attr() == Some(*v),
                None => self.symbol_attr() is None,
            },
    {
        if self.linkage_name.is_some() {
            self.linkage_name.as_ref()
        } else if self.abstract_origin.is_some() {
            self.abstract_origin.as_ref()
        } else {
            self.name.as_ref()
        }
    }
}

impl LineProgram {
    /// The file that `index` names, if any.
    pub open spec fn file_at(&self, index: u64) -> Option<FileEntry> {
        if index < self.files@.len() {
            self.files@[index as int]
        } else {
            None
        }
    }

    /// The file that `index` names, if any.
    pub fn file(&self, index: u64) -> (r: Option<&FileEntry>)
        ensures
            match r {
                Some(v) => self.file_at(index) == Some(*v),
                None => self.file_at(index) is None,
            },
    {
        if index < self.files.len() as u64 {
            self.files[index as usize].as_ref()
        } else {
            None
        }
    }
}

/// An address equal to the low end of a non-empty address range is
/// covered; one equal to the high end is not.
pub proof fn lemma_pc_bounds(entry: DebuggingInformationEntry)
    requires
        entry.pc_range() is Some,
        entry.pc_range().unwrap().0@ < entry.pc_range().unwrap().1@,
    ensures
        entry.covers(entry.pc_range().unwrap().0@),
        !entry.covers(entry.pc_range().unwrap().1@),
{
}

/// The left edge is column 0.
pub proof fn lemma_left_edge_is_zero()
    ensures
        ColumnType::LeftEdge.number() == 0,
{
}

} // verus!
