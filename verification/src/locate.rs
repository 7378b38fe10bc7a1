//! Finding the unit that owns an address or an offset.

use crate::addr::Addr;
use crate::dwarf::{ArangeEntry, ArangeHeader, DebuggingInformationEntry, Dwarf, Unit, UnitHeader};
use crate::error::Error;
use vstd::prelude::*;

verus! {

/// Whether a span of `entries`, from index `from` on, covers `addr`. The
/// spans are asked in order; one that ends beyond 64 bits, met before a
/// span that covers, is an error.
pub open spec fn spans_cover(entries: Seq<ArangeEntry>, addr: int, from: int) -> Result<bool, Error>
    decreases entries.len() - from,
{
    if from < 0 || from >= entries.len() {
        Ok(false)
    } else if !entries[from].fits() {
        Err(Error::InvalidAddressRange)
    } else if entries[from].covers(addr) {
        Ok(true)
    } else {
        spans_cover(entries, addr, from + 1)
    }
}

/// The debug information offset of the first table, from index `from` on,
/// that covers `addr`.
pub open spec fn offset_of_addr(tables: Seq<ArangeHeader>, addr: Addr, from: int) -> Result<
    u64,
    Error,
>
    decreases tables.len() - from,
{
    if from < 0 || from >= tables.len() {
        Err(Error::AddrDebugInfoOffsetMissing(addr))
    } else {
        match spans_cover(tables[from].entries@, addr@, 0) {
            Err(e) => Err(e),
            Ok(true) => Ok(tables[from].debug_info_offset),
            Ok(false) => offset_of_addr(tables, addr, from + 1),
        }
    }
}

/// The index of the first unit, from `from` on, that starts at `offset`.
pub open spec fn unit_starting_at(units: Seq<Unit>, offset: u64, from: int) -> Option<int>
    decreases units.len() - from,
{
    if from < 0 || from >= units.len() {
        None
    } else if units[from].header.offset == offset {
        Some(from)
    } else {
        unit_starting_at(units, offset, from + 1)
    }
}

/// The index of the first unit, from `from` on, that holds `offset`: a
/// unit holds the offsets from its start up to the start of the next
/// unit; the last unit holds every offset beyond its start.
pub open spec fn unit_holding(units: Seq<Unit>, offset: u64, from: int) -> Option<int>
    decreases units.len() - from,
{
    if from < 0 || from >= units.len() {
        None
    } else if from + 1 < units.len() && units[from].header.offset <= offset < units[from
        + 1].header.offset {
        Some(from)
    } else if from + 1 == units.len() && offset > units[from].header.offset {
        Some(from)
    } else {
        unit_holding(units, offset, from + 1)
    }
}

/// The index of the first entry, from `from` on, that stands at `offset`.
pub open spec fn entry_standing_at(
    entries: Seq<DebuggingInformationEntry>,
    offset: u64,
    from: int,
) -> Option<int>
    decreases entries.len() - from,
{
    if from < 0 || from >= entries.len() {
        None
    } else if entries[from].offset == offset {
        Some(from)
    } else {
        entry_standing_at(entries, offset, from + 1)
    }
}

impl UnitHeader {
    /// An offset into the debug information as an offset into this unit:
    /// there is one where the offset lies among the unit's entries.
    pub open spec fn local_offset(&self, offset: u64) -> Option<u64> {
        if offset >= self.offset && offset - self.offset >= self.header_size && offset - self.offset
            - self.header_size < self.entries_size {
            Some((offset - self.offset) as u64)
        } else {
            None
        }
    }

    /// An offset into the debug information as an offset into this unit.
    pub fn to_unit_offset(&self, offset: u64) -> (r: Option<u64>)
        ensures
            r == self.local_offset(offset),
    {
        if offset < self.offset {
            return None;
        }
        let local: u64 = offset - self.offset;
        if local < self.header_size {
            return None;
        }
        if local - self.header_size < self.entries_size {
            Some(local)
        } else {
            None
        }
    }
}

impl ArangeHeader {
    /// Whether one of the table's spans covers `addr`.
    pub fn contains(&self, addr: Addr) -> (r: Result<bool, Error>)
        ensures
            r == spans_cover(self.entries@, addr@, 0),
    {
        let mut i: usize = 0;
        while i < self.entries.len()
            invariant
                i <= self.entries.len(),
                spans_cover(self.entries@, addr@, i as int) == spans_cover(self.entries@, addr@, 0),
            decreases self.entries.len() - i,
        {
            match self.entries[i].contains(addr) {
                Err(e) => {
                    return Err(e);
                },
                Ok(true) => {
                    return Ok(true);
                },
                Ok(false) => {},
            }
            i = i + 1;
        }
        Ok(false)
    }
}

impl Unit {
    /// The entry that stands at `offset` of this unit.
    pub open spec fn entry_at(&self, offset: u64) -> Result<DebuggingInformationEntry, Error> {
        match entry_standing_at(self.entries@, offset, 0) {
            Some(i) => Ok(self.entries@[i]),
            None => Err(Error::NoEntryAtOffset(offset)),
        }
    }

    /// The entry that stands at `offset` of this unit.
    pub fn entry(&self, offset: u64) -> (r: Result<&DebuggingInformationEntry, Error>)
        ensures
            match r {
                Ok(e) => self.entry_at(offset) == Ok::<DebuggingInformationEntry, Error>(*e),
                Err(e) => self.entry_at(offset) == Err::<DebuggingInformationEntry, Error>(e),
            },
    {
        let mut i: usize = 0;
        while i < self.entries.len()
            invariant
                i <= self.entries.len(),
                entry_standing_at(self.entries@, offset, i as int) == entry_standing_at(
                    self.entries@,
                    offset,
                    0,
                ),
            decreases self.entries.len() - i,
        {
            if self.entries[i].offset == offset {
                return Ok(&self.entries[i]);
            }
            i = i + 1;
        }
        Err(Error::NoEntryAtOffset(offset))
    }
}

impl Dwarf {
    /// Where the unit that owns `addr` starts, by the address range tables.
    pub open spec fn offset_for(&self, addr: Addr) -> Result<u64, Error> {
        offset_of_addr(self.aranges@, addr, 0)
    }

    /// The unit that owns `addr`: the one that starts where the address
    /// range tables say.
    pub open spec fn unit_for(&self, addr: Addr) -> Result<Unit, Error> {
        match self.offset_for(addr) {
            Err(e) => Err(e),
            Ok(offset) => match unit_starting_at(self.units@, offset, 0) {
                Some(i) => Ok(self.units@[i]),
                None => Err(Error::NoUnitAtOffset(offset)),
            },
        }
    }

    /// The unit that holds the offset `offset` of the debug information.
    pub open spec fn unit_of_offset(&self, addr: Addr, offset: u64) -> Result<Unit, Error> {
        match unit_holding(self.units@, offset, 0) {
            Some(i) => Ok(self.units@[i]),
            None => Err(Error::AddrDebugInfoRefOffsetNotFound(addr)),
        }
    }

    /// Where the unit that owns `addr` starts: the offset that the first
    /// address range table covering `addr` names.
    pub fn debug_info_offset(&self, addr: Addr) -> (r: Result<u64, Error>)
        ensures
            r == self.offset_for(addr),
    {
        let mut i: usize = 0;
        while i < self.aranges.len()
            invariant
                i <= self.aranges.len(),
                offset_of_addr(self.aranges@, addr, i as int) == self.offset_for(addr),
            decreases self.aranges.len() - i,
        {
            match self.aranges[i].contains(addr) {
                Err(e) => {
                    return Err(e);
                },
                Ok(true) => {
                    return Ok(self.aranges[i].debug_info_offset);
                },
                Ok(false) => {},
            }
            i = i + 1;
        }
        Err(Error::AddrDebugInfoOffsetMissing(addr))
    }

    /// The unit that owns `addr`.
    pub fn unit_from_addr(&self, addr: Addr) -> (r: Result<&Unit, Error>)
        ensures
            match r {
                Ok(u) => self.unit_for(addr) == Ok::<Unit, Error>(*u),
                Err(e) => self.unit_for(addr) == Err::<Unit, Error>(e),
            },
    {
        let offset = match self.debug_info_offset(addr) {
            Ok(offset) => offset,
            Err(e) => {
                return Err(e);
            },
        };
        let mut i: usize = 0;
        while i < self.units.len()
            invariant
                i <= self.units.len(),
                self.offset_for(addr) == Ok::<u64, Error>(offset),
                unit_starting_at(self.units@, offset, i as int) == unit_starting_at(
                    self.units@,
                    offset,
                    0,
                ),
            decreases self.units.len() - i,
        {
            if self.units[i].header.offset == offset {
                return Ok(&self.units[i]);
            }
            i = i + 1;
        }
        Err(Error::NoUnitAtOffset(offset))
    }

    /// The unit that holds the offset `offset` of the debug information;
    /// `addr` is the address being resolved, for the error.
    pub fn unit_from_offset(&self, addr: Addr, offset: u64) -> (r: Result<&Unit, Error>)
        ensures
            match r {
                Ok(u) => self.unit_of_offset(addr, offset) == Ok::<Unit, Error>(*u),
                Err(e) => self.unit_of_offset(addr, offset) == Err::<Unit, Error>(e),
            },
    {
        let n = self.units.len();
        let mut i: usize = 0;
        while i < n
            invariant
                i <= n,
                n == self.units.len(),
                unit_holding(self.units@, offset, i as int) == unit_holding(self.units@, offset, 0),
            decreases n - i,
        {
            let start = self.units[i].header.offset;
            if i + 1 < n {
                if start <= offset && offset < self.units[i + 1].header.offset {
                    return Ok(&self.units[i]);
                }
            } else if offset > start {
                return Ok(&self.units[i]);
            }
            i = i + 1;
        }
        Err(Error::AddrDebugInfoRefOffsetNotFound(addr))
    }
}

/// Where no span ends beyond 64 bits, the tables name an offset exactly
/// when one of them covers the address, and the offset is that of the first
/// such table.
pub proof fn lemma_offset_of_first_table(tables: Seq<ArangeHeader>, addr: Addr, from: int)
    requires
        0 <= from,
        forall|t: int, s: int|
            0 <= t < tables.len() && 0 <= s < tables[t].entries@.len()
                ==> (#[trigger] tables[t].entries@[s]).fits(),
    ensures
        match offset_of_addr(tables, addr, from) {
            Ok(offset) => exists|t: int|
                from <= t < tables.len() && table_covers(tables[t], addr@) && offset
                    == tables[t].debug_info_offset && forall|u: int|
                    from <= u < t ==> !table_covers(#[trigger] tables[u], addr@),
            Err(e) => e == Error::AddrDebugInfoOffsetMissing(addr) && forall|u: int|
                from <= u < tables.len() ==> !table_covers(#[trigger] tables[u], addr@),
        },
    decreases tables.len() - from,
{
    if from < tables.len() {
        lemma_spans_cover(tables[from].entries@, addr@, 0);
        lemma_offset_of_first_table(tables, addr, from + 1);
        match spans_cover(tables[from].entries@, addr@, 0) {
            Ok(true) => {
                assert(table_covers(tables[from], addr@));
            },
            Ok(false) => {
                assert(!table_covers(tables[from], addr@));
                match offset_of_addr(tables, addr, from + 1) {
                    Ok(offset) => {
                        let t = choose|t: int|
                            from + 1 <= t < tables.len() && table_covers(tables[t], addr@) && offset
                                == tables[t].debug_info_offset && forall|u: int|
                                from + 1 <= u < t ==> !table_covers(#[trigger] tables[u], addr@);
                        assert forall|u: int| from <= u < t implies !table_covers(
                            #[trigger] tables[u],
                            addr@,
                        ) by {}
                    },
                    Err(e) => {},
                }
            },
            Err(e) => {},
        }
    }
}

/// Whether one of the spans of `table` covers `addr`.
pub open spec fn table_covers(table: ArangeHeader, addr: int) -> bool {
    exists|s: int| 0 <= s < table.entries@.len() && #[trigger] table.entries@[s].covers(addr)
}

/// Where no span ends beyond 64 bits, `spans_cover` says whether a span
/// from `from` on covers the address.
pub proof fn lemma_spans_cover(entries: Seq<ArangeEntry>, addr: int, from: int)
    requires
        0 <= from,
        forall|s: int| 0 <= s < entries.len() ==> (#[trigger] entries[s]).fits(),
    ensures
        spans_cover(entries, addr, from) == Ok::<bool, Error>(
            exists|s: int| from <= s < entries.len() && #[trigger] entries[s].covers(addr),
        ),
    decreases entries.len() - from,
{
    if from < entries.len() {
        lemma_spans_cover(entries, addr, from + 1);
        if entries[from].covers(addr) {
        } else {
            if exists|s: int| from <= s < entries.len() && #[trigger] entries[s].covers(addr) {
                let s = choose|s: int| from <= s < entries.len() && #[trigger] entries[s].covers(addr);
                assert(from + 1 <= s);
            }
        }
    }
}

} // verus!
