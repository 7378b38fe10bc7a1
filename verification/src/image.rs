//! What resolution reads of the image itself: its segments, its UUID and
//! its symbol table.

use crate::addr::Addr;
use crate::error::Error;
use crate::symbol::{symbol_views, Symbol, SymbolLoc, SymbolLocView, SymbolView};
use vstd::prelude::*;
use vstd::string::*;

verus! {

/// A segment of the image.
#[derive(Clone, Debug)]
pub struct Segment {
    /// The segment's name, where it has one that reads.
    pub name: Option<String>,
    /// Where the segment is meant to be loaded.
    pub address: u64,
}

/// A symbol of the image's symbol table.
#[derive(Clone, Debug)]
pub struct SymbolEntry {
    pub address: u64,
    pub name: String,
}

/// Whether the addresses of `entries` never fall from one to the next.
pub open spec fn sorted_by_address(entries: Seq<SymbolEntry>) -> bool {
    forall|i: int, j: int| 0 <= i <= j < entries.len() ==> entries[i].address <= entries[j].address
}

/// The index of the last of the first `end` entries whose address is not
/// above `addr`.
pub open spec fn last_at_or_below(entries: Seq<SymbolEntry>, addr: int, end: int) -> Option<int>
    decreases end,
{
    if end <= 0 || end > entries.len() {
        None
    } else if entries[end - 1].address <= addr {
        Some(end - 1)
    } else {
        last_at_or_below(entries, addr, end - 1)
    }
}

/// The symbols of an image, sorted by address.
#[derive(Debug)]
pub struct SymbolMap {
    entries: Vec<SymbolEntry>,
}

impl SymbolMap {
    #[verifier::type_invariant]
    spec fn sorted(&self) -> bool {
        sorted_by_address(self.entries@)
    }

    /// The symbols, in order.
    pub closed spec fn symbols(&self) -> Seq<SymbolEntry> {
        self.entries@
    }

    /// The symbol that `addr` belongs to: the last in order whose
    /// address is not above `addr`.
    pub open spec fn symbol_at(&self, addr: int) -> Option<SymbolEntry> {
        match last_at_or_below(self.symbols(), addr, self.symbols().len() as int) {
            Some(i) => Some(self.symbols()[i]),
            None => None,
        }
    }

    /// A symbol map of `entries`, which must be sorted by address.
    pub fn new(entries: Vec<SymbolEntry>) -> (r: Option<SymbolMap>)
        ensures
            match r {
                Some(map) => sorted_by_address(entries@) && map.symbols() == entries@,
                None => !sorted_by_address(entries@),
            },
    {
        if entries.len() == 0 {
            return Some(SymbolMap { entries });
        }
        let mut i: usize = 1;
        while i < entries.len()
            invariant
                1 <= i <= entries.len(),
                sorted_by_address(entries@.take(i as int)),
            decreases entries.len() - i,
        {
            if entries[i - 1].address > entries[i].address {
                return None;
            }
            proof {
                let front = entries@.take(i as int);
                let next = entries@.take(i + 1);
                assert forall|a: int, b: int| 0 <= a <= b < next.len() implies next[a].address
                    <= next[b].address by {
                    if b < i {
                        assert(front[a].address <= front[b].address);
                    } else if a < i {
                        assert(front[a].address <= front[i - 1].address);
                    }
                }
            }
            i = i + 1;
        }
        assert(entries@.take(i as int) =~= entries@);
        Some(SymbolMap { entries })
    }

    /// How many symbols there are.
    pub fn len(&self) -> (r: usize)
        ensures
            r == self.symbols().len(),
    {
        self.entries.len()
    }

    /// The symbol that `addr` belongs to: of the symbols whose address
    /// is not above `addr`, the one with the greatest address.
    pub fn get(&self, addr: u64) -> (r: Option<&SymbolEntry>)
        ensures
            match r {
                Some(entry) => self.symbol_at(addr as int) == Some(*entry),
                None => self.symbol_at(addr as int) is None,
            },
            sorted_by_address(self.symbols()),
    {
        proof {
            use_type_invariant(self);
        }
        let mut low: usize = 0;
        let mut high: usize = self.entries.len();
        while low < high
            invariant
                low <= high <= self.entries@.len(),
                sorted_by_address(self.entries@),
                forall|k: int| 0 <= k < low ==> self.entries@[k].address <= addr,
                forall|k: int| high <= k < self.entries@.len() ==> self.entries@[k].address > addr,
            decreases high - low,
        {
            let mid: usize = low + (high - low) / 2;
            if self.entries[mid].address <= addr {
                low = mid + 1;
            } else {
                high = mid;
            }
        }
        proof {
            lemma_last_at_or_below(self.entries@, addr as int, low as int, self.entries@.len() as int);
        }
        if low == 0 {
            None
        } else {
            Some(&self.entries[low - 1])
        }
    }
}

/// Where every entry from `split` on lies above `addr` and the one before
/// `split` does not, the last entry at or below `addr` is the one before
/// `split`.
proof fn lemma_last_at_or_below(entries: Seq<SymbolEntry>, addr: int, split: int, end: int)
    requires
        0 <= split <= end <= entries.len(),
        forall|k: int| split <= k < entries.len() ==> entries[k].address > addr,
        split > 0 ==> entries[split - 1].address <= addr,
    ensures
        last_at_or_below(entries, addr, end) == if split > 0 {
            Some(split - 1)
        } else {
            None::<int>
        },
    decreases end,
{
    if end > split {
        lemma_last_at_or_below(entries, addr, split, end - 1);
    }
}

/// The symbol that an address belongs to does not lie above it, and no
/// symbol between the two does.
pub proof fn lemma_symbol_at_is_greatest(map: SymbolMap, addr: int)
    requires
        sorted_by_address(map.symbols()),
    ensures
        match last_at_or_below(map.symbols(), addr, map.symbols().len() as int) {
            Some(i) => 0 <= i < map.symbols().len() && map.symbols()[i].address <= addr
                && forall|k: int|
                0 <= k < map.symbols().len() && map.symbols()[k].address <= addr
                    ==> map.symbols()[k].address <= map.symbols()[i].address,
            None => forall|k: int| 0 <= k < map.symbols().len() ==> map.symbols()[k].address > addr,
        },
{
    lemma_last_scan(map.symbols(), addr, map.symbols().len() as int);
    match last_at_or_below(map.symbols(), addr, map.symbols().len() as int) {
        Some(i) => {
            assert forall|k: int|
                0 <= k < map.symbols().len() && map.symbols()[k].address <= addr implies map.symbols()[k].address
                <= map.symbols()[i].address by {
                if k > i {
                    assert(false);
                }
            }
        },
        None => {},
    }
}

/// The last entry at or below an address lies at or below it, and every
/// entry behind it lies above.
pub proof fn lemma_last_scan(entries: Seq<SymbolEntry>, addr: int, end: int)
    requires
        0 <= end <= entries.len(),
    ensures
        match last_at_or_below(entries, addr, end) {
            Some(i) => 0 <= i < end && entries[i].address <= addr && forall|k: int|
                i < k < end ==> entries[k].address > addr,
            None => forall|k: int| 0 <= k < end ==> entries[k].address > addr,
        },
    decreases end,
{
    if end > 0 {
        lemma_last_scan(entries, addr, end - 1);
    }
}

/// An image, as far as resolution reads it.
#[derive(Debug)]
pub struct File {
    /// The segments, in order.
    pub segments: Vec<Segment>,
    /// The UUID, where the image carries one.
    pub uuid: Option<[u8; 16]>,
    /// The name of the architecture.
    pub architecture: String,
    /// The symbol table.
    pub symbols: SymbolMap,
}

/// The name of the segment that holds the code.
pub open spec fn text_segment_name() -> Seq<char> {
    "__TEXT"@
}

/// The index of the first segment, from `from` on, that is named `__TEXT`.
pub open spec fn text_segment_from(segments: Seq<Segment>, from: int) -> Option<int>
    decreases segments.len() - from,
{
    if from < 0 || from >= segments.len() {
        None
    } else if segments[from].name is Some && segments[from].name.unwrap()@ == text_segment_name() {
        Some(from)
    } else {
        text_segment_from(segments, from + 1)
    }
}

impl File {
    /// The address of the image: that of its first segment named `__TEXT`.
    pub open spec fn text_address(&self) -> Result<Addr, Error> {
        match text_segment_from(self.segments@, 0) {
            Some(i) => Ok(Addr(self.segments@[i].address)),
            None => Err(Error::VmAddrTextSegmentNotFound),
        }
    }

    /// The address of the image: that of its first segment named `__TEXT`.
    pub fn vmaddr(&self) -> (r: Result<Addr, Error>)
        ensures
            r == self.text_address(),
    {
        let wanted = String::from_str("__TEXT");
        let mut i: usize = 0;
        while i < self.segments.len()
            invariant
                i <= self.segments.len(),
                wanted@ == text_segment_name(),
                text_segment_from(self.segments@, i as int) == text_segment_from(self.segments@, 0),
            decreases self.segments.len() - i,
        {
            if let Some(name) = &self.segments[i].name {
                if *name == wanted {
                    return Ok(Addr(self.segments[i].address));
                }
            }
            i = i + 1;
        }
        Err(Error::VmAddrTextSegmentNotFound)
    }

    /// The UUID of the image.
    pub fn mach_uuid(&self) -> (r: Result<[u8; 16], Error>)
        ensures
            r == match self.uuid {
                Some(id) => Ok::<[u8; 16], Error>(id),
                None => Err::<[u8; 16], Error>(Error::ObjectHasNoUuid),
            },
    {
        match self.uuid {
            Some(id) => Ok(id),
            None => Err(Error::ObjectHasNoUuid),
        }
    }

    /// The symbol table.
    pub fn symbol_map(&self) -> (r: &SymbolMap)
        ensures
            *r == self.symbols,
    {
        &self.symbols
    }

    /// What the symbol table gives for `addr`.
    pub open spec fn resolve(&self, addr: Addr) -> Result<Seq<SymbolView>, Error> {
        match self.symbols.symbol_at(addr@) {
            None => Err(Error::AddrNotFound(addr)),
            Some(entry) => Ok(
                seq![
                    SymbolView {
                        addr: Addr(entry.address),
                        name: entry.name@,
                        loc: SymbolLocView::ObjectOffset(Addr((addr@ - entry.address) as u64)),
                    },
                ],
            ),
        }
    }
}

/// What the symbol table of `obj` gives for `addr`: the one symbol that
/// `addr` belongs to, with the distance of `addr` from its start. The
/// name is the one recorded in the symbol table.
pub fn atos_obj(obj: &File, addr: Addr) -> (r: Result<Vec<Symbol>, Error>)
    ensures
        match r {
            Ok(symbols) => obj.resolve(addr) == Ok::<Seq<SymbolView>, Error>(symbol_views(symbols@)),
            Err(e) => obj.resolve(addr) == Err::<Seq<SymbolView>, Error>(e),
        },
{
    let map = obj.symbol_map();
    let entry = match map.get(addr.0) {
        Some(entry) => entry,
        None => {
            return Err(Error::AddrNotFound(addr));
        },
    };
    proof {
        lemma_symbol_at_is_greatest(*map, addr@);
    }
    let mut symbols: Vec<Symbol> = Vec::new();
    symbols.push(
        Symbol {
            addr: Addr(entry.address),
            name: entry.name.clone(),
            loc: SymbolLoc::ObjectOffset(Addr(addr.0 - entry.address)),
        },
    );
    assert(symbol_views(symbols@) =~= obj.resolve(addr).unwrap());
    Ok(symbols)
}

} // verus!
