//! What holds of resolution as a whole.

use crate::addr::Addr;
use crate::dwarf::{DebuggingInformationEntry, Dwarf, Tag, Unit};
use crate::error::Error;
use crate::format::resolved;
use crate::image::{last_at_or_below, lemma_last_scan, File, SymbolEntry};
use crate::path::{is_absolute, joined_path};
use crate::symbol::{SourceLocView, SymbolLocView, SymbolView};
use crate::symbolicator::{generated_file, lemma_names_each, MAX_REFERENCE_DEPTH};
use vstd::prelude::*;

verus! {

/// The first subprogram that covers an address is a subprogram of the
/// unit that covers the address, and no entry before it is one.
pub proof fn lemma_first_subprogram(unit: Unit, addr: int, from: int)
    requires
        0 <= from,
    ensures
        match unit.subprogram_from(addr, from) {
            Some(i) => from <= i < unit.entries@.len() && unit.entries@[i].tag == Tag::Subprogram
                && unit.entries@[i].covers(addr) && forall|k: int|
                from <= k < i ==> !unit.is_frame(k, Tag::Subprogram, addr),
            None => forall|k: int|
                from <= k < unit.entries@.len() ==> !unit.is_frame(k, Tag::Subprogram, addr),
        },
    decreases unit.entries@.len() - from,
{
    if from < unit.entries@.len() && !unit.is_frame(from, Tag::Subprogram, addr) {
        lemma_first_subprogram(unit, addr, from + 1);
    }
}

/// The inlined subroutines found between two entries are inlined
/// subroutines that cover the address, each between the two, in rising
/// order.
pub proof fn lemma_inlined_between(unit: Unit, addr: int, from: int, to: int)
    ensures
        forall|k: int|
            0 <= k < unit.inlined_between(addr, from, to).len() ==> {
                let i = #[trigger] unit.inlined_between(addr, from, to)[k] as int;
                from <= i < to && unit.entries@[i].tag == Tag::InlinedSubroutine
                    && unit.entries@[i].covers(addr)
            },
    decreases to - from,
{
    if !(from < 0 || to <= from || to > unit.entries@.len()) {
        lemma_inlined_between(unit, addr, from, to - 1);
        let front = unit.inlined_between(addr, from, to - 1);
        let all = unit.inlined_between(addr, from, to);
        assert(unit.entries@.len() == unit.entries.len());
        assert forall|k: int| 0 <= k < all.len() implies {
            let i = #[trigger] all[k] as int;
            from <= i < to && unit.entries@[i].tag == Tag::InlinedSubroutine
                && unit.entries@[i].covers(addr)
        } by {
            if k < front.len() {
                assert(all[k] == front[k]);
            }
        }
    }
}

/// Where the debug information resolves an address, there is at least
/// one symbol, and one only unless inlined calls are asked for; every
/// symbol bears the address; the last is that of the first subprogram of
/// the owning unit that covers the address, and bears its name.
pub proof fn lemma_last_is_subprogram(dwarf: Dwarf, addr: Addr, include_inlined: bool)
    requires
        dwarf.resolve(addr, include_inlined) is Ok,
    ensures
        ({
            let symbols = dwarf.resolve(addr, include_inlined).unwrap();
            let unit = dwarf.unit_for(addr).unwrap();
            let found = unit.subprogram_from(addr@, 0);
            &&& symbols.len() >= 1
            &&& !include_inlined ==> symbols.len() == 1
            &&& forall|i: int| 0 <= i < symbols.len() ==> (#[trigger] symbols[i]).addr == addr
            &&& found is Some
            &&& 0 <= found.unwrap() < unit.entries@.len()
            &&& unit.entries@[found.unwrap()].tag == Tag::Subprogram
            &&& unit.entries@[found.unwrap()].covers(addr@)
            &&& dwarf.name_of(
                addr,
                unit.entries@[found.unwrap()],
                unit,
                MAX_REFERENCE_DEPTH as nat,
            ) == Ok::<Seq<char>, Error>(symbols.last().name)
        }),
{
    let unit = dwarf.unit_for(addr).unwrap();
    let frames = unit.frames(addr@, include_inlined).unwrap();
    let symbols = dwarf.resolve(addr, include_inlined).unwrap();
    lemma_first_subprogram(unit, addr@, 0);
    lemma_names_each(dwarf, addr, unit, frames);
    let s = unit.subprogram_from(addr@, 0).unwrap();
    assert(unit.entries@.len() == unit.entries.len());
    assert(frames[0] == s as usize);
    assert(symbols.len() == frames.len());
    let names = dwarf.names_of(addr, unit, frames).unwrap();
    assert(symbols.last().name == names[0]);
}

/// Where the debug information resolves an address with inlined calls,
/// every symbol but the last stands for an inlined subroutine of the
/// owning unit that covers the address and lies below the subprogram.
pub proof fn lemma_inner_are_inlined(dwarf: Dwarf, addr: Addr)
    requires
        dwarf.resolve(addr, true) is Ok,
    ensures
        ({
            let symbols = dwarf.resolve(addr, true).unwrap();
            let unit = dwarf.unit_for(addr).unwrap();
            let frames = unit.frames(addr@, true).unwrap();
            &&& symbols.len() == frames.len()
            &&& forall|k: int|
                1 <= k < frames.len() ==> {
                    let entry = unit.entries@[#[trigger] frames[k] as int];
                    &&& frames[0] < frames[k] < unit.entries@.len()
                    &&& entry.tag == Tag::InlinedSubroutine
                    &&& entry.covers(addr@)
                    &&& dwarf.name_of(addr, entry, unit, MAX_REFERENCE_DEPTH as nat) == Ok::<
                        Seq<char>,
                        Error,
                    >(symbols[frames.len() - 1 - k].name)
                }
        }),
{
    let unit = dwarf.unit_for(addr).unwrap();
    let frames = unit.frames(addr@, true).unwrap();
    let s = unit.subprogram_from(addr@, 0).unwrap();
    lemma_first_subprogram(unit, addr@, 0);
    lemma_names_each(dwarf, addr, unit, frames);
    let end = unit.subtree_end(unit.entries@[s].depth, s + 1);
    lemma_inlined_between(unit, addr@, s + 1, end);
    let chain = unit.inlined_between(addr@, s + 1, end);
    let symbols = dwarf.resolve(addr, true).unwrap();
    let names = dwarf.names_of(addr, unit, frames).unwrap();
    assert(unit.entries@.len() == unit.entries.len());
    assert(symbols.len() == frames.len());
    assert forall|k: int| 1 <= k < frames.len() implies {
        let entry = unit.entries@[#[trigger] frames[k] as int];
        &&& frames[0] < frames[k] < unit.entries@.len()
        &&& entry.tag == Tag::InlinedSubroutine
        &&& entry.covers(addr@)
        &&& dwarf.name_of(addr, entry, unit, MAX_REFERENCE_DEPTH as nat) == Ok::<
            Seq<char>,
            Error,
        >(symbols[frames.len() - 1 - k].name)
    } by {
        assert(symbols[frames.len() - 1 - k].name == names[k]);
        assert(frames[k] == chain[k - 1]);
        if chain.len() > 0 {
            assert(!(s + 1 < 0 || end <= s + 1 || end > unit.entries@.len()));
        }
    }
}

/// Resolving the address of the last symbol again, without inlined
/// calls, gives one symbol, and it bears the last symbol's name.
pub proof fn lemma_resolve_again(dwarf: Dwarf, addr: Addr, include_inlined: bool)
    requires
        dwarf.resolve(addr, include_inlined) is Ok,
    ensures
        ({
            let first = dwarf.resolve(addr, include_inlined).unwrap();
            let again = dwarf.resolve(first.last().addr, false);
            &&& first.len() >= 1
            &&& again is Ok
            &&& again.unwrap().len() == 1
            &&& again.unwrap()[0].name == first.last().name
        }),
{
    lemma_last_is_subprogram(dwarf, addr, include_inlined);
    let unit = dwarf.unit_for(addr).unwrap();
    let s = unit.subprogram_from(addr@, 0).unwrap();
    let frames = unit.frames(addr@, include_inlined).unwrap();
    let alone = seq![s as usize];
    lemma_names_each(dwarf, addr, unit, frames);
    assert(unit.entries@.len() == unit.entries.len());
    assert(frames[0] == s as usize);
    assert(alone.drop_last() =~= Seq::<usize>::empty());
    assert(dwarf.names_of(addr, unit, alone.drop_last()) == Ok::<Seq<Seq<char>>, Error>(
        Seq::empty(),
    ));
    assert(alone.last() == s as usize);
    let name = dwarf.names_of(addr, unit, frames).unwrap()[0];
    assert(dwarf.names_of(addr, unit, alone) == Ok::<Seq<Seq<char>>, Error>(
        Seq::<Seq<char>>::empty().push(name),
    ));
}

/// Asking the symbol table again for the address of the symbol that it
/// gave gives that symbol again.
pub proof fn lemma_symbol_again(obj: File, addr: Addr)
    requires
        obj.resolve(addr) is Ok,
    ensures
        ({
            let first = obj.resolve(addr).unwrap();
            let again = obj.resolve(first.last().addr);
            &&& first.len() == 1
            &&& again is Ok
            &&& again.unwrap().len() == 1
            &&& again.unwrap()[0].name == first.last().name
            &&& again.unwrap()[0].addr == first.last().addr
        }),
{
    let entries = obj.symbols.symbols();
    let i = last_at_or_below(entries, addr@, entries.len() as int).unwrap();
    lemma_last_scan(entries, addr@, entries.len() as int);
    lemma_scan_to(entries, entries[i].address as int, i, entries.len() as int);
}

proof fn lemma_scan_to(entries: Seq<SymbolEntry>, addr: int, i: int, end: int)
    requires
        0 <= i < end <= entries.len(),
        entries[i].address <= addr,
        forall|k: int| i < k < entries.len() ==> entries[k].address > addr,
    ensures
        last_at_or_below(entries, addr, end) == Some(i),
    decreases end,
{
    if end - 1 > i {
        lemma_scan_to(entries, addr, i, end - 1);
    }
}

/// An address resolves in the debug information only where the unit
/// that owns it records a compilation directory that is not empty; a
/// unit without one is reported.
pub proof fn lemma_comp_dir_required(dwarf: Dwarf, addr: Addr, include_inlined: bool)
    requires
        dwarf.unit_for(addr) is Ok,
    ensures
        ({
            let unit = dwarf.unit_for(addr).unwrap();
            let missing = unit.comp_dir is None || unit.comp_dir.unwrap()@.len() == 0;
            &&& missing ==> dwarf.resolve(addr, include_inlined) == Err::<Seq<SymbolView>, Error>(
                Error::CompUnitDirMissing(addr),
            )
            &&& dwarf.resolve(addr, include_inlined) is Ok ==> !missing
        }),
{
}

/// An address whose unit is found, and is fit for resolution, but has
/// no subprogram that covers the address, is not found in the debug
/// information; the symbol table is asked in its place.
pub proof fn lemma_no_subprogram_falls_back(
    dwarf: Dwarf,
    obj: File,
    addr: Addr,
    include_inlined: bool,
)
    requires
        dwarf.unit_for(addr) is Ok,
        dwarf.unit_for(addr).unwrap().comp_dir is Some,
        dwarf.unit_for(addr).unwrap().comp_dir.unwrap()@.len() > 0,
        dwarf.unit_for(addr).unwrap().line_program is Some,
        forall|k: int|
            0 <= k < dwarf.unit_for(addr).unwrap().entries@.len() ==> !dwarf.unit_for(
                addr,
            ).unwrap().is_frame(k, Tag::Subprogram, addr@),
    ensures
        dwarf.resolve(addr, include_inlined) == Err::<Seq<SymbolView>, Error>(
            Error::AddrNotFound(addr),
        ),
        Error::AddrNotFound(addr).falls_back(),
        resolved(dwarf, obj, addr, include_inlined) == obj.resolve(addr),
{
    let unit = dwarf.unit_for(addr).unwrap();
    lemma_first_subprogram(unit, addr@, 0);
    if let Some(i) = unit.subprogram_from(addr@, 0) {
        assert(unit.is_frame(i, Tag::Subprogram, addr@));
    }
}

/// An address that no address range table covers, none of which ends
/// beyond 64 bits, is handed to the symbol table.
pub proof fn lemma_missing_offset_falls_back(
    dwarf: Dwarf,
    obj: File,
    addr: Addr,
    include_inlined: bool,
)
    requires
        dwarf.offset_for(addr) == Err::<u64, Error>(Error::AddrDebugInfoOffsetMissing(addr)),
    ensures
        resolved(dwarf, obj, addr, include_inlined) == obj.resolve(addr),
{
}

/// An inlined subroutine that the compiler made up lies in the
/// generated file of the compilation directory, at line 0, column 0.
pub proof fn lemma_artificial_call_site(
    unit: Unit,
    entry: DebuggingInformationEntry,
    comp_dir: Seq<char>,
)
    requires
        entry.artificial,
    ensures
        unit.call_site(entry, comp_dir) == Some(
            SourceLocView { file: joined_path(comp_dir, generated_file()), line: 0, col: 0 },
        ),
{
}

/// Where the compilation directory of the owning unit is absolute, so
/// is the file of every symbol that the debug information gives.
pub proof fn lemma_files_are_absolute(dwarf: Dwarf, addr: Addr, include_inlined: bool)
    requires
        dwarf.resolve(addr, include_inlined) is Ok,
        is_absolute(dwarf.unit_for(addr).unwrap().comp_dir.unwrap()@),
    ensures
        forall|i: int|
            0 <= i < dwarf.resolve(addr, include_inlined).unwrap().len() ==> match (
                #[trigger] dwarf.resolve(addr, include_inlined).unwrap()[i]
            ).loc {
                SymbolLocView::Source(Some(loc)) => is_absolute(loc.file),
                SymbolLocView::Source(None) => true,
                SymbolLocView::ObjectOffset(_) => false,
            },
{
}

/// Every symbol that the debug information gives lies in the source;
/// the innermost, which comes first, lies where the line program puts the
/// address.
pub proof fn lemma_first_lies_at_line(dwarf: Dwarf, addr: Addr, include_inlined: bool)
    requires
        dwarf.resolve(addr, include_inlined) is Ok,
    ensures
        ({
            let symbols = dwarf.resolve(addr, include_inlined).unwrap();
            let unit = dwarf.unit_for(addr).unwrap();
            &&& symbols.len() >= 1
            &&& unit.line_program is Some
            &&& unit.comp_dir is Some
            &&& unit.line_program.unwrap().loc_at(addr, unit.comp_dir.unwrap()@) is Ok
            &&& symbols[0].loc == SymbolLocView::Source(
                Some(unit.line_program.unwrap().loc_at(addr, unit.comp_dir.unwrap()@).unwrap()),
            )
        }),
{
}

} // verus!
