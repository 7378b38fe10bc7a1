//! Dispatch between the debug information and the symbol table, and the
//! lines that are printed for each address.

use crate::addr::{hex_text, Addr};
use crate::context::Context;
use crate::dwarf::Dwarf;
use crate::error::Error;
use crate::image::{atos_obj, File};
use crate::path::{file_name, file_name_of};
use crate::symbol::{symbol_views, Symbol, SymbolLoc, SymbolLocView, SymbolView};
use crate::symbolicator::atos_dwarf;
use crate::text::{decimal, join, joined, push_decimal, views};
use vstd::prelude::*;
use vstd::string::*;

verus! {

/// A path as it is printed: whole, or only its final component.
pub open spec fn shown_path(path: Seq<char>, whole: bool) -> Seq<char> {
    if whole {
        path
    } else {
        file_name_of(path)
    }
}

/// The line of a symbol: its name, the image, and then its file and
/// line, a question mark where no place is known, or its distance from
/// the start of its symbol.
pub open spec fn symbol_line(symbol: SymbolView, obj_path: Seq<char>, whole: bool) -> Seq<char> {
    let head = symbol.name + " (in "@ + shown_path(obj_path, whole) + ")"@;
    match symbol.loc {
        SymbolLocView::Source(Some(loc)) => head + " ("@ + shown_path(loc.file, whole) + ":"@
            + decimal(loc.line as nat) + ")"@,
        SymbolLocView::Source(None) => head + " (?)"@,
        SymbolLocView::ObjectOffset(offset) => head + " + "@ + decimal(offset@ as nat),
    }
}

/// The lines of a list of symbols.
pub open spec fn symbol_lines(symbols: Seq<SymbolView>, obj_path: Seq<char>, whole: bool) -> Seq<
    Seq<char>,
> {
    Seq::new(symbols.len(), |i: int| symbol_line(symbols[i], obj_path, whole))
}

/// What is printed for one address: the lines of its symbols; for an
/// address that was not found, the address alone; for any other failure,
/// its message.
pub open spec fn result_text(
    result: Result<Seq<SymbolView>, Error>,
    obj_path: Seq<char>,
    whole: bool,
) -> Seq<char> {
    match result {
        Ok(symbols) => joined(symbol_lines(symbols, obj_path, whole), "\n"@),
        Err(Error::AddrNotFound(addr)) => hex_text(addr@),
        Err(e) => e.message_text(),
    }
}

/// What resolution gives for an address: what the debug information
/// gives or, where the address is not found there, what the symbol table
/// gives.
pub open spec fn resolved(dwarf: Dwarf, obj: File, addr: Addr, include_inlined: bool) -> Result<
    Seq<SymbolView>,
    Error,
> {
    match dwarf.resolve(addr, include_inlined) {
        Err(Error::AddrNotFound(a)) => obj.resolve(a),
        Err(Error::AddrDebugInfoOffsetMissing(a)) => obj.resolve(a),
        other => other,
    }
}

/// The output of the addresses `addrs`, one text for each.
pub open spec fn address_texts(dwarf: Dwarf, obj: File, addrs: Seq<Addr>, ctx: Context) -> Seq<
    Seq<char>,
> {
    Seq::new(
        addrs.len(),
        |i: int|
            result_text(
                resolved(dwarf, obj, addrs[i], ctx.include_inlined),
                ctx.obj_path@,
                ctx.show_full_path,
            ),
    )
}

/// `texts` with `delimiter` behind each; the delimiter alone where there
/// are no texts.
pub open spec fn delimited(texts: Seq<Seq<char>>, delimiter: Seq<char>) -> Seq<Seq<char>> {
    if texts.len() == 0 {
        seq![delimiter]
    } else {
        Seq::new(
            2 * texts.len(),
            |i: int|
                if i % 2 == 0 {
                    texts[i / 2]
                } else {
                    delimiter
                },
        )
    }
}

/// The output of a run: the texts of its addresses in order, with the
/// delimiter behind each where inlined calls are shown.
pub open spec fn output(dwarf: Dwarf, obj: File, addrs: Seq<Addr>, ctx: Context) -> Seq<Seq<char>> {
    if ctx.include_inlined {
        delimited(address_texts(dwarf, obj, addrs, ctx), ctx.delimiter@)
    } else {
        address_texts(dwarf, obj, addrs, ctx)
    }
}

/// A path as it is printed.
fn show_path(path: &str, whole: bool) -> (r: String)
    ensures
        r@ == shown_path(path@, whole),
{
    if whole {
        let mut out = String::new();
        out.append(path);
        assert(out@ =~= path@);
        out
    } else {
        file_name(path)
    }
}

/// The line of a symbol.
pub fn format(symbol: &Symbol, ctx: &Context) -> (r: String)
    ensures
        r@ == symbol_line(symbol@, ctx.obj_path@, ctx.show_full_path),
{
    let mut out = String::new();
    out.append(symbol.name.as_str());
    out.append(" (in ");
    out.append(show_path(ctx.obj_path.as_str(), ctx.show_full_path).as_str());
    out.append(")");
    match &symbol.loc {
        SymbolLoc::Source(Some(loc)) => {
            out.append(" (");
            out.append(show_path(loc.file.as_str(), ctx.show_full_path).as_str());
            out.append(":");
            push_decimal(&mut out, loc.line as u64);
            out.append(")");
        },
        SymbolLoc::Source(None) => {
            out.append(" (?)");
        },
        SymbolLoc::ObjectOffset(offset) => {
            out.append(" + ");
            push_decimal(&mut out, offset.0);
        },
    }
    assert(out@ =~= symbol_line(symbol@, ctx.obj_path@, ctx.show_full_path));
    out
}

/// What is printed for one address, given what resolution gave for it.
pub fn format_result(result: &Result<Vec<Symbol>, Error>, ctx: &Context) -> (r: String)
    ensures
        r@ == result_text(
            match *result {
                Ok(symbols) => Ok(symbol_views(symbols@)),
                Err(e) => Err(e),
            },
            ctx.obj_path@,
            ctx.show_full_path,
        ),
{
    match result {
        Ok(symbols) => {
            let ghost expected = symbol_lines(
                symbol_views(symbols@),
                ctx.obj_path@,
                ctx.show_full_path,
            );
            let mut lines: Vec<String> = Vec::new();
            let mut i: usize = 0;
            while i < symbols.len()
                invariant
                    i <= symbols.len(),
                    expected == symbol_lines(
                        symbol_views(symbols@),
                        ctx.obj_path@,
                        ctx.show_full_path,
                    ),
                    views(lines@) == expected.take(i as int),
                decreases symbols.len() - i,
            {
                let line = format(&symbols[i], ctx);
                let ghost before = views(lines@);
                assert(symbol_views(symbols@)[i as int] == symbols@[i as int]@);
                assert(expected[i as int] == line@);
                lines.push(line);
                assert(views(lines@) =~= before.push(line@));
                i = i + 1;
                assert(views(lines@) =~= expected.take(i as int));
            }
            assert(expected.take(i as int) =~= expected);
            join(&lines, "\n")
        },
        Err(Error::AddrNotFound(addr)) => addr.to_string(),
        Err(e) => e.message(),
    }
}

/// What resolution gives for an address: what the debug information
/// gives or, where the address is not found there, what the symbol table
/// gives.
pub fn atos(dwarf: &Dwarf, obj: &File, addr: Addr, include_inlined: bool) -> (r: Result<
    Vec<Symbol>,
    Error,
>)
    ensures
        match r {
            Ok(symbols) => resolved(*dwarf, *obj, addr, include_inlined) == Ok::<
                Seq<SymbolView>,
                Error,
            >(symbol_views(symbols@)),
            Err(e) => resolved(*dwarf, *obj, addr, include_inlined) == Err::<
                Seq<SymbolView>,
                Error,
            >(e),
        },
{
    match atos_dwarf(dwarf, addr, include_inlined) {
        Err(Error::AddrNotFound(a)) => atos_obj(obj, a),
        Err(Error::AddrDebugInfoOffsetMissing(a)) => atos_obj(obj, a),
        other => other,
    }
}

/// `texts` with the delimiter of the run behind each, where inlined calls
/// are shown; else `texts` as they are.
pub fn delimit(texts: Vec<String>, ctx: &Context) -> (r: Vec<String>)
    ensures
        views(r@) == if ctx.include_inlined {
            delimited(views(texts@), ctx.delimiter@)
        } else {
            views(texts@)
        },
{
    if !ctx.include_inlined {
        return texts;
    }
    let ghost expected = delimited(views(texts@), ctx.delimiter@);
    let mut out: Vec<String> = Vec::new();
    if texts.len() == 0 {
        out.push(ctx.delimiter.clone());
        assert(views(out@) =~= expected);
        return out;
    }
    let mut i: usize = 0;
    while i < texts.len()
        invariant
            i <= texts.len(),
            texts@.len() > 0,
            expected == delimited(views(texts@), ctx.delimiter@),
            out@.len() == 2 * i,
            views(out@) == expected.take(2 * i),
        decreases texts.len() - i,
    {
        out.push(texts[i].clone());
        out.push(ctx.delimiter.clone());
        i = i + 1;
        assert(views(out@) =~= expected.take(2 * i));
    }
    assert(expected.take(2 * i) =~= expected);
    out
}

/// The output of a run over the addresses `addrs` of the image: one text
/// for each, in order, and the delimiter behind each where inlined calls
/// are shown.
pub fn symbolicate(dwarf: &Dwarf, obj: &File, addrs: &Vec<Addr>, ctx: &Context) -> (r: Vec<
    String,
>)
    ensures
        views(r@) == output(*dwarf, *obj, addrs@, *ctx),
{
    let ghost expected = address_texts(*dwarf, *obj, addrs@, *ctx);
    let mut texts: Vec<String> = Vec::new();
    let mut i: usize = 0;
    while i < addrs.len()
        invariant
            i <= addrs.len(),
            expected == address_texts(*dwarf, *obj, addrs@, *ctx),
            views(texts@) == expected.take(i as int),
        decreases addrs.len() - i,
    {
        let result = atos(dwarf, obj, addrs[i], ctx.include_inlined);
        let text = format_result(&result, ctx);
        let ghost before = views(texts@);
        assert(expected[i as int] == text@);
        texts.push(text);
        assert(views(texts@) =~= before.push(text@));
        i = i + 1;
        assert(views(texts@) =~= expected.take(i as int));
    }
    assert(expected.take(i as int) =~= expected);
    delimit(texts, ctx)
}

} // verus!
