use atorsl::dwarf::{
    ArangeHeader, AttrValue, ColumnType, FileEntry, HighPc, LineProgram, LineRow, Tag, Unit,
    UnitHeader,
};
use atorsl::image::{Segment, SymbolEntry};
use atorsl::{
    compute_addrs, delimit, format_result, header_line, print_header, symbolicate, Addr,
    ArangeEntry, BaseMode, Context, DebuggingInformationEntry, Dwarf, Error, File, Mode,
    SourceLoc, Symbol, SymbolLoc, SymbolMap,
};

const VMADDR: u64 = 0x1_0000_0000;
const LOW: u64 = 0x1_0000_1000;
const PC: u64 = 0x1_0000_1020;

fn context(obj_path: &str) -> Context {
    Context {
        obj_path: String::from(obj_path),
        arch: None,
        addrs: Some(vec![]),
        input_addr_file: None,
        base_addr: BaseMode::Offset,
        include_inlined: false,
        show_full_path: false,
        delimiter: String::new(),
        mode: Mode::Symbolicate,
    }
}

fn image(symbols: Vec<SymbolEntry>) -> File {
    File {
        segments: vec![Segment { name: Some(String::from("__TEXT")), address: VMADDR }],
        uuid: Some([
            0x93, 0x6d, 0xa0, 0x1f, 0x9a, 0xbd, 0x4d, 0x9d, 0x80, 0xc7, 0x02, 0xaf, 0x85, 0xc8,
            0x22, 0xa8,
        ]),
        architecture: String::from("arm64"),
        symbols: SymbolMap::new(symbols).unwrap(),
    }
}

fn entry(
    offset: u64,
    depth: u64,
    tag: Tag,
    name: &str,
    len: u64,
    call_line: Option<u64>,
) -> DebuggingInformationEntry {
    DebuggingInformationEntry {
        offset,
        depth,
        tag,
        low_pc: Some(LOW),
        high_pc: Some(HighPc::Offset(len)),
        ranges: None,
        linkage_name: None,
        abstract_origin: None,
        name: Some(AttrValue::String(String::from(name))),
        call_file: call_line.map(|_| 1),
        call_line,
        call_column: None,
        decl_file: None,
        decl_line: None,
        decl_column: None,
        artificial: false,
    }
}

fn debug_info(entries: Vec<DebuggingInformationEntry>, line: u64) -> Dwarf {
    Dwarf {
        aranges: vec![ArangeHeader {
            debug_info_offset: 0,
            entries: vec![ArangeEntry { address: LOW, length: 0x100 }],
        }],
        units: vec![Unit {
            header: UnitHeader { offset: 0, header_size: 11, entries_size: 100 },
            comp_dir: Some(String::from("/src")),
            line_program: Some(LineProgram {
                files: vec![
                    None,
                    Some(FileEntry {
                        directory_index: 0,
                        directory: Some(String::from("/src")),
                        path_name: String::from("a.c"),
                    }),
                ],
                rows: vec![LineRow {
                    address: PC,
                    file_index: 1,
                    line,
                    column: ColumnType::LeftEdge,
                }],
            }),
            entries,
        }],
    }
}

fn plain() -> Dwarf {
    debug_info(vec![entry(11, 0, Tag::Other, "a.c", 0, None), entry(20, 1, Tag::Subprogram, "foo", 0x100, None)], 42)
}

fn nested() -> Dwarf {
    debug_info(
        vec![
            entry(11, 0, Tag::Other, "a.c", 0, None),
            entry(20, 1, Tag::Subprogram, "foo", 0x100, None),
            entry(30, 2, Tag::InlinedSubroutine, "bar", 0x80, Some(42)),
            entry(40, 3, Tag::InlinedSubroutine, "baz", 0x40, Some(100)),
        ],
        200,
    )
}

fn symbol(name: &str, loc: SymbolLoc) -> Symbol {
    Symbol { addr: Addr(PC), name: String::from(name), loc }
}

fn at(file: &str, line: u16) -> SymbolLoc {
    SymbolLoc::Source(Some(SourceLoc { file: String::from(file), line, col: 3 }))
}

#[test]
fn uuid_mode() {
    let line = header_line(&image(vec![]), &context("/tmp/app")).unwrap();
    assert_eq!(line, "    936DA01F-9ABD-4D9D-80C7-02AF85C822A8   arm64    /tmp/app");
    let id = &line[4..40];
    assert!(line.starts_with("    "));
    assert!(id.chars().all(|c| c == '-' || c.is_ascii_digit() || ('A'..='F').contains(&c)));
    assert_eq!(&line[40..], "   arm64    /tmp/app");
}

#[test]
fn header_of_an_image_without_uuid() {
    let mut obj = image(vec![]);
    obj.uuid = None;
    let err = header_line(&obj, &context("/tmp/app")).unwrap_err();
    assert_eq!(err, Error::ObjectHasNoUuid);
    assert_eq!(err.message(), "Object has no UUID");
}

#[test]
fn header_shows_every_byte() {
    let mut bytes = [0u8; 16];
    for (i, b) in bytes.iter_mut().enumerate() {
        *b = (i as u8) * 17;
    }
    assert_eq!(
        print_header(&bytes, "x86_64", "app"),
        "    00112233-4455-6677-8899-AABBCCDDEEFF   x86_64   app"
    );
    assert_eq!(
        print_header(&[0xff; 16], "a_long_architecture", ""),
        "    FFFFFFFF-FFFF-FFFF-FFFF-FFFFFFFFFFFF  a_long_architecture  "
    );
}

#[test]
fn symbolicate_one_address() {
    let mut ctx = context("/tmp/app");
    ctx.addrs = Some(vec![Addr(PC)]);
    ctx.base_addr = BaseMode::LoadAddr(Addr(VMADDR));
    let obj = image(vec![]);
    let addrs = compute_addrs(&obj, &ctx, b"").unwrap();
    assert_eq!(symbolicate(&plain(), &obj, &addrs, &ctx), vec!["foo (in app) (a.c:42)"]);
}

#[test]
fn symbolicate_with_a_slide() {
    let mut ctx = context("/tmp/app");
    ctx.addrs = Some(vec![Addr(0x1_1000_1020)]);
    ctx.base_addr = BaseMode::Slide(Addr(0x1000_0000));
    let obj = image(vec![]);
    let addrs = compute_addrs(&obj, &ctx, b"").unwrap();
    assert_eq!(addrs, vec![Addr(PC)]);
    assert_eq!(symbolicate(&plain(), &obj, &addrs, &ctx), vec!["foo (in app) (a.c:42)"]);
}

#[test]
fn symbolicate_offsets_from_a_file() {
    let mut ctx = context("app");
    ctx.addrs = None;
    ctx.input_addr_file = Some(String::from("addrs"));
    let obj = image(vec![]);
    let addrs = compute_addrs(&obj, &ctx, b"0x1020 4128").unwrap();
    assert_eq!(
        symbolicate(&plain(), &obj, &addrs, &ctx),
        vec!["foo (in app) (a.c:42)", "foo (in app) (a.c:42)"]
    );
}

#[test]
fn inline_expansion() {
    let mut ctx = context("app");
    ctx.include_inlined = true;
    ctx.show_full_path = true;
    ctx.delimiter = String::from("--");
    assert_eq!(
        symbolicate(&nested(), &image(vec![]), &vec![Addr(PC)], &ctx),
        vec![
            "baz (in app) (/src/a.c:200)\nbar (in app) (/src/a.c:100)\nfoo (in app) (/src/a.c:42)",
            "--",
        ]
    );
}

#[test]
fn fallback() {
    let obj = image(vec![SymbolEntry { address: 0x1_0000_1ff0, name: String::from("_start") }]);
    assert_eq!(
        symbolicate(&plain(), &obj, &vec![Addr(0x1_0000_2000)], &context("/tmp/app")),
        vec!["_start (in app) + 16"]
    );
}

#[test]
fn unknown_address_is_printed_alone() {
    let obj = image(vec![SymbolEntry { address: 0x1_0000_1ff0, name: String::from("_start") }]);
    assert_eq!(
        symbolicate(&plain(), &obj, &vec![Addr(0x10), Addr(PC)], &context("/tmp/app")),
        vec!["0x0000000000000010", "foo (in app) (a.c:42)"]
    );
}

#[test]
fn other_failures_are_printed_as_messages() {
    let mut d = plain();
    d.units[0].entries[1].name = None;
    let obj = image(vec![SymbolEntry { address: 0, name: String::from("_start") }]);
    assert_eq!(
        symbolicate(&d, &obj, &vec![Addr(PC), Addr(0x10)], &context("/tmp/app")),
        vec!["Address has no symbol (0x0000000100001020)", "_start (in app) + 16"]
    );
}

#[test]
fn output_keeps_the_order_of_the_addresses() {
    let obj = image(vec![SymbolEntry { address: 0x20, name: String::from("_a") }]);
    let addrs = vec![Addr(0x30), Addr(PC), Addr(0x21), Addr(1)];
    assert_eq!(
        symbolicate(&plain(), &obj, &addrs, &context("app")),
        vec!["_a (in app) + 16", "foo (in app) (a.c:42)", "_a (in app) + 1", "0x0000000000000001"]
    );
}

#[test]
fn delimiter_follows_every_address() {
    let mut ctx = context("app");
    ctx.include_inlined = true;
    ctx.delimiter = String::from("==");
    let addrs = vec![Addr(PC), Addr(PC)];
    assert_eq!(
        symbolicate(&plain(), &image(vec![]), &addrs, &ctx),
        vec!["foo (in app) (a.c:42)", "==", "foo (in app) (a.c:42)", "=="]
    );
    assert_eq!(symbolicate(&plain(), &image(vec![]), &vec![], &ctx), vec!["=="]);
    ctx.include_inlined = false;
    assert_eq!(symbolicate(&plain(), &image(vec![]), &vec![], &ctx), Vec::<String>::new());
}

#[test]
fn delimit_alone() {
    let mut ctx = context("app");
    let texts = vec![String::from("a"), String::from("b"), String::from("c")];
    assert_eq!(delimit(texts.clone(), &ctx), texts);
    ctx.include_inlined = true;
    ctx.delimiter = String::from("-");
    assert_eq!(delimit(texts, &ctx), vec!["a", "-", "b", "-", "c", "-"]);
    assert_eq!(delimit(vec![], &ctx), vec!["-"]);
}

#[test]
fn format_with_a_place() {
    let mut ctx = context("/tmp/app");
    let s = symbol("foo", at("/src/dir/a.c", 42));
    assert_eq!(atorsl::format::format(&s, &ctx), "foo (in app) (a.c:42)");
    ctx.show_full_path = true;
    assert_eq!(atorsl::format::format(&s, &ctx), "foo (in /tmp/app) (/src/dir/a.c:42)");
    let zero = symbol("foo", at("/src/<compiler-generated>", 0));
    assert_eq!(atorsl::format::format(&zero, &context("app")), "foo (in app) (<compiler-generated>:0)");
    let wide = symbol("foo", at("a.c", 65535));
    assert_eq!(atorsl::format::format(&wide, &context("app")), "foo (in app) (a.c:65535)");
}

#[test]
fn format_without_a_place() {
    let s = symbol("foo", SymbolLoc::Source(None));
    assert_eq!(atorsl::format::format(&s, &context("/tmp/app")), "foo (in app) (?)");
}

#[test]
fn format_with_an_offset() {
    let s = symbol("_start", SymbolLoc::ObjectOffset(Addr(16)));
    assert_eq!(atorsl::format::format(&s, &context("/tmp/app")), "_start (in app) + 16");
    let far = symbol("_start", SymbolLoc::ObjectOffset(Addr(u64::MAX)));
    assert_eq!(
        atorsl::format::format(&far, &context("/tmp/app/")),
        "_start (in app) + 18446744073709551615"
    );
    let none = symbol("", SymbolLoc::ObjectOffset(Addr(0)));
    assert_eq!(atorsl::format::format(&none, &context("")), " (in ) + 0");
}

#[test]
fn format_result_joins_the_lines() {
    let ctx = context("app");
    let symbols = vec![symbol("baz", at("a.c", 1)), symbol("foo", SymbolLoc::Source(None))];
    assert_eq!(format_result(&Ok(symbols), &ctx), "baz (in app) (a.c:1)\nfoo (in app) (?)");
    assert_eq!(format_result(&Ok(vec![]), &ctx), "");
    assert_eq!(format_result(&Err(Error::AddrNotFound(Addr(255))), &ctx), "0x00000000000000ff");
    assert_eq!(
        format_result(&Err(Error::AddrDebugInfoOffsetMissing(Addr(255))), &ctx),
        "No debug info offset for address (0x00000000000000ff)"
    );
}

#[test]
fn messages_of_the_failures() {
    let a = Addr(0x1020);
    let hex = "0x0000000000001020";
    let with = |head: &str| format!("{} ({})", head, hex);
    assert_eq!(Error::VmAddrTextSegmentNotFound.message(), "vmaddr: __TEXT segment not found");
    assert_eq!(Error::InvalidLoadAddress(a).message(), format!("Invalid load address: {}", hex));
    assert_eq!(Error::InvalidAddress(a).message(), format!("Invalid address: {}", hex));
    assert_eq!(Error::AddrNotFound(a).message(), with("Address not found"));
    assert_eq!(
        Error::AddrDebugInfoRefOffsetNotFound(a).message(),
        with("No unit holds the debug info reference of address")
    );
    assert_eq!(
        Error::AddrDebugInfoRefOffsetOutOfBounds(a).message(),
        with("Debug info reference out of bounds for address")
    );
    assert_eq!(Error::AddrSymbolMissing(a).message(), with("Address has no symbol"));
    assert_eq!(Error::AddrLineInfoMissing(a).message(), with("Address has no line information"));
    assert_eq!(Error::AddrFileInfoMissing(a).message(), with("Address has no file information"));
    assert_eq!(Error::CompUnitDirMissing(a).message(), with("Compilation unit has no directory"));
    assert_eq!(
        Error::CompUnitLineProgramMissing(a).message(),
        with("Compilation unit has no line program")
    );
    assert_eq!(
        Error::ExpectedStringAttributeValue.message(),
        "Expected a string attribute value"
    );
}

#[test]
fn failures_that_fall_back() {
    assert!(Error::AddrNotFound(Addr(1)).is_recoverable());
    assert!(Error::AddrDebugInfoOffsetMissing(Addr(1)).is_recoverable());
    assert!(!Error::AddrSymbolMissing(Addr(1)).is_recoverable());
    assert!(!Error::AddrLineInfoMissing(Addr(1)).is_recoverable());
    assert!(!Error::InvalidAddressRange.is_recoverable());
    assert!(!Error::CompUnitDirMissing(Addr(1)).is_recoverable());
}
