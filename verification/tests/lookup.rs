use atorsl::dwarf::{ArangeHeader, AttrValue, HighPc, Tag, Unit, UnitHeader};
use atorsl::{
    translate, Addr, ArangeEntry, BaseMode, Context, DebuggingInformationEntry, Dwarf, Error,
    Lookup, Mode,
};

const VMADDR: u64 = 0x1_0000_0000;

fn function(offset: u64, depth: u64, tag: Tag, name: &str, low: u64, len: u64) -> DebuggingInformationEntry {
    DebuggingInformationEntry {
        offset,
        depth,
        tag,
        low_pc: Some(low),
        high_pc: Some(HighPc::Offset(len)),
        ranges: None,
        linkage_name: None,
        abstract_origin: None,
        name: Some(AttrValue::String(String::from(name))),
        call_file: None,
        call_line: None,
        call_column: None,
        decl_file: None,
        decl_line: None,
        decl_column: None,
        artificial: false,
    }
}

fn debug_info() -> Dwarf {
    Dwarf {
        aranges: vec![ArangeHeader {
            debug_info_offset: 0,
            entries: vec![ArangeEntry { address: VMADDR, length: 0x200 }],
        }],
        units: vec![Unit {
            header: UnitHeader { offset: 0, header_size: 11, entries_size: 100 },
            comp_dir: None,
            line_program: None,
            entries: vec![
                function(11, 1, Tag::Subprogram, "main", VMADDR, 0x100),
                function(20, 2, Tag::InlinedSubroutine, "helper", VMADDR + 0x10, 0x10),
                function(30, 1, Tag::Subprogram, "exit", VMADDR + 0x100, 0x80),
            ],
        }],
    }
}

fn context(base_addr: BaseMode, addrs: Option<Vec<u64>>, include_inlined: bool) -> Context {
    Context {
        obj_path: String::from("app"),
        arch: None,
        addrs: addrs.map(|a| a.into_iter().map(Addr).collect()),
        input_addr_file: None,
        base_addr,
        include_inlined,
        show_full_path: false,
        delimiter: String::new(),
        mode: Mode::Symbolicate,
    }
}

#[test]
fn lookup_names_each_address() {
    let ctx = context(
        BaseMode::LoadAddr(Addr(0x2_0000_0000)),
        Some(vec![0x2_0000_0010, 0x2_0000_0100, 0x2_0000_0000]),
        true,
    );
    assert_eq!(
        debug_info().lookup(Addr(VMADDR), &ctx),
        Ok(vec![String::from("helper\nmain"), String::from("exit"), String::from("main")])
    );
    let plain = context(BaseMode::Offset, Some(vec![0x10]), false);
    assert_eq!(debug_info().lookup(Addr(VMADDR), &plain), Ok(vec![String::from("main")]));
}

#[test]
fn lookup_without_addresses() {
    let ctx = context(BaseMode::Offset, None, true);
    assert_eq!(debug_info().lookup(Addr(VMADDR), &ctx), Ok(vec![]));
}

#[test]
fn lookup_fails_at_the_first_address_that_fails() {
    let ctx = context(BaseMode::Offset, Some(vec![0x10, 0x180, 0x300, 0x190]), true);
    assert_eq!(
        debug_info().lookup(Addr(VMADDR), &ctx),
        Err(Error::AddrNotFound(Addr(VMADDR + 0x180)))
    );
    let bad_base = context(BaseMode::LoadAddr(Addr(0)), Some(vec![0x10]), true);
    assert_eq!(
        debug_info().lookup(Addr(VMADDR), &bad_base),
        Err(Error::InvalidLoadAddress(Addr(0)))
    );
    let low = context(BaseMode::Slide(Addr(0x20)), Some(vec![0x10]), true);
    assert_eq!(debug_info().lookup(Addr(VMADDR), &low), Err(Error::InvalidAddress(Addr(0x10))));
}

#[test]
fn translate_alone() {
    let addrs = vec![Addr(0x30), Addr(0x40)];
    assert_eq!(
        translate(&addrs, &BaseMode::Slide(Addr(0x10)), Err(Error::VmAddrTextSegmentNotFound)),
        Ok(vec![Addr(0x20), Addr(0x30)])
    );
    assert_eq!(
        translate(&addrs, &BaseMode::Offset, Ok(Addr(0x100))),
        Ok(vec![Addr(0x130), Addr(0x140)])
    );
    assert_eq!(
        translate(&addrs, &BaseMode::Offset, Err(Error::VmAddrTextSegmentNotFound)),
        Err(Error::VmAddrTextSegmentNotFound)
    );
    assert_eq!(
        translate(&addrs, &BaseMode::LoadAddr(Addr(0x20)), Ok(Addr(0x10))),
        Ok(vec![Addr(0x20), Addr(0x30)])
    );
}
