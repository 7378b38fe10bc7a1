use atorsl::image::Segment;
use atorsl::{compute_addrs, parse_addrs, Addr, BaseMode, Context, Error, File, Mode, SymbolMap};

const VMADDR: u64 = 0x1_0000_0000;

fn image() -> File {
    File {
        segments: vec![Segment { name: Some(String::from("__TEXT")), address: VMADDR }],
        uuid: None,
        architecture: String::from("arm64"),
        symbols: SymbolMap::new(vec![]).unwrap(),
    }
}

fn bare_image() -> File {
    File {
        segments: vec![],
        uuid: None,
        architecture: String::from("arm64"),
        symbols: SymbolMap::new(vec![]).unwrap(),
    }
}

fn context(base_addr: BaseMode, addrs: Vec<u64>) -> Context {
    Context {
        obj_path: String::from("/tmp/app"),
        arch: None,
        addrs: Some(addrs.into_iter().map(Addr).collect()),
        input_addr_file: None,
        base_addr,
        include_inlined: false,
        show_full_path: false,
        delimiter: String::new(),
        mode: Mode::Symbolicate,
    }
}

#[test]
fn load_address_moves_down_by_the_distance_to_the_image() {
    let ctx = context(BaseMode::LoadAddr(Addr(0x1_1000_0000)), vec![0x1_1000_1020, 0x1_1000_0000]);
    assert_eq!(
        compute_addrs(&image(), &ctx, b""),
        Ok(vec![Addr(0x1_0000_1020), Addr(0x1_0000_0000)])
    );
}

#[test]
fn load_address_of_the_image_itself_changes_nothing() {
    let ctx = context(BaseMode::LoadAddr(Addr(VMADDR)), vec![0x1_0000_1020]);
    assert_eq!(compute_addrs(&image(), &ctx, b""), Ok(vec![Addr(0x1_0000_1020)]));
}

#[test]
fn slide_base() {
    let ctx = context(BaseMode::Slide(Addr(0x1000_0000)), vec![0x1_1000_1020]);
    assert_eq!(compute_addrs(&image(), &ctx, b""), Ok(vec![Addr(0x1_0000_1020)]));
}

#[test]
fn slide_needs_no_text_segment() {
    let ctx = context(BaseMode::Slide(Addr(0x10)), vec![0x30]);
    assert_eq!(compute_addrs(&bare_image(), &ctx, b""), Ok(vec![Addr(0x20)]));
}

#[test]
fn offset_adds_the_image_address() {
    let ctx = context(BaseMode::Offset, vec![0x1020, 0]);
    assert_eq!(compute_addrs(&image(), &ctx, b""), Ok(vec![Addr(0x1_0000_1020), Addr(VMADDR)]));
}

#[test]
fn load_base_overflow() {
    let ctx = context(BaseMode::LoadAddr(Addr(0)), vec![0x1_0000_1020]);
    let err = compute_addrs(&image(), &ctx, b"").unwrap_err();
    assert_eq!(err, Error::InvalidLoadAddress(Addr(0)));
    assert!(err.message().contains("Invalid load address"));
    assert_eq!(err.message(), "Invalid load address: 0x0000000000000000");
}

#[test]
fn load_address_below_the_image_fails() {
    let ctx = context(BaseMode::LoadAddr(Addr(VMADDR - 1)), vec![]);
    assert_eq!(
        compute_addrs(&image(), &ctx, b""),
        Err(Error::InvalidLoadAddress(Addr(VMADDR - 1)))
    );
}

#[test]
fn address_below_the_slide_fails() {
    let ctx = context(BaseMode::Slide(Addr(0x100)), vec![0x200, 0xff, 0x10]);
    let err = compute_addrs(&image(), &ctx, b"").unwrap_err();
    assert_eq!(err, Error::InvalidAddress(Addr(0xff)));
    assert_eq!(err.message(), "Invalid address: 0x00000000000000ff");
}

#[test]
fn offset_beyond_64_bits_fails() {
    let ctx = context(BaseMode::Offset, vec![u64::MAX - VMADDR, u64::MAX - VMADDR + 1]);
    assert_eq!(
        compute_addrs(&image(), &ctx, b""),
        Err(Error::InvalidAddress(Addr(u64::MAX - VMADDR + 1)))
    );
    let fits = context(BaseMode::Offset, vec![u64::MAX - VMADDR]);
    assert_eq!(compute_addrs(&image(), &fits, b""), Ok(vec![Addr(u64::MAX)]));
}

#[test]
fn wide_slide_is_not_cut() {
    let ctx = context(BaseMode::Slide(Addr(u64::MAX)), vec![u64::MAX, u64::MAX - 1]);
    assert_eq!(
        compute_addrs(&image(), &ctx, b""),
        Err(Error::InvalidAddress(Addr(u64::MAX - 1)))
    );
    let one = context(BaseMode::Slide(Addr(u64::MAX)), vec![u64::MAX]);
    assert_eq!(compute_addrs(&image(), &one, b""), Ok(vec![Addr(0)]));
}

#[test]
fn missing_text_segment_fails_where_it_is_read() {
    let load = context(BaseMode::LoadAddr(Addr(1)), vec![1]);
    assert_eq!(compute_addrs(&bare_image(), &load, b""), Err(Error::VmAddrTextSegmentNotFound));
    let offset = context(BaseMode::Offset, vec![1]);
    assert_eq!(compute_addrs(&bare_image(), &offset, b""), Err(Error::VmAddrTextSegmentNotFound));
}

#[test]
fn no_input_address() {
    let mut ctx = context(BaseMode::Offset, vec![]);
    ctx.addrs = None;
    let err = compute_addrs(&image(), &ctx, b"0x10").unwrap_err();
    assert_eq!(err, Error::NoInputAddress);
    assert_eq!(err.message(), "No input address");
}

#[test]
fn addresses_come_from_the_file_where_one_is_named() {
    let mut ctx = context(BaseMode::Slide(Addr(0)), vec![1, 2]);
    ctx.input_addr_file = Some(String::from("addrs.txt"));
    assert_eq!(
        compute_addrs(&image(), &ctx, b"0x10 32 zz 0x30"),
        Ok(vec![Addr(0x10), Addr(32), Addr(0x30)])
    );
    assert_eq!(compute_addrs(&image(), &ctx, b""), Ok(vec![]));
}

#[test]
fn translation_is_repeatable() {
    let ctx = context(BaseMode::LoadAddr(Addr(0x1_2000_0000)), vec![0x1_2000_0040]);
    let first = compute_addrs(&image(), &ctx, b"");
    let second = compute_addrs(&image(), &ctx, b"");
    assert_eq!(first, second);
    assert_eq!(first, Ok(vec![Addr(0x1_0000_0040)]));
}

#[test]
fn parse_addrs_splits_at_spaces() {
    assert_eq!(parse_addrs(b"0x10 0x20"), vec![Addr(0x10), Addr(0x20)]);
    assert_eq!(parse_addrs(b"16"), vec![Addr(16)]);
    assert_eq!(parse_addrs(b""), Vec::<Addr>::new());
    assert_eq!(parse_addrs(b" "), Vec::<Addr>::new());
    assert_eq!(parse_addrs(b"  0x10   7 "), vec![Addr(0x10), Addr(7)]);
}

#[test]
fn parse_addrs_passes_over_what_is_no_address() {
    assert_eq!(parse_addrs(b"0x10 foo 0x20"), vec![Addr(0x10), Addr(0x20)]);
    assert_eq!(parse_addrs(b"0x10\n0x20"), Vec::<Addr>::new());
    assert_eq!(parse_addrs(b"0x10 0x20\n"), vec![Addr(0x10)]);
    assert_eq!(parse_addrs(b"0x10\t0x20 5"), vec![Addr(5)]);
    assert_eq!(parse_addrs(&[0x31, 0x20, 0xff, 0x20, 0x32]), vec![Addr(1), Addr(2)]);
}
