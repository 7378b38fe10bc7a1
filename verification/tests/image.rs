use atorsl::image::{Segment, SymbolEntry};
use atorsl::{atos_obj, Addr, Error, File, Symbol, SymbolLoc, SymbolMap};

fn entry(address: u64, name: &str) -> SymbolEntry {
    SymbolEntry { address, name: String::from(name) }
}

fn image(segments: Vec<Segment>, symbols: Vec<SymbolEntry>) -> File {
    File {
        segments,
        uuid: None,
        architecture: String::from("arm64"),
        symbols: SymbolMap::new(symbols).unwrap(),
    }
}

fn segment(name: Option<&str>, address: u64) -> Segment {
    Segment { name: name.map(String::from), address }
}

#[test]
fn symbol_map_wants_sorted_entries() {
    assert!(SymbolMap::new(vec![]).is_some());
    assert!(SymbolMap::new(vec![entry(1, "a")]).is_some());
    assert!(SymbolMap::new(vec![entry(1, "a"), entry(1, "b"), entry(2, "c")]).is_some());
    assert!(SymbolMap::new(vec![entry(2, "a"), entry(1, "b")]).is_none());
    assert!(SymbolMap::new(vec![entry(1, "a"), entry(3, "b"), entry(2, "c")]).is_none());
}

#[test]
fn symbol_map_gives_the_greatest_entry_at_or_below() {
    let map = SymbolMap::new(vec![entry(10, "a"), entry(20, "b"), entry(30, "c")]).unwrap();
    assert_eq!(map.len(), 3);
    assert!(map.get(9).is_none());
    assert_eq!(map.get(10).unwrap().name, "a");
    assert_eq!(map.get(19).unwrap().name, "a");
    assert_eq!(map.get(20).unwrap().name, "b");
    assert_eq!(map.get(29).unwrap().name, "b");
    assert_eq!(map.get(30).unwrap().name, "c");
    assert_eq!(map.get(u64::MAX).unwrap().name, "c");
    assert!(SymbolMap::new(vec![]).unwrap().get(5).is_none());
}

#[test]
fn symbol_map_gives_the_last_of_equal_addresses() {
    let map = SymbolMap::new(vec![entry(10, "a"), entry(10, "b"), entry(30, "c")]).unwrap();
    assert_eq!(map.get(10).unwrap().name, "b");
    assert_eq!(map.get(15).unwrap().name, "b");
}

#[test]
fn vmaddr_is_that_of_the_text_segment() {
    let obj = image(
        vec![
            segment(Some("__PAGEZERO"), 0),
            segment(None, 7),
            segment(Some("__TEXT"), 0x1_0000_0000),
            segment(Some("__DATA"), 0x1_0000_8000),
            segment(Some("__TEXT"), 0x2_0000_0000),
        ],
        vec![],
    );
    assert_eq!(obj.vmaddr(), Ok(Addr(0x1_0000_0000)));
}

#[test]
fn vmaddr_without_a_text_segment() {
    let obj = image(vec![segment(Some("__DATA"), 1), segment(Some("__text"), 2)], vec![]);
    assert_eq!(obj.vmaddr(), Err(Error::VmAddrTextSegmentNotFound));
    assert_eq!(image(vec![], vec![]).vmaddr(), Err(Error::VmAddrTextSegmentNotFound));
}

#[test]
fn uuid_of_an_image() {
    let mut obj = image(vec![], vec![]);
    assert_eq!(obj.mach_uuid(), Err(Error::ObjectHasNoUuid));
    obj.uuid = Some([7; 16]);
    assert_eq!(obj.mach_uuid(), Ok([7; 16]));
}

#[test]
fn fallback_gives_the_symbol_and_the_offset() {
    let obj = image(vec![], vec![entry(0x1_0000_1000, "_main"), entry(0x1_0000_1ff0, "_start")]);
    assert_eq!(
        atos_obj(&obj, Addr(0x1_0000_2000)),
        Ok(vec![Symbol {
            addr: Addr(0x1_0000_1ff0),
            name: String::from("_start"),
            loc: SymbolLoc::ObjectOffset(Addr(16)),
        }])
    );
    assert_eq!(
        atos_obj(&obj, Addr(0x1_0000_1000)),
        Ok(vec![Symbol {
            addr: Addr(0x1_0000_1000),
            name: String::from("_main"),
            loc: SymbolLoc::ObjectOffset(Addr(0)),
        }])
    );
}

#[test]
fn fallback_misses_below_the_first_symbol() {
    let obj = image(vec![], vec![entry(0x1000, "_main")]);
    assert_eq!(atos_obj(&obj, Addr(0xfff)), Err(Error::AddrNotFound(Addr(0xfff))));
    assert_eq!(atos_obj(&image(vec![], vec![]), Addr(1)), Err(Error::AddrNotFound(Addr(1))));
}

#[test]
fn fallback_again_gives_the_same_symbol() {
    let obj = image(vec![], vec![entry(10, "a"), entry(10, "b"), entry(30, "c")]);
    let first = atos_obj(&obj, Addr(25)).unwrap();
    let again = atos_obj(&obj, first[0].addr).unwrap();
    assert_eq!(again.len(), 1);
    assert_eq!(again[0].name, first[0].name);
    assert_eq!(again[0].name, "b");
}
