use default_mac::utf16::decode_utf16_lossy;
use default_mac::win::{
    has_layout, construct_string, convert_mac_bytes, find_adapter, get_adapters, get_if_index,
    get_mac, get_null_position, should_release, visit, Adapter, AdapterDirectory, AdapterRecord,
    Visit, MAX_ADAPTERS, MAX_BUFFER_SIZE, MAX_NAME_LENGTH,
};
use default_mac::MacError;

fn wide(s: &str) -> Vec<u16> {
    let mut units: Vec<u16> = s.encode_utf16().collect();
    units.push(0);
    units
}

fn record(if_index: u32, next: Option<usize>) -> AdapterRecord {
    AdapterRecord {
        if_index,
        physical_address: [0x00, 0x1A, 0x2B, 0x3C, 0x4D, 0x5E, 0, 0],
        physical_address_length: 6,
        next,
    }
}

fn adapter(if_index: u32, next: Option<usize>, name: &str) -> Adapter {
    Adapter { record: record(if_index, next), friendly_name: Some(wide(name)) }
}

/// A list of `len` records with the interface indices `100, 101, ..`, each
/// followed by the next.
fn chain(len: usize) -> AdapterDirectory {
    let mut adapters = Vec::new();
    for i in 0..len {
        let next = if i + 1 < len { Some(i + 1) } else { None };
        adapters.push(adapter(100 + i as u32, next, "adapter"));
    }
    AdapterDirectory { adapters }
}

#[test]
fn matching_record_gives_name_and_address() {
    let directory = AdapterDirectory { adapters: vec![adapter(7, None, "Ethernet")] };
    let info = get_mac(7, &directory).unwrap();
    assert_eq!(info.name, "Ethernet");
    assert_eq!(info.addr, "00:1A:2B:3C:4D:5E");
}

#[test]
fn no_matching_record_fails_with_no_adapter_found() {
    let directory = AdapterDirectory {
        adapters: vec![adapter(3, Some(1), "Wi-Fi"), adapter(4, None, "Loopback")],
    };
    assert_eq!(get_mac(7, &directory).unwrap_err(), MacError::NoAdapterFound);
}

#[test]
fn empty_directory_fails_with_no_adapter_found() {
    let directory = AdapterDirectory { adapters: Vec::new() };
    assert_eq!(get_mac(7, &directory).unwrap_err(), MacError::NoAdapterFound);
    assert_eq!(find_adapter(&directory, 7), Err(MacError::NoAdapterFound));
}

#[test]
fn physical_address_of_four_bytes_fails_with_invalid_mac_length() {
    let mut found = adapter(7, None, "Ethernet");
    found.record.physical_address_length = 4;
    let directory = AdapterDirectory { adapters: vec![found] };
    assert_eq!(get_mac(7, &directory).unwrap_err(), MacError::InvalidMacLength);
}

#[test]
fn every_length_but_six_is_refused() {
    for length in [0u32, 1, 5, 7, 8, 16, u32::MAX] {
        let mut r = record(1, None);
        r.physical_address_length = length;
        assert_eq!(convert_mac_bytes(&r), Err(MacError::InvalidMacLength));
    }
    assert_eq!(convert_mac_bytes(&record(1, None)), Ok("00:1A:2B:3C:4D:5E".to_string()));
}

#[test]
fn bytes_after_the_sixth_do_not_count() {
    let mut r = record(1, None);
    r.physical_address = [0xde, 0xad, 0xbe, 0xef, 0x01, 0x02, 0xff, 0xff];
    assert_eq!(convert_mac_bytes(&r), Ok("DE:AD:BE:EF:01:02".to_string()));
}

#[test]
fn the_record_is_found_by_following_the_links() {
    // the list runs 0 -> 2 -> 1; position is not order
    let directory = AdapterDirectory {
        adapters: vec![adapter(1, Some(2), "first"), adapter(9, None, "third"), adapter(
            5,
            Some(1),
            "second",
        )],
    };
    assert_eq!(find_adapter(&directory, 9), Ok(1));
    assert_eq!(find_adapter(&directory, 5), Ok(2));
    assert_eq!(get_mac(9, &directory).unwrap().name, "third");
}

#[test]
fn a_record_that_no_link_reaches_is_not_found() {
    let directory = AdapterDirectory {
        adapters: vec![adapter(1, None, "first"), adapter(9, None, "unreachable")],
    };
    assert_eq!(find_adapter(&directory, 9), Err(MacError::NoAdapterFound));
}

#[test]
fn the_first_of_two_matching_records_is_taken() {
    let directory = AdapterDirectory {
        adapters: vec![adapter(1, Some(1), "a"), adapter(7, Some(2), "b"), adapter(7, None, "c")],
    };
    assert_eq!(find_adapter(&directory, 7), Ok(1));
    assert_eq!(get_mac(7, &directory).unwrap().name, "b");
}

#[test]
fn a_cycle_fails_with_corrupt_adapter_list() {
    let two = AdapterDirectory { adapters: vec![adapter(1, Some(1), "a"), adapter(2, Some(0), "b")] };
    assert_eq!(get_mac(7, &two).unwrap_err(), MacError::CorruptAdapterList);
    let own = AdapterDirectory { adapters: vec![adapter(1, Some(0), "a")] };
    assert_eq!(get_mac(7, &own).unwrap_err(), MacError::CorruptAdapterList);
    let tail = AdapterDirectory {
        adapters: vec![adapter(1, Some(1), "a"), adapter(2, Some(2), "b"), adapter(3, Some(1), "c")],
    };
    assert_eq!(get_mac(7, &tail).unwrap_err(), MacError::CorruptAdapterList);
}

#[test]
fn a_record_before_the_cycle_closes_is_still_found() {
    let two = AdapterDirectory { adapters: vec![adapter(1, Some(1), "a"), adapter(2, Some(0), "b")] };
    assert_eq!(get_mac(2, &two).unwrap().name, "b");
    assert_eq!(get_mac(1, &two).unwrap().name, "a");
}

#[test]
fn a_link_out_of_the_snapshot_fails_with_corrupt_adapter_list() {
    let directory = AdapterDirectory { adapters: vec![adapter(1, Some(5), "a")] };
    assert_eq!(get_mac(7, &directory).unwrap_err(), MacError::CorruptAdapterList);
}

#[test]
fn a_list_of_exactly_the_ceiling_is_not_corrupt() {
    let directory = chain(MAX_ADAPTERS);
    assert_eq!(get_mac(7, &directory).unwrap_err(), MacError::NoAdapterFound);
    let last = 100 + (MAX_ADAPTERS as u32 - 1);
    assert_eq!(find_adapter(&directory, last), Ok(MAX_ADAPTERS - 1));
    assert_eq!(find_adapter(&directory, 100), Ok(0));
}

#[test]
fn a_list_above_the_ceiling_is_corrupt() {
    let directory = chain(MAX_ADAPTERS + 1);
    assert_eq!(get_mac(7, &directory).unwrap_err(), MacError::CorruptAdapterList);
    // the record behind the ceiling is never read
    let behind = 100 + MAX_ADAPTERS as u32;
    assert_eq!(find_adapter(&directory, behind), Err(MacError::CorruptAdapterList));
    // the records up to the ceiling are still found
    assert_eq!(find_adapter(&directory, behind - 1), Ok(MAX_ADAPTERS - 1));
}

#[test]
fn shorter_lists_end_without_a_find() {
    for len in [1usize, 2, 3, MAX_ADAPTERS - 1] {
        assert_eq!(find_adapter(&chain(len), 7), Err(MacError::NoAdapterFound));
    }
}

#[test]
fn visit_follows_the_rule() {
    let seen = vec![10usize, 20];
    assert_eq!(visit(7, &seen, &record(7, Some(30))), Visit::Found);
    assert_eq!(visit(7, &seen, &record(7, Some(10))), Visit::Found);
    assert_eq!(visit(7, &seen, &record(1, Some(30))), Visit::Next(30));
    assert_eq!(visit(7, &seen, &record(1, None)), Visit::Fail(MacError::NoAdapterFound));
    assert_eq!(visit(7, &seen, &record(1, Some(10))), Visit::Fail(MacError::CorruptAdapterList));
    assert_eq!(visit(7, &seen, &record(1, Some(20))), Visit::Fail(MacError::CorruptAdapterList));
    let full: Vec<usize> = (0..MAX_ADAPTERS).collect();
    assert_eq!(visit(7, &full, &record(1, Some(5000))), Visit::Fail(MacError::CorruptAdapterList));
    assert_eq!(visit(7, &full, &record(1, None)), Visit::Fail(MacError::NoAdapterFound));
    let nearly: Vec<usize> = (0..MAX_ADAPTERS - 1).collect();
    assert_eq!(visit(7, &nearly, &record(1, Some(5000))), Visit::Next(5000));
}

#[test]
fn null_name_pointer_is_a_corrupt_record() {
    let mut found = adapter(7, None, "Ethernet");
    found.friendly_name = None;
    let directory = AdapterDirectory { adapters: vec![found] };
    assert_eq!(get_mac(7, &directory).unwrap_err(), MacError::CorruptAdapterList);
    assert_eq!(construct_string(&None), Err(MacError::CorruptAdapterList));
}

#[test]
fn name_without_terminator_is_a_corrupt_record() {
    let units: Vec<u16> = "Ethernet".encode_utf16().collect();
    assert_eq!(construct_string(&Some(units.clone())), Err(MacError::CorruptAdapterList));
    assert_eq!(get_null_position(&units), Err(MacError::CorruptAdapterList));
    assert_eq!(get_null_position(&Vec::new()), Err(MacError::CorruptAdapterList));
}

#[test]
fn terminator_is_the_first_zero() {
    assert_eq!(get_null_position(&wide("Ethernet")), Ok(8));
    assert_eq!(get_null_position(&vec![0u16]), Ok(0));
    assert_eq!(get_null_position(&vec![65u16, 0, 66, 0]), Ok(1));
}

#[test]
fn terminator_must_stand_within_the_limit() {
    let mut units = vec![65u16; MAX_NAME_LENGTH - 1];
    units.push(0);
    assert_eq!(get_null_position(&units), Ok(MAX_NAME_LENGTH - 1));
    let mut units = vec![65u16; MAX_NAME_LENGTH];
    units.push(0);
    assert_eq!(get_null_position(&units), Err(MacError::CorruptAdapterList));
}

#[test]
fn name_ends_at_the_terminator() {
    assert_eq!(construct_string(&Some(wide("Ethernet"))), Ok("Ethernet".to_string()));
    assert_eq!(construct_string(&Some(vec![87, 105, 0, 70, 105, 0])), Ok("Wi".to_string()));
    assert_eq!(construct_string(&Some(vec![0u16])), Ok(String::new()));
    assert_eq!(construct_string(&Some(wide("Ethernet \u{e4}\u{1F600}"))), Ok(
        "Ethernet \u{e4}\u{1F600}".to_string()
    ));
}

#[test]
fn lone_surrogates_become_the_replacement_character() {
    assert_eq!(decode_utf16_lossy(&[0xD800u16, 0x41]), "\u{FFFD}A");
    assert_eq!(decode_utf16_lossy(&[0xDC00u16, 0x41]), "\u{FFFD}A");
    assert_eq!(decode_utf16_lossy(&[0xD83D, 0xDE00]), "\u{1F600}");
    assert_eq!(decode_utf16_lossy(&[0xD83D]), "\u{FFFD}");
    assert_eq!(decode_utf16_lossy(&[0xD83D, 0xD83D, 0xDE00]), "\u{FFFD}\u{1F600}");
    assert_eq!(decode_utf16_lossy(&[0xDE00, 0xD83D]), "\u{FFFD}\u{FFFD}");
    assert_eq!(decode_utf16_lossy(&[0xDBFF, 0xDFFF]), "\u{10FFFF}");
    assert_eq!(decode_utf16_lossy(&[0xD800, 0xDC00]), "\u{10000}");
    assert_eq!(decode_utf16_lossy(&[]), "");
}

#[test]
fn decoding_agrees_with_the_standard_library() {
    let samples: Vec<Vec<u16>> = vec![
        vec![],
        vec![0x45, 0x74, 0x68],
        vec![0xD800],
        vec![0xDFFF, 0xD800, 0xDC00, 0xDBFF],
        vec![0xFFFF, 0xFFFE, 0xE000, 0xD7FF],
        vec![0xD834, 0xDD1E, 0x6d, 0x75, 0xD800, 0x69, 0x63],
    ];
    for units in samples.iter() {
        assert_eq!(decode_utf16_lossy(units), String::from_utf16_lossy(units));
    }
}

#[test]
fn route_query_status_decides() {
    assert_eq!(get_if_index(0, 12), Ok(12));
    assert_eq!(get_if_index(0, 0), Ok(0));
    assert_eq!(get_if_index(1, 12), Err(MacError::NoAdapterFound));
    assert_eq!(get_if_index(1232, 12), Err(MacError::NoAdapterFound));
}

#[test]
fn buffer_is_planned_from_the_reported_size() {
    assert_eq!(get_adapters(0, 8), Ok(None));
    assert_eq!(get_adapters(1, 8), Ok(Some(1)));
    assert_eq!(get_adapters(15000, 8), Ok(Some(15000)));
    assert_eq!(get_adapters(MAX_BUFFER_SIZE, 8), Ok(Some(1024 * 1024)));
    assert_eq!(get_adapters(MAX_BUFFER_SIZE + 1, 8), Ok(None));
    assert_eq!(get_adapters(u32::MAX, 8), Ok(None));
}

#[test]
fn a_size_without_layout_is_an_allocation_error() {
    assert_eq!(get_adapters(1000, 0), Err(MacError::AllocationError));
    assert_eq!(get_adapters(1000, 3), Err(MacError::AllocationError));
    assert_eq!(get_adapters(1000, 24), Err(MacError::AllocationError));
    assert_eq!(get_adapters(1000, usize::MAX), Err(MacError::AllocationError));
    assert_eq!(get_adapters(1000, (isize::MAX as usize) + 1), Err(MacError::AllocationError));
    // an empty directory needs no layout
    assert_eq!(get_adapters(0, 3), Ok(None));
}

#[test]
fn layouts_are_those_of_the_standard_library() {
    let sizes = [0usize, 1, 7, 8, 1024 * 1024, isize::MAX as usize - 8, isize::MAX as usize, usize::MAX];
    let aligns = [0usize, 1, 2, 3, 4, 8, 12, 4096, 1 << 31, (isize::MAX as usize) + 1, usize::MAX];
    for size in sizes {
        for align in aligns {
            let expected = std::alloc::Layout::from_size_align(size, align).is_ok();
            assert_eq!(has_layout(size, align), expected, "size {} align {}", size, align);
        }
    }
}

#[test]
fn only_a_real_block_is_given_back() {
    assert!(should_release(Some(0x1000), 64));
    assert!(!should_release(None, 64));
    assert!(!should_release(Some(0x1000), 0));
    assert!(!should_release(None, 0));
}
