use fastxlsxio::read::{addr_to_idx, idx_to_addr, AddrError};

#[test]
fn idx_to_addr_first_cell() {
    assert_eq!(idx_to_addr(0, 0), "A1");
}

#[test]
fn idx_to_addr_letters_roll_over() {
    assert_eq!(idx_to_addr(0, 25), "Z1");
    assert_eq!(idx_to_addr(0, 26), "AA1");
    assert_eq!(idx_to_addr(9, 27), "AB10");
    assert_eq!(idx_to_addr(0, 701), "ZZ1");
    assert_eq!(idx_to_addr(0, 702), "AAA1");
    assert_eq!(idx_to_addr(1048575, 16383), "XFD1048576");
}

#[test]
fn addr_to_idx_reads_addresses() {
    assert_eq!(addr_to_idx("A1"), Ok((0, 0)));
    assert_eq!(addr_to_idx("AB10"), Ok((9, 27)));
    assert_eq!(addr_to_idx("ab10"), Ok((9, 27)));
    assert_eq!(addr_to_idx("XFD1048576"), Ok((1048575, 16383)));
    assert_eq!(addr_to_idx("A007"), Ok((6, 0)));
}

#[test]
fn addr_to_idx_refuses_malformed() {
    assert_eq!(addr_to_idx(""), Err(AddrError::Malformed));
    assert_eq!(addr_to_idx("A"), Err(AddrError::Malformed));
    assert_eq!(addr_to_idx("12"), Err(AddrError::Malformed));
    assert_eq!(addr_to_idx("A0"), Err(AddrError::Malformed));
    assert_eq!(addr_to_idx("A1B"), Err(AddrError::Malformed));
    assert_eq!(addr_to_idx("A-1"), Err(AddrError::Malformed));
    assert_eq!(addr_to_idx("$A$1"), Err(AddrError::Malformed));
}

#[test]
fn addr_to_idx_refuses_out_of_range() {
    assert_eq!(addr_to_idx("A99999999999999999999999"), Err(AddrError::OutOfRange));
    assert_eq!(addr_to_idx("ZZZZZZZZZZZZZZZZZZZZZZZZ1"), Err(AddrError::OutOfRange));
}

#[test]
fn addresses_round_trip() {
    for (row, col) in [(0usize, 0usize), (5, 25), (99, 26), (1048575, 16383), (123456, 702), (usize::MAX - 1, usize::MAX)] {
        let addr = idx_to_addr(row, col);
        assert_eq!(addr_to_idx(&addr), Ok((row, col)));
    }
}

