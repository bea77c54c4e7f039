use pointers::cell::Cell;

#[test]
fn cell_round_trip() {
    let mut cell = Cell::new(0u32);
    cell.set(42);
    assert_eq!(cell.get(), 42);
    cell.set(7);
    assert_eq!(cell.get(), 7);
}

#[test]
fn cell_overwrite_independence() {
    let mut cell = Cell::new(0i64);
    cell.set(11);
    let x = cell.get();
    cell.set(22);
    assert_eq!(x, 11);
    assert_eq!(cell.get(), 22);
}

#[test]
fn cell_initial_value() {
    let cell = Cell::new(5u8);
    assert_eq!(cell.get(), 5);
}
