use pointers::refcell::RefCell;

#[test]
fn refcell_exclusion() {
    // Shared borrows are granted over and over while no exclusive guard is
    // out; any outstanding shared guard refuses the exclusive borrow; an
    // outstanding exclusive guard refuses both; releases bring the cell back
    // to where either kind is granted again.
    let mut bc = RefCell::new(1u32);

    let r1 = bc.borrow().expect("nothing outstanding: shared borrow granted");
    let r2 = bc.borrow().expect("shared guards stack: another is granted");
    let r3 = bc.borrow().expect("and a third");
    assert!(bc.borrow_mut().is_none());

    r1.drop(&mut bc);
    assert!(bc.borrow_mut().is_none());
    r2.drop(&mut bc);
    r3.drop(&mut bc);

    let g = bc.borrow_mut().expect("all shared guards released: write guard granted");
    assert!(bc.borrow().is_none());
    assert!(bc.borrow_mut().is_none());
    g.drop(&mut bc);

    assert!(bc.borrow().is_some());
}

#[test]
fn refcell_reentry_sequencing() {
    let mut bc = RefCell::new(0i32);
    let r1 = bc.borrow();
    let r2 = bc.borrow();
    assert!(bc.borrow_mut().is_none());
    r1.unwrap().drop(&mut bc);
    r2.unwrap().drop(&mut bc);
    assert!(bc.borrow_mut().is_some());
}

#[test]
fn refcell_mutation_visibility() {
    let mut bc = RefCell::new(5i32);
    {
        let g = bc.borrow_mut().unwrap();
        *g.deref_mut(&mut bc) = 10;
        g.drop(&mut bc);
    }
    let r = bc.borrow().unwrap();
    assert_eq!(*r.deref(&bc), 10);
    r.drop(&mut bc);
}

#[test]
fn refcell_read_through_guards() {
    let mut bc = RefCell::new(String::from("shared"));
    let r = bc.borrow().unwrap();
    assert_eq!(r.deref(&bc), "shared");
    r.drop(&mut bc);

    let g = bc.borrow_mut().unwrap();
    assert_eq!(g.deref(&bc), "shared");
    g.deref_mut(&mut bc).push_str(" then written");
    assert_eq!(g.deref(&bc), "shared then written");
    g.drop(&mut bc);
}

#[test]
fn refcell_failed_request_changes_nothing() {
    let mut bc = RefCell::new(9u8);
    let r = bc.borrow().unwrap();
    // A refused exclusive borrow leaves the state alone: the shared guard is
    // still the one outstanding, and releasing it frees the cell.
    assert!(bc.borrow_mut().is_none());
    assert!(bc.borrow_mut().is_none());
    r.drop(&mut bc);
    let g = bc.borrow_mut().unwrap();
    // A refused borrow of either kind under the write guard leaves it intact.
    assert!(bc.borrow().is_none());
    g.drop(&mut bc);
    assert_eq!(*bc.borrow().unwrap().deref(&bc), 9);
}
