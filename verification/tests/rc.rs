use pointers::rc::Rc;

#[test]
fn test_rc() {
    let (rc, mut inner) = Rc::new(5);
    let rc2 = rc.clone(&mut inner);
    assert_eq!(*rc.deref(&inner), 5);
    assert_eq!(*rc2.deref(&inner), 5);
}

#[test]
fn test_rc_1() {
    let value = 45;
    let (x, y);
    let block;
    {
        let (rc, mut inner) = Rc::new(&value);
        let rc2 = rc.clone(&mut inner);
        x = rc;
        y = rc2;
        block = inner;
    }
    assert_eq!(*x.deref(&block), &value);
    assert_eq!(*y.deref(&block), &value);
}

#[test]
fn rc_liveness_and_single_deallocation() {
    // Three clones beside the first handle, then releases one by one: the
    // value stays readable until the last handle goes, and exactly one
    // release — the last — consumes the block.
    let (h0, mut inner) = Rc::new(String::from("alive"));
    let h1 = h0.clone(&mut inner);
    let h2 = h0.clone(&mut inner);
    let h3 = h0.clone(&mut inner);

    let mut deallocations: u32 = 0;
    let mut remaining = Some(inner);
    for handle in [h1, h2, h3] {
        let block = remaining.take().expect("the block must survive while handles remain");
        assert_eq!(handle.deref(&block), "alive");
        remaining = handle.drop(block);
        if remaining.is_none() {
            deallocations += 1;
        }
    }
    let block = remaining.take().expect("the first handle still holds the block");
    assert_eq!(h0.deref(&block), "alive");
    if h0.drop(block).is_none() {
        deallocations += 1;
    }
    assert_eq!(deallocations, 1);
}

#[test]
fn rc_value_stable_after_original_handle_goes() {
    // The handle that made the allocation goes out of scope first; the value
    // survives unchanged through the clone that outlives it.
    let (survivor, block);
    {
        let (original, mut inner) = Rc::new(vec![1, 2, 3]);
        survivor = original.clone(&mut inner);
        block = original.drop(inner).expect("a clone still holds the block");
    }
    assert_eq!(*survivor.deref(&block), vec![1, 2, 3]);
    assert!(survivor.drop(block).is_none());
}
