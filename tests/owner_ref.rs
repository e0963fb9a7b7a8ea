use ownership_demos::owner_ref::{l_arc, l_owner_ref, l_rc, ArcHandles, RcHandles};

#[test]
fn rc_clone_keeps_contents() {
    let mut handles = RcHandles::new([1, 2, 3]);
    handles.clone_handle();
    assert_eq!(handles.handle_count(), 2);
    assert_eq!(*handles.handle(0), [1, 2, 3]);
    assert_eq!(*handles.handle(1), [1, 2, 3]);
    assert_eq!(handles.read_len(), 3);
}

#[test]
fn arc_clone_keeps_contents() {
    let mut handles = ArcHandles::new([1, 2, 3]);
    handles.clone_handle();
    assert_eq!(handles.handle_count(), 2);
    assert_eq!(*handles.handle(0), [1, 2, 3]);
    assert_eq!(*handles.handle(1), [1, 2, 3]);
    assert_eq!(handles.read_len(), 3);
}

#[test]
fn rc_handle_reads_the_shared_buffer() {
    let mut handles = RcHandles::new([7, -8, 9]);
    handles.clone_handle();
    let h = handles.handle(1);
    assert_eq!(*h, [7, -8, 9]);
    assert!(std::rc::Rc::ptr_eq(&h, &handles.handle(0)));
}

#[test]
fn arc_handle_reads_the_shared_buffer() {
    let mut handles = ArcHandles::new([7, -8, 9]);
    handles.clone_handle();
    let h = handles.handle(1);
    assert_eq!(*h, [7, -8, 9]);
    assert!(std::sync::Arc::ptr_eq(&h, &handles.handle(0)));
}

#[test]
fn rc_clone_then_drop_restores_count() {
    let mut handles = RcHandles::new([1, 2, 3]);
    for _ in 0..5 {
        handles.clone_handle();
    }
    assert_eq!(handles.handle_count(), 6);
    for _ in 0..5 {
        assert!(handles.drop_clone());
    }
    assert_eq!(handles.handle_count(), 1);
    assert_eq!(*handles.handle(0), [1, 2, 3]);
}

#[test]
fn arc_clone_then_drop_restores_count() {
    let mut handles = ArcHandles::new([1, 2, 3]);
    for _ in 0..5 {
        handles.clone_handle();
    }
    for _ in 0..5 {
        assert!(handles.drop_clone());
    }
    assert_eq!(handles.handle_count(), 1);
}

#[test]
fn drop_without_clones_keeps_first_handle() {
    let mut handles = RcHandles::new([1, 2, 3]);
    assert!(!handles.drop_clone());
    assert_eq!(handles.handle_count(), 1);
    let mut shared = ArcHandles::new([1, 2, 3]);
    assert!(!shared.drop_clone());
    assert_eq!(shared.handle_count(), 1);
}

#[test]
fn owner_ref_demo_lengths() {
    assert_eq!(l_rc(), 3);
    assert_eq!(l_arc(), 3);
    assert_eq!(l_owner_ref(), (3, 3));
}
