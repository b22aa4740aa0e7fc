use voxrs::types::safecloner::SafeCloner;

#[derive(Clone)]
struct MyStruct {
    val: i32,
}

#[test]
fn test_new() {
    let my = MyStruct { val: 10 };
    let sc = SafeCloner::new(my);
    assert_eq!(sc.val, 10);
}

#[test]
fn write_test() {
    let my = MyStruct { val: 10 };
    let mut sc = SafeCloner::new(my);

    sc.get_mut().val = 20;
    assert_eq!(sc.val, 20);
}

#[test]
fn test_clone_read_share_internally() {
    let sc = SafeCloner::new(MyStruct { val: 10 });
    assert_eq!(sc.strong_count(), 1);

    let cloned = sc.clone_read();
    assert_eq!(sc.strong_count(), 2);
    assert_eq!(cloned.strong_count(), 2);
}

#[test]
fn write_after_clone() {
    let mut rw = SafeCloner::new(MyStruct { val: 10 });
    let cloned = rw.clone_read();
    assert_eq!(rw.strong_count(), 2);
    assert_eq!(cloned.strong_count(), 2);

    rw.get_mut().val = 100;

    assert_eq!(rw.strong_count(), 1);
    assert_eq!(cloned.strong_count(), 1);

    assert_eq!(rw.val, 100);
    assert_eq!(cloned.val, 10);

    rw.get_mut().val = 200;

    assert_eq!(rw.strong_count(), 1);
    assert_eq!(cloned.strong_count(), 1);

    assert_eq!(rw.val, 200);
    assert_eq!(cloned.val, 10);
}

#[test]
fn reader_of_reader_shares_value() {
    let rw = SafeCloner::new(MyStruct { val: 3 });
    let r1 = rw.clone_read();
    let r2 = r1.clone_read();
    assert!(matches!(r2, SafeCloner::R(_)));
    assert_eq!(r2.val, 3);
    assert_eq!(rw.strong_count(), 3);
}
