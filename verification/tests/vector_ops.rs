use vector::vector;

#[test]
fn it_works() {
    let _v1: vector<usize> = vector::new();
    let mut v2 = vector::with_capacity(2);

    assert_eq!(v2.len(), 0);
    assert_eq!(v2.cap(), 2);
    assert!(v2.empty());

    v2.push(1);
    v2.push(2);
    v2.push(3);

    assert_eq!(v2.len(), 3);
    assert_eq!(v2.cap(), 4);
    assert_eq!(*v2.get(0), 1);
    assert_eq!(*v2.get(1), 2);
    assert_eq!(*v2.get(2), 3);

    assert_eq!(v2.pop(), Some(3));
    assert_eq!(v2.len(), 2);

    v2.set(0, 3);
    assert_eq!(*v2.get(0), 3);

    assert_eq!(v2.sub_range(0, v2.len()), [3, 2]);
}

#[test]
fn capacity_only_doubles_and_never_shrinks() {
    let mut v: vector<u32> = vector::new();
    assert_eq!(v.cap(), 0);
    let mut expected_caps: Vec<usize> = Vec::new();
    for i in 0..9u32 {
        v.push(i);
        assert!(v.len() <= v.cap());
        expected_caps.push(v.cap());
    }
    assert_eq!(expected_caps, [1, 2, 4, 4, 8, 8, 8, 8, 16]);
}

#[test]
fn order_is_preserved() {
    let mut v: vector<&str> = vector::new();
    v.push("a");
    v.push("b");
    v.push("c");
    assert_eq!(*v.get(0), "a");
    assert_eq!(*v.get(1), "b");
    assert_eq!(*v.get(2), "c");
}

#[test]
fn pop_after_push_returns_the_pushed_element() {
    let mut v: vector<u64> = vector::new();
    v.push(10);
    v.push(20);
    let before = v.len();
    v.push(77);
    assert_eq!(v.pop(), Some(77));
    assert_eq!(v.len(), before);
    assert_eq!(*v.get(0), 10);
    assert_eq!(*v.get(1), 20);
}

#[test]
fn pop_on_fresh_empty_container_is_safe() {
    let mut v: vector<u8> = vector::new();
    assert_eq!(v.pop(), None);
    assert_eq!(v.len(), 0);

    let mut w: vector<u8> = vector::with_capacity(4);
    assert_eq!(w.pop(), None);
    assert_eq!(w.len(), 0);
    assert_eq!(w.cap(), 4);
}

#[test]
fn write_through_an_index_is_visible() {
    let mut v: vector<i32> = vector::new();
    v.push(-1);
    v.push(-2);
    v.set(0, 5);
    assert_eq!(*v.get(0), 5);
    assert_eq!(*v.get(1), -2);
    v.set(1, 6);
    assert_eq!(*v.get(1), 6);
}

#[test]
fn push_into_zero_capacity_bumps_to_one() {
    let mut v: vector<u16> = vector::with_capacity(0);
    assert_eq!(v.cap(), 0);
    v.push(9);
    assert_eq!(v.cap(), 1);
    assert_eq!(v.len(), 1);
    assert_eq!(*v.get(0), 9);
}

#[test]
fn into_raw_hands_out_live_prefix_then_vacant_slots() {
    let mut v: vector<u32> = vector::with_capacity(3);
    v.push(1);
    v.push(2);
    let buf = v.into_raw();
    assert_eq!(buf, [Some(1), Some(2), None]);
}

#[test]
fn into_raw_of_empty_container_is_all_vacant() {
    let v: vector<u32> = vector::with_capacity(2);
    let buf = v.into_raw();
    assert_eq!(buf, [None, None]);
}

#[test]
fn sub_range_edges() {
    let mut v: vector<usize> = vector::new();
    for i in 0..5usize {
        v.push(i * 10);
    }
    assert_eq!(v.sub_range(0, 5), [0, 10, 20, 30, 40]);
    assert_eq!(v.sub_range(1, 4), [10, 20, 30]);
    assert_eq!(v.sub_range(3, 3), []);
}

#[test]
fn works_with_owned_elements() {
    let mut v: vector<String> = vector::new();
    v.push(String::from("first"));
    v.push(String::from("second"));
    assert_eq!(v.get(0).as_str(), "first");
    assert_eq!(v.pop(), Some(String::from("second")));
    assert_eq!(v.pop(), Some(String::from("first")));
    assert_eq!(v.pop(), None);
    assert!(v.empty());
}
