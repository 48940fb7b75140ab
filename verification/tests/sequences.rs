//! Lazy sequences and the state that their pulls share.

use trustfall_errors::pull::{from_fn, Empty, OkEach, Once, Pull, VertexIterator};

#[test]
fn an_empty_sequence_gives_nothing_and_leaves_the_state_alone() {
    let mut state = 7;
    let mut sequence: Empty<i32, u8> = Empty::new();
    assert_eq!(sequence.next(&mut state), None);
    assert_eq!(sequence.next(&mut state), None);
    assert_eq!(state, 7);

    let boxed: Empty<i32, u8> = Empty::new();
    assert_eq!(boxed.boxed().next(&mut state), None);
}

#[test]
fn a_single_item_comes_once() {
    let mut state = 7;
    let mut sequence: Once<i32, u8> = Once::new(3);
    assert_eq!(sequence.next(&mut state), Some(3));
    assert_eq!(sequence.next(&mut state), None);
    assert_eq!(state, 7);

    let boxed: Once<i32, u8> = Once::new(4);
    let mut boxed = boxed.boxed();
    assert_eq!(boxed.next(&mut state), Some(4));
    assert_eq!(boxed.next(&mut state), None);
}

#[test]
fn a_function_gives_the_items_and_may_change_the_state() {
    let mut state = 0;
    let mut sequence = VertexIterator::new(from_fn(|state: &mut i32| {
        *state += 1;
        if *state < 3 { Some(*state * 10) } else { None }
    }));
    assert_eq!(sequence.next(&mut state), Some(10));
    assert_eq!(sequence.next(&mut state), Some(20));
    assert_eq!(sequence.next(&mut state), None);
    assert_eq!(state, 3);
}

#[test]
fn wrapping_keeps_every_item_in_its_place() {
    let mut left = vec![1u8, 2, 3].into_iter();
    let mut sequence: OkEach<_, (), u8, String> =
        OkEach::new(from_fn(move |_state: &mut ()| left.next()));
    assert_eq!(sequence.next(&mut ()), Some(Ok(1)));
    assert_eq!(sequence.next(&mut ()), Some(Ok(2)));
    assert_eq!(sequence.next(&mut ()), Some(Ok(3)));
    assert_eq!(sequence.next(&mut ()), None);
}
