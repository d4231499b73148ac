use reduce::get_initial;
use reduce::Reducable;

fn sum(acc: i32, cur: &i32) -> i32 {
    acc + cur
}

fn shift_in(acc: u64, cur: &u64) -> u64 {
    acc * 10 + cur
}

#[test]
fn sums_five_integers_from_the_default() {
    let v = vec![1, 2, 3, 4, 5];
    assert_eq!(v.reduce(sum, None), 15);
}

#[test]
fn empty_vector_without_initial_gives_the_default() {
    let v: Vec<i32> = Vec::new();
    assert_eq!(v.reduce(sum, None), 0);
}

#[test]
fn sums_from_an_explicit_initial() {
    let v = vec![1, 2];
    assert_eq!(v.reduce(sum, Some(10)), 13);
}

#[test]
fn concatenates_strings() {
    let v = vec!["a", "b", "c"];
    let joined = v.reduce(|acc: String, cur: &&str| acc + cur, Some(String::new()));
    assert_eq!(joined, "abc");
}

#[test]
fn maximum_of_a_single_element() {
    let v = vec![5];
    let highest = v.reduce(|acc: i32, cur: &i32| acc.max(*cur), Some(i32::MIN));
    assert_eq!(highest, 5);
}

#[test]
fn empty_vector_with_initial_gives_it_back() {
    let v: Vec<u8> = Vec::new();
    assert_eq!(v.reduce(|acc: u8, cur: &u8| acc ^ cur, Some(42)), 42);
    assert_eq!(v.reduce_function(|acc: u8, cur: &u8| acc ^ cur, 42), 42);
    let words: Vec<&str> = Vec::new();
    let kept = words.reduce(|acc: String, cur: &&str| acc + cur, Some(String::from("kept")));
    assert_eq!(kept, "kept");
    assert_eq!(words.reduce(|acc: String, cur: &&str| acc + cur, None), String::new());
}

#[test]
fn folds_from_left_to_right() {
    let v: Vec<u64> = vec![1, 2, 3, 4, 5];
    assert_eq!(v.reduce(shift_in, Some(0)), 12345);
    assert_eq!(v.reduce(shift_in, Some(9)), 912345);
    assert_eq!(v.reduce_function(shift_in, 7), 712345);
    let by_hand = shift_in(shift_in(shift_in(shift_in(shift_in(0, &1), &2), &3), &4), &5);
    assert_eq!(v.reduce(shift_in, Some(0)), by_hand);
    let letters = vec!['x', 'y', 'z'];
    let spelled = letters.reduce(
        |mut acc: String, cur: &char| {
            acc.push(*cur);
            acc
        },
        None,
    );
    assert_eq!(spelled, "xyz");
}

#[test]
fn subtraction_is_applied_in_order() {
    let v: Vec<i64> = vec![10, 3, 2];
    assert_eq!(v.reduce(|acc: i64, cur: &i64| acc - cur, Some(100)), 85);
    assert_eq!(v.reduce(|acc: i64, cur: &i64| cur - acc, Some(100)), -91);
}

#[test]
fn repeated_calls_agree() {
    let v: Vec<u64> = vec![3, 1, 4, 1, 5, 9, 2, 6];
    let first = v.reduce(shift_in, Some(2));
    let second = v.reduce(shift_in, Some(2));
    assert_eq!(first, 231415926);
    assert_eq!(first, second);
    assert_eq!(v.reduce(shift_in, None), v.reduce(shift_in, None));
}

#[test]
fn omitted_initial_is_the_default() {
    let v: Vec<u64> = vec![4, 0, 7];
    assert_eq!(v.reduce(shift_in, None), v.reduce(shift_in, Some(u64::default())));
    assert_eq!(v.reduce(shift_in, None), 407);
    let words = vec!["re", "duce"];
    let with_none = words.reduce(|acc: String, cur: &&str| acc + cur, None);
    let with_default = words.reduce(|acc: String, cur: &&str| acc + cur, Some(String::default()));
    assert_eq!(with_none, with_default);
    assert_eq!(with_none, "reduce");
}

#[test]
fn container_is_left_unchanged() {
    let v = vec![1, 2, 3, 4, 5];
    let before = v.clone();
    let total = v.reduce(sum, None);
    assert_eq!(total, 15);
    assert_eq!(v, before);
    assert_eq!(v.len(), 5);
    let again = v.reduce_function(sum, 1);
    assert_eq!(again, 16);
    assert_eq!(v, before);
}

#[test]
fn every_element_is_visited_once() {
    let v: Vec<u8> = vec![7, 7, 7, 7];
    assert_eq!(v.reduce(|acc: usize, _cur: &u8| acc + 1, None), 4);
    let seen = v.reduce(
        |mut acc: Vec<u8>, cur: &u8| {
            acc.push(*cur);
            acc
        },
        None,
    );
    assert_eq!(seen, v);
}

#[test]
fn closure_may_capture_its_surroundings() {
    let v = vec![1, 2, 3];
    let factor = 3;
    assert_eq!(v.reduce(|acc: i32, cur: &i32| acc + factor * cur, Some(1)), 19);
}

#[test]
fn get_initial_returns_the_given_value() {
    assert_eq!(get_initial(Some(17)), 17);
    assert_eq!(get_initial(Some(String::from("seed"))), "seed");
    assert_eq!(get_initial(Some(0u8)), 0);
}

#[test]
fn get_initial_falls_back_to_the_default() {
    assert_eq!(get_initial::<i32>(None), 0);
    assert_eq!(get_initial::<String>(None), "");
    assert_eq!(get_initial::<bool>(None), false);
    assert_eq!(get_initial::<Vec<u8>>(None), Vec::<u8>::new());
    assert_eq!(get_initial::<Option<u8>>(None), None);
}

#[test]
fn closure_with_inferred_arguments() {
    let vec_sum = vec![1, 2, 3, 4, 5];
    let sum = vec_sum.reduce(|acc, cur| -> i32 { acc + cur }, None);
    assert_eq!(sum, 15);
}

#[test]
fn function_pointer_as_combining_function() {
    let pointer: fn(i32, &i32) -> i32 = sum;
    let v = vec![20, 22];
    assert_eq!(v.reduce(pointer, None), 42);
    assert_eq!(v.reduce_function(pointer, -42), 0);
}
