use rsx::fib::fibo;
use rsx::fib::fibo_checked;

const BLOCK: &str = "abcdefghijklmnopqrstuvwxyz ";

#[test]
fn fibo_base_one() {
    let mut words = String::new();
    assert_eq!(fibo(1, &mut words), 1);
    assert_eq!(words, "");
}

#[test]
fn fibo_base_two() {
    let mut words = String::new();
    assert_eq!(fibo(2, &mut words), 1);
    assert_eq!(words, "");
}

#[test]
fn fibo_zero_and_negative_are_base_cases() {
    let mut words = String::new();
    assert_eq!(fibo(0, &mut words), 1);
    assert_eq!(fibo(-5, &mut words), 1);
    assert_eq!(words, "");
}

#[test]
fn fibo_three_appends_one_block() {
    let mut words = String::new();
    assert_eq!(fibo(3, &mut words), 2);
    assert_eq!(words, BLOCK);
}

#[test]
fn fibo_ten_is_55() {
    let mut words = String::new();
    assert_eq!(fibo(10, &mut words), 55);
}

#[test]
fn fibo_recurrence_holds_up_to_30() {
    let mut values = Vec::new();
    for n in 1..=30 {
        let mut words = String::new();
        values.push(fibo(n, &mut words));
    }
    assert_eq!(values[0], 1);
    assert_eq!(values[1], 1);
    for n in 3..=30 {
        let idx = (n - 1) as usize;
        assert_eq!(values[idx], values[idx - 2] + values[idx - 1]);
    }
    assert_eq!(values[29], 832040);
}

#[test]
fn fibo_ten_accumulator_length() {
    // the naive recursion for n = 10 makes 54 non-base-case calls
    let mut words = String::new();
    fibo(10, &mut words);
    assert_eq!(words.len(), 27 * 54);
    assert_eq!(words, BLOCK.repeat(54));
}

#[test]
fn fibo_accumulator_is_reproducible() {
    let mut first = String::new();
    let mut second = String::new();
    let a = fibo(12, &mut first);
    let b = fibo(12, &mut second);
    assert_eq!(a, b);
    assert_eq!(first, second);
}

#[test]
fn fibo_appends_after_existing_contents() {
    let mut words = String::from("xy");
    assert_eq!(fibo(3, &mut words), 2);
    assert_eq!(words, format!("xy{}", BLOCK));
}

#[test]
fn fibo_checked_accepts_ten() {
    let mut words = String::new();
    assert_eq!(fibo_checked(10, &mut words), Some(55));
    assert_eq!(words.len(), 27 * 54);
}

#[test]
fn fibo_checked_accepts_thirty() {
    let mut words = String::new();
    assert_eq!(fibo_checked(30, &mut words), Some(832040));
}

#[test]
fn fibo_checked_rejects_31() {
    let mut words = String::from("kept");
    assert_eq!(fibo_checked(31, &mut words), None);
    assert_eq!(words, "kept");
}

#[test]
fn fibo_checked_rejects_large() {
    let mut words = String::new();
    assert_eq!(fibo_checked(1000, &mut words), None);
    assert_eq!(words, "");
}
