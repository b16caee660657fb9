use rsx::report::i32_string;
use rsx::report::metrics_lines;
use rsx::report::u64_string;

#[test]
fn renders_zero() {
    assert_eq!(u64_string(0), "0");
    assert_eq!(i32_string(0), "0");
}

#[test]
fn renders_small_values() {
    assert_eq!(u64_string(7), "7");
    assert_eq!(u64_string(10), "10");
    assert_eq!(u64_string(55), "55");
}

#[test]
fn renders_large_values() {
    assert_eq!(u64_string(1234567890), "1234567890");
    assert_eq!(u64_string(u64::MAX), "18446744073709551615");
}

#[test]
fn renders_negative_values() {
    assert_eq!(i32_string(-1), "-1");
    assert_eq!(i32_string(-832040), "-832040");
    assert_eq!(i32_string(i32::MIN), "-2147483648");
    assert_eq!(i32_string(i32::MAX), "2147483647");
}

#[test]
fn metrics_lines_fixed_order_without_words() {
    let lines = metrics_lines(55, None, 123, 4096, 4200, "1.5", "2.25");
    assert_eq!(lines.len(), 8);
    assert_eq!(lines[0], "value=55");
    assert_eq!(lines[1], "");
    assert_eq!(lines[2], "--- METRICS ---");
    assert_eq!(lines[3], "time_us=123 in microseconds");
    assert_eq!(lines[4], "memory_before_kb=4096");
    assert_eq!(lines[5], "memory_after_kb=4200");
    assert_eq!(lines[6], "cpu_before_percent=1.5");
    assert_eq!(lines[7], "cpu_after_percent=2.25");
}

#[test]
fn metrics_lines_include_the_accumulator_when_asked() {
    let words = String::from("abcdefghijklmnopqrstuvwxyz ");
    let lines = metrics_lines(2, Some(&words), 9, 100, 101, "0", "0");
    assert_eq!(lines.len(), 9);
    assert_eq!(lines[0], "value=2");
    assert_eq!(lines[1], "words=abcdefghijklmnopqrstuvwxyz ");
    assert_eq!(lines[2], "");
    assert_eq!(lines[3], "--- METRICS ---");
    assert_eq!(lines[4], "time_us=9 in microseconds");
    assert_eq!(lines[5], "memory_before_kb=100");
    assert_eq!(lines[6], "memory_after_kb=101");
    assert_eq!(lines[7], "cpu_before_percent=0");
    assert_eq!(lines[8], "cpu_after_percent=0");
}

#[test]
fn metrics_lines_for_the_fibonacci_run() {
    let mut words = String::new();
    let val = rsx::fib::fibo(10, &mut words);
    let lines = metrics_lines(val, Some(&words), 1, 0, 0, "0", "0");
    assert_eq!(lines[0], "value=55");
    assert_eq!(lines[1].len(), "words=".len() + 27 * 54);
}
