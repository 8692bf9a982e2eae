use cfddns::digits::holds_long_digit_run;

#[test]
fn short_texts_hold_no_long_run() {
    assert!(!holds_long_digit_run(""));
    assert!(!holds_long_digit_run("1234567890"));
    assert!(!holds_long_digit_run("no digits at all"));
}

#[test]
fn run_of_the_greatest_length_is_not_long() {
    assert!(!holds_long_digit_run(&"5".repeat(32767)));
    let text = format!("x{}y{}z", "1".repeat(32767), "2".repeat(32767));
    assert!(!holds_long_digit_run(&text));
    let text = format!("{}.{}", "1".repeat(32767), "2".repeat(32767));
    assert!(!holds_long_digit_run(&text));
}

#[test]
fn run_over_the_greatest_length_is_long() {
    assert!(holds_long_digit_run(&"5".repeat(32768)));
    assert!(holds_long_digit_run(&format!("abc{}", "0".repeat(32768))));
    assert!(holds_long_digit_run(&format!("{}abc", "9".repeat(40000))));
    assert!(holds_long_digit_run(&format!("\u{e9}1.{}\u{e9}", "0123456789".repeat(4000))));
}

#[test]
fn other_digits_and_breaks_do_not_count() {
    assert!(!holds_long_digit_run(&"\u{663}".repeat(40000)));
    let broken = format!("{}\u{e9}{}", "1".repeat(20000), "1".repeat(20000));
    assert!(!holds_long_digit_run(&broken));
    assert!(!holds_long_digit_run(&"12345 ".repeat(20000)));
}
