use gen4ids::text::{append_decimal, join_decimal};

#[test]
fn join_decimal_of_nothing_is_empty() {
    assert_eq!(join_decimal(&[]), "");
}

#[test]
fn join_decimal_of_one_has_no_comma() {
    assert_eq!(join_decimal(&[0]), "0");
    assert_eq!(join_decimal(&[7]), "7");
    assert_eq!(join_decimal(&[10]), "10");
    assert_eq!(join_decimal(&[4294967295]), "4294967295");
}

#[test]
fn join_decimal_puts_commas_between() {
    assert_eq!(join_decimal(&[7, 42, 1000]), "7,42,1000");
    assert_eq!(join_decimal(&[0, 0]), "0,0");
    assert_eq!(join_decimal(&[100, 9, 4294967295, 0]), "100,9,4294967295,0");
}

#[test]
fn join_decimal_agrees_with_std() {
    let values = [0u32, 9, 10, 99, 100, 101, 999, 1000, 65535, 65536, 1_000_000_000, u32::MAX];
    let expected = values.iter().map(|n| n.to_string()).collect::<Vec<String>>().join(",");
    assert_eq!(join_decimal(&values), expected);
}

#[test]
fn join_decimal_has_one_comma_less_than_values() {
    let values = [5u32, 50, 500, 5000, 50000];
    for n in 1..=values.len() {
        let text = join_decimal(&values[..n]);
        assert_eq!(text.matches(',').count(), n - 1);
        assert_eq!(text.split(',').count(), n);
    }
}

#[test]
fn append_decimal_keeps_what_was_there() {
    let mut text = String::from("n=");
    append_decimal(&mut text, 1203);
    assert_eq!(text, "n=1203");
    append_decimal(&mut text, 0);
    assert_eq!(text, "n=12030");
}

#[test]
fn append_decimal_writes_every_digit() {
    let mut text = String::new();
    append_decimal(&mut text, 1234567890);
    assert_eq!(text, "1234567890");
}
