use feed_relay::text::{
    chars_of, i64_to_string, join_ids, parse_i64, parse_ids, same_text, string_of, u64_to_string,
};

#[test]
fn chars_and_back() {
    let v = chars_of("héllo <b>");
    assert_eq!(v, vec!['h', 'é', 'l', 'l', 'o', ' ', '<', 'b', '>']);
    assert_eq!(string_of(&v), "héllo <b>");
    assert_eq!(string_of(&Vec::new()), "");
}

#[test]
fn same_text_compares_characters() {
    assert!(same_text("photo", "photo"));
    assert!(!same_text("photo", "photos"));
    assert!(!same_text("photo", "phot0"));
    assert!(same_text("", ""));
}

#[test]
fn parse_accepts_what_std_accepts() {
    let inputs = [
        "0", "7", "-7", "+7", "007", "-0", "+0", "9223372036854775807", "-9223372036854775808",
        "9223372036854775808", "-9223372036854775809", "99999999999999999999999", "", "+", "-",
        "+-5", "--5", " 5", "5 ", "5a", "a5", "1,2", "١٢", "1.5", "0x10", "1_000",
        "-000000000000000000000000000009223372036854775808",
    ];
    for s in inputs {
        assert_eq!(parse_i64(s), s.parse::<i64>().ok(), "input {:?}", s);
    }
}

#[test]
fn parse_exact_values() {
    assert_eq!(parse_i64("1588834546283081728"), Some(1588834546283081728));
    assert_eq!(parse_i64("-42"), Some(-42));
    assert_eq!(parse_i64("@channel"), None);
}

#[test]
fn decimal_is_what_std_writes() {
    let values = [
        0i64, 1, 9, 10, 11, 99, 100, 12345, -1, -9, -10, -12345, i64::MAX, i64::MIN,
        i64::MIN + 1, 1588834546283081728,
    ];
    for v in values {
        assert_eq!(i64_to_string(v), v.to_string());
    }
    assert_eq!(u64_to_string(0), "0");
    assert_eq!(u64_to_string(u64::MAX), "18446744073709551615");
    assert_eq!(i64_to_string(-9223372036854775808), "-9223372036854775808");
}

#[test]
fn decimal_then_parse_gives_the_number_back() {
    for v in [0i64, 5, -5, 1200, i64::MAX, i64::MIN] {
        assert_eq!(parse_i64(&i64_to_string(v)), Some(v));
    }
}

#[test]
fn join_ids_puts_commas_between() {
    assert_eq!(join_ids(&vec![]), "");
    assert_eq!(join_ids(&vec![5]), "5");
    assert_eq!(join_ids(&vec![5, 9]), "5,9");
    assert_eq!(join_ids(&vec![-1, 0, 300]), "-1,0,300");
}

#[test]
fn parse_ids_passes_over_what_is_no_number() {
    assert_eq!(parse_ids(""), Vec::<i64>::new());
    assert_eq!(parse_ids("5"), vec![5]);
    assert_eq!(parse_ids("5,9"), vec![5, 9]);
    assert_eq!(parse_ids("5,,9,"), vec![5, 9]);
    assert_eq!(parse_ids(",x,7, 8,+9"), vec![7, 9]);
    assert_eq!(parse_ids("9,5,9"), vec![9, 5, 9]);
}

#[test]
fn ids_survive_the_round_trip() {
    let ids = vec![5, 9, 1200, -3];
    assert_eq!(parse_ids(&join_ids(&ids)), ids);
}
