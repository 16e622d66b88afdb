use bao_vhost_frontend::text::{chars_eq, parse_u64_chars, parse_values, split_chars};

fn chars(s: &str) -> Vec<char> {
    s.chars().collect()
}

#[test]
fn split_keeps_empty_pieces() {
    assert_eq!(
        split_chars(&chars("a,,b,"), ','),
        vec![chars("a"), vec![], chars("b"), vec![]]
    );
    assert_eq!(split_chars(&chars(""), ','), vec![Vec::<char>::new()]);
}

#[test]
fn parse_u64_matches_std() {
    for s in ["0", "42", "+42", "", "+", "-1", "4a", "18446744073709551615", "18446744073709551616", "007"] {
        assert_eq!(parse_u64_chars(&chars(s)), s.parse::<u64>().ok(), "{}", s);
    }
}

#[test]
fn values_drop_tokens_that_are_not_numbers() {
    assert_eq!(parse_values(&chars("1,x,3,,5")), vec![1, 3, 5]);
    assert_eq!(parse_values(&chars("")), Vec::<u64>::new());
}

#[test]
fn chars_eq_compares_text() {
    assert!(chars_eq(&chars("vm_id"), &chars("vm_id")));
    assert!(!chars_eq(&chars("vm_id"), &chars("vm_ie")));
    assert!(!chars_eq(&chars("vm_id"), &chars("vm_i")));
}
