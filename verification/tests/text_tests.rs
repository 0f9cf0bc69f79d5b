use my_lark::avatar::{chat_list_avatar_index, chat_main_avatar_index, AVATAR_COLOR_COUNT};
use my_lark::text::{msg_id_string, trimmed, u64_to_dec_string};

#[test]
fn decimal_rendering_is_exact() {
    assert_eq!(u64_to_dec_string(0), "0");
    assert_eq!(u64_to_dec_string(7), "7");
    assert_eq!(u64_to_dec_string(10), "10");
    assert_eq!(u64_to_dec_string(12345), "12345");
    assert_eq!(u64_to_dec_string(u64::MAX), "18446744073709551615");
}

#[test]
fn message_ids_carry_prefix_and_counter() {
    assert_eq!(msg_id_string(0), "msg_0");
    assert_eq!(msg_id_string(42), "msg_42");
    assert_ne!(msg_id_string(1), msg_id_string(10));
}

#[test]
fn trim_removes_surrounding_whitespace_only() {
    assert_eq!(trimmed("  hello  "), "hello");
    assert_eq!(trimmed("hello"), "hello");
    assert_eq!(trimmed(" \t\r\n "), "");
    assert_eq!(trimmed(""), "");
    assert_eq!(trimmed("a b"), "a b");
    assert_eq!(trimmed("\u{3000}x\u{3000}"), "x");
    assert_eq!(trimmed("\u{a0}inner stays \u{a0} here\u{2028}"), "inner stays \u{a0} here");
}

#[test]
fn trim_agrees_with_std() {
    for s in ["", " ", "  a  ", "\tmixed \u{2009} ws\u{2029}", "no-ws", " \u{1680} "] {
        assert_eq!(trimmed(s), s.trim());
    }
}

#[test]
fn avatar_indices_follow_byte_folds() {
    // 'R' is byte 82: 82 mod 10 == 2.
    assert_eq!(chat_list_avatar_index("R", AVATAR_COLOR_COUNT), 2);
    // 'R' 82, '1' 49: (82 + 49) mod 10 == 1.
    assert_eq!(chat_main_avatar_index("R1", AVATAR_COLOR_COUNT), 1);
    // Step-wise fold: ((82 mod 10) + 49) mod 10 == 1 as well here.
    assert_eq!(chat_list_avatar_index("R1", AVATAR_COLOR_COUNT), 1);
    assert_eq!(chat_list_avatar_index("", AVATAR_COLOR_COUNT), 0);
    assert_eq!(chat_main_avatar_index("", AVATAR_COLOR_COUNT), 0);
}
