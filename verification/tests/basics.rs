use anonbot::obfuscation::{xor_mask, ANON_STORE_MASK, BLOCK_STORE_MASK, BROADCAST_STORE_MASK};
use anonbot::scan::{
    byte_prefix_from, char_width, find, parse_i64, split_space, starts_with, strip_leading,
    take_name_from, trim, white_space,
};
use anonbot::text::{cat2, cat3, cat6, fmt_i64, fmt_pad4, fmt_u64};
use anonbot::turbo::{c_string_or_empty, send_fast, send_fast_with_reply};

#[test]
fn xor_mask_flips_every_byte() {
    assert_eq!(xor_mask(&[0x00, 0xFF, 0x12], 0xAA), vec![0xAA, 0x55, 0xB8]);
    assert_eq!(xor_mask(&[], 0xBB), Vec::<u8>::new());
}

#[test]
fn xor_mask_twice_gives_data_back() {
    let data: Vec<u8> = (0u8..=255).collect();
    for mask in [ANON_STORE_MASK, BROADCAST_STORE_MASK, BLOCK_STORE_MASK] {
        let once = xor_mask(&data, mask);
        assert_ne!(once, data);
        assert_eq!(xor_mask(&once, mask), data);
    }
}

#[test]
fn store_masks_are_the_file_masks() {
    assert_eq!(ANON_STORE_MASK, 0xAA);
    assert_eq!(BROADCAST_STORE_MASK, 0xCC);
    assert_eq!(BLOCK_STORE_MASK, 0xBB);
}

#[test]
fn decimal_formats() {
    assert_eq!(fmt_u64(0), "0");
    assert_eq!(fmt_u64(1234567890), "1234567890");
    assert_eq!(fmt_u64(u64::MAX), u64::MAX.to_string());
    assert_eq!(fmt_i64(-42), "-42");
    assert_eq!(fmt_i64(i64::MIN), i64::MIN.to_string());
    assert_eq!(fmt_i64(i64::MAX), i64::MAX.to_string());
    assert_eq!(fmt_pad4(7), "0007");
    assert_eq!(fmt_pad4(42), "0042");
    assert_eq!(fmt_pad4(1234), "1234");
    assert_eq!(fmt_pad4(65535), "65535");
}

#[test]
fn concatenations() {
    assert_eq!(cat2("a", "bc"), "abc");
    assert_eq!(cat3("Аноним", " #", "1234"), "Аноним #1234");
    assert_eq!(cat6("1", "2", "3", "4", "5", "6"), "123456");
}

#[test]
fn trimming_like_str_trim() {
    for s in ["  hi  ", "\thi\n", "hi", "", "   ", "\u{3000}x y\u{a0}"] {
        assert_eq!(trim(s), s.trim());
    }
    assert!(white_space('\u{2028}'));
    assert!(!white_space('x'));
}

#[test]
fn stripping_leading_slashes() {
    assert_eq!(strip_leading("//start", '/'), "start");
    assert_eq!(strip_leading("start", '/'), "start");
    assert_eq!(strip_leading("///", '/'), "");
}

#[test]
fn prefixes_and_search() {
    assert!(starts_with("anon1234", "anon"));
    assert!(!starts_with("ano", "anon"));
    assert_eq!(find("💡 Анонима #1234", "Анонима #"), Some(2));
    assert_eq!(find("abc", "d"), None);
}

#[test]
fn splitting_at_the_first_space() {
    assert_eq!(split_space("/noone hello world"), ("/noone", Some("hello world")));
    assert_eq!(split_space("/start"), ("/start", None));
    assert_eq!(split_space(" x"), ("", Some("x")));
}

#[test]
fn parsing_ids_like_str_parse() {
    for s in [
        "123",
        "-5",
        "+7",
        "",
        "-",
        "+",
        "abc",
        "12a",
        " 1",
        "9223372036854775807",
        "9223372036854775808",
        "-9223372036854775808",
        "-9223372036854775809",
        "007",
    ] {
        assert_eq!(parse_i64(s), s.parse::<i64>().ok(), "input {:?}", s);
    }
}

#[test]
fn utf8_widths() {
    assert_eq!(char_width('a'), 1);
    assert_eq!(char_width('ж'), 2);
    assert_eq!(char_width('€'), 3);
    assert_eq!(char_width('👤'), 4);
}

#[test]
fn byte_prefixes_like_str_get() {
    assert_eq!(byte_prefix_from("Анонима #1234 rest", 9, 4), Some("1234"));
    assert_eq!(byte_prefix_from("#12", 1, 4), None);
    assert_eq!(byte_prefix_from("#жж", 1, 4), Some("жж"));
    assert_eq!(byte_prefix_from("#жж", 1, 3), None);
}

#[test]
fn taking_a_username() {
    assert_eq!(take_name_from("👤 @bob_1 and more", 3), "bob_1");
    assert_eq!(take_name_from("@Вася!", 1), "Вася");
    assert_eq!(take_name_from("@", 1), "");
}

#[test]
fn c_strings_with_nul_become_empty() {
    assert_eq!(c_string_or_empty("plain"), "plain");
    assert_eq!(c_string_or_empty("a\0b"), "");
}

#[test]
fn fast_send_requests() {
    let (ok, req) = send_fast("TOKEN", "42", "hello");
    assert!(ok);
    assert_eq!(req.token, "TOKEN");
    assert_eq!(req.chat_id, "42");
    assert_eq!(req.message, "hello");
    assert_eq!(req.proxy, "");
    assert_eq!(req.reply_to, 0);
    let req = send_fast_with_reply("T", "1", "m\0", "socks5://p", Some(17));
    assert_eq!(req.message, "");
    assert_eq!(req.proxy, "socks5://p");
    assert_eq!(req.reply_to, 17);
}
