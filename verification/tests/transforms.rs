use clipkit::binary_decode;
use clipkit::binary_encode;
use clipkit::config_espanso;
use clipkit::format_json;
use clipkit::gen_password;
use clipkit::gen_uuid4;
use clipkit::gen_uuid7;
use clipkit::get_iso_timestamp;
use clipkit::make_uuid7;
use clipkit::reddit_top;
use clipkit::spongebob;
use clipkit::TransformError;

#[test]
fn binary_encode_basic() {
    assert_eq!(binary_encode("AB"), "01000001 01000010");
}

#[test]
fn binary_encode_empty() {
    assert_eq!(binary_encode(""), "");
}

#[test]
fn binary_decode_basic() {
    assert_eq!(binary_decode("01001000 01101001").unwrap(), "Hi");
}

#[test]
fn binary_decode_trims_surrounding_whitespace() {
    assert_eq!(binary_decode("  01000001 \n").unwrap(), "A");
}

#[test]
fn binary_decode_short_token() {
    assert_eq!(binary_decode("1000001").unwrap(), "A");
}

#[test]
fn binary_decode_rejects_non_binary_character() {
    assert_eq!(binary_decode("0a0"), Err(TransformError::InvalidEncoding));
}

#[test]
fn binary_decode_rejects_value_over_byte_range() {
    assert_eq!(binary_decode("111111111"), Err(TransformError::InvalidEncoding));
}

#[test]
fn binary_decode_rejects_empty_input() {
    assert_eq!(binary_decode(""), Err(TransformError::InvalidEncoding));
}

#[test]
fn binary_round_trip() {
    let original = "Hello, world!";
    assert_eq!(binary_decode(&binary_encode(original)).unwrap(), original);
}

#[test]
fn format_json_pretty_prints() {
    let input = " {\"a\": 1, \"b\": [true, null]} ";
    let out = format_json(input).unwrap();
    let value: serde_json::Value = serde_json::from_str(input).unwrap();
    let expected = serde_json::to_string_pretty(&value).unwrap();
    assert_eq!(out, expected);
}

#[test]
fn format_json_rejects_invalid_input() {
    assert_eq!(format_json("{not json"), Err(TransformError::InvalidJson));
}

#[test]
fn format_json_output_reparses_to_equal_value() {
    let input = "{\"outer\": {\"inner\": [1, 2, 3]}, \"flag\": false}";
    let out = format_json(input).unwrap();
    let before: serde_json::Value = serde_json::from_str(input).unwrap();
    let after: serde_json::Value = serde_json::from_str(&out).unwrap();
    assert_eq!(before, after);
}

#[test]
fn format_json_semantically_idempotent() {
    let input = "[1, {\"k\": \"v\"}]";
    let once = format_json(input).unwrap();
    let twice = format_json(&once).unwrap();
    let a: serde_json::Value = serde_json::from_str(&once).unwrap();
    let b: serde_json::Value = serde_json::from_str(&twice).unwrap();
    assert_eq!(a, b);
}

fn assert_alphanumeric(s: &str) {
    for c in s.chars() {
        assert!(c.is_ascii_alphanumeric(), "unexpected character {c:?}");
    }
}

#[test]
fn password_requested_length() {
    let p = gen_password("5");
    assert_eq!(p.len(), 5);
    assert_alphanumeric(&p);
}

#[test]
fn password_default_length_on_non_number() {
    let p = gen_password("not-a-number");
    assert_eq!(p.len(), 32);
    assert_alphanumeric(&p);
}

#[test]
fn password_default_length_on_empty_input() {
    assert_eq!(gen_password("").len(), 32);
}

#[test]
fn password_zero_length() {
    assert_eq!(gen_password("0"), "");
}

#[test]
fn reddit_subreddit_listing() {
    assert_eq!(
        reddit_top("https://reddit.com/r/rust/").unwrap(),
        "https://reddit.com/r/rust/top?sort=top&t=all"
    );
}

#[test]
fn reddit_user_page() {
    assert_eq!(
        reddit_top("https://reddit.com/u/someone/").unwrap(),
        "https://reddit.com/u/someone/submitted?sort=top"
    );
}

#[test]
fn reddit_user_page_long_prefix() {
    assert_eq!(
        reddit_top("https://reddit.com/user/someone/").unwrap(),
        "https://reddit.com/user/someone/submitted?sort=top"
    );
}

#[test]
fn reddit_comments_page() {
    assert_eq!(
        reddit_top("https://reddit.com/r/rust/comments/abc123/title/").unwrap(),
        "https://reddit.com/r/rust/comments/abc123/title?sort=top&t=all"
    );
}

#[test]
fn reddit_replaces_existing_sort_parameter() {
    assert_eq!(
        reddit_top("https://reddit.com/r/rust?sort=new").unwrap(),
        "https://reddit.com/r/rust/top?sort=top&t=all"
    );
}

#[test]
fn reddit_rejects_invalid_url() {
    assert_eq!(reddit_top("not a url"), Err(TransformError::InvalidUrl));
}

#[test]
fn spongebob_hello() {
    assert_eq!(spongebob("hello"), "HeLlO");
}

#[test]
fn spongebob_applied_twice_is_stable() {
    assert_eq!(spongebob(&spongebob("hello")), "HeLlO");
}

#[test]
fn spongebob_empty() {
    assert_eq!(spongebob(""), "");
}

#[test]
fn spongebob_multi_character_expansion() {
    assert_eq!(spongebob("\u{df}"), "SS");
}

#[test]
fn timestamp_is_decimal_epoch_seconds() {
    let t = get_iso_timestamp();
    let parsed: i64 = t.parse().unwrap();
    assert!(parsed > 1_000_000_000);
}

fn assert_uuid_shape(s: &str, version: char) {
    assert_eq!(s.len(), 36);
    let cs: Vec<char> = s.chars().collect();
    for (i, c) in cs.iter().enumerate() {
        if i == 8 || i == 13 || i == 18 || i == 23 {
            assert_eq!(*c, '-');
        } else {
            assert!(c.is_ascii_hexdigit() && !c.is_ascii_uppercase());
        }
    }
    assert_eq!(cs[14], version);
    assert!(matches!(cs[19], '8' | '9' | 'a' | 'b'));
}

#[test]
fn uuid4_canonical_shape() {
    assert_uuid_shape(&gen_uuid4(), '4');
}

#[test]
fn uuid4_calls_differ() {
    assert_ne!(gen_uuid4(), gen_uuid4());
}

#[test]
fn uuid7_canonical_shape() {
    assert_uuid_shape(&gen_uuid7(), '7');
}

#[test]
fn uuid7_time_prefix_exact() {
    let u = make_uuid7(1, 0);
    assert!(u.starts_with("00000000-03e8-7"), "unexpected prefix: {u}");
}

#[test]
fn uuid7_sorts_by_time() {
    let a = make_uuid7(100, 0);
    let b = make_uuid7(200, 0);
    assert!(a < b);
    let c = make_uuid7(1000, 999_999_999);
    let d = make_uuid7(1001, 0);
    assert!(c < d);
}

#[test]
fn uuid7_now_sorts_after_past_time() {
    let past = make_uuid7(1_600_000_000, 0);
    let current = gen_uuid7();
    assert!(past < current);
}

#[test]
fn espanso_one_block_per_command_in_order() {
    let path = "/usr/local/bin/clipkit";
    let out = config_espanso(path);
    let names = [
        "binary-decode",
        "binary-encode",
        "format-json",
        "ip",
        "password",
        "reddit-top",
        "spongebob",
        "timestamp",
        "uuid4",
        "uuid7",
    ];
    let mut last_pos = 0;
    for name in names {
        let needle = format!("- trigger: \";{name}\"");
        assert_eq!(out.matches(&needle).count(), 1, "one block expected for {name}");
        let pos = out.find(&needle).unwrap();
        assert!(pos >= last_pos, "blocks out of declaration order at {name}");
        last_pos = pos;
    }
    assert_eq!(out.matches("- trigger:").count(), names.len());
    assert!(!out.contains(";config-espanso"));
    assert_eq!(out.matches(path).count(), names.len());
}

#[test]
fn espanso_exact_block_layout() {
    let out = config_espanso("/opt/bin/clip");
    let expected_first = "\n  - trigger: \";binary-decode\"\n    replace: \"{{output}}\"\n    vars:\n      - name: output\n        type: script\n        params:\n          args:\n            - /opt/bin/clip\n            - binary-decode\n";
    assert!(out.starts_with(expected_first));
}

#[test]
fn binary_decode_rejects_double_space() {
    assert_eq!(binary_decode("01000001  01000010"), Err(TransformError::InvalidEncoding));
}

#[test]
fn spongebob_indexes_all_characters() {
    assert_eq!(spongebob("a b"), "A B");
}

#[test]
fn uuid7_fixed_time_shape() {
    assert_uuid_shape(&make_uuid7(1_600_000_000, 123_456_789), '7');
}
