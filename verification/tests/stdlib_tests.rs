use a16::stdlib::collections;
use a16::stdlib::io;
use a16::stdlib::math;
use a16::stdlib::os;
use a16::stdlib::string;

#[test]
fn test_math_clamp() {
    assert_eq!(math::clamp_i64(5, 1, 10), 5);
    assert_eq!(math::clamp_i64(-5, 1, 10), 1);
    assert_eq!(math::clamp_i64(15, 1, 10), 10);
}

#[test]
fn test_math_gcd_lcm() {
    assert_eq!(math::gcd(12, 8), 4);
    assert_eq!(math::gcd(7, 13), 1);
    assert_eq!(math::lcm(4, 6), 12);
}

#[test]
fn lcm_is_never_negative() {
    assert_eq!(math::lcm(-4, 6), 12);
    assert_eq!(math::lcm(4, -6), 12);
    assert_eq!(math::lcm(-3, -5), 15);
    assert_eq!(math::lcm(0, 7), 0);
    assert_eq!(math::lcm(-7, 0), 0);
    assert_eq!(math::lcm(21, 6), 42);
}

#[test]
fn test_math_factorial() {
    assert_eq!(math::factorial(0), 1);
    assert_eq!(math::factorial(5), 120);
    assert_eq!(math::factorial(10), 3628800);
}

#[test]
fn test_math_abs() {
    assert_eq!(math::abs_int(-42), 42);
    assert_eq!(math::abs_int(42), 42);
}

#[test]
fn test_string_case() {
    assert_eq!(string::to_upper("hello"), "HELLO");
    assert_eq!(string::to_lower("HELLO"), "hello");
    assert_eq!(string::capitalize("hello"), "Hello");
    assert_eq!(string::title_case("hello world"), "Hello World");
}

#[test]
fn test_string_trim() {
    assert_eq!(string::trim("  hello  "), "hello");
    assert_eq!(string::trim_start("  hello"), "hello");
    assert_eq!(string::trim_end("hello  "), "hello");
}

#[test]
fn test_string_pad() {
    assert_eq!(string::pad_start("42", 5, '0'), "00042");
    assert_eq!(string::pad_end("hi", 5, '.'), "hi...");
}

#[test]
fn test_string_split_join() {
    let parts = string::split("a,b,c", ",");
    assert_eq!(parts, vec!["a", "b", "c"]);
    assert_eq!(string::join(&parts, "-"), "a-b-c");
}

#[test]
fn test_string_search() {
    assert!(string::contains("hello world", "world"));
    assert_eq!(string::index_of("hello", "ll"), 2);
    assert_eq!(string::index_of("hello", "xyz"), -1);
    assert_eq!(string::count("abcabc", "abc"), 2);
}

#[test]
fn test_string_replace() {
    assert_eq!(string::replace("aaa", "a", "b"), "bbb");
    assert_eq!(string::replace_first("aaa", "a", "b"), "baa");
}

#[test]
fn test_string_checks() {
    assert!(string::is_digit("12345"));
    assert!(!string::is_digit("123a5"));
    assert!(string::is_alpha("hello"));
    assert!(string::is_alnum("hello123"));
    assert!(string::is_blank("   "));
    assert!(!string::is_blank("  a  "));
}

#[test]
fn test_string_reverse() {
    assert_eq!(string::reverse("hello"), "olleh");
}

#[test]
fn test_string_substring() {
    assert_eq!(string::substring("hello world", 6, 11), "world");
    assert_eq!(string::char_at("hello", 1), Some('e'));
    assert_eq!(string::char_count("hello"), 5);
}

#[test]
fn test_collections_sum() {
    assert_eq!(collections::sum_int(&[1, 2, 3, 4, 5]), 15);
}

#[test]
fn test_collections_product() {
    assert_eq!(collections::product_int(&[1, 2, 3, 4]), 24);
}

#[test]
fn test_collections_flatten() {
    let nested = vec![vec![1, 2], vec![3, 4]];
    assert_eq!(collections::flatten(&nested), vec![1, 2, 3, 4]);
}

#[test]
fn test_collections_unique() {
    assert_eq!(collections::unique(&[1, 2, 2, 3, 1]), vec![1, 2, 3]);
}

#[test]
fn test_collections_chunk() {
    let chunks = collections::chunk(&[1, 2, 3, 4, 5], 2);
    assert_eq!(chunks, vec![vec![1, 2], vec![3, 4], vec![5]]);
}

#[test]
fn test_collections_take_skip() {
    assert_eq!(collections::take(&[1, 2, 3, 4, 5], 3), vec![1, 2, 3]);
    assert_eq!(collections::skip(&[1, 2, 3, 4, 5], 3), vec![4, 5]);
}

#[test]
fn test_collections_range() {
    assert_eq!(collections::range_int(0, 5), vec![0, 1, 2, 3, 4]);
    assert_eq!(collections::range_step(0, 10, 3), vec![0, 3, 6, 9]);
}

#[test]
fn test_collections_any_all() {
    assert!(collections::any_true(&[false, true, false]));
    assert!(!collections::all_true(&[true, false, true]));
    assert!(collections::all_true(&[true, true, true]));
    assert_eq!(collections::count_true(&[true, false, true]), 2);
}

#[test]
fn test_io_path_utils() {
    assert_eq!(io::file_extension("test.a16"), Some("a16".to_string()));
    assert_eq!(io::file_stem("test.a16"), Some("test".to_string()));
}

#[test]
fn test_io_join_path() {
    let joined = io::join_path("src", "main.rs");
    assert!(joined.contains("main.rs"));
}

#[test]
fn test_os_timestamp() {
    let ts = os::timestamp();
    assert!(ts > 1_700_000_000);
}

#[test]
fn parent_dir_of_empty_and_root() {
    assert_eq!(a16::stdlib::io::parent_dir(""), None);
    assert_eq!(a16::stdlib::io::parent_dir("/"), None);
    assert_eq!(a16::stdlib::io::parent_dir("/usr/lib"), Some("/usr".to_string()));
    assert_eq!(a16::stdlib::io::parent_dir("foo"), Some("".to_string()));
}

#[test]
fn clock_readings_become_units_or_zero() {
    assert_eq!(os::secs_or_zero(Some(1_700_000_123)), 1_700_000_123);
    assert_eq!(os::secs_or_zero(None), 0);
    assert_eq!(os::millis_or_zero(Some(1_700_000_123_456)), 1_700_000_123_456);
    assert_eq!(os::millis_or_zero(None), 0);
    assert!(os::timestamp_ms() / 1000 >= 1_700_000_000);
}
