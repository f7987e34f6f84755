use run_vsearch::number::parse_u32;
use run_vsearch::path::join_path;
use run_vsearch::text::{decimal_string, join_strings, trim};
use run_vsearch::threshold::validate_threshold;
use run_vsearch::{basename, BatchError};

fn owned(items: &[&str]) -> Vec<String> {
    items.iter().map(|s| s.to_string()).collect()
}

#[test]
fn basename_is_the_final_component() {
    for (path, name) in [
        ("a/b.txt", "b.txt"),
        ("file", "file"),
        ("/usr/bin/tool", "tool"),
        ("a//b", "b"),
        ("./reads.fa", "reads.fa"),
        ("../x/..y", "..y"),
        ("dir/.hidden", ".hidden"),
        ("data/sample 1.fastq", "sample 1.fastq"),
        ("données/é.fa", "é.fa"),
        ("/x", "x"),
    ] {
        assert_eq!(basename(&path.to_string()), Ok(name.to_string()), "{:?}", path);
    }
}

#[test]
fn basename_refuses_paths_without_a_file_name() {
    for path in ["", "/", "dir/", "a/b/", ".", "..", "a/.", "a/..", "//"] {
        assert_eq!(
            basename(&path.to_string()),
            Err(BatchError::InvalidFileName { path: path.to_string() }),
            "{:?}",
            path
        );
    }
}

#[test]
fn join_path_writes_one_separator() {
    assert_eq!(join_path("out", "x.fa"), "out/x.fa");
    assert_eq!(join_path("out/", "x.fa"), "out/x.fa");
    assert_eq!(join_path("", "x.fa"), "x.fa");
    assert_eq!(join_path("/", "x.fa"), "/x.fa");
    assert_eq!(join_path("/work/run 1", "x.fa"), "/work/run 1/x.fa");
    assert_eq!(join_path("out", ""), "out/");
}

#[test]
fn join_path_lets_a_rooted_name_stand_alone() {
    assert_eq!(join_path("out", "/abs/x.fa"), "/abs/x.fa");
    assert_eq!(join_path("", "/"), "/");
}

#[test]
fn basename_of_a_joined_path_is_the_name() {
    for dir in ["", "out", "out/", "/", "a/b"] {
        let joined = join_path(dir, "reads.fa");
        assert_eq!(basename(&joined), Ok("reads.fa".to_string()));
    }
}

#[test]
fn threshold_between_zero_and_one_is_accepted_in_normal_form() {
    for (text, normal) in [
        ("0.97", "0.97"),
        ("0.5", "0.5"),
        ("0.50", "0.5"),
        (".25", "0.25"),
        ("+0.5", "0.5"),
        ("000.125000", "0.125"),
        ("0.000001", "0.000001"),
        ("0.1", "0.1"),
        ("0.9", "0.9"),
        ("0.99999999999999999999999999", "0.99999999999999999999999999"),
        ("0.00000000000000000000000001", "0.00000000000000000000000001"),
        ("0.0100", "0.01"),
    ] {
        assert_eq!(validate_threshold(&text.to_string()), Ok(normal.to_string()), "{:?}", text);
    }
}

#[test]
fn threshold_at_or_beyond_the_bounds_is_refused() {
    for text in [
        "0", "0.0", "0.", "0.000", "+0", "-0", "-0.0", "1", "1.0", "1.", "1.000", "01", "1.5",
        "2", "10.5", "100", "0001.0", "-0.5", "-1", "-0.97", "97",
    ] {
        assert_eq!(
            validate_threshold(&text.to_string()),
            Err(BatchError::InvalidParameter { value: text.to_string() }),
            "{:?}",
            text
        );
    }
}

#[test]
fn threshold_that_is_no_decimal_number_is_refused() {
    for text in [
        "", ".", "+", "-", "+.", "abc", "0.5x", "x0.5", "0..5", "0.5.1", "1e-1", "0,5", " 0.5",
        "0.5 ", "0 .5", "++0.5", "+-0.5", "0.5-", "NaN", "inf", "٠.٥",
    ] {
        assert_eq!(
            validate_threshold(&text.to_string()),
            Err(BatchError::InvalidParameter { value: text.to_string() }),
            "{:?}",
            text
        );
    }
}

#[test]
fn threshold_normal_form_is_its_own_normal_form() {
    for text in ["0.970", ".5", "+000.1250", "0.3"] {
        let normal = validate_threshold(&text.to_string()).unwrap();
        assert_eq!(validate_threshold(&normal), Ok(normal.clone()));
    }
}

#[test]
fn parse_u32_reads_decimal_numbers() {
    assert_eq!(parse_u32("0"), Some(0));
    assert_eq!(parse_u32("12"), Some(12));
    assert_eq!(parse_u32("+7"), Some(7));
    assert_eq!(parse_u32("007"), Some(7));
    assert_eq!(parse_u32("63"), Some(63));
    assert_eq!(parse_u32("4294967295"), Some(4294967295));
    assert_eq!(parse_u32("0000000004294967295"), Some(4294967295));
}

#[test]
fn parse_u32_refuses_what_is_no_number_or_does_not_fit() {
    for text in [
        "", "+", "-", "-1", "1a", "a1", "1 ", " 1", "1.0", "++1", "4294967296", "99999999999",
        "18446744073709551616", "340282366920938463463374607431768211456", "١٢",
    ] {
        assert_eq!(parse_u32(text), None, "{:?}", text);
    }
}

#[test]
fn decimal_string_writes_numbers_without_leading_zeros() {
    assert_eq!(decimal_string(0), "0");
    assert_eq!(decimal_string(7), "7");
    assert_eq!(decimal_string(10), "10");
    assert_eq!(decimal_string(12), "12");
    assert_eq!(decimal_string(63), "63");
    assert_eq!(decimal_string(1234567890), "1234567890");
    assert_eq!(decimal_string(u64::MAX), "18446744073709551615");
}

#[test]
fn decimal_string_and_parse_u32_agree() {
    for n in [0u32, 1, 9, 10, 99, 100, 12345, 4294967295] {
        assert_eq!(parse_u32(&decimal_string(n as u64)), Some(n));
    }
}

#[test]
fn trim_removes_white_space_at_both_ends() {
    assert_eq!(trim("  12 \n"), "12");
    assert_eq!(trim("12"), "12");
    assert_eq!(trim("\t a b \r\n"), "a b");
    assert_eq!(trim(""), "");
    assert_eq!(trim("   "), "");
    assert_eq!(trim("\u{a0}0.5\u{3000}"), "0.5");
    assert_eq!(trim("\u{2003}x\u{2028}"), "x");
    assert_eq!(trim("_ x _"), "_ x _");
}

#[test]
fn trim_agrees_with_the_standard_library() {
    for text in ["", " ", " a", "a ", " a b ", "\u{85}a\u{1680}", "\u{200b}a", "\u{feff}a", "\x0b\x0ca\x1c"] {
        assert_eq!(trim(text), text.trim(), "{:?}", text);
    }
}

#[test]
fn join_strings_writes_the_separator_between_neighbours() {
    assert_eq!(join_strings(&owned(&[]), ", "), "");
    assert_eq!(join_strings(&owned(&["a"]), ", "), "a");
    assert_eq!(join_strings(&owned(&["a", "b"]), ", "), "a, b");
    assert_eq!(join_strings(&owned(&["a", "", "c"]), "\n"), "a\n\nc");
    assert_eq!(join_strings(&owned(&["a", "b", "c"]), ""), "abc");
}
