use std::path::{Path, PathBuf};

use aarch64::cells::{high_cell, low_cell};
use aarch64::text::{decimal_name, file_name, hex_name, join_path, same_text, trim};

#[test]
fn hexadecimal_names_are_lower_case() {
    assert_eq!(hex_name("cpu@", 0), "cpu@0");
    assert_eq!(hex_name("cpu@", 15), "cpu@f");
    assert_eq!(hex_name("cpu@", 16), "cpu@10");
    assert_eq!(hex_name("U6_16550A@", 0x3f8), "U6_16550A@3f8");
    assert_eq!(hex_name("", 0xdead_beef_0123_4567), "deadbeef01234567");
    for n in [0u64, 1, 9, 10, 0xabc, 0x1000, u64::MAX] {
        assert_eq!(hex_name("n@", n), format!("n@{:x}", n));
    }
}

#[test]
fn decimal_names_have_no_leading_zeros() {
    assert_eq!(decimal_name("core", 0), "core0");
    assert_eq!(decimal_name("cluster", 10), "cluster10");
    for n in [0usize, 7, 99, 100, usize::MAX] {
        assert_eq!(decimal_name("n", n), format!("n{}", n));
    }
}

#[test]
fn different_numbers_have_different_names() {
    let names: Vec<String> = (0..300).map(|n| hex_name("cpu@", n)).collect();
    for i in 0..names.len() {
        for j in 0..i {
            assert_ne!(names[i], names[j]);
        }
    }
}

#[test]
fn file_names_are_those_of_std() {
    for path in [
        "",
        "/",
        ".",
        "..",
        "./",
        "a",
        "a/",
        "a//",
        "/a/b",
        "a/.",
        "a/./",
        "a/..",
        "a/../.",
        "../a",
        "a/b..",
        "...",
        "/sys/bus/platform/devices/fdab0000.npu-guest",
        "/gr\u{fc}n/\u{e9}",
    ] {
        let expected = Path::new(path)
            .file_name()
            .map(|name| name.to_str().unwrap().to_string());
        assert_eq!(file_name(path), expected, "{:?}", path);
    }
}

#[test]
fn paths_are_joined_as_in_std() {
    let parts = ["", "/", "a", "a/", "/a", "/a/", "b/c", "./d", "\u{e9}"];
    for base in parts {
        for path in parts {
            let mut expected = PathBuf::from(base);
            expected.push(path);
            assert_eq!(join_path(base, path), expected.to_str().unwrap());
        }
    }
}

#[test]
fn trimming_is_that_of_std() {
    for text in [
        "",
        " ",
        "name",
        " name",
        "name\n",
        "\t na me \r\n",
        "\u{a0}name\u{3000}",
        "\u{2028}x\u{85}",
        "\u{200b}x",
    ] {
        assert_eq!(trim(text), text.trim());
    }
    for code in 0..=0x3100u32 {
        if let Some(c) = char::from_u32(code) {
            let text = format!("{}x{}", c, c);
            assert_eq!(trim(&text), text.trim(), "{:x}", code);
        }
    }
}

#[test]
fn texts_are_compared_in_full() {
    assert!(same_text("", ""));
    assert!(same_text("reg", "reg"));
    assert!(!same_text("reg", "reg-names"));
}

#[test]
fn halves_of_a_double_cell() {
    assert_eq!(high_cell(0x1234_5678_9abc_def0), 0x1234_5678);
    assert_eq!(low_cell(0x1234_5678_9abc_def0), 0x9abc_def0);
    for value in [0u64, 1, 0xffff_ffff, 0x1_0000_0000, u64::MAX] {
        let joined = ((high_cell(value) as u64) << 32) | low_cell(value) as u64;
        assert_eq!(joined, value);
    }
}
