use invisible_char_detector::report::{exit_code, fatal_exit_code, format_text_output};
use invisible_char_detector::scanner::{detect_invisible_characters, Detection};

fn detection(file: &str, line: usize, char_index: usize, byte_offset: usize, code: u32) -> Detection {
    Detection {
        file: file.to_string(),
        line,
        byte_offset,
        char_index,
        char: char::from_u32(code).map(|c| c.to_string()).unwrap_or_default(),
        code,
        name: format!("NAME {}", code),
        description: format!("why {}", code),
    }
}

#[test]
fn nothing_detected() {
    assert_eq!(format_text_output(&[]), "No suspicious invisible characters detected.");
}

#[test]
fn one_detection() {
    let found = detect_invisible_characters("evil\u{202E}text", "b.txt");
    assert_eq!(
        format_text_output(&found),
        "Found 1 suspicious character(s):\n\nb.txt\n    Line 1:5 (byte 5) - RIGHT-TO-LEFT OVERRIDE (U+202E)\n  Bidi override; can reorder displayed code\n\n"
    );
}

#[test]
fn files_are_sorted_and_listed_once() {
    let found = vec![
        detection("b.txt", 1, 2, 3, 0x200B),
        detection("a.txt", 4, 5, 6, 0xAD),
        detection("b.txt", 7, 8, 9, 0x10FFFD),
        detection("a/b.txt", 10, 11, 1234567, 0x1),
    ];
    let expected = "Found 4 suspicious character(s):\n\n\
        a.txt\n    Line 4:5 (byte 6) - NAME 173 (U+00AD)\n  why 173\n\n\
        a/b.txt\n    Line 10:11 (byte 1234567) - NAME 1 (U+0001)\n  why 1\n\n\
        b.txt\n    Line 1:2 (byte 3) - NAME 8203 (U+200B)\n  why 8203\n    \
        Line 7:8 (byte 9) - NAME 1114109 (U+10FFFD)\n  why 1114109\n\n";
    assert_eq!(format_text_output(&found), expected);
}

#[test]
fn file_order_is_that_of_the_standard_sort() {
    let names = ["b", "a", "", "ab", "B", "a/b", "a.b", "é", "z", "中", "a", "😀", "~"];
    let found: Vec<Detection> = names.iter().map(|n| detection(n, 1, 1, 1, 0x200B)).collect();
    let text = format_text_output(&found);
    let mut sorted: Vec<&str> = names.to_vec();
    sorted.sort();
    sorted.dedup();
    let mut expected = format!("Found {} suspicious character(s):\n\n", names.len());
    for name in sorted {
        expected.push_str(&format!("{}\n", name));
        for d in found.iter().filter(|d| d.file == name) {
            expected.push_str(&format!(
                "    Line {}:{} (byte {}) - {} (U+{:04X})\n",
                d.line, d.char_index, d.byte_offset, d.name, d.code
            ));
            expected.push_str(&format!("  {}\n", d.description));
        }
        expected.push('\n');
    }
    assert_eq!(text, expected);
}

#[test]
fn numbers_are_written_in_full() {
    let found = vec![detection("f", usize::MAX, 100, 0, 0xFFFFFFFF)];
    let expected = format!(
        "Found 1 suspicious character(s):\n\nf\n    Line {}:100 (byte 0) - NAME 4294967295 (U+FFFFFFFF)\n  why 4294967295\n\n",
        usize::MAX
    );
    assert_eq!(format_text_output(&found), expected);
}

#[test]
fn exit_code_of_a_clean_run() {
    assert_eq!(exit_code(false, 0, 0), 0);
    assert_eq!(exit_code(true, 0, 0), 0);
    assert_eq!(exit_code(false, 3, 0), 0);
}

#[test]
fn exit_code_when_something_was_detected() {
    assert_eq!(exit_code(false, 0, 1), 1);
    assert_eq!(exit_code(false, 5, 7), 1);
    assert_eq!(exit_code(true, 0, 2), 1);
}

#[test]
fn exit_code_in_strict_mode_with_skips() {
    assert_eq!(exit_code(true, 1, 0), 2);
    assert_eq!(exit_code(true, 1, 9), 2);
    assert_eq!(fatal_exit_code(), 2);
}
