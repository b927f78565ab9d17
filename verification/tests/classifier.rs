use invisible_char_detector::classifier::{
    get_suspicious_chars, is_private_use_area, is_suspicious_control_char, Classifier,
};

const TABLE: [(u32, &str, &str); 40] = [
    (0x200B, "ZERO WIDTH SPACE", "Invisible character used to hide code"),
    (0x200C, "ZERO WIDTH NON-JOINER", "Can alter code logic invisibly"),
    (0x200D, "ZERO WIDTH JOINER", "Can alter code logic invisibly"),
    (0x2060, "WORD JOINER", "Invisible joiner; often used to hide payloads"),
    (0xFEFF, "ZERO WIDTH NO-BREAK SPACE", "BOM or invisible space"),
    (0x202A, "LEFT-TO-RIGHT EMBEDDING", "Bidi control; can mislead code review"),
    (0x202B, "RIGHT-TO-LEFT EMBEDDING", "Bidi control; can mislead code review"),
    (0x202C, "POP DIRECTIONAL FORMATTING", "Bidi control; terminates embeddings/overrides"),
    (0x202D, "LEFT-TO-RIGHT OVERRIDE", "Bidi override; can reorder displayed code"),
    (0x202E, "RIGHT-TO-LEFT OVERRIDE", "Bidi override; can reorder displayed code"),
    (0x2066, "LEFT-TO-RIGHT ISOLATE", "Bidi isolate; can affect display order"),
    (0x2067, "RIGHT-TO-LEFT ISOLATE", "Bidi isolate; can affect display order"),
    (0x2068, "FIRST STRONG ISOLATE", "Bidi isolate; can affect display order"),
    (0x2069, "POP DIRECTIONAL ISOLATE", "Bidi isolate terminator"),
    (0x200E, "LEFT-TO-RIGHT MARK", "Invisible directional marker"),
    (0x200F, "RIGHT-TO-LEFT MARK", "Invisible directional marker"),
    (0x061C, "ARABIC LETTER MARK", "Invisible directional marker"),
    (0xFE00, "VARIATION SELECTOR-0", "Can modify character appearance"),
    (0xFE01, "VARIATION SELECTOR-1", "Can modify character appearance"),
    (0xFE02, "VARIATION SELECTOR-2", "Can modify character appearance"),
    (0xFE03, "VARIATION SELECTOR-3", "Can modify character appearance"),
    (0xFE04, "VARIATION SELECTOR-4", "Can modify character appearance"),
    (0xFE05, "VARIATION SELECTOR-5", "Can modify character appearance"),
    (0xFE06, "VARIATION SELECTOR-6", "Can modify character appearance"),
    (0xFE07, "VARIATION SELECTOR-7", "Can modify character appearance"),
    (0xFE08, "VARIATION SELECTOR-8", "Can modify character appearance"),
    (0xFE09, "VARIATION SELECTOR-9", "Can modify character appearance"),
    (0xFE0A, "VARIATION SELECTOR-10", "Can modify character appearance"),
    (0xFE0B, "VARIATION SELECTOR-11", "Can modify character appearance"),
    (0xFE0C, "VARIATION SELECTOR-12", "Can modify character appearance"),
    (0xFE0D, "VARIATION SELECTOR-13", "Can modify character appearance"),
    (0xFE0E, "VARIATION SELECTOR-14", "Can modify character appearance"),
    (0xFE0F, "VARIATION SELECTOR-15", "Can modify character appearance"),
    (0x2028, "LINE SEPARATOR", "Can break parsing/tokenization"),
    (0x2029, "PARAGRAPH SEPARATOR", "Can break parsing/tokenization"),
    (0x3164, "HANGUL FILLER", "Often renders as blank; used for obfuscation"),
    (0x00AD, "SOFT HYPHEN", "Invisible in most contexts; used for obfuscation"),
    (0x00A0, "NO-BREAK SPACE", "Non-ASCII whitespace; may bypass naive filters"),
    (0x202F, "NARROW NO-BREAK SPACE", "Non-ASCII whitespace; may bypass naive filters"),
    (0x2007, "FIGURE SPACE", "Non-ASCII whitespace; may bypass naive filters"),
];

fn classified(code: u32) -> Option<(String, String)> {
    Classifier::new().classify(code).map(|c| (c.name, c.description))
}

#[test]
fn table_holds_every_listed_code_point() {
    let map = get_suspicious_chars();
    assert_eq!(map.len(), TABLE.len());
    for (code, name, description) in TABLE {
        assert_eq!(map.get(&code), Some(&(name, description)), "U+{:04X}", code);
    }
}

#[test]
fn listed_code_points_are_classified_by_their_entry() {
    let classifier = Classifier::new();
    for (code, name, description) in TABLE {
        let found = classifier.classify(code).expect("listed code point");
        assert_eq!(found.name, name);
        assert_eq!(found.description, description);
    }
}

#[test]
fn table_names_belong_to_one_code_point_each() {
    for (i, a) in TABLE.iter().enumerate() {
        for b in TABLE.iter().skip(i + 1) {
            assert_ne!(a.1, b.1);
        }
        assert_ne!(a.1, "PRIVATE USE AREA");
        assert_ne!(a.1, "CONTROL CHARACTER");
    }
}

#[test]
fn variation_selectors_are_numbered() {
    for n in 0u32..16 {
        let (name, description) = classified(0xFE00 + n).expect("variation selector");
        assert_eq!(name, format!("VARIATION SELECTOR-{}", n));
        assert_eq!(description, "Can modify character appearance");
    }
}

#[test]
fn zero_width_space_entry() {
    assert_eq!(
        classified(0x200B),
        Some(("ZERO WIDTH SPACE".to_string(), "Invisible character used to hide code".to_string()))
    );
}

#[test]
fn private_use_bounds_of_the_basic_plane() {
    assert!(is_private_use_area(0xE000));
    assert!(is_private_use_area(0xF8FF));
    assert!(is_private_use_area(0xF000));
    assert!(!is_private_use_area(0xF900));
    assert!(!is_private_use_area(0xDFFF));
}

#[test]
fn private_use_bounds_of_the_upper_planes() {
    assert!(is_private_use_area(0x100000));
    assert!(is_private_use_area(0x10FFFD));
    assert!(!is_private_use_area(0x10FFFE));
    assert!(!is_private_use_area(0x10FFFF));
    assert!(!is_private_use_area(0xFFFFF));
    // The middle range runs from 0xF0000 up to 0xFFFD and so holds nothing.
    assert!(!is_private_use_area(0xF0000));
    assert!(!is_private_use_area(0xFFFD));
    assert!(!is_private_use_area(0xFFFFD));
}

#[test]
fn private_use_classification_text() {
    assert_eq!(
        classified(0xE000),
        Some((
            "PRIVATE USE AREA".to_string(),
            "Private use character (U+E000) - commonly used for payload hiding".to_string()
        ))
    );
    assert_eq!(
        classified(0xF8FF).unwrap().1,
        "Private use character (U+F8FF) - commonly used for payload hiding"
    );
    assert_eq!(
        classified(0x100000).unwrap().1,
        "Private use character (U+100000) - commonly used for payload hiding"
    );
    assert_eq!(
        classified(0x10FFFD).unwrap().1,
        "Private use character (U+10FFFD) - commonly used for payload hiding"
    );
    assert_eq!(classified(0xF900), None);
    assert_eq!(classified(0xF0000), None);
}

#[test]
fn every_private_use_code_point_is_classified_as_such() {
    for code in (0xE000u32..=0xF8FF).chain(0x100000..=0x10FFFD) {
        assert!(is_private_use_area(code));
    }
    let classifier = Classifier::new();
    for code in (0xE000u32..=0xF8FF).step_by(97).chain((0x100000..=0x10FFFD).step_by(4099)) {
        let found = classifier.classify(code).expect("private use");
        assert_eq!(found.name, "PRIVATE USE AREA");
        assert_eq!(
            found.description,
            format!("Private use character (U+{:04X}) - commonly used for payload hiding", code)
        );
    }
}

#[test]
fn control_characters_are_flagged() {
    let classifier = Classifier::new();
    for code in (0u32..=0x1F).chain(0x7F..=0x9F) {
        if code == 9 || code == 10 || code == 13 {
            continue;
        }
        assert!(is_suspicious_control_char(code), "U+{:04X}", code);
        let found = classifier.classify(code).expect("control character");
        assert_eq!(found.name, "CONTROL CHARACTER");
        assert_eq!(found.description, format!("Suspicious control character (U+{:04X})", code));
    }
}

#[test]
fn control_classification_text() {
    assert_eq!(
        classified(0),
        Some(("CONTROL CHARACTER".to_string(), "Suspicious control character (U+0000)".to_string()))
    );
    assert_eq!(classified(0x1B).unwrap().1, "Suspicious control character (U+001B)");
    assert_eq!(classified(0x7F).unwrap().1, "Suspicious control character (U+007F)");
    assert_eq!(classified(0x9F).unwrap().1, "Suspicious control character (U+009F)");
}

#[test]
fn tab_line_feed_and_carriage_return_are_clean() {
    for code in [0x09u32, 0x0A, 0x0D] {
        assert!(!is_suspicious_control_char(code));
        assert_eq!(classified(code), None);
    }
}

#[test]
fn control_range_edges() {
    assert!(is_suspicious_control_char(0x1F));
    assert!(!is_suspicious_control_char(0x20));
    assert!(!is_suspicious_control_char(0x7E));
    assert!(is_suspicious_control_char(0x7F));
    assert!(is_suspicious_control_char(0x9F));
    assert!(!is_suspicious_control_char(0xA1));
    // U+00A0 is next to the control range but is a table entry.
    assert!(!is_suspicious_control_char(0xA0));
    assert_eq!(classified(0xA0).unwrap().0, "NO-BREAK SPACE");
    assert_eq!(classified(0xAD).unwrap().0, "SOFT HYPHEN");
}

#[test]
fn ordinary_characters_are_clean() {
    for c in ['a', 'Z', '0', ' ', '~', 'é', '中', '😀'] {
        assert_eq!(classified(c as u32), None, "{:?}", c);
    }
}
