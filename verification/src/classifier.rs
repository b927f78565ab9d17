//! The classifier: which code points are flagged, under which name, and why.
//!
//! A code point is looked up in a fixed table first; failing that it may be a
//! private-use character or a stray control character. The three groups do
//! not overlap, and the lookup order is part of the contract.

use crate::text::{code_point_hex, push_code_point_hex};
use std::collections::HashMap;
use vstd::prelude::*;
use vstd::string::*;

verus! {

/// The fixed table: the name and the rationale of each listed code point.
pub open spec fn table_entry(code: u32) -> Option<(Seq<char>, Seq<char>)> {
    if code == 0x200B {
        Some(("ZERO WIDTH SPACE"@, "Invisible character used to hide code"@))
    } else if code == 0x200C {
        Some(("ZERO WIDTH NON-JOINER"@, "Can alter code logic invisibly"@))
    } else if code == 0x200D {
        Some(("ZERO WIDTH JOINER"@, "Can alter code logic invisibly"@))
    } else if code == 0x2060 {
        Some(("WORD JOINER"@, "Invisible joiner; often used to hide payloads"@))
    } else if code == 0xFEFF {
        Some(("ZERO WIDTH NO-BREAK SPACE"@, "BOM or invisible space"@))
    } else if code == 0x202A {
        Some(("LEFT-TO-RIGHT EMBEDDING"@, "Bidi control; can mislead code review"@))
    } else if code == 0x202B {
        Some(("RIGHT-TO-LEFT EMBEDDING"@, "Bidi control; can mislead code review"@))
    } else if code == 0x202C {
        Some(("POP DIRECTIONAL FORMATTING"@, "Bidi control; terminates embeddings/overrides"@))
    } else if code == 0x202D {
        Some(("LEFT-TO-RIGHT OVERRIDE"@, "Bidi override; can reorder displayed code"@))
    } else if code == 0x202E {
        Some(("RIGHT-TO-LEFT OVERRIDE"@, "Bidi override; can reorder displayed code"@))
    } else if code == 0x2066 {
        Some(("LEFT-TO-RIGHT ISOLATE"@, "Bidi isolate; can affect display order"@))
    } else if code == 0x2067 {
        Some(("RIGHT-TO-LEFT ISOLATE"@, "Bidi isolate; can affect display order"@))
    } else if code == 0x2068 {
        Some(("FIRST STRONG ISOLATE"@, "Bidi isolate; can affect display order"@))
    } else if code == 0x2069 {
        Some(("POP DIRECTIONAL ISOLATE"@, "Bidi isolate terminator"@))
    } else if code == 0x200E {
        Some(("LEFT-TO-RIGHT MARK"@, "Invisible directional marker"@))
    } else if code == 0x200F {
        Some(("RIGHT-TO-LEFT MARK"@, "Invisible directional marker"@))
    } else if code == 0x061C {
        Some(("ARABIC LETTER MARK"@, "Invisible directional marker"@))
    } else if code == 0xFE00 {
        Some(("VARIATION SELECTOR-0"@, "Can modify character appearance"@))
    } else if code == 0xFE01 {
        Some(("VARIATION SELECTOR-1"@, "Can modify character appearance"@))
    } else if code == 0xFE02 {
        Some(("VARIATION SELECTOR-2"@, "Can modify character appearance"@))
    } else if code == 0xFE03 {
        Some(("VARIATION SELECTOR-3"@, "Can modify character appearance"@))
    } else if code == 0xFE04 {
        Some(("VARIATION SELECTOR-4"@, "Can modify character appearance"@))
    } else if code == 0xFE05 {
        Some(("VARIATION SELECTOR-5"@, "Can modify character appearance"@))
    } else if code == 0xFE06 {
        Some(("VARIATION SELECTOR-6"@, "Can modify character appearance"@))
    } else if code == 0xFE07 {
        Some(("VARIATION SELECTOR-7"@, "Can modify character appearance"@))
    } else if code == 0xFE08 {
        Some(("VARIATION SELECTOR-8"@, "Can modify character appearance"@))
    } else if code == 0xFE09 {
        Some(("VARIATION SELECTOR-9"@, "Can modify character appearance"@))
    } else if code == 0xFE0A {
        Some(("VARIATION SELECTOR-10"@, "Can modify character appearance"@))
    } else if code == 0xFE0B {
        Some(("VARIATION SELECTOR-11"@, "Can modify character appearance"@))
    } else if code == 0xFE0C {
        Some(("VARIATION SELECTOR-12"@, "Can modify character appearance"@))
    } else if code == 0xFE0D {
        Some(("VARIATION SELECTOR-13"@, "Can modify character appearance"@))
    } else if code == 0xFE0E {
        Some(("VARIATION SELECTOR-14"@, "Can modify character appearance"@))
    } else if code == 0xFE0F {
        Some(("VARIATION SELECTOR-15"@, "Can modify character appearance"@))
    } else if code == 0x2028 {
        Some(("LINE SEPARATOR"@, "Can break parsing/tokenization"@))
    } else if code == 0x2029 {
        Some(("PARAGRAPH SEPARATOR"@, "Can break parsing/tokenization"@))
    } else if code == 0x3164 {
        Some(("HANGUL FILLER"@, "Often renders as blank; used for obfuscation"@))
    } else if code == 0x00AD {
        Some(("SOFT HYPHEN"@, "Invisible in most contexts; used for obfuscation"@))
    } else if code == 0x00A0 {
        Some(("NO-BREAK SPACE"@, "Non-ASCII whitespace; may bypass naive filters"@))
    } else if code == 0x202F {
        Some(("NARROW NO-BREAK SPACE"@, "Non-ASCII whitespace; may bypass naive filters"@))
    } else if code == 0x2007 {
        Some(("FIGURE SPACE"@, "Non-ASCII whitespace; may bypass naive filters"@))
    } else {
        None
    }
}

/// Whether `map` holds exactly the entries of the fixed table.
pub open spec fn is_suspicious_table(map: Map<u32, (&'static str, &'static str)>) -> bool {
    &&& forall|code: u32| map.contains_key(code) <==> table_entry(code) is Some
    &&& forall|code: u32| #[trigger]
        map.contains_key(code) ==> (map[code].0@, map[code].1@) == table_entry(code)->0
}

/// Builds the lookup table of the listed code points.
pub fn get_suspicious_chars() -> (map: HashMap<u32, (&'static str, &'static str)>)
    ensures
        is_suspicious_table(map@),
{
    let mut map: HashMap<u32, (&'static str, &'static str)> = HashMap::new();
    // Zero-width characters: invisible, yet part of the text.
    map.insert(0x200B, ("ZERO WIDTH SPACE", "Invisible character used to hide code"));
    map.insert(0x200C, ("ZERO WIDTH NON-JOINER", "Can alter code logic invisibly"));
    map.insert(0x200D, ("ZERO WIDTH JOINER", "Can alter code logic invisibly"));
    map.insert(0x2060, ("WORD JOINER", "Invisible joiner; often used to hide payloads"));
    map.insert(0xFEFF, ("ZERO WIDTH NO-BREAK SPACE", "BOM or invisible space"));

    // Bidirectional embeddings and overrides.
    map.insert(0x202A, ("LEFT-TO-RIGHT EMBEDDING", "Bidi control; can mislead code review"));
    map.insert(0x202B, ("RIGHT-TO-LEFT EMBEDDING", "Bidi control; can mislead code review"));
    map.insert(0x202C, ("POP DIRECTIONAL FORMATTING", "Bidi control; terminates embeddings/overrides"));
    map.insert(0x202D, ("LEFT-TO-RIGHT OVERRIDE", "Bidi override; can reorder displayed code"));
    map.insert(0x202E, ("RIGHT-TO-LEFT OVERRIDE", "Bidi override; can reorder displayed code"));

    // Bidirectional isolates.
    map.insert(0x2066, ("LEFT-TO-RIGHT ISOLATE", "Bidi isolate; can affect display order"));
    map.insert(0x2067, ("RIGHT-TO-LEFT ISOLATE", "Bidi isolate; can affect display order"));
    map.insert(0x2068, ("FIRST STRONG ISOLATE", "Bidi isolate; can affect display order"));
    map.insert(0x2069, ("POP DIRECTIONAL ISOLATE", "Bidi isolate terminator"));

    // Directional marks.
    map.insert(0x200E, ("LEFT-TO-RIGHT MARK", "Invisible directional marker"));
    map.insert(0x200F, ("RIGHT-TO-LEFT MARK", "Invisible directional marker"));
    map.insert(0x061C, ("ARABIC LETTER MARK", "Invisible directional marker"));

    // Variation selectors, numbered from zero.
    map.insert(0xFE00, ("VARIATION SELECTOR-0", "Can modify character appearance"));
    map.insert(0xFE01, ("VARIATION SELECTOR-1", "Can modify character appearance"));
    map.insert(0xFE02, ("VARIATION SELECTOR-2", "Can modify character appearance"));
    map.insert(0xFE03, ("VARIATION SELECTOR-3", "Can modify character appearance"));
    map.insert(0xFE04, ("VARIATION SELECTOR-4", "Can modify character appearance"));
    map.insert(0xFE05, ("VARIATION SELECTOR-5", "Can modify character appearance"));
    map.insert(0xFE06, ("VARIATION SELECTOR-6", "Can modify character appearance"));
    map.insert(0xFE07, ("VARIATION SELECTOR-7", "Can modify character appearance"));
    map.insert(0xFE08, ("VARIATION SELECTOR-8", "Can modify character appearance"));
    map.insert(0xFE09, ("VARIATION SELECTOR-9", "Can modify character appearance"));
    map.insert(0xFE0A, ("VARIATION SELECTOR-10", "Can modify character appearance"));
    map.insert(0xFE0B, ("VARIATION SELECTOR-11", "Can modify character appearance"));
    map.insert(0xFE0C, ("VARIATION SELECTOR-12", "Can modify character appearance"));
    map.insert(0xFE0D, ("VARIATION SELECTOR-13", "Can modify character appearance"));
    map.insert(0xFE0E, ("VARIATION SELECTOR-14", "Can modify character appearance"));
    map.insert(0xFE0F, ("VARIATION SELECTOR-15", "Can modify character appearance"));

    // Line and paragraph separators.
    map.insert(0x2028, ("LINE SEPARATOR", "Can break parsing/tokenization"));
    map.insert(0x2029, ("PARAGRAPH SEPARATOR", "Can break parsing/tokenization"));

    // Blanks that are no spaces.
    map.insert(0x3164, ("HANGUL FILLER", "Often renders as blank; used for obfuscation"));

    // Soft hyphen.
    map.insert(0x00AD, ("SOFT HYPHEN", "Invisible in most contexts; used for obfuscation"));

    // Non-breaking spaces.
    map.insert(0x00A0, ("NO-BREAK SPACE", "Non-ASCII whitespace; may bypass naive filters"));
    map.insert(0x202F, ("NARROW NO-BREAK SPACE", "Non-ASCII whitespace; may bypass naive filters"));
    map.insert(0x2007, ("FIGURE SPACE", "Non-ASCII whitespace; may bypass naive filters"));

    map
}

/// The first rule after the table: the private-use ranges. The upper bounds
/// of the two plane ranges are part of the contract as they stand; the middle
/// range, from 0xF0000 up to 0xFFFD, holds no code point.
pub open spec fn private_use_area(code: u32) -> bool {
    ||| 0xE000 <= code <= 0xF8FF
    ||| 0xF0000 <= code <= 0xFFFD
    ||| 0x100000 <= code <= 0x10FFFD
}

/// The second rule after the table: C0 controls but TAB, LF and CR, then DEL
/// and the C1 controls.
pub open spec fn suspicious_control_char(code: u32) -> bool {
    ||| code <= 0x001F && code != 0x0009 && code != 0x000A && code != 0x000D
    ||| 0x007F <= code <= 0x009F
}

/// The rationale given for a private-use character.
pub open spec fn private_use_description(code: u32) -> Seq<char> {
    "Private use character (U+"@ + code_point_hex(code)
        + ") - commonly used for payload hiding"@
}

/// The rationale given for a stray control character.
pub open spec fn control_description(code: u32) -> Seq<char> {
    "Suspicious control character (U+"@ + code_point_hex(code) + ")"@
}

/// The name and rationale under which `code` is flagged, if it is: the table
/// decides first, then the private-use ranges, then the control ranges.
pub open spec fn classify_spec(code: u32) -> Option<(Seq<char>, Seq<char>)> {
    if table_entry(code) is Some {
        table_entry(code)
    } else if private_use_area(code) {
        Some(("PRIVATE USE AREA"@, private_use_description(code)))
    } else if suspicious_control_char(code) {
        Some(("CONTROL CHARACTER"@, control_description(code)))
    } else {
        None
    }
}

/// Returns true if the code point is in one of the private-use ranges.
pub fn is_private_use_area(code: u32) -> (flagged: bool)
    ensures
        flagged == private_use_area(code),
{
    (code >= 0xE000 && code <= 0xF8FF) || (code >= 0xF0000 && code <= 0xFFFD) || (code
        >= 0x100000 && code <= 0x10FFFD)
}

/// Returns true if the code point is a C0 or C1 control character other than
/// TAB, LF and CR.
pub fn is_suspicious_control_char(code: u32) -> (flagged: bool)
    ensures
        flagged == suspicious_control_char(code),
{
    (code <= 0x001F && code != 0x0009 && code != 0x000A && code != 0x000D) || (code >= 0x007F
        && code <= 0x009F)
}

/// Why a code point is flagged.
#[derive(Debug)]
pub struct Classification {
    /// Short label, such as `ZERO WIDTH SPACE`.
    pub name: String,
    /// One sentence on why the code point is suspicious.
    pub description: String,
}

impl View for Classification {
    type V = (Seq<char>, Seq<char>);

    open spec fn view(&self) -> (Seq<char>, Seq<char>) {
        (self.name@, self.description@)
    }
}

/// The view of an optional classification.
pub open spec fn classification_view(found: Option<Classification>) -> Option<
    (Seq<char>, Seq<char>),
> {
    match found {
        Some(c) => Some(c@),
        None => None,
    }
}

/// The classifier with its lookup table built once.
pub struct Classifier {
    table: HashMap<u32, (&'static str, &'static str)>,
}

impl Classifier {
    #[verifier::type_invariant]
    spec fn holds_table(self) -> bool {
        is_suspicious_table(self.table@)
    }

    /// A classifier whose lookup table holds exactly the listed code points.
    pub fn new() -> (classifier: Self)
        ensures
            is_suspicious_table(classifier.entries()),
    {
        Classifier { table: get_suspicious_chars() }
    }

    /// What the lookup table of this classifier holds.
    pub closed spec fn entries(&self) -> Map<u32, (&'static str, &'static str)> {
        self.table@
    }

    /// Classifies one code point.
    pub fn classify(&self, code: u32) -> (found: Option<Classification>)
        ensures
            classification_view(found) == classify_spec(code),
    {
        proof {
            use_type_invariant(self);
        }
        match self.table.get(&code) {
            Some(entry) => {
                assert(self.table@.contains_key(code));
                Some(Classification { name: entry.0.to_string(), description: entry.1.to_string() })
            },
            None => {
                if is_private_use_area(code) {
                    let mut description = "Private use character (U+".to_string();
                    push_code_point_hex(&mut description, code);
                    description.append(") - commonly used for payload hiding");
                    Some(Classification { name: "PRIVATE USE AREA".to_string(), description })
                } else if is_suspicious_control_char(code) {
                    let mut description = "Suspicious control character (U+".to_string();
                    push_code_point_hex(&mut description, code);
                    description.append(")");
                    Some(Classification { name: "CONTROL CHARACTER".to_string(), description })
                } else {
                    None
                }
            },
        }
    }
}

/// The table and the two ranges do not overlap: at most one rule applies to a
/// code point.
pub proof fn rules_are_exclusive(code: u32)
    ensures
        !(table_entry(code) is Some && private_use_area(code)),
        !(table_entry(code) is Some && suspicious_control_char(code)),
        !(private_use_area(code) && suspicious_control_char(code)),
{
}

/// A listed code point is classified by its own table entry.
pub proof fn listed_is_classified_by_table(code: u32)
    requires
        table_entry(code) is Some,
    ensures
        classify_spec(code) == table_entry(code),
{
}

/// What tells the names apart: the length, the first and the last character.
spec fn name_mark(name: Seq<char>) -> (nat, char, char) {
    (name.len(), name[0], name[name.len() - 1])
}

/// The name of a table entry belongs to that code point alone: whatever else
/// is classified under the same name is the same code point.
pub proof fn table_names_are_unique(listed: u32, other: u32)
    requires
        table_entry(listed) matches Some(entry) && classify_spec(other) matches Some(found)
            && found.0 == entry.0,
    ensures
        other == listed,
{
    assert(name_mark("ZERO WIDTH SPACE"@) == (16nat, 'Z', 'E')) by {
        reveal_strlit("ZERO WIDTH SPACE");
    }
    assert(name_mark("ZERO WIDTH NON-JOINER"@) == (21nat, 'Z', 'R')) by {
        reveal_strlit("ZERO WIDTH NON-JOINER");
    }
    assert(name_mark("ZERO WIDTH JOINER"@) == (17nat, 'Z', 'R')) by {
        reveal_strlit("ZERO WIDTH JOINER");
    }
    assert(name_mark("WORD JOINER"@) == (11nat, 'W', 'R')) by {
        reveal_strlit("WORD JOINER");
    }
    assert(name_mark("ZERO WIDTH NO-BREAK SPACE"@) == (25nat, 'Z', 'E')) by {
        reveal_strlit("ZERO WIDTH NO-BREAK SPACE");
    }
    assert(name_mark("LEFT-TO-RIGHT EMBEDDING"@) == (23nat, 'L', 'G')) by {
        reveal_strlit("LEFT-TO-RIGHT EMBEDDING");
    }
    assert(name_mark("RIGHT-TO-LEFT EMBEDDING"@) == (23nat, 'R', 'G')) by {
        reveal_strlit("RIGHT-TO-LEFT EMBEDDING");
    }
    assert(name_mark("POP DIRECTIONAL FORMATTING"@) == (26nat, 'P', 'G')) by {
        reveal_strlit("POP DIRECTIONAL FORMATTING");
    }
    assert(name_mark("LEFT-TO-RIGHT OVERRIDE"@) == (22nat, 'L', 'E')) by {
        reveal_strlit("LEFT-TO-RIGHT OVERRIDE");
    }
    assert(name_mark("RIGHT-TO-LEFT OVERRIDE"@) == (22nat, 'R', 'E')) by {
        reveal_strlit("RIGHT-TO-LEFT OVERRIDE");
    }
    assert(name_mark("LEFT-TO-RIGHT ISOLATE"@) == (21nat, 'L', 'E')) by {
        reveal_strlit("LEFT-TO-RIGHT ISOLATE");
    }
    assert(name_mark("RIGHT-TO-LEFT ISOLATE"@) == (21nat, 'R', 'E')) by {
        reveal_strlit("RIGHT-TO-LEFT ISOLATE");
    }
    assert(name_mark("FIRST STRONG ISOLATE"@) == (20nat, 'F', 'E')) by {
        reveal_strlit("FIRST STRONG ISOLATE");
    }
    assert(name_mark("POP DIRECTIONAL ISOLATE"@) == (23nat, 'P', 'E')) by {
        reveal_strlit("POP DIRECTIONAL ISOLATE");
    }
    assert(name_mark("LEFT-TO-RIGHT MARK"@) == (18nat, 'L', 'K')) by {
        reveal_strlit("LEFT-TO-RIGHT MARK");
    }
    assert(name_mark("RIGHT-TO-LEFT MARK"@) == (18nat, 'R', 'K')) by {
        reveal_strlit("RIGHT-TO-LEFT MARK");
    }
    assert(name_mark("ARABIC LETTER MARK"@) == (18nat, 'A', 'K')) by {
        reveal_strlit("ARABIC LETTER MARK");
    }
    assert(name_mark("VARIATION SELECTOR-0"@) == (20nat, 'V', '0')) by {
        reveal_strlit("VARIATION SELECTOR-0");
    }
    assert(name_mark("VARIATION SELECTOR-1"@) == (20nat, 'V', '1')) by {
        reveal_strlit("VARIATION SELECTOR-1");
    }
    assert(name_mark("VARIATION SELECTOR-2"@) == (20nat, 'V', '2')) by {
        reveal_strlit("VARIATION SELECTOR-2");
    }
    assert(name_mark("VARIATION SELECTOR-3"@) == (20nat, 'V', '3')) by {
        reveal_strlit("VARIATION SELECTOR-3");
    }
    assert(name_mark("VARIATION SELECTOR-4"@) == (20nat, 'V', '4')) by {
        reveal_strlit("VARIATION SELECTOR-4");
    }
    assert(name_mark("VARIATION SELECTOR-5"@) == (20nat, 'V', '5')) by {
        reveal_strlit("VARIATION SELECTOR-5");
    }
    assert(name_mark("VARIATION SELECTOR-6"@) == (20nat, 'V', '6')) by {
        reveal_strlit("VARIATION SELECTOR-6");
    }
    assert(name_mark("VARIATION SELECTOR-7"@) == (20nat, 'V', '7')) by {
        reveal_strlit("VARIATION SELECTOR-7");
    }
    assert(name_mark("VARIATION SELECTOR-8"@) == (20nat, 'V', '8')) by {
        reveal_strlit("VARIATION SELECTOR-8");
    }
    assert(name_mark("VARIATION SELECTOR-9"@) == (20nat, 'V', '9')) by {
        reveal_strlit("VARIATION SELECTOR-9");
    }
    assert(name_mark("VARIATION SELECTOR-10"@) == (21nat, 'V', '0')) by {
        reveal_strlit("VARIATION SELECTOR-10");
    }
    assert(name_mark("VARIATION SELECTOR-11"@) == (21nat, 'V', '1')) by {
        reveal_strlit("VARIATION SELECTOR-11");
    }
    assert(name_mark("VARIATION SELECTOR-12"@) == (21nat, 'V', '2')) by {
        reveal_strlit("VARIATION SELECTOR-12");
    }
    assert(name_mark("VARIATION SELECTOR-13"@) == (21nat, 'V', '3')) by {
        reveal_strlit("VARIATION SELECTOR-13");
    }
    assert(name_mark("VARIATION SELECTOR-14"@) == (21nat, 'V', '4')) by {
        reveal_strlit("VARIATION SELECTOR-14");
    }
    assert(name_mark("VARIATION SELECTOR-15"@) == (21nat, 'V', '5')) by {
        reveal_strlit("VARIATION SELECTOR-15");
    }
    assert(name_mark("LINE SEPARATOR"@) == (14nat, 'L', 'R')) by {
        reveal_strlit("LINE SEPARATOR");
    }
    assert(name_mark("PARAGRAPH SEPARATOR"@) == (19nat, 'P', 'R')) by {
        reveal_strlit("PARAGRAPH SEPARATOR");
    }
    assert(name_mark("HANGUL FILLER"@) == (13nat, 'H', 'R')) by {
        reveal_strlit("HANGUL FILLER");
    }
    assert(name_mark("SOFT HYPHEN"@) == (11nat, 'S', 'N')) by {
        reveal_strlit("SOFT HYPHEN");
    }
    assert(name_mark("NO-BREAK SPACE"@) == (14nat, 'N', 'E')) by {
        reveal_strlit("NO-BREAK SPACE");
    }
    assert(name_mark("NARROW NO-BREAK SPACE"@) == (21nat, 'N', 'E')) by {
        reveal_strlit("NARROW NO-BREAK SPACE");
    }
    assert(name_mark("FIGURE SPACE"@) == (12nat, 'F', 'E')) by {
        reveal_strlit("FIGURE SPACE");
    }
    assert(name_mark("PRIVATE USE AREA"@) == (16nat, 'P', 'A')) by {
        reveal_strlit("PRIVATE USE AREA");
    }
    assert(name_mark("CONTROL CHARACTER"@) == (17nat, 'C', 'R')) by {
        reveal_strlit("CONTROL CHARACTER");
    }
    assert(name_mark(classify_spec(other).unwrap().0) == name_mark(
        table_entry(listed).unwrap().0,
    ));
}

/// Every code point of the private-use ranges is classified as such.
pub proof fn private_use_is_classified(code: u32)
    requires
        private_use_area(code),
    ensures
        classify_spec(code) == Some(("PRIVATE USE AREA"@, private_use_description(code))),
{
}

/// Every control character but TAB, LF and CR is classified as such.
pub proof fn control_is_classified(code: u32)
    requires
        suspicious_control_char(code),
    ensures
        classify_spec(code) == Some(("CONTROL CHARACTER"@, control_description(code))),
{
}

/// TAB, LF and CR are never flagged.
pub proof fn common_whitespace_is_clean()
    ensures
        classify_spec(0x0009) is None,
        classify_spec(0x000A) is None,
        classify_spec(0x000D) is None,
{
}

} // verus!
