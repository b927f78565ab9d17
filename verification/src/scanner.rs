//! The scanner: one pass over a text that reports every flagged character
//! with its place in the file.
//!
//! A place is given three ways, all counted from one: the line, the character
//! within the line, and the byte within the file's UTF-8 encoding. Only `\n`
//! ends a line. The line break itself is never reported and never counted as
//! a character of a line.

use crate::classifier::{classify_spec, Classifier};
use crate::text::{lemma_encode_len, lemma_encode_step};
use vstd::prelude::*;
use vstd::utf8::*;

verus! {

/// A single detection record describing one occurrence of a flagged code
/// point.
#[derive(Debug, Clone)]
pub struct Detection {
    /// File path where the character was found, as it was handed in.
    pub file: String,
    /// Line number in the file, counted from one.
    pub line: usize,
    /// Offset of the character's first byte in the file, counted from one.
    pub byte_offset: usize,
    /// Position of the character within its line, counted from one.
    pub char_index: usize,
    /// The character itself as a string.
    pub char: String,
    /// Unicode scalar value of the character.
    pub code: u32,
    /// Name or classification label.
    pub name: String,
    /// A short explanation of why this code point is flagged.
    pub description: String,
}

/// What a detection says, as plain mathematical values.
pub struct DetectionView {
    pub file: Seq<char>,
    pub line: nat,
    pub byte_offset: nat,
    pub char_index: nat,
    pub char: Seq<char>,
    pub code: u32,
    pub name: Seq<char>,
    pub description: Seq<char>,
}

impl View for Detection {
    type V = DetectionView;

    open spec fn view(&self) -> DetectionView {
        DetectionView {
            file: self.file@,
            line: self.line as nat,
            byte_offset: self.byte_offset as nat,
            char_index: self.char_index as nat,
            char: self.char@,
            code: self.code,
            name: self.name@,
            description: self.description@,
        }
    }
}

/// The views of a sequence of detections.
pub open spec fn detection_views(detections: Seq<Detection>) -> Seq<DetectionView> {
    detections.map_values(|d: Detection| d@)
}

/// The number of line breaks among the first `i` characters of `text`.
pub open spec fn line_breaks_before(text: Seq<char>, i: int) -> nat
    decreases i,
{
    if i <= 0 {
        0
    } else if text[i - 1] == '\n' {
        line_breaks_before(text, i - 1) + 1
    } else {
        line_breaks_before(text, i - 1)
    }
}

/// Where the line that holds position `i` begins: just after the last line
/// break before `i`, or at the start of the text.
pub open spec fn line_start(text: Seq<char>, i: int) -> int
    decreases i,
{
    if i <= 0 {
        0
    } else if text[i - 1] == '\n' {
        i
    } else {
        line_start(text, i - 1)
    }
}

/// The line number of position `i`.
pub open spec fn line_of(text: Seq<char>, i: int) -> nat {
    line_breaks_before(text, i) + 1
}

/// The position within its line of the character at `i`.
pub open spec fn char_index_of(text: Seq<char>, i: int) -> nat {
    (i - line_start(text, i) + 1) as nat
}

/// The byte offset of the character at `i`: one more than the number of bytes
/// that encode the characters before it.
pub open spec fn byte_offset_of(text: Seq<char>, i: int) -> nat {
    encode_utf8(text.take(i)).len() + 1
}

/// Whether the character at `i` is reported: it is no line break, and the
/// classifier flags it.
pub open spec fn is_flagged(text: Seq<char>, i: int) -> bool {
    text[i] != '\n' && classify_spec(text[i] as u32) is Some
}

/// The detection that reports the character at `i`.
pub open spec fn detection_at(text: Seq<char>, file: Seq<char>, i: int) -> DetectionView {
    DetectionView {
        file,
        line: line_of(text, i),
        byte_offset: byte_offset_of(text, i),
        char_index: char_index_of(text, i),
        char: seq![text[i]],
        code: text[i] as u32,
        name: classify_spec(text[i] as u32).unwrap().0,
        description: classify_spec(text[i] as u32).unwrap().1,
    }
}

/// The detections for the flagged characters among the first `n`, in the
/// order of the text.
pub open spec fn detections_in(text: Seq<char>, file: Seq<char>, n: int) -> Seq<DetectionView>
    decreases n,
{
    if n <= 0 {
        Seq::empty()
    } else if is_flagged(text, n - 1) {
        detections_in(text, file, n - 1).push(detection_at(text, file, n - 1))
    } else {
        detections_in(text, file, n - 1)
    }
}

/// What a scan of `text` reports: one detection for each flagged character,
/// in the order of the text.
pub open spec fn scan(text: Seq<char>, file: Seq<char>) -> Seq<DetectionView> {
    detections_in(text, file, text.len() as int)
}

/// What holds of every detection that a scan produces.
pub open spec fn is_sound(d: DetectionView) -> bool {
    &&& d.line >= 1
    &&& d.char_index >= 1
    &&& d.byte_offset >= 1
    &&& d.char.len() == 1
    &&& d.char[0] != '\n'
    &&& d.char[0] as u32 == d.code
    &&& classify_spec(d.code) == Some((d.name, d.description))
}

/// Line breaks and line starts stay within the characters passed so far.
pub proof fn lemma_line_bounds(text: Seq<char>, i: int)
    requires
        0 <= i,
    ensures
        line_breaks_before(text, i) <= i,
        0 <= line_start(text, i) <= i,
    decreases i,
{
    if i > 0 {
        lemma_line_bounds(text, i - 1);
    }
}

/// The first character of a text is on line one, first in its line, at byte
/// one.
pub proof fn first_position(text: Seq<char>)
    ensures
        line_of(text, 0) == 1,
        char_index_of(text, 0) == 1,
        byte_offset_of(text, 0) == 1,
{
    assert(text.take(0) == Seq::<char>::empty());
}

/// A line break starts a new line: what follows it is on the next line, and
/// is the first character there.
pub proof fn line_break_starts_new_line(text: Seq<char>, i: int)
    requires
        0 <= i < text.len(),
        text[i] == '\n',
    ensures
        line_of(text, i + 1) == line_of(text, i) + 1,
        char_index_of(text, i + 1) == 1,
{
}

/// Any other character leaves the line as it is and moves one position on.
pub proof fn other_character_stays_on_line(text: Seq<char>, i: int)
    requires
        0 <= i < text.len(),
        text[i] != '\n',
    ensures
        line_of(text, i + 1) == line_of(text, i),
        char_index_of(text, i + 1) == char_index_of(text, i) + 1,
        byte_offset_of(text, i + 1) == byte_offset_of(text, i) + encode_scalar(
            text[i] as u32,
        ).len(),
{
    lemma_line_bounds(text, i);
    lemma_encode_step(text, i);
}

/// What holds of the detections among the first `n` characters.
proof fn lemma_detections_in(text: Seq<char>, file: Seq<char>, n: int)
    requires
        0 <= n <= text.len(),
    ensures
        detections_in(text, file, n).len() <= n,
        forall|k: int|
            0 <= k < detections_in(text, file, n).len() ==> {
                let d = #[trigger] detections_in(text, file, n)[k];
                &&& is_sound(d)
                &&& d.file == file
                &&& d.byte_offset <= encode_utf8(text.take(n)).len()
                &&& exists|i: int|
                    0 <= i < n && is_flagged(text, i) && d == detection_at(text, file, i)
            },
        forall|j: int, k: int|
            0 <= j < k < detections_in(text, file, n).len() ==> detections_in(
                text,
                file,
                n,
            )[j].byte_offset < detections_in(text, file, n)[k].byte_offset,
        forall|i: int|
            0 <= i < n && is_flagged(text, i) ==> detections_in(text, file, n).contains(
                #[trigger] detection_at(text, file, i),
            ),
    decreases n,
{
    if n > 0 {
        lemma_detections_in(text, file, n - 1);
        lemma_encode_step(text, n - 1);
        lemma_line_bounds(text, n - 1);
        let before = detections_in(text, file, n - 1);
        let now = detections_in(text, file, n);
        let last = detection_at(text, file, n - 1);
        assert forall|k: int| 0 <= k < now.len() implies {
            let d = #[trigger] now[k];
            &&& is_sound(d)
            &&& d.file == file
            &&& d.byte_offset <= encode_utf8(text.take(n)).len()
            &&& exists|i: int| 0 <= i < n && is_flagged(text, i) && d == detection_at(text, file, i)
        } by {
            if k < before.len() {
                let d = before[k];
                assert(now[k] == d);
                let i = choose|i: int|
                    0 <= i < n - 1 && is_flagged(text, i) && d == detection_at(text, file, i);
                assert(0 <= i < n && is_flagged(text, i) && d == detection_at(text, file, i));
            } else {
                assert(now[k] == last);
                assert(is_flagged(text, n - 1));
            }
        }
        assert forall|i: int| 0 <= i < n && is_flagged(text, i) implies now.contains(
            #[trigger] detection_at(text, file, i),
        ) by {
            if i < n - 1 {
                let k = choose|k: int|
                    0 <= k < before.len() && before[k] == detection_at(text, file, i);
                assert(now[k] == detection_at(text, file, i));
            } else {
                assert(now[now.len() - 1] == detection_at(text, file, i));
            }
        }
    }
}

/// Every detection of a scan is sound, names the file that was scanned, and
/// reports a flagged character of the text; the byte offsets rise strictly
/// from one detection to the next.
pub proof fn scan_is_sound_and_ordered(text: Seq<char>, file: Seq<char>)
    ensures
        forall|k: int|
            0 <= k < scan(text, file).len() ==> {
                let d = #[trigger] scan(text, file)[k];
                &&& is_sound(d)
                &&& d.file == file
                &&& exists|i: int|
                    0 <= i < text.len() && is_flagged(text, i) && d == detection_at(
                        text,
                        file,
                        i,
                    )
            },
        forall|j: int, k: int|
            0 <= j < k < scan(text, file).len() ==> scan(text, file)[j].byte_offset < scan(
                text,
                file,
            )[k].byte_offset,
{
    lemma_detections_in(text, file, text.len() as int);
}

/// Every flagged character of the text is reported.
pub proof fn scan_reports_each_flagged(text: Seq<char>, file: Seq<char>, i: int)
    requires
        0 <= i < text.len(),
        is_flagged(text, i),
    ensures
        scan(text, file).contains(detection_at(text, file, i)),
{
    lemma_detections_in(text, file, text.len() as int);
}

/// A scan depends on the content and the path alone: any two results of
/// scanning the same input say the same.
pub proof fn scan_is_repeatable(
    first: Seq<Detection>,
    second: Seq<Detection>,
    text: Seq<char>,
    file: Seq<char>,
)
    requires
        detection_views(first) == scan(text, file),
        detection_views(second) == scan(text, file),
    ensures
        detection_views(first) == detection_views(second),
{
}

/// Scan file content for suspicious invisible and formatting characters.
///
/// The characters are visited once, in order. The result holds one detection
/// per flagged character and nothing else.
pub fn detect_invisible_characters(content: &str, file_path: &str) -> (detections: Vec<Detection>)
    ensures
        detection_views(detections@) == scan(content@, file_path@),
{
    let classifier = Classifier::new();
    let mut detections: Vec<Detection> = Vec::new();
    let total = content.as_bytes().len();

    let mut line_breaks: usize = 0;
    let mut char_index: usize = 0;
    let mut byte_i: usize = 0;

    proof {
        lemma_encode_len(content@);
        assert(content@.take(0) == Seq::<char>::empty());
    }

    for ch in it: content.chars()
        invariant
            it.seq() == content@,
            total == encode_utf8(content@).len(),
            content@.len() <= total,
            byte_i == encode_utf8(content@.take(it.index())).len(),
            line_breaks == line_breaks_before(content@, it.index()),
            char_index == it.index() - line_start(content@, it.index()),
            detection_views(detections@) == detections_in(content@, file_path@, it.index()),
    {
        let ghost i = it.index();
        let ghost found = detection_views(detections@);
        proof {
            lemma_encode_step(content@, i);
            lemma_line_bounds(content@, i);
        }
        let width = ch.len_utf8();
        if ch == '\n' {
            line_breaks += 1;
            char_index = 0;
        } else {
            char_index += 1;
            let code = ch as u32;
            match classifier.classify(code) {
                Some(class) => {
                    let mut text = String::new();
                    text.push(ch);
                    let detection = Detection {
                        file: file_path.to_string(),
                        line: line_breaks + 1,
                        byte_offset: byte_i + 1,
                        char_index,
                        char: text,
                        code,
                        name: class.name,
                        description: class.description,
                    };
                    proof {
                        assert(detection@.char == seq![content@[i]]);
                        assert(detection@ == detection_at(content@, file_path@, i));
                    }
                    detections.push(detection);
                    proof {
                        assert(detection_views(detections@) == found.push(
                            detection_at(content@, file_path@, i),
                        ));
                    }
                },
                None => {},
            }
        }
        byte_i += width;
    }
    detections
}

} // verus!
