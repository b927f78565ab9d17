//! The report: detections as text for a reader, and the exit status of a run.
//!
//! The text groups the detections by file. The files come in sorted order,
//! each once; within a file the detections keep the order in which they were
//! found.

use crate::scanner::{detection_views, Detection, DetectionView};
use crate::text::{
    code_point_hex, decimal, lemma_text_order, push_code_point_hex, push_decimal, str_eq, str_lt,
    text_lt, texts,
};
use vstd::prelude::*;
use vstd::string::*;

verus! {

/// `files` with `file` put in its place: before the entries that sort after
/// it, and not at all where it is listed already.
pub open spec fn insert_sorted(files: Seq<Seq<char>>, file: Seq<char>) -> Seq<Seq<char>>
    decreases files.len(),
{
    if files.len() == 0 {
        seq![file]
    } else if files.last() == file {
        files
    } else if text_lt(files.last(), file) {
        files.push(file)
    } else {
        insert_sorted(files.drop_last(), file).push(files.last())
    }
}

/// The files of the first `n` detections, sorted and each once.
pub open spec fn listed_files(detections: Seq<DetectionView>, n: int) -> Seq<Seq<char>>
    decreases n,
{
    if n <= 0 {
        Seq::empty()
    } else {
        insert_sorted(listed_files(detections, n - 1), detections[n - 1].file)
    }
}

/// The two lines that report one detection.
pub open spec fn detection_text(d: DetectionView) -> Seq<char> {
    "    Line "@ + decimal(d.line) + ":"@ + decimal(d.char_index) + " (byte "@ + decimal(
        d.byte_offset,
    ) + ") - "@ + d.name + " (U+"@ + code_point_hex(d.code) + ")\n"@ + "  "@ + d.description
        + "\n"@
}

/// The lines for those of the first `n` detections that are in `file`.
pub open spec fn file_lines(detections: Seq<DetectionView>, file: Seq<char>, n: int) -> Seq<char>
    decreases n,
{
    if n <= 0 {
        Seq::empty()
    } else if detections[n - 1].file == file {
        file_lines(detections, file, n - 1) + detection_text(detections[n - 1])
    } else {
        file_lines(detections, file, n - 1)
    }
}

/// The group of one file: its path, the lines of its detections, and an empty
/// line.
pub open spec fn group_text(detections: Seq<DetectionView>, file: Seq<char>) -> Seq<char> {
    file + "\n"@ + file_lines(detections, file, detections.len() as int) + "\n"@
}

/// The groups of the first `k` of `files`.
pub open spec fn groups_text(
    detections: Seq<DetectionView>,
    files: Seq<Seq<char>>,
    k: int,
) -> Seq<char>
    decreases k,
{
    if k <= 0 {
        Seq::empty()
    } else {
        groups_text(detections, files, k - 1) + group_text(detections, files[k - 1])
    }
}

/// The report on `detections` as text.
pub open spec fn report_text(detections: Seq<DetectionView>) -> Seq<char> {
    if detections.len() == 0 {
        "No suspicious invisible characters detected."@
    } else {
        let files = listed_files(detections, detections.len() as int);
        "Found "@ + decimal(detections.len()) + " suspicious character(s):\n\n"@ + groups_text(
            detections,
            files,
            files.len() as int,
        )
    }
}

/// Whether each entry sorts strictly before those after it.
pub open spec fn strictly_sorted(files: Seq<Seq<char>>) -> bool {
    forall|i: int, j: int| 0 <= i < j < files.len() ==> text_lt(files[i], files[j])
}

/// Entries above the place of `file` stay where they are.
proof fn lemma_insert_below(files: Seq<Seq<char>>, file: Seq<char>, p: int)
    requires
        0 <= p <= files.len(),
        forall|k: int| p <= k < files.len() ==> files[k] != file && !text_lt(files[k], file),
    ensures
        insert_sorted(files, file) == insert_sorted(files.take(p), file) + files.skip(p),
    decreases files.len(),
{
    if p == files.len() {
        assert(files.take(p) == files);
        assert(files.skip(p) == Seq::<Seq<char>>::empty());
        assert(insert_sorted(files, file) + Seq::<Seq<char>>::empty() == insert_sorted(
            files,
            file,
        ));
    } else {
        let shorter = files.drop_last();
        lemma_insert_below(shorter, file, p);
        assert(shorter.take(p) == files.take(p));
        assert(shorter.skip(p).push(files.last()) == files.skip(p));
        assert((insert_sorted(files.take(p), file) + shorter.skip(p)).push(files.last())
            == insert_sorted(files.take(p), file) + files.skip(p));
    }
}

/// Putting a file in its place adds that file and no other.
pub proof fn lemma_insert_members(files: Seq<Seq<char>>, file: Seq<char>, f: Seq<char>)
    ensures
        insert_sorted(files, file).contains(f) <==> (f == file || files.contains(f)),
    decreases files.len(),
{
    let out = insert_sorted(files, file);
    if files.len() == 0 {
        assert(out[0] == file);
    } else if files.last() == file {
        assert(files[files.len() - 1] == file);
    } else if text_lt(files.last(), file) {
        assert(out[out.len() - 1] == file);
        if out.contains(f) {
            let k = choose|k: int| 0 <= k < out.len() && out[k] == f;
            if k < files.len() {
                assert(files[k] == f);
            }
        }
        if files.contains(f) {
            let k = choose|k: int| 0 <= k < files.len() && files[k] == f;
            assert(out[k] == f);
        }
    } else {
        let shorter = files.drop_last();
        let inner = insert_sorted(shorter, file);
        lemma_insert_members(shorter, file, f);
        if out.contains(f) {
            let k = choose|k: int| 0 <= k < out.len() && out[k] == f;
            if k < inner.len() {
                assert(inner[k] == f);
                if f != file {
                    let m = choose|m: int| 0 <= m < shorter.len() && shorter[m] == f;
                    assert(files[m] == f);
                }
            } else {
                assert(files[files.len() - 1] == f);
            }
        }
        if f == file || files.contains(f) {
            if f != file {
                let m = choose|m: int| 0 <= m < files.len() && files[m] == f;
                if m < shorter.len() {
                    assert(shorter[m] == f);
                }
            }
            if f == file || shorter.contains(f) {
                let k = choose|k: int| 0 <= k < inner.len() && inner[k] == f;
                assert(out[k] == f);
            } else {
                assert(out[out.len() - 1] == f);
            }
        }
    }
}

/// Putting a file in its place keeps a sorted list sorted.
pub proof fn lemma_insert_sorted(files: Seq<Seq<char>>, file: Seq<char>)
    requires
        strictly_sorted(files),
    ensures
        strictly_sorted(insert_sorted(files, file)),
    decreases files.len(),
{
    let out = insert_sorted(files, file);
    if files.len() == 0 {
    } else if files.last() == file {
    } else if text_lt(files.last(), file) {
        assert forall|i: int, j: int| 0 <= i < j < out.len() implies text_lt(out[i], out[j]) by {
            if j == files.len() && i < files.len() - 1 {
                lemma_text_order(files[i], files.last(), file);
            }
        }
    } else {
        let shorter = files.drop_last();
        let last = files.last();
        assert(strictly_sorted(shorter)) by {
            assert forall|i: int, j: int| 0 <= i < j < shorter.len() implies text_lt(
                shorter[i],
                shorter[j],
            ) by {
                assert(shorter[i] == files[i] && shorter[j] == files[j]);
            }
        }
        lemma_insert_sorted(shorter, file);
        let inner = insert_sorted(shorter, file);
        lemma_text_order(last, file, file);
        assert(text_lt(file, last));
        assert forall|i: int, j: int| 0 <= i < j < out.len() implies text_lt(out[i], out[j]) by {
            if j == inner.len() {
                assert(out[i] == inner[i]);
                assert(inner.contains(inner[i]));
                lemma_insert_members(shorter, file, inner[i]);
                if inner[i] != file {
                    let k = choose|k: int| 0 <= k < shorter.len() && shorter[k] == inner[i];
                    assert(files[k] == inner[i]);
                }
            } else {
                assert(out[i] == inner[i] && out[j] == inner[j]);
            }
        }
    }
}

/// The files of a report are sorted, each is listed once, and they are the
/// files of the detections, no more and no fewer.
pub proof fn listed_files_are_sorted_and_complete(detections: Seq<DetectionView>, n: int)
    requires
        0 <= n <= detections.len(),
    ensures
        strictly_sorted(listed_files(detections, n)),
        forall|f: Seq<char>|
            listed_files(detections, n).contains(f) <==> exists|k: int|
                0 <= k < n && #[trigger] detections[k].file == f,
    decreases n,
{
    if n > 0 {
        listed_files_are_sorted_and_complete(detections, n - 1);
        let before = listed_files(detections, n - 1);
        let now = listed_files(detections, n);
        let added = detections[n - 1].file;
        lemma_insert_sorted(before, added);
        assert forall|f: Seq<char>| now.contains(f) <==> exists|k: int|
            0 <= k < n && #[trigger] detections[k].file == f by {
            lemma_insert_members(before, added, f);
            if now.contains(f) {
                if f != added {
                    assert(before.contains(f));
                    let k = choose|k: int| 0 <= k < n - 1 && #[trigger] detections[k].file == f;
                    assert(0 <= k < n && detections[k].file == f);
                }
            }
            if exists|k: int| 0 <= k < n && #[trigger] detections[k].file == f {
                let k = choose|k: int| 0 <= k < n && #[trigger] detections[k].file == f;
                if k < n - 1 {
                    assert(before.contains(f));
                }
            }
        }
    }
}

/// Puts `file` in its place among the sorted `files`.
fn note_file(files: &mut Vec<String>, file: &str)
    ensures
        texts(final(files)@) == insert_sorted(texts(old(files)@), file@),
{
    let ghost before = texts(files@);
    let mut p: usize = files.len();
    while p > 0
        invariant
            p <= files.len(),
            texts(files@) == before,
            forall|k: int| p <= k < before.len() ==> before[k] != file@ && !text_lt(before[k], file@),
        ensures
            p <= files.len(),
            texts(files@) == before,
            forall|k: int| p <= k < before.len() ==> before[k] != file@ && !text_lt(before[k], file@),
            p == 0 || text_lt(before[p - 1], file@),
        decreases p,
    {
        assert(before[p - 1] == files@[p - 1]@);
        if str_eq(files[p - 1].as_str(), file) {
            proof {
                lemma_insert_below(before, file@, p as int);
                assert(before.take(p as int).last() == file@);
                assert(before.take(p as int) + before.skip(p as int) == before);
            }
            return ;
        }
        if str_lt(files[p - 1].as_str(), file) {
            break ;
        }
        p -= 1;
    }
    files.insert(p, file.to_string());
    proof {
        lemma_insert_below(before, file@, p as int);
        let head = before.take(p as int);
        if p > 0 {
            assert(head.last() == before[p - 1]);
            lemma_text_order(head.last(), file@, file@);
        }
        assert(insert_sorted(head, file@) == head.push(file@));
        assert(texts(files@) == head.push(file@) + before.skip(p as int));
    }
}

/// Appends the two lines that report `d`.
fn push_detection_text(out: &mut String, d: &Detection)
    ensures
        final(out)@ == old(out)@ + detection_text(d@),
{
    out.append("    Line ");
    push_decimal(out, d.line);
    out.append(":");
    push_decimal(out, d.char_index);
    out.append(" (byte ");
    push_decimal(out, d.byte_offset);
    out.append(") - ");
    out.append(d.name.as_str());
    out.append(" (U+");
    push_code_point_hex(out, d.code);
    out.append(")\n");
    out.append("  ");
    out.append(d.description.as_str());
    out.append("\n");
    assert(out@ =~= old(out)@ + detection_text(d@));
}

/// Format detections as human-readable text, grouped by file, the files in
/// sorted order.
pub fn format_text_output(detections: &[Detection]) -> (output: String)
    ensures
        output@ == report_text(detection_views(detections@)),
{
    let ghost views = detection_views(detections@);
    if detections.len() == 0 {
        return "No suspicious invisible characters detected.".to_string();
    }
    let mut output = "Found ".to_string();
    push_decimal(&mut output, detections.len());
    output.append(" suspicious character(s):\n\n");
    let ghost heading = output@;

    let mut files: Vec<String> = Vec::new();
    let mut n: usize = 0;
    proof {
        assert(texts(files@) == Seq::<Seq<char>>::empty());
    }
    while n < detections.len()
        invariant
            n <= detections.len(),
            views == detection_views(detections@),
            texts(files@) == listed_files(views, n as int),
        decreases detections.len() - n,
    {
        assert(views[n as int] == detections@[n as int]@);
        note_file(&mut files, detections[n].file.as_str());
        n += 1;
    }

    let mut k: usize = 0;
    while k < files.len()
        invariant
            k <= files.len(),
            views == detection_views(detections@),
            output@ == heading + groups_text(views, texts(files@), k as int),
        decreases files.len() - k,
    {
        let file = files[k].as_str();
        let ghost before_group = output@;
        assert(texts(files@)[k as int] == file@);
        output.append(file);
        output.append("\n");
        let ghost before_lines = output@;
        let mut i: usize = 0;
        while i < detections.len()
            invariant
                i <= detections.len(),
                views == detection_views(detections@),
                output@ == before_lines + file_lines(views, file@, i as int),
            decreases detections.len() - i,
        {
            assert(views[i as int] == detections@[i as int]@);
            if str_eq(detections[i].file.as_str(), file) {
                push_detection_text(&mut output, &detections[i]);
                assert(output@ =~= before_lines + (file_lines(views, file@, i as int)
                    + detection_text(views[i as int])));
            }
            i += 1;
        }
        output.push('\n');
        proof {
            reveal_strlit("\n");
            assert("\n"@ =~= seq!['\n']);
            assert(output@ =~= before_group + group_text(views, file@));
            assert(output@ =~= heading + (groups_text(views, texts(files@), k as int)
                + group_text(views, file@)));
        }
        k += 1;
    }
    assert(output@ =~= "Found "@ + decimal(views.len()) + " suspicious character(s):\n\n"@
        + groups_text(views, texts(files@), files@.len() as int));
    output
}

/// The exit status of a run that came to its end: 2 where strict mode is on
/// and a file was skipped, else 1 where something was detected, else 0.
pub open spec fn exit_status(fail_on_skip: bool, skipped: nat, detections: nat) -> int {
    if fail_on_skip && skipped > 0 {
        2
    } else if detections > 0 {
        1
    } else {
        0
    }
}

/// The exit status of a run that could not start or could not report.
pub open spec fn fatal_exit_status() -> int {
    2
}

/// Chooses the exit status of a run that came to its end.
pub fn exit_code(fail_on_skip: bool, skipped: usize, detections: usize) -> (code: i32)
    ensures
        code == exit_status(fail_on_skip, skipped as nat, detections as nat),
{
    if fail_on_skip && skipped > 0 {
        2
    } else if detections > 0 {
        1
    } else {
        0
    }
}

/// The exit status of a run that ended on a fatal error.
pub fn fatal_exit_code() -> (code: i32)
    ensures
        code == fatal_exit_status(),
{
    2
}

/// Finding something and failing are told apart: a run that ends on
/// detections alone never has the status of a failure, and a clean run has
/// neither.
pub proof fn exit_statuses_are_distinct(fail_on_skip: bool, skipped: nat, detections: nat)
    ensures
        exit_status(fail_on_skip, skipped, detections) == 0 <==> (detections == 0 && !(
        fail_on_skip && skipped > 0)),
        exit_status(fail_on_skip, skipped, detections) == fatal_exit_status() <==> (fail_on_skip
            && skipped > 0),
{
}

} // verus!
