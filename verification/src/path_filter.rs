//! The path filter: which candidate files are left out of a scan.
//!
//! A path is cut at every `/` and `\`. It is left out when one of the pieces
//! is, letter for letter, the name of a directory that is never scanned, or of
//! a build-output directory while those are not asked for. A piece that merely
//! contains such a name does not count.

use crate::text::{str_eq, texts};
use vstd::prelude::*;

verus! {

/// The characters at which a path is cut.
pub open spec fn is_separator(c: char) -> bool {
    c == '/' || c == '\\'
}

/// The pieces of `path` between separators, in order. There is always one
/// more piece than there are separators; a piece may be empty.
pub open spec fn components(path: Seq<char>) -> Seq<Seq<char>>
    decreases path.len(),
{
    if path.len() == 0 {
        seq![Seq::empty()]
    } else {
        let before = components(path.drop_last());
        if is_separator(path.last()) {
            before.push(Seq::empty())
        } else {
            before.drop_last().push(before.last().push(path.last()))
        }
    }
}

/// The directory names that are never scanned.
pub open spec fn is_ignored_name(name: Seq<char>) -> bool {
    ||| name == "node_modules"@
    ||| name == ".git"@
    ||| name == ".cargo"@
    ||| name == "target"@
    ||| name == ".vscode"@
}

/// The names of build-output directories.
pub open spec fn is_bundle_name(name: Seq<char>) -> bool {
    ||| name == "dist"@
    ||| name == "build"@
    ||| name == "out"@
    ||| name == ".next"@
    ||| name == ".nuxt"@
}

/// Whether a piece with this name keeps its path out of the scan.
pub open spec fn is_excluded_name(name: Seq<char>, scan_bundles: bool) -> bool {
    is_ignored_name(name) || (!scan_bundles && is_bundle_name(name))
}

/// Whether `path` is left out: some piece of it is an excluded name.
pub open spec fn should_ignore(path: Seq<char>, scan_bundles: bool) -> bool {
    exists|k: int|
        0 <= k < components(path).len() && is_excluded_name(
            #[trigger] components(path)[k],
            scan_bundles,
        )
}

/// A path always has at least one piece.
pub proof fn lemma_components_nonempty(path: Seq<char>)
    ensures
        components(path).len() >= 1,
    decreases path.len(),
{
    if path.len() > 0 {
        lemma_components_nonempty(path.drop_last());
    }
}

/// A path without a separator is its own single piece.
pub proof fn components_of_plain_name(name: Seq<char>)
    requires
        forall|i: int| 0 <= i < name.len() ==> !is_separator(name[i]),
    ensures
        components(name) == seq![name],
    decreases name.len(),
{
    if name.len() > 0 {
        let shorter = name.drop_last();
        assert forall|i: int| 0 <= i < shorter.len() implies !is_separator(shorter[i]) by {
            assert(shorter[i] == name[i]);
        }
        components_of_plain_name(shorter);
        assert(!is_separator(name.last()));
        assert(shorter.push(name.last()) == name);
        assert(seq![shorter].drop_last().push(shorter.push(name.last())) == seq![name]);
    } else {
        assert(name == Seq::<char>::empty());
    }
}

/// A separator cuts a path in two: the pieces of the whole are the pieces of
/// what stands before it, then the pieces of what stands after it.
pub proof fn components_split_at_separator(before: Seq<char>, separator: char, after: Seq<char>)
    requires
        is_separator(separator),
    ensures
        components(before + seq![separator] + after) == components(before) + components(after),
    decreases after.len(),
{
    let whole = before + seq![separator] + after;
    if after.len() == 0 {
        assert(whole.drop_last() == before);
        assert(whole.last() == separator);
        assert(components(after) == seq![Seq::<char>::empty()]);
        assert(components(before).push(Seq::empty()) == components(before) + components(after));
    } else {
        let shorter = after.drop_last();
        components_split_at_separator(before, separator, shorter);
        lemma_components_nonempty(shorter);
        assert(whole.drop_last() == before + seq![separator] + shorter);
        assert(whole.last() == after.last());
        let left = components(before);
        let right = components(shorter);
        let joined = left + right;
        assert(joined.last() == right.last());
        if is_separator(after.last()) {
            assert(joined.push(Seq::empty()) == left + right.push(Seq::empty()));
        } else {
            let grown = right.last().push(after.last());
            assert(joined.drop_last().push(grown) == left + right.drop_last().push(grown));
        }
    }
}

/// No piece of a path holds a separator.
pub proof fn components_hold_no_separator(path: Seq<char>, k: int, i: int)
    requires
        0 <= k < components(path).len(),
        0 <= i < components(path)[k].len(),
    ensures
        !is_separator(components(path)[k][i]),
    decreases path.len(),
{
    if path.len() > 0 {
        let before = components(path.drop_last());
        lemma_components_nonempty(path.drop_last());
        if is_separator(path.last()) {
            if k < before.len() {
                components_hold_no_separator(path.drop_last(), k, i);
            }
        } else if k < before.len() - 1 {
            components_hold_no_separator(path.drop_last(), k, i);
        } else if i < before.last().len() {
            components_hold_no_separator(path.drop_last(), k, i);
        }
    }
}

/// A path without a separator is left out exactly when it is itself an
/// excluded name.
pub proof fn plain_name_is_ignored_iff_excluded(name: Seq<char>, scan_bundles: bool)
    requires
        forall|i: int| 0 <= i < name.len() ==> !is_separator(name[i]),
    ensures
        should_ignore(name, scan_bundles) == is_excluded_name(name, scan_bundles),
{
    components_of_plain_name(name);
    assert(components(name)[0] == name);
}

/// A path with a separator in it is left out exactly when the part before
/// the separator or the part after it is.
pub proof fn ignored_iff_a_side_is_ignored(
    before: Seq<char>,
    separator: char,
    after: Seq<char>,
    scan_bundles: bool,
)
    requires
        is_separator(separator),
    ensures
        should_ignore(before + seq![separator] + after, scan_bundles) == (should_ignore(
            before,
            scan_bundles,
        ) || should_ignore(after, scan_bundles)),
{
    components_split_at_separator(before, separator, after);
    let left = components(before);
    let right = components(after);
    let all = components(before + seq![separator] + after);
    if should_ignore(before, scan_bundles) {
        let k = choose|k: int| 0 <= k < left.len() && is_excluded_name(#[trigger] left[k], scan_bundles);
        assert(all[k] == left[k]);
    }
    if should_ignore(after, scan_bundles) {
        let k = choose|k: int|
            0 <= k < right.len() && is_excluded_name(#[trigger] right[k], scan_bundles);
        assert(all[left.len() + k] == right[k]);
    }
    if should_ignore(before + seq![separator] + after, scan_bundles) {
        let k = choose|k: int| 0 <= k < all.len() && is_excluded_name(#[trigger] all[k], scan_bundles);
        if k < left.len() {
            assert(left[k] == all[k]);
        } else {
            assert(right[k - left.len()] == all[k]);
        }
    }
}

/// Check if a path component matches a directory that is never scanned.
pub fn is_ignored_component(component: &str) -> (ignored: bool)
    ensures
        ignored == is_ignored_name(component@),
{
    str_eq(component, "node_modules") || str_eq(component, ".git") || str_eq(component, ".cargo")
        || str_eq(component, "target") || str_eq(component, ".vscode")
}

/// Check if a path component matches a build-output directory.
pub fn is_bundle_component(component: &str) -> (bundle: bool)
    ensures
        bundle == is_bundle_name(component@),
{
    str_eq(component, "dist") || str_eq(component, "build") || str_eq(component, "out")
        || str_eq(component, ".next") || str_eq(component, ".nuxt")
}

/// Cuts `path` at every `/` and `\`.
pub fn split_components(path: &str) -> (parts: Vec<String>)
    ensures
        texts(parts@) == components(path@),
{
    let mut parts: Vec<String> = Vec::new();
    let mut current = String::new();
    for c in it: path.chars()
        invariant
            it.seq() == path@,
            texts(parts@).push(current@) == components(path@.take(it.index())),
    {
        let ghost upto = path@.take(it.index() + 1);
        let ghost before = texts(parts@).push(current@);
        proof {
            assert(upto.drop_last() == path@.take(it.index()));
            assert(upto.last() == c);
        }
        if c == '/' || c == '\\' {
            parts.push(current);
            current = String::new();
            proof {
                assert(texts(parts@) == before);
            }
        } else {
            current.push(c);
            proof {
                assert(texts(parts@) == before.drop_last());
            }
        }
    }
    proof {
        assert(path@.take(path@.len() as int) == path@);
    }
    let ghost before = texts(parts@);
    let ghost last = current@;
    parts.push(current);
    proof {
        assert(texts(parts@) == before.push(last));
    }
    parts
}

/// Check if a path should be ignored, matching whole components so that a
/// name that only contains an excluded one stays in.
///
/// When `scan_bundles` is false, common build outputs are ignored as well.
pub fn should_ignore_path(path: &str, scan_bundles: bool) -> (ignored: bool)
    ensures
        ignored == should_ignore(path@, scan_bundles),
{
    let parts = split_components(path);
    let mut i: usize = 0;
    while i < parts.len()
        invariant
            i <= parts.len(),
            texts(parts@) == components(path@),
            forall|k: int| 0 <= k < i ==> !is_ignored_name(#[trigger] components(path@)[k]),
        decreases parts.len() - i,
    {
        assert(texts(parts@)[i as int] == parts@[i as int]@);
        if is_ignored_component(parts[i].as_str()) {
            return true;
        }
        i += 1;
    }
    if !scan_bundles {
        let mut j: usize = 0;
        while j < parts.len()
            invariant
                j <= parts.len(),
                !scan_bundles,
                texts(parts@) == components(path@),
                forall|k: int| 0 <= k < j ==> !is_bundle_name(#[trigger] components(path@)[k]),
            decreases parts.len() - j,
        {
            assert(texts(parts@)[j as int] == parts@[j as int]@);
            if is_bundle_component(parts[j].as_str()) {
                return true;
            }
            j += 1;
        }
    }
    false
}

} // verus!
