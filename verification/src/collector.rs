//! The collector: what a run over many candidate files adds up to.
//!
//! Finding the candidates and reading them is the caller's part. The
//! decisions are made here, one candidate at a time and in the order of
//! discovery: a path that the filter excludes is counted as skipped and its
//! file is not to be read; any other path is counted as scanned, and its file
//! is either scanned or, when it cannot be read as UTF-8 text, counted as
//! skipped too.

use crate::path_filter::{should_ignore, should_ignore_path};
use crate::scanner::{detect_invisible_characters, detection_views, scan, Detection, DetectionView};
use vstd::prelude::*;
use vstd::string::*;

verus! {

/// Trusted: the iterator over matching paths of the `glob` crate. It is only
/// handed on to the caller; nothing here looks inside.
#[verifier::external_type_specification]
#[verifier::external_body]
pub struct ExPaths(glob::Paths);

/// Trusted: the error that the iterator of the `glob` crate yields for a
/// directory it cannot read. Declared because the iterator names it; never
/// made or read here.
#[verifier::external_type_specification]
#[verifier::external_body]
pub struct ExGlobError(glob::GlobError);

/// Trusted: the owned path of the standard library, which the iterator of the
/// `glob` crate yields. Declared because the iterator names it; never made or
/// read here.
#[verifier::external_type_specification]
#[verifier::external_body]
pub struct ExPathBuf(std::path::PathBuf);

/// Trusted: calls `glob::glob`, which parses the pattern and prepares the
/// search. A pattern that does not parse gives the parser's message as text.
/// Which patterns parse depends on the platform's path separators, and the
/// prepared search notes whether its starting directory exists, so nothing is
/// claimed about the result.
#[verifier::external_body]
fn glob_paths(pattern: &str) -> Result<glob::Paths, String> {
    match glob::glob(pattern) {
        Ok(paths) => Ok(paths),
        Err(e) => Err(e.to_string()),
    }
}

/// Why a run ended without a result. Either is fatal: it ends the run at
/// once, unlike a file that is skipped.
#[derive(Debug)]
pub enum ScanError {
    /// The glob pattern does not parse; holds what the parser said.
    InvalidPattern(String),
    /// The detections could not be serialised; holds what the serialiser
    /// said.
    Serialization(String),
}

impl ScanError {
    /// What the parser or the serialiser said.
    pub open spec fn detail(self) -> Seq<char> {
        match self {
            ScanError::InvalidPattern(detail) => detail@,
            ScanError::Serialization(detail) => detail@,
        }
    }

    /// The line that tells the user of this error.
    pub open spec fn message_text(self) -> Seq<char> {
        match self {
            ScanError::InvalidPattern(detail) => "Error scanning files: Invalid glob pattern: "@
                + detail@,
            ScanError::Serialization(detail) => "Error serializing to JSON: "@ + detail@,
        }
    }

    /// The line that tells the user of this error.
    pub fn message(&self) -> (text: String)
        ensures
            text@ == self.message_text(),
    {
        match self {
            ScanError::InvalidPattern(detail) => {
                let mut text = "Error scanning files: Invalid glob pattern: ".to_string();
                text.append(detail.as_str());
                text
            },
            ScanError::Serialization(detail) => {
                let mut text = "Error serializing to JSON: ".to_string();
                text.append(detail.as_str());
                text
            },
        }
    }
}

/// Turns the answer of the pattern parser into the start of a run: the
/// candidates as they are, or the error that ends the run.
pub fn pattern_outcome(parsed: Result<glob::Paths, String>) -> (outcome: Result<
    glob::Paths,
    ScanError,
>)
    ensures
        match parsed {
            Ok(paths) => outcome == Ok::<glob::Paths, ScanError>(paths),
            Err(detail) => outcome matches Err(e) && e is InvalidPattern && e.detail() == detail@,
        },
{
    match parsed {
        Ok(paths) => Ok(paths),
        Err(detail) => Err(ScanError::InvalidPattern(detail)),
    }
}

/// Parses the glob pattern of a run. On success the caller walks the
/// candidates; a pattern that does not parse ends the run before any file is
/// looked at. Whether a pattern parses is for the `glob` crate to say.
pub fn open_pattern(pattern: &str) -> (outcome: Result<glob::Paths, ScanError>)
    ensures
        outcome matches Err(e) ==> e is InvalidPattern,
{
    pattern_outcome(glob_paths(pattern))
}

/// What to do with a candidate path.
#[derive(Debug, Clone, Copy, PartialEq, Eq, Structural)]
pub enum PathAction {
    /// The filter excludes the path: its file is not read.
    Skip,
    /// The file is to be read and its content handed back.
    Read,
}

/// The running result of a scan over many files.
#[derive(Debug)]
pub struct ScanTally {
    /// The detections of all files scanned so far, file after file.
    pub detections: Vec<Detection>,
    /// How many candidates passed the filter.
    pub scanned: usize,
    /// How many candidates were excluded or could not be read.
    pub skipped: usize,
}

/// A tally as plain mathematical values.
pub struct TallyView {
    pub detections: Seq<DetectionView>,
    pub scanned: nat,
    pub skipped: nat,
}

impl View for ScanTally {
    type V = TallyView;

    open spec fn view(&self) -> TallyView {
        TallyView {
            detections: detection_views(self.detections@),
            scanned: self.scanned as nat,
            skipped: self.skipped as nat,
        }
    }
}

/// One candidate of a run: its path, and its content where the file could be
/// read as UTF-8 text.
pub struct CandidateView {
    pub path: Seq<char>,
    pub content: Option<Seq<char>>,
}

/// The tally before any candidate.
pub open spec fn empty_tally() -> TallyView {
    TallyView { detections: Seq::empty(), scanned: 0, skipped: 0 }
}

/// The tally after a candidate that the filter excludes.
pub open spec fn after_excluded(tally: TallyView) -> TallyView {
    TallyView { skipped: tally.skipped + 1, ..tally }
}

/// The tally after a candidate that the filter lets through, before its file
/// is read.
pub open spec fn after_admitted(tally: TallyView) -> TallyView {
    TallyView { scanned: tally.scanned + 1, ..tally }
}

/// The tally after the file of an admitted candidate was read, or could not
/// be.
pub open spec fn after_content(
    tally: TallyView,
    path: Seq<char>,
    content: Option<Seq<char>>,
) -> TallyView {
    match content {
        Some(text) => TallyView { detections: tally.detections + scan(text, path), ..tally },
        None => TallyView { skipped: tally.skipped + 1, ..tally },
    }
}

/// The tally after one more candidate.
pub open spec fn after_candidate(
    tally: TallyView,
    candidate: CandidateView,
    scan_bundles: bool,
) -> TallyView {
    if should_ignore(candidate.path, scan_bundles) {
        after_excluded(tally)
    } else {
        after_content(after_admitted(tally), candidate.path, candidate.content)
    }
}

/// The tally of a whole run over `candidates`, taken in order.
pub open spec fn collect(candidates: Seq<CandidateView>, scan_bundles: bool) -> TallyView
    decreases candidates.len(),
{
    if candidates.len() == 0 {
        empty_tally()
    } else {
        after_candidate(
            collect(candidates.drop_last(), scan_bundles),
            candidates.last(),
            scan_bundles,
        )
    }
}

impl ScanTally {
    /// The tally of a run that has not seen any candidate yet.
    pub fn new() -> (tally: Self)
        ensures
            tally@ == empty_tally(),
    {
        let tally = ScanTally { detections: Vec::new(), scanned: 0, skipped: 0 };
        assert(detection_views(tally.detections@) == Seq::<DetectionView>::empty());
        tally
    }

    /// Takes note of a candidate path and says what to do with its file.
    pub fn consider(&mut self, path: &str, scan_bundles: bool) -> (action: PathAction)
        requires
            old(self).scanned < usize::MAX,
            old(self).skipped < usize::MAX,
        ensures
            action == if should_ignore(path@, scan_bundles) {
                PathAction::Skip
            } else {
                PathAction::Read
            },
            final(self)@ == if should_ignore(path@, scan_bundles) {
                after_excluded(old(self)@)
            } else {
                after_admitted(old(self)@)
            },
    {
        if should_ignore_path(path, scan_bundles) {
            self.skipped += 1;
            PathAction::Skip
        } else {
            self.scanned += 1;
            PathAction::Read
        }
    }

    /// Takes in what reading an admitted candidate gave: its text, which is
    /// scanned, or `None` where the file could not be read as UTF-8 text.
    pub fn record(&mut self, path: &str, content: Option<&str>)
        requires
            content is None ==> old(self).skipped < usize::MAX,
        ensures
            final(self)@ == after_content(
                old(self)@,
                path@,
                match content {
                    Some(text) => Some(text@),
                    None => None,
                },
            ),
    {
        match content {
            Some(text) => {
                let mut found = detect_invisible_characters(text, path);
                let ghost before = self.detections@;
                let ghost added = found@;
                self.detections.append(&mut found);
                proof {
                    assert(detection_views(before + added) == detection_views(before)
                        + detection_views(added));
                }
            },
            None => {
                self.skipped += 1;
            },
        }
    }

    /// Whether the pattern matched no file at all: nothing was scanned and
    /// nothing skipped. This is worth a remark to the user, and is no error.
    pub fn matched_nothing(&self) -> (nothing: bool)
        ensures
            nothing == (self@.scanned == 0 && self@.skipped == 0),
    {
        self.scanned == 0 && self.skipped == 0
    }
}

/// A candidate file with what reading it gave.
#[derive(Debug)]
pub struct Candidate {
    /// The path as it was discovered.
    pub path: String,
    /// The text of the file, or `None` where it could not be read as UTF-8.
    pub content: Option<String>,
}

impl View for Candidate {
    type V = CandidateView;

    open spec fn view(&self) -> CandidateView {
        CandidateView {
            path: self.path@,
            content: match self.content {
                Some(text) => Some(text@),
                None => None,
            },
        }
    }
}

/// The views of a sequence of candidates.
pub open spec fn candidate_views(candidates: Seq<Candidate>) -> Seq<CandidateView> {
    candidates.map_values(|c: Candidate| c@)
}

/// Each candidate is counted at least once and in each count at most once.
pub proof fn counts_cover_candidates(candidates: Seq<CandidateView>, scan_bundles: bool)
    ensures
        collect(candidates, scan_bundles).scanned <= candidates.len(),
        collect(candidates, scan_bundles).skipped <= candidates.len(),
        candidates.len() <= collect(candidates, scan_bundles).scanned + collect(
            candidates,
            scan_bundles,
        ).skipped,
    decreases candidates.len(),
{
    if candidates.len() > 0 {
        counts_cover_candidates(candidates.drop_last(), scan_bundles);
    }
}

/// A run without candidates finds nothing, scans nothing and skips nothing.
pub proof fn no_candidates_no_findings(scan_bundles: bool)
    ensures
        collect(Seq::empty(), scan_bundles) == empty_tally(),
{
}

/// Runs the collector over candidates whose files were read beforehand. The
/// content of an excluded candidate is not looked at.
pub fn collect_candidates(candidates: &Vec<Candidate>, scan_bundles: bool) -> (tally: ScanTally)
    ensures
        tally@ == collect(candidate_views(candidates@), scan_bundles),
{
    let mut tally = ScanTally::new();
    let mut i: usize = 0;
    proof {
        assert(candidate_views(candidates@).take(0) == Seq::<CandidateView>::empty());
    }
    while i < candidates.len()
        invariant
            i <= candidates.len(),
            tally@ == collect(candidate_views(candidates@).take(i as int), scan_bundles),
        decreases candidates.len() - i,
    {
        let ghost all = candidate_views(candidates@);
        proof {
            counts_cover_candidates(all.take(i as int), scan_bundles);
            assert(all.take(i + 1).drop_last() == all.take(i as int));
            assert(all.take(i + 1).last() == candidates@[i as int]@);
        }
        let candidate = &candidates[i];
        match tally.consider(candidate.path.as_str(), scan_bundles) {
            PathAction::Skip => {},
            PathAction::Read => {
                match &candidate.content {
                    Some(text) => tally.record(candidate.path.as_str(), Some(text.as_str())),
                    None => tally.record(candidate.path.as_str(), None),
                }
            },
        }
        i += 1;
    }
    proof {
        assert(candidate_views(candidates@).take(i as int) == candidate_views(candidates@));
    }
    tally
}

} // verus!
