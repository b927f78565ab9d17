//! The command line: from the arguments of a run to its configuration.

use crate::text::{str_eq, texts};
use vstd::prelude::*;

verus! {

/// Configuration of a scan.
#[derive(Debug, Clone)]
pub struct ScanConfig {
    /// Pattern to match files (e.g., "**/*.rs").
    pub pattern: String,
    /// Output as JSON instead of human-readable text.
    pub json_output: bool,
    /// Show warnings for ignored and unreadable files.
    pub verbose: bool,
    /// Fail if any file was skipped (strict mode).
    pub fail_on_skip: bool,
    /// When true, build-output directories are scanned as well.
    pub scan_bundles: bool,
}

/// A configuration as plain mathematical values.
pub struct ScanConfigView {
    pub pattern: Seq<char>,
    pub json_output: bool,
    pub verbose: bool,
    pub fail_on_skip: bool,
    pub scan_bundles: bool,
}

impl View for ScanConfig {
    type V = ScanConfigView;

    open spec fn view(&self) -> ScanConfigView {
        ScanConfigView {
            pattern: self.pattern@,
            json_output: self.json_output,
            verbose: self.verbose,
            fail_on_skip: self.fail_on_skip,
            scan_bundles: self.scan_bundles,
        }
    }
}

/// The view of an optional configuration.
pub open spec fn config_view(config: Option<ScanConfig>) -> Option<ScanConfigView> {
    match config {
        Some(c) => Some(c@),
        None => None,
    }
}

/// Whether the arguments ask for the help text rather than for a scan: there
/// is nothing after the program's name, or the first argument is a help flag.
pub open spec fn wants_help(args: Seq<Seq<char>>) -> bool {
    args.len() < 2 || args[1] == "--help"@ || args[1] == "-h"@
}

/// The configuration that the arguments stand for. The first argument after
/// the program's name is the pattern; a toggle is on when its flag occurs
/// anywhere among the arguments.
pub open spec fn parsed_args(args: Seq<Seq<char>>) -> Option<ScanConfigView> {
    if wants_help(args) {
        None
    } else {
        Some(
            ScanConfigView {
                pattern: args[1],
                json_output: args.contains("--json"@),
                verbose: args.contains("--verbose"@) || args.contains("-v"@),
                fail_on_skip: args.contains("--fail-on-skip"@),
                scan_bundles: args.contains("--scan-bundles"@),
            },
        )
    }
}

/// Whether `flag` occurs among the arguments.
pub fn has_flag(args: &[String], flag: &str) -> (found: bool)
    ensures
        found == texts(args@).contains(flag@),
{
    let mut i: usize = 0;
    while i < args.len()
        invariant
            i <= args.len(),
            forall|k: int| 0 <= k < i ==> texts(args@)[k] != flag@,
        decreases args.len() - i,
    {
        assert(texts(args@)[i as int] == args@[i as int]@);
        if str_eq(args[i].as_str(), flag) {
            return true;
        }
        i += 1;
    }
    false
}

/// Parse command-line arguments into a configuration; `None` where the help
/// text is to be shown instead.
pub fn parse_args(args: &[String]) -> (config: Option<ScanConfig>)
    ensures
        config_view(config) == parsed_args(texts(args@)),
{
    if args.len() < 2 {
        return None;
    }
    assert(texts(args@)[1] == args@[1]@);
    if str_eq(args[1].as_str(), "--help") || str_eq(args[1].as_str(), "-h") {
        return None;
    }
    let pattern = args[1].clone();
    let json_output = has_flag(args, "--json");
    let verbose = has_flag(args, "--verbose") || has_flag(args, "-v");
    let fail_on_skip = has_flag(args, "--fail-on-skip");
    let scan_bundles = has_flag(args, "--scan-bundles");

    Some(ScanConfig { pattern, json_output, verbose, fail_on_skip, scan_bundles })
}

} // verus!
