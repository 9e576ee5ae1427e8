//! The static-analyzer capability and its result model.
//!
//! One analyzer wraps one external static-analysis program. Locating the
//! executable and running the process happen outside this crate; what the
//! run's environment reports — whether the tool was found, whether the
//! process succeeded, and its textual output — is handed in as plain
//! values. Parsing the output and deciding the scan's outcome are done
//! here.

use vstd::prelude::*;
use vstd::string::StrSliceExecFns;

use crate::text::{is_digit, spec_split_on, split_on};

verus! {

/// What one analyzer run produced: free-text findings and
/// weakness-classification identifiers, each in reported order. Both may
/// be empty when the analyzer found nothing.
pub struct AnalysisResult {
    pub findings: Vec<String>,
    pub weakness_ids: Vec<String>,
}

/// Why a scan produced nothing. Both cases are recoverable at the caller:
/// a failed scan for one tool does not block scans by other tools.
#[derive(Copy, Clone, PartialEq, Eq, Structural, Debug)]
pub enum AnalyzerError {
    /// The analyzer's executable could not be located.
    AnalyzerUnavailable,
    /// The analyzer ran but exited with failure, so its output is not
    /// trusted to parse.
    AnalyzerExecutionFailed,
}

/// The static-analysis tools a scan can be delegated to.
#[derive(Copy, Clone, PartialEq, Eq, Structural, Debug)]
pub enum AnalyzerTool {
    Flawfinder,
}

impl AnalyzerTool {
    /// The environment variable that may override where the tool's
    /// executable is looked for.
    pub open spec fn spec_env_var(self) -> Seq<char> {
        match self {
            AnalyzerTool::Flawfinder => "FLAWFINDER_PATH"@,
        }
    }

    /// Executable form of [`Self::spec_env_var`].
    pub fn env_var(self) -> (r: String)
        ensures
            r@ == self.spec_env_var(),
    {
        match self {
            AnalyzerTool::Flawfinder => String::from_str("FLAWFINDER_PATH"),
        }
    }

    /// The well-known filesystem path the tool is installed at by default.
    pub open spec fn spec_default_path(self) -> Seq<char> {
        match self {
            AnalyzerTool::Flawfinder => "/usr/bin/flawfinder"@,
        }
    }

    /// Executable form of [`Self::spec_default_path`].
    pub fn default_path(self) -> (r: String)
        ensures
            r@ == self.spec_default_path(),
    {
        match self {
            AnalyzerTool::Flawfinder => String::from_str("/usr/bin/flawfinder"),
        }
    }
}

/// Resolves the location of a tool's executable: a set environment
/// variable override wins; otherwise the well-known default path is taken
/// when something exists there; otherwise the tool is unavailable. The
/// caller reads the environment variable and checks the default path, and
/// hands both in.
pub fn install_location(tool: AnalyzerTool, env_override: Option<String>, default_present: bool) -> (r:
    Option<String>)
    ensures
        env_override is Some ==> r == env_override,
        env_override is None && default_present ==> (r matches Some(p) && p@
            == tool.spec_default_path()),
        env_override is None && !default_present ==> r is None,
{
    match env_override {
        Some(p) => Some(p),
        None => {
            if default_present {
                Some(tool.default_path())
            } else {
                None
            }
        },
    }
}

/// A severity marker `[d]`, `d` a digit, stands at position `i` of the
/// line.
pub open spec fn marker_at(line: Seq<char>, i: int) -> bool {
    &&& 0 <= i
    &&& i + 3 <= line.len()
    &&& line[i] == '['
    &&& is_digit(line[i + 1])
    &&& line[i + 2] == ']'
}

/// A line of analyzer output reports a finding when it carries a severity
/// marker `[d]` somewhere.
pub open spec fn is_finding_line(line: Seq<char>) -> bool {
    exists|i: int| marker_at(line, i)
}

/// The finding lines of a sequence of lines, in order.
pub open spec fn filter_findings(lines: Seq<Seq<char>>) -> Seq<Seq<char>>
    decreases lines.len(),
{
    if lines.len() == 0 {
        Seq::empty()
    } else {
        let rest = filter_findings(lines.drop_last());
        if is_finding_line(lines.last()) {
            rest.push(lines.last())
        } else {
            rest
        }
    }
}

/// The findings an analyzer's textual output reports: its finding lines,
/// in order.
pub open spec fn spec_findings(output: Seq<char>) -> Seq<Seq<char>> {
    filter_findings(spec_split_on(output, '\n'))
}

/// The length of the run of decimal digits the sequence starts with.
pub open spec fn digit_run_len(s: Seq<char>) -> nat
    decreases s.len(),
{
    if s.len() == 0 || !is_digit(s[0]) {
        0
    } else {
        1 + digit_run_len(s.drop_first())
    }
}

/// The digit run never runs past the end.
pub proof fn lemma_digit_run_le(s: Seq<char>)
    ensures
        digit_run_len(s) <= s.len(),
    decreases s.len(),
{
    if s.len() > 0 && is_digit(s[0]) {
        lemma_digit_run_le(s.drop_first());
    }
}

/// The digit run is exactly the maximal digit prefix.
pub proof fn lemma_digit_run_exact(s: Seq<char>, r: int)
    requires
        0 <= r <= s.len(),
        forall|j: int| 0 <= j < r ==> is_digit(#[trigger] s[j]),
        r < s.len() ==> !is_digit(s[r]),
    ensures
        digit_run_len(s) == r,
    decreases r,
{
    if r == 0 {
    } else {
        let t = s.drop_first();
        assert forall|j: int| 0 <= j < r - 1 implies is_digit(#[trigger] t[j]) by {
            assert(t[j] == s[j + 1]);
        }
        assert(r - 1 < t.len() ==> !is_digit(t[r - 1]));
        lemma_digit_run_exact(t, r - 1);
    }
}

/// A weakness identifier starts here: the text `CWE-` followed by at least
/// one digit.
pub open spec fn is_cwe_start(s: Seq<char>) -> bool {
    &&& s.len() >= 5
    &&& s[0] == 'C'
    &&& s[1] == 'W'
    &&& s[2] == 'E'
    &&& s[3] == '-'
    &&& is_digit(s[4])
}

/// The weakness identifiers an analyzer's textual output mentions, in
/// order of appearance: every occurrence of `CWE-` followed by its maximal
/// run of digits.
pub open spec fn spec_cwes(s: Seq<char>) -> Seq<Seq<char>>
    decreases s.len(),
    via spec_cwes_decreases
{
    if s.len() < 5 {
        Seq::empty()
    } else if is_cwe_start(s) {
        let run = digit_run_len(s.skip(4)) as int;
        seq![s.take(4 + run)] + spec_cwes(s.skip(4 + run))
    } else {
        spec_cwes(s.skip(1))
    }
}

#[via_fn]
proof fn spec_cwes_decreases(s: Seq<char>) {
    if s.len() >= 5 && is_cwe_start(s) {
        lemma_digit_run_le(s.skip(4));
    }
}

/// Whether the character at a position of the text is a decimal digit.
fn digit_at(s: &str, i: usize) -> (r: bool)
    requires
        i < s@.len(),
    ensures
        r == is_digit(s@[i as int]),
{
    let u = s.get_char(i) as u32;
    48 <= u && u <= 57
}

/// Whether a line of analyzer output reports a finding.
fn line_is_finding(line: &str) -> (r: bool)
    ensures
        r == is_finding_line(line@),
{
    let n = line.unicode_len();
    if n < 3 {
        proof {
            if is_finding_line(line@) {
                let i = choose|i: int| marker_at(line@, i);
                assert(false);
            }
        }
        return false;
    }
    let mut i: usize = 0;
    while i <= n - 3
        invariant
            3 <= n == line@.len(),
            i <= n - 2,
            forall|i0: int| 0 <= i0 < i ==> !marker_at(line@, i0),
        decreases n - i,
    {
        if line.get_char(i) == '[' && digit_at(line, i + 1) && line.get_char(i + 2) == ']' {
            proof {
                assert(marker_at(line@, i as int));
            }
            return true;
        }
        i += 1;
    }
    proof {
        if is_finding_line(line@) {
            let i0 = choose|i0: int| marker_at(line@, i0);
            assert(false);
        }
    }
    false
}

/// Collects the finding lines of an analyzer's textual output, in order.
fn collect_findings(output: &str) -> (r: Vec<String>)
    ensures
        r.deep_view() == spec_findings(output@),
{
    let lines = split_on(output, '\n');
    let ghost all = lines.deep_view();
    let mut out: Vec<String> = Vec::new();
    let mut i: usize = 0;
    proof {
        assert(all.take(0) =~= Seq::<Seq<char>>::empty());
        assert(out.deep_view() =~= filter_findings(all.take(0)));
    }
    while i < lines.len()
        invariant
            i <= lines@.len(),
            all == lines.deep_view(),
            all.len() == lines@.len(),
            out.deep_view() == filter_findings(all.take(i as int)),
        decreases lines@.len() - i,
    {
        proof {
            let t = all.take(i + 1);
            assert(t.drop_last() =~= all.take(i as int));
            assert(t.last() == lines@[i as int]@);
        }
        if line_is_finding(lines[i].as_str()) {
            let ghost pre = out.deep_view();
            out.push(lines[i].clone());
            proof {
                assert(out.deep_view() =~= pre.push(lines@[i as int]@));
            }
        }
        i += 1;
    }
    proof {
        assert(all.take(lines@.len() as int) =~= all);
    }
    out
}

/// Collects the weakness identifiers an analyzer's textual output
/// mentions, in order of appearance.
fn collect_cwes(s: &str) -> (r: Vec<String>)
    ensures
        r.deep_view() == spec_cwes(s@),
{
    let n = s.unicode_len();
    let mut out: Vec<String> = Vec::new();
    let mut i: usize = 0;
    proof {
        assert(s@.skip(0) =~= s@);
        assert(out.deep_view() + spec_cwes(s@) =~= spec_cwes(s@));
    }
    while n - i >= 5
        invariant
            i <= n == s@.len(),
            spec_cwes(s@) == out.deep_view() + spec_cwes(s@.skip(i as int)),
        decreases n - i,
    {
        let ghost rem = s@.skip(i as int);
        proof {
            assert(rem.len() == n - i);
            assert forall|j: int| 0 <= j < rem.len() implies rem[j] == s@[i + j] by {}
        }
        if s.get_char(i) == 'C' && s.get_char(i + 1) == 'W' && s.get_char(i + 2) == 'E'
            && s.get_char(i + 3) == '-' && digit_at(s, i + 4) {
            proof {
                assert(is_cwe_start(rem));
            }
            let mut e = i + 4;
            while e < n && digit_at(s, e)
                invariant
                    i + 4 <= e <= n == s@.len(),
                    forall|j: int| i + 4 <= j < e ==> is_digit(#[trigger] s@[j]),
                decreases n - e,
            {
                e += 1;
            }
            proof {
                let tail = rem.skip(4);
                assert forall|j: int| 0 <= j < e - i - 4 implies is_digit(#[trigger] tail[j]) by {
                    assert(tail[j] == s@[i + 4 + j]);
                }
                assert(e - i - 4 < tail.len() ==> !is_digit(tail[e - i - 4]));
                lemma_digit_run_exact(tail, e - i - 4);
                assert(rem.take(4 + (e - i - 4)) =~= s@.subrange(i as int, e as int));
                assert(rem.skip(4 + (e - i - 4)) =~= s@.skip(e as int));
            }
            let token = String::from_str(s.substring_char(i, e));
            let ghost pre = out.deep_view();
            out.push(token);
            proof {
                assert(out.deep_view() =~= pre.push(token@));
                assert(pre.push(token@) + spec_cwes(s@.skip(e as int)) =~= pre + (seq![token@]
                    + spec_cwes(s@.skip(e as int))));
            }
            i = e;
        } else {
            proof {
                assert(!is_cwe_start(rem));
                assert(rem.skip(1) =~= s@.skip(i + 1));
            }
            i += 1;
        }
    }
    proof {
        assert(spec_cwes(s@.skip(i as int)).len() == 0);
        assert(out.deep_view() + spec_cwes(s@.skip(i as int)) =~= out.deep_view());
    }
    out
}

/// Parses an analyzer's textual output into its findings and the weakness
/// identifiers they mention.
pub fn parse_analyzer_output(output: &str) -> (r: AnalysisResult)
    ensures
        r.findings.deep_view() == spec_findings(output@),
        r.weakness_ids.deep_view() == spec_cwes(output@),
{
    AnalysisResult { findings: collect_findings(output), weakness_ids: collect_cwes(output) }
}

/// Decides a scan's outcome. A tool that could not be located is
/// unavailable; a process that exited with failure is an execution
/// failure; otherwise the output parses into a result.
pub fn scan_outcome(located: bool, exit_ok: bool, output: &str) -> (r: Result<
    AnalysisResult,
    AnalyzerError,
>)
    ensures
        !located ==> r == Err::<AnalysisResult, AnalyzerError>(AnalyzerError::AnalyzerUnavailable),
        located && !exit_ok ==> r == Err::<AnalysisResult, AnalyzerError>(
            AnalyzerError::AnalyzerExecutionFailed,
        ),
        located && exit_ok ==> (r matches Ok(a) && a.findings.deep_view() == spec_findings(output@)
            && a.weakness_ids.deep_view() == spec_cwes(output@)),
{
    if !located {
        Err(AnalyzerError::AnalyzerUnavailable)
    } else if !exit_ok {
        Err(AnalyzerError::AnalyzerExecutionFailed)
    } else {
        Ok(parse_analyzer_output(output))
    }
}

} // verus!
