//! Command-line configuration values and their validation.
//!
//! The command-line front end parses raw arguments outside this crate and
//! hands the values over as a [`CommandLineArgs`]; the validation of a
//! positive integer argument is done here.

use vstd::prelude::*;
use vstd::string::StrSliceExecFns;

use crate::policy::VulnerableCommitIdentifier;
use crate::scheduler;
use crate::text::{digit_val, is_digit};

verus! {

/// How the workload of repositories is divided among worker threads, as
/// selectable on the command line.
#[derive(Copy, Clone, PartialEq, Eq, Structural, Debug)]
pub enum WorkDivisionStrategy {
    SUCCESSIVE,
    PERCENTILE,
}

/// The configuration the command-line front end hands over.
pub struct CommandLineArgs {
    pub entries: i32,
    pub dataset_file: String,
    pub disable_flawfinder: bool,
    pub worker_threads: i32,
    pub max_repo_size: Option<u32>,
    pub strategy: WorkDivisionStrategy,
    pub policy: VulnerableCommitIdentifier,
}

impl CommandLineArgs {
    /// Bundles validated command-line values.
    pub fn new(
        entries: i32,
        dataset_file: String,
        disable_flawfinder: bool,
        worker_threads: i32,
        max_repo_size: Option<u32>,
        strategy: WorkDivisionStrategy,
        policy: VulnerableCommitIdentifier,
    ) -> (r: Self)
        ensures
            r.entries == entries,
            r.dataset_file == dataset_file,
            r.disable_flawfinder == disable_flawfinder,
            r.worker_threads == worker_threads,
            r.max_repo_size == max_repo_size,
            r.strategy == strategy,
            r.policy == policy,
    {
        CommandLineArgs {
            entries,
            dataset_file,
            disable_flawfinder,
            worker_threads,
            max_repo_size,
            strategy,
            policy,
        }
    }

    pub fn entries(&self) -> (r: i32)
        ensures
            r == self.entries,
    {
        self.entries
    }

    pub fn dataset_file(&self) -> (r: &String)
        ensures
            r == self.dataset_file,
    {
        &self.dataset_file
    }

    pub fn worker_threads(&self) -> (r: i32)
        ensures
            r == self.worker_threads,
    {
        self.worker_threads
    }

    pub fn max_repo_size(&self) -> (r: Option<u32>)
        ensures
            r == self.max_repo_size,
    {
        self.max_repo_size
    }

    pub fn disable_flawfinder(&self) -> (r: bool)
        ensures
            r == self.disable_flawfinder,
    {
        self.disable_flawfinder
    }

    pub fn strategy(&self) -> (r: WorkDivisionStrategy)
        ensures
            r == self.strategy,
    {
        self.strategy
    }

    pub fn policy(&self) -> (r: VulnerableCommitIdentifier)
        ensures
            r == self.policy,
    {
        self.policy
    }
}

/// Gets the [`scheduler::WorkDivisionStrategy`] specified by the
/// [`CommandLineArgs`].
pub fn strategy(args: &CommandLineArgs) -> (r: scheduler::WorkDivisionStrategy)
    ensures
        args.strategy == WorkDivisionStrategy::SUCCESSIVE ==> r
            == scheduler::WorkDivisionStrategy::SUCCESSIVE,
        args.strategy == WorkDivisionStrategy::PERCENTILE ==> r
            == scheduler::WorkDivisionStrategy::PERCENTILE,
{
    match args.strategy() {
        WorkDivisionStrategy::SUCCESSIVE => scheduler::WorkDivisionStrategy::SUCCESSIVE,
        WorkDivisionStrategy::PERCENTILE => scheduler::WorkDivisionStrategy::PERCENTILE,
    }
}

/// The value of a sequence of decimal digits, most significant first.
pub open spec fn digits_value(s: Seq<char>) -> int
    decreases s.len(),
{
    if s.len() == 0 {
        0
    } else {
        digits_value(s.drop_last()) * 10 + digit_val(s.last())
    }
}

/// Whether every character of the sequence is a decimal digit.
pub open spec fn all_digits(s: Seq<char>) -> bool {
    forall|j: int| 0 <= j < s.len() ==> is_digit(#[trigger] s[j])
}

/// The sign of a textual integer: `-1` for a leading `-`, else `1`.
pub open spec fn spec_sign(s: Seq<char>) -> int {
    if s.len() > 0 && s[0] == '-' {
        -1
    } else {
        1
    }
}

/// The digit part of a textual integer: everything after a leading `+` or
/// `-`, or the whole text when there is no sign.
pub open spec fn spec_digit_part(s: Seq<char>) -> Seq<char> {
    if s.len() > 0 && (s[0] == '-' || s[0] == '+') {
        s.subrange(1, s.len() as int)
    } else {
        s
    }
}

/// What parsing a 32-bit integer from text yields: an optional sign, then
/// one or more decimal digits, and a value within the type's bounds;
/// anything else is rejected.
pub open spec fn spec_parse_i32(s: Seq<char>) -> Option<int> {
    let digits = spec_digit_part(s);
    if digits.len() == 0 || !all_digits(digits) {
        None
    } else {
        let v = spec_sign(s) * digits_value(digits);
        if i32::MIN <= v <= i32::MAX {
            Some(v)
        } else {
            None
        }
    }
}

/// The value of an all-digit sequence is never negative.
proof fn lemma_digits_value_nonneg(s: Seq<char>)
    requires
        all_digits(s),
    ensures
        digits_value(s) >= 0,
    decreases s.len(),
{
    if s.len() > 0 {
        lemma_digits_value_nonneg(s.drop_last());
    }
}

/// The value of an all-digit sequence only grows as digits are appended.
proof fn lemma_digits_value_prefix(s: Seq<char>, i: int)
    requires
        all_digits(s),
        0 <= i <= s.len(),
    ensures
        digits_value(s.take(i)) <= digits_value(s),
    decreases s.len() - i,
{
    if i < s.len() {
        lemma_digits_value_prefix(s, i + 1);
        let t = s.take(i + 1);
        assert(t.drop_last() =~= s.take(i));
        lemma_digits_value_nonneg(s.take(i));
        assert(digits_value(s.take(i)) <= digits_value(t));
    } else {
        assert(s.take(i) =~= s);
    }
}

/// Parses a 32-bit integer from text: an optional `+` or `-` sign, then one
/// or more decimal digits.
fn parse_i32(s: &str) -> (r: Option<i32>)
    ensures
        r is None <==> spec_parse_i32(s@) is None,
        r matches Some(n) ==> spec_parse_i32(s@) == Some(n as int),
{
    let n = s.unicode_len();
    if n == 0 {
        return None;
    }
    let first = s.get_char(0);
    let negative = first == '-';
    let start: usize = if first == '-' || first == '+' {
        1
    } else {
        0
    };
    let ghost digits = spec_digit_part(s@);
    proof {
        assert(digits =~= s@.subrange(start as int, n as int));
    }
    if n == start {
        return None;
    }
    // The loop rejects any accumulated magnitude beyond this bound, so the
    // accumulator stays far from overflowing.
    let limit: u64 = if negative {
        2147483648
    } else {
        2147483647
    };
    let mut acc: u64 = 0;
    let mut i: usize = start;
    while i < n
        invariant
            start <= i <= n,
            0 < n == s@.len(),
            start <= 1,
            digits == spec_digit_part(s@),
            digits == s@.subrange(start as int, n as int),
            limit == if spec_sign(s@) == -1 {
                2147483648int
            } else {
                2147483647int
            },
            all_digits(digits.take(i - start)),
            acc == digits_value(digits.take(i - start)),
            acc <= limit,
        decreases n - i,
    {
        let c = s.get_char(i);
        let u = c as u32;
        if u < 48 || u > 57 {
            proof {
                assert(digits[i - start] == s@[i as int]);
                assert(!is_digit(digits[i - start]));
                assert(!all_digits(digits));
                assert(spec_parse_i32(s@) is None);
            }
            return None;
        }
        let d = (u - 48) as u64;
        acc = acc * 10 + d;
        i += 1;
        proof {
            let t = digits.take(i - start);
            assert(t.drop_last() =~= digits.take(i - start - 1));
            assert(t.last() == s@[i - 1]);
            assert(digits_value(t) == digits_value(t.drop_last()) * 10 + digit_val(t.last()));
            assert(acc == digits_value(t));
            assert forall|j: int| 0 <= j < t.len() implies is_digit(#[trigger] t[j]) by {
                assert(t[j] == digits[j]);
            }
            assert(all_digits(t));
        }
        if acc > limit {
            proof {
                if all_digits(digits) {
                    lemma_digits_value_prefix(digits, i - start);
                    assert(digits_value(digits) > limit);
                    lemma_digits_value_nonneg(digits);
                    let v = spec_sign(s@) * digits_value(digits);
                    assert(v < i32::MIN || v > i32::MAX);
                }
                assert(spec_parse_i32(s@) is None);
            }
            return None;
        }
    }
    proof {
        assert(digits.take(n - start) =~= digits);
    }
    if negative {
        // `acc <= 2147483648`, whose negation is exactly `i32::MIN`.
        let v = -(acc as i64);
        Some(v as i32)
    } else {
        Some(acc as i32)
    }
}

/// Verifies the argument is a positive integer, as the command-line front
/// end requires. Rejections carry the offending argument text.
pub fn positive_value(arg: &str) -> (r: Result<i32, String>)
    ensures
        spec_parse_i32(arg@) is None ==> (r matches Err(m) && m@ == arg@
            + " must be an integer."@),
        (spec_parse_i32(arg@) matches Some(v) && v <= 0) ==> (r matches Err(m) && m@ == arg@
            + " must be a positive integer."@),
        (spec_parse_i32(arg@) matches Some(v) && v > 0) ==> (r is Ok && r->Ok_0
            == spec_parse_i32(arg@)->Some_0),
{
    match parse_i32(arg) {
        None => Err(String::from_str(arg).concat(" must be an integer.")),
        Some(value) => {
            if value > 0 {
                Ok(value)
            } else {
                Err(String::from_str(arg).concat(" must be a positive integer."))
            }
        },
    }
}

} // verus!
