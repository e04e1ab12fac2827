//! The trial loop's decisions: the allow-list of exit codes, the
//! classification of one subprocess termination, and the outcome of a
//! sequence of trials.
//!
//! The loop itself alternates with process execution, which the surrounding
//! binary performs; every decision it takes is a function defined here.

use crate::number_range::NumberRange;
use vstd::prelude::*;

verus! {

/// How a subprocess ended: with a normal exit code, or abnormally (for
/// example by a signal), with no exit code available.
#[derive(Clone, Copy, Debug, PartialEq, Eq, Structural)]
pub enum Termination {
    Exited(i32),
    Terminated,
}

/// The classification of one trial against the allow-list.
#[derive(Clone, Copy, Debug, PartialEq, Eq, Structural)]
pub enum TrialOutcome {
    /// The process exited with an allow-listed code.
    Passed,
    /// The process exited with a code outside the allow-list.
    FailedWithCode(i32),
    /// The process was terminated without a normal exit code.
    FailedBySignal,
}

/// How a whole fuzzing session ends.
#[derive(Clone, Copy, Debug, PartialEq, Eq, Structural)]
pub enum SessionEnd {
    /// Every trial of the budget passed; no artifact is produced.
    Succeeded { trials: usize },
    /// A trial failed; `trials` is how many trials ran, the last of which is
    /// the failing one, to be recorded.
    FoundFailure { trials: usize, outcome: TrialOutcome },
}

/// Whether `code` is in the allow-list.
pub open spec fn spec_allowed(code: i32, allow: Seq<i32>) -> bool {
    allow.contains(code)
}

/// The classification of a termination against the allow-list.
pub open spec fn spec_classify(t: Termination, allow: Seq<i32>) -> TrialOutcome {
    match t {
        Termination::Exited(code) => if spec_allowed(code, allow) {
            TrialOutcome::Passed
        } else {
            TrialOutcome::FailedWithCode(code)
        },
        Termination::Terminated => TrialOutcome::FailedBySignal,
    }
}

/// Whether a termination ends the session with a recorded failure.
pub open spec fn spec_failing(t: Termination, allow: Seq<i32>) -> bool {
    !(spec_classify(t, allow) is Passed)
}

/// Builds the allow-list of acceptable exit codes: `0`, always, followed by
/// every user-supplied code to ignore.
pub fn ok_exit_codes(ignore: &Vec<u8>) -> (r: Vec<i32>)
    ensures
        r@ == seq![0i32] + ignore@.map_values(|b: u8| b as i32),
        r@.contains(0),
        forall|c: i32|
            #[trigger] r@.contains(c) <==> c == 0 || ignore@.map_values(|b: u8| b as i32).contains(
                c,
            ),
{
    let ghost mapped = ignore@.map_values(|b: u8| b as i32);
    let mut r: Vec<i32> = Vec::new();
    r.push(0);
    let mut i: usize = 0;
    while i < ignore.len()
        invariant
            i <= ignore@.len(),
            mapped == ignore@.map_values(|b: u8| b as i32),
            r@ == seq![0i32] + mapped.take(i as int),
        decreases ignore@.len() - i,
    {
        proof {
            assert(mapped.take(i + 1) =~= mapped.take(i as int).push(mapped[i as int]));
            assert((seq![0i32] + mapped.take(i as int)).push(mapped[i as int]) =~= seq![0i32]
                + mapped.take(i + 1));
        }
        r.push(ignore[i] as i32);
        i = i + 1;
    }
    proof {
        assert(mapped.take(ignore@.len() as int) =~= mapped);
        assert(r@[0] == 0);
        assert forall|c: i32| #[trigger] r@.contains(c) implies c == 0 || mapped.contains(c) by {
            let k = choose|k: int| 0 <= k < r@.len() && r@[k] == c;
            if k > 0 {
                assert(mapped[k - 1] == c);
            }
        }
        assert forall|c: i32| c == 0 || mapped.contains(c) implies r@.contains(c) by {
            if c == 0 {
                assert(r@[0] == c);
            } else {
                let k = choose|k: int| 0 <= k < mapped.len() && mapped[k] == c;
                assert(r@[k + 1] == c);
            }
        }
    }
    r
}

/// Whether the allow-list holds `code`.
pub fn contains_code(allow: &Vec<i32>, code: i32) -> (r: bool)
    ensures
        r == spec_allowed(code, allow@),
{
    let mut i: usize = 0;
    while i < allow.len()
        invariant
            i <= allow@.len(),
            forall|k: int| 0 <= k < i ==> allow@[k] != code,
        decreases allow@.len() - i,
    {
        if allow[i] == code {
            return true;
        }
        i = i + 1;
    }
    false
}

/// Classifies one termination: an allow-listed exit code passes; any other
/// code, and any abnormal termination, is a failure.
pub fn classify(t: &Termination, allow: &Vec<i32>) -> (r: TrialOutcome)
    ensures
        r == spec_classify(*t, allow@),
{
    match t {
        Termination::Exited(code) => {
            if contains_code(allow, *code) {
                TrialOutcome::Passed
            } else {
                TrialOutcome::FailedWithCode(*code)
            }
        },
        Termination::Terminated => TrialOutcome::FailedBySignal,
    }
}

/// Whether an outcome lets the loop continue to the next trial.
pub fn is_pass(o: &TrialOutcome) -> (r: bool)
    ensures
        r == (*o is Passed),
{
    match o {
        TrialOutcome::Passed => true,
        _ => false,
    }
}

/// Runs the trial loop's decisions over a recorded sequence of terminations:
/// trials are strictly sequential, the first failing one is terminal, and a
/// session of all-passing trials ends after exactly `n_tries` of them.
pub fn run_session(outcomes: &Vec<Termination>, n_tries: usize, allow: &Vec<i32>) -> (r: SessionEnd)
    requires
        n_tries >= 1,
        outcomes@.len() >= n_tries,
    ensures
        r is FoundFailure <==> exists|i: int|
            0 <= i < n_tries && spec_failing(#[trigger] outcomes@[i], allow@),
        r matches SessionEnd::Succeeded { trials } ==> trials == n_tries,
        r matches SessionEnd::FoundFailure { trials, outcome } ==> {
            &&& 1 <= trials <= n_tries
            &&& spec_failing(outcomes@[trials - 1], allow@)
            &&& forall|j: int| 0 <= j < trials - 1 ==> !spec_failing(#[trigger] outcomes@[j], allow@)
            &&& outcome == spec_classify(outcomes@[trials - 1], allow@)
        },
{
    let mut t: usize = 0;
    while t < n_tries
        invariant
            t <= n_tries,
            outcomes@.len() >= n_tries,
            forall|j: int| 0 <= j < t ==> !spec_failing(#[trigger] outcomes@[j], allow@),
        decreases n_tries - t,
    {
        let outcome = classify(&outcomes[t], allow);
        if !is_pass(&outcome) {
            return SessionEnd::FoundFailure { trials: t + 1, outcome };
        }
        t = t + 1;
    }
    SessionEnd::Succeeded { trials: n_tries }
}

/// The immutable configuration of one fuzzing run.
pub struct TrialConfig {
    /// The program to fuzz, as its native byte encoding.
    pub program: Vec<u8>,
    /// Fixed leading arguments, each as its native byte encoding.
    pub fixed_args: Vec<Vec<u8>>,
    /// How many trials to run before giving up.
    pub n_tries: usize,
    /// How many extra arguments to generate.
    pub n_args: NumberRange,
    /// The longest generated argument, in Unicode scalar values.
    pub max_arg_len: usize,
    /// How many stdin bytes to generate.
    pub n_input_bytes: NumberRange,
    /// The exit codes that do not count as failures.
    pub ok_exit_codes: Vec<i32>,
}

impl TrialConfig {
    /// Well-formedness: positive budget and argument length, well-formed
    /// ranges, and an allow-list that holds zero.
    pub open spec fn inv(&self) -> bool {
        &&& self.n_tries >= 1
        &&& self.max_arg_len >= 1
        &&& self.n_args.inv()
        &&& self.n_input_bytes.inv()
        &&& spec_allowed(0, self.ok_exit_codes@)
    }

    /// Builds a configuration, rejecting a zero trial budget or argument
    /// length; the allow-list is `0` plus the codes to ignore.
    pub fn new(
        program: Vec<u8>,
        fixed_args: Vec<Vec<u8>>,
        n_tries: usize,
        n_args: NumberRange,
        max_arg_len: usize,
        n_input_bytes: NumberRange,
        ignore: &Vec<u8>,
    ) -> (r: Option<TrialConfig>)
        requires
            n_args.inv(),
            n_input_bytes.inv(),
        ensures
            r is Some <==> n_tries >= 1 && max_arg_len >= 1,
            r matches Some(c) ==> {
                &&& c.inv()
                &&& c.program@ == program@
                &&& c.fixed_args@ == fixed_args@
                &&& c.n_tries == n_tries
                &&& c.n_args == n_args
                &&& c.max_arg_len == max_arg_len
                &&& c.n_input_bytes == n_input_bytes
                &&& c.ok_exit_codes@ == seq![0i32] + ignore@.map_values(|b: u8| b as i32)
            },
    {
        if n_tries >= 1 && max_arg_len >= 1 {
            let codes = ok_exit_codes(ignore);
            Some(
                TrialConfig {
                    program,
                    fixed_args,
                    n_tries,
                    n_args,
                    max_arg_len,
                    n_input_bytes,
                    ok_exit_codes: codes,
                },
            )
        } else {
            None
        }
    }
}

} // verus!
