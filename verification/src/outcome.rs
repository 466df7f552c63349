//! Checking what a contract call came back with: whether it succeeded,
//! whether it failed with an expected message, and what a test run reports
//! along the way.
use vstd::prelude::*;

use crate::text::{any_contains, contains, contains_text};

verus! {

/// What a submitted call came back with, as far as the checks read it.
pub enum CallOutcome {
    /// The transaction was executed. `receipt_failures` holds the error text
    /// of each receipt that failed, in order.
    Executed { receipt_failures: Vec<String> },
    /// The transaction was executed and failed; `message` is its error text.
    Failed { message: String },
    /// The call could not be made or its result could not be read;
    /// `message` is the error text.
    Unhandled { message: String },
}

/// Whether the outcome carries an error whose text contains `expect`: one of
/// the failed receipts of an executed transaction, or the error of a failed
/// or unhandled call.
pub open spec fn failure_matches(outcome: CallOutcome, expect: Seq<char>) -> bool {
    match outcome {
        CallOutcome::Executed { receipt_failures } => exists|i: int|
            0 <= i < receipt_failures.len() && contains_text(
                #[trigger] receipt_failures@[i]@,
                expect,
            ),
        CallOutcome::Failed { message } => contains_text(message@, expect),
        CallOutcome::Unhandled { message } => contains_text(message@, expect),
    }
}

/// Whether the outcome is a clean success: an executed transaction none of
/// whose receipts failed.
pub open spec fn is_clean_success(outcome: CallOutcome) -> bool {
    match outcome {
        CallOutcome::Executed { receipt_failures } => receipt_failures.len() == 0,
        _ => false,
    }
}

/// What a check of a call outcome decides, and what it reports on the way.
#[derive(Debug, Clone, Copy, PartialEq, Eq)]
pub struct CheckReport {
    /// The check holds.
    pub passed: bool,
    /// The transaction's opening banner is printed.
    pub print_begin: bool,
    /// The receipt outcomes and gas are printed, whatever the default
    /// output setting says (an unhandled call has none to print).
    pub show_outcomes: bool,
    /// The closing banner is printed (only reached when the check holds).
    pub print_end: bool,
}

/// The check that a call failed with an error containing `expect`. It holds
/// exactly when `failure_matches`. The opening banner is printed when
/// default output is on or the check does not hold, and so are the outcomes
/// of an executed or failed transaction; the closing banner when default
/// output is on.
pub fn check_expected_failure(outcome: &CallOutcome, expect: &str, show_default: bool) -> (r:
    CheckReport)
    ensures
        r.passed == failure_matches(*outcome, expect@),
        r.print_begin == (show_default || !r.passed),
        r.show_outcomes == (!r.passed && !(*outcome is Unhandled)),
        r.print_end == show_default,
{
    let found = match outcome {
        CallOutcome::Executed { receipt_failures } => any_contains(receipt_failures, expect),
        CallOutcome::Failed { message } => contains(message.as_str(), expect),
        CallOutcome::Unhandled { message } => contains(message.as_str(), expect),
    };
    let unhandled = match outcome {
        CallOutcome::Unhandled { .. } => true,
        _ => false,
    };
    CheckReport {
        passed: found,
        print_begin: show_default || !found,
        show_outcomes: !found && !unhandled,
        print_end: show_default,
    }
}

/// The check that a call succeeded. It holds exactly for a clean success.
/// For an executed transaction the opening banner and the outcomes are
/// printed when default output is on or a receipt failed; a failed or
/// unhandled call prints the opening banner and no outcomes.
pub fn check_success(outcome: &CallOutcome, show_default: bool) -> (r: CheckReport)
    ensures
        r.passed == is_clean_success(*outcome),
        r.print_begin == (match *outcome {
            CallOutcome::Executed { .. } => show_default || !r.passed,
            _ => true,
        }),
        r.show_outcomes == (!r.passed && *outcome is Executed),
        r.print_end == show_default,
{
    match outcome {
        CallOutcome::Executed { receipt_failures } => {
            let clean = receipt_failures.len() == 0;
            CheckReport {
                passed: clean,
                print_begin: show_default || !clean,
                show_outcomes: !clean,
                print_end: show_default,
            }
        },
        _ => CheckReport {
            passed: false,
            print_begin: true,
            show_outcomes: false,
            print_end: show_default,
        },
    }
}

/// No outcome passes both checks: a call that succeeded cleanly never
/// counts as failing with an expected message, whatever the message.
pub proof fn law_success_excludes_expected_failure(outcome: CallOutcome, expect: Seq<char>)
    ensures
        !(is_clean_success(outcome) && failure_matches(outcome, expect)),
{
}

/// An empty expected message matches every failed or unhandled call, and an
/// executed transaction exactly when one of its receipts failed.
pub proof fn law_empty_expectation(outcome: CallOutcome)
    ensures
        failure_matches(outcome, Seq::<char>::empty()) == !is_clean_success(outcome),
{
    crate::text::law_empty_text_contained(Seq::<char>::empty());
    match outcome {
        CallOutcome::Executed { receipt_failures } => {
            if receipt_failures.len() > 0 {
                crate::text::law_empty_text_contained(receipt_failures@[0]@);
            }
        },
        CallOutcome::Failed { message } => {
            crate::text::law_empty_text_contained(message@);
        },
        CallOutcome::Unhandled { message } => {
            crate::text::law_empty_text_contained(message@);
        },
    }
}

/// For an executed transaction, the expected-failure check holds exactly
/// when some failed receipt, at any position, has an error text that
/// contains the expected text; in particular it holds whenever a receipt's
/// text is the expected text with anything before and after it.
pub proof fn law_expected_failure_in_any_receipt(
    outcome: CallOutcome,
    expect: Seq<char>,
    i: int,
    before: Seq<char>,
    after: Seq<char>,
)
    requires
        outcome is Executed,
    ensures
        failure_matches(outcome, expect) <==> exists|k: int|
            0 <= k < outcome->receipt_failures@.len() && contains_text(
                #[trigger] outcome->receipt_failures@[k]@,
                expect,
            ),
        0 <= i < outcome->receipt_failures@.len() && outcome->receipt_failures@[i]@ == before
            + expect + after ==> failure_matches(outcome, expect),
{
    if 0 <= i < outcome->receipt_failures@.len() && outcome->receipt_failures@[i]@ == before
        + expect + after {
        crate::text::law_contains_infix(before, expect, after);
    }
}

/// For a failed transaction, the expected-failure check holds exactly when
/// the error text contains the expected text, wherever in it: in particular
/// whenever the error text is the expected text with anything before and
/// after it.
pub proof fn law_expected_failure_in_failed_call(
    outcome: CallOutcome,
    expect: Seq<char>,
    before: Seq<char>,
    after: Seq<char>,
)
    requires
        outcome is Failed,
    ensures
        failure_matches(outcome, expect) <==> contains_text(outcome->Failed_message@, expect),
        outcome->Failed_message@ == before + expect + after ==> failure_matches(outcome, expect),
{
    if outcome->Failed_message@ == before + expect + after {
        crate::text::law_contains_infix(before, expect, after);
    }
}

/// For an unhandled call, the expected-failure check holds exactly when the
/// error text contains the expected text, wherever in it: in particular
/// whenever the error text is the expected text with anything before and
/// after it.
pub proof fn law_expected_failure_in_unhandled_call(
    outcome: CallOutcome,
    expect: Seq<char>,
    before: Seq<char>,
    after: Seq<char>,
)
    requires
        outcome is Unhandled,
    ensures
        failure_matches(outcome, expect) <==> contains_text(outcome->Unhandled_message@, expect),
        outcome->Unhandled_message@ == before + expect + after ==> failure_matches(
            outcome,
            expect,
        ),
{
    if outcome->Unhandled_message@ == before + expect + after {
        crate::text::law_contains_infix(before, expect, after);
    }
}

/// A clean success is exactly an executed transaction with no failed
/// receipt.
pub proof fn law_clean_success(outcome: CallOutcome)
    ensures
        is_clean_success(outcome) <==> (outcome is Executed && outcome->receipt_failures@.len()
            == 0),
{
}

} // verus!
