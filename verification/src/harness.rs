//! From two arguments to a plan of work, and from the plan's fate to the
//! status that the process ends with.
//!
//! The thread count is read first, then the total, and only then is the
//! thread count held against zero: the first thing that goes wrong decides
//! the error.

use vstd::prelude::*;
use vstd::string::StringSliceAdditionalSpecFns;
use crate::error::{HarnessError, EXIT_BAD_SUM, EXIT_BAD_THREAD_COUNT, EXIT_SUCCESS};
use crate::parse::{
    is_numeral, lemma_read_unsigned_meaning, numeral_value, parse_u32, parse_u64, read_unsigned,
};
use crate::partition::WorkPartition;

verus! {

/// What the two arguments ask for: a positive number of workers and a number
/// of increments, or the reason why they ask for nothing.
pub open spec fn plan_outcome(nthread_text: Seq<u8>, sum_text: Seq<u8>) -> Result<
    (nat, nat),
    HarnessError,
> {
    match read_unsigned(nthread_text, u32::MAX as nat) {
        Err(failure) => Err(HarnessError::MalformedThreadCount(failure)),
        Ok(nthread) => match read_unsigned(sum_text, u64::MAX as nat) {
            Err(failure) => Err(HarnessError::MalformedSum(failure)),
            Ok(sum) => if nthread == 0 {
                Err(HarnessError::ZeroThreads)
            } else {
                Ok((nthread, sum))
            },
        },
    }
}

/// The status that the process ends with after `outcome`: success if there
/// is a plan, since a planned run always comes to its end, and the status of
/// the error otherwise.
pub open spec fn status_of<T>(outcome: Result<T, HarnessError>) -> i32 {
    match outcome {
        Ok(_) => EXIT_SUCCESS,
        Err(error) => error.status(),
    }
}

/// The status that the process ends with, given the two arguments.
pub open spec fn exit_status(nthread_text: Seq<u8>, sum_text: Seq<u8>) -> i32 {
    status_of(plan_outcome(nthread_text, sum_text))
}

/// Whether `text` can be read as a thread count: a numeral for a number of
/// at most 32 bits.
pub open spec fn is_thread_count(text: Seq<u8>) -> bool {
    is_numeral(text) && numeral_value(text) <= u32::MAX
}

/// Whether `text` can be read as a total: a numeral for a number of at most
/// 64 bits.
pub open spec fn is_sum(text: Seq<u8>) -> bool {
    is_numeral(text) && numeral_value(text) <= u64::MAX
}

/// Whenever the thread count is positive and the total is any number, the
/// run is planned with these two numbers and the process ends with success.
pub proof fn lemma_positive_thread_count_succeeds(nthread_text: Seq<u8>, sum_text: Seq<u8>)
    requires
        is_thread_count(nthread_text),
        numeral_value(nthread_text) > 0,
        is_sum(sum_text),
    ensures
        plan_outcome(nthread_text, sum_text) == Ok::<(nat, nat), HarnessError>(
            (numeral_value(nthread_text), numeral_value(sum_text)),
        ),
        exit_status(nthread_text, sum_text) == EXIT_SUCCESS,
{
    lemma_read_unsigned_meaning(nthread_text, u32::MAX as nat);
    lemma_read_unsigned_meaning(sum_text, u64::MAX as nat);
}

/// A thread count of zero is refused with the status of a bad thread count,
/// whatever number the total is.
pub proof fn lemma_zero_thread_count_is_refused(nthread_text: Seq<u8>, sum_text: Seq<u8>)
    requires
        is_thread_count(nthread_text),
        numeral_value(nthread_text) == 0,
        is_sum(sum_text),
    ensures
        plan_outcome(nthread_text, sum_text) == Err::<(nat, nat), HarnessError>(
            HarnessError::ZeroThreads,
        ),
        exit_status(nthread_text, sum_text) == EXIT_BAD_THREAD_COUNT,
        exit_status(nthread_text, sum_text) != EXIT_SUCCESS,
{
    lemma_read_unsigned_meaning(nthread_text, u32::MAX as nat);
    lemma_read_unsigned_meaning(sum_text, u64::MAX as nat);
}

/// A thread count that cannot be read ends the process with the status of a
/// bad thread count, whatever the total is.
pub proof fn lemma_malformed_thread_count_status(nthread_text: Seq<u8>, sum_text: Seq<u8>)
    requires
        !is_thread_count(nthread_text),
    ensures
        plan_outcome(nthread_text, sum_text) is Err,
        plan_outcome(nthread_text, sum_text)->Err_0 is MalformedThreadCount,
        exit_status(nthread_text, sum_text) == EXIT_BAD_THREAD_COUNT,
{
    lemma_read_unsigned_meaning(nthread_text, u32::MAX as nat);
}

/// Behind a thread count that can be read, zero or not, a total that cannot
/// be read ends the process with the status of a bad total.
pub proof fn lemma_malformed_sum_status(nthread_text: Seq<u8>, sum_text: Seq<u8>)
    requires
        is_thread_count(nthread_text),
        !is_sum(sum_text),
    ensures
        plan_outcome(nthread_text, sum_text) is Err,
        plan_outcome(nthread_text, sum_text)->Err_0 is MalformedSum,
        exit_status(nthread_text, sum_text) == EXIT_BAD_SUM,
{
    lemma_read_unsigned_meaning(nthread_text, u32::MAX as nat);
    lemma_read_unsigned_meaning(sum_text, u64::MAX as nat);
}

/// The process ends with success exactly when a run was planned, which is
/// exactly when both arguments can be read and the thread count is not zero.
pub proof fn lemma_success_iff_planned(nthread_text: Seq<u8>, sum_text: Seq<u8>)
    ensures
        exit_status(nthread_text, sum_text) == EXIT_SUCCESS <==> plan_outcome(
            nthread_text,
            sum_text,
        ) is Ok,
        plan_outcome(nthread_text, sum_text) is Ok <==> is_thread_count(nthread_text)
            && numeral_value(nthread_text) > 0 && is_sum(sum_text),
{
    lemma_read_unsigned_meaning(nthread_text, u32::MAX as nat);
    lemma_read_unsigned_meaning(sum_text, u64::MAX as nat);
}

/// Reads the two arguments and splits the work. There is a plan exactly when
/// both arguments can be read and the thread count is not zero; otherwise
/// the error is that of the first thing that went wrong.
pub fn plan(nthread_text: &str, sum_text: &str) -> (result: Result<WorkPartition, HarnessError>)
    ensures
        (match plan_outcome(nthread_text.spec_bytes(), sum_text.spec_bytes()) {
            Ok((nthread, sum)) => result matches Ok(partition) && partition.workers() == nthread
                && partition.requested() == sum,
            Err(error) => result == Err::<WorkPartition, HarnessError>(error),
        }),
        result is Ok <==> is_thread_count(nthread_text.spec_bytes()) && numeral_value(
            nthread_text.spec_bytes(),
        ) > 0 && is_sum(sum_text.spec_bytes()),
        status_of(result) == exit_status(nthread_text.spec_bytes(), sum_text.spec_bytes()),
{
    proof {
        lemma_success_iff_planned(nthread_text.spec_bytes(), sum_text.spec_bytes());
    }
    let nthread = match parse_u32(nthread_text) {
        Ok(nthread) => nthread,
        Err(failure) => {
            return Err(HarnessError::MalformedThreadCount(failure));
        },
    };
    let sum = match parse_u64(sum_text) {
        Ok(sum) => sum,
        Err(failure) => {
            return Err(HarnessError::MalformedSum(failure));
        },
    };
    WorkPartition::new(nthread, sum)
}

/// The status that the process ends with after `outcome`.
pub fn exit_code(outcome: &Result<WorkPartition, HarnessError>) -> (code: i32)
    ensures
        code == status_of(*outcome),
        code == EXIT_SUCCESS <==> outcome is Ok,
{
    match outcome {
        Ok(_) => EXIT_SUCCESS,
        Err(error) => error.exit_code(),
    }
}

} // verus!
