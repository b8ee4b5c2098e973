use perf_zoo::counter::run_in_turn;
use perf_zoo::error::{
    HarnessError, ParseFailure, EXIT_BAD_SUM, EXIT_BAD_THREAD_COUNT, EXIT_SUCCESS,
};
use perf_zoo::harness::{exit_code, plan};

#[test]
fn status_values() {
    assert_eq!(EXIT_SUCCESS, 0);
    assert_eq!(EXIT_BAD_THREAD_COUNT, 1);
    assert_eq!(EXIT_BAD_SUM, 2);
}

#[test]
fn error_status_by_variant() {
    assert_eq!(HarnessError::ZeroThreads.exit_code(), 1);
    assert_eq!(HarnessError::MalformedThreadCount(ParseFailure::Empty).exit_code(), 1);
    assert_eq!(HarnessError::MalformedThreadCount(ParseFailure::InvalidDigit).exit_code(), 1);
    assert_eq!(HarnessError::MalformedThreadCount(ParseFailure::Overflow).exit_code(), 1);
    assert_eq!(HarnessError::MalformedSum(ParseFailure::Empty).exit_code(), 2);
    assert_eq!(HarnessError::MalformedSum(ParseFailure::InvalidDigit).exit_code(), 2);
    assert_eq!(HarnessError::MalformedSum(ParseFailure::Overflow).exit_code(), 2);
}

#[test]
fn four_threads_one_hundred_increments() {
    let outcome = plan("4", "100");
    assert_eq!(exit_code(&outcome), 0);
    let partition = outcome.unwrap();
    assert_eq!(partition.nthread(), 4);
    assert_eq!(partition.sum(), 100);
    assert_eq!(partition.iteration(), 25);
    assert_eq!(run_in_turn(&partition), 100);
}

#[test]
fn three_threads_ten_increments() {
    let outcome = plan("3", "10");
    assert_eq!(exit_code(&outcome), 0);
    let partition = outcome.unwrap();
    assert_eq!(partition.iteration(), 3);
    assert_eq!(run_in_turn(&partition), 9);
    assert_eq!(partition.remainder(), 1);
}

#[test]
fn zero_threads_one_hundred_increments() {
    let outcome = plan("0", "100");
    assert_eq!(outcome, Err(HarnessError::ZeroThreads));
    assert_eq!(exit_code(&outcome), 1);
}

#[test]
fn zero_threads_are_refused_whatever_the_sum() {
    for sum in ["0", "1", "100", "18446744073709551615", "+7"] {
        let outcome = plan("0", sum);
        assert_eq!(outcome, Err(HarnessError::ZeroThreads));
        assert_eq!(exit_code(&outcome), EXIT_BAD_THREAD_COUNT);
        let outcome = plan("000", sum);
        assert_eq!(outcome, Err(HarnessError::ZeroThreads));
    }
}

#[test]
fn positive_threads_succeed_whatever_the_sum() {
    for nthread in ["1", "2", "3", "16", "4294967295"] {
        for sum in ["0", "1", "99", "18446744073709551615"] {
            let outcome = plan(nthread, sum);
            assert!(outcome.is_ok());
            assert_eq!(exit_code(&outcome), EXIT_SUCCESS);
        }
    }
}

#[test]
fn malformed_thread_count_gives_status_one() {
    let outcome = plan("four", "100");
    assert_eq!(outcome, Err(HarnessError::MalformedThreadCount(ParseFailure::InvalidDigit)));
    assert_eq!(exit_code(&outcome), 1);
    let outcome = plan("", "100");
    assert_eq!(outcome, Err(HarnessError::MalformedThreadCount(ParseFailure::Empty)));
    assert_eq!(exit_code(&outcome), 1);
    let outcome = plan("4294967296", "100");
    assert_eq!(outcome, Err(HarnessError::MalformedThreadCount(ParseFailure::Overflow)));
    assert_eq!(exit_code(&outcome), 1);
    let outcome = plan("-1", "100");
    assert_eq!(outcome, Err(HarnessError::MalformedThreadCount(ParseFailure::InvalidDigit)));
}

#[test]
fn malformed_sum_gives_status_two() {
    let outcome = plan("4", "many");
    assert_eq!(outcome, Err(HarnessError::MalformedSum(ParseFailure::InvalidDigit)));
    assert_eq!(exit_code(&outcome), 2);
    let outcome = plan("4", "");
    assert_eq!(outcome, Err(HarnessError::MalformedSum(ParseFailure::Empty)));
    assert_eq!(exit_code(&outcome), 2);
    let outcome = plan("4", "18446744073709551616");
    assert_eq!(outcome, Err(HarnessError::MalformedSum(ParseFailure::Overflow)));
    assert_eq!(exit_code(&outcome), 2);
    let outcome = plan("4", "1e6");
    assert_eq!(outcome, Err(HarnessError::MalformedSum(ParseFailure::InvalidDigit)));
}

#[test]
fn thread_count_is_read_before_the_sum() {
    let outcome = plan("x", "y");
    assert_eq!(outcome, Err(HarnessError::MalformedThreadCount(ParseFailure::InvalidDigit)));
    assert_eq!(exit_code(&outcome), 1);
}

#[test]
fn sum_is_read_before_zero_threads_are_refused() {
    let outcome = plan("0", "y");
    assert_eq!(outcome, Err(HarnessError::MalformedSum(ParseFailure::InvalidDigit)));
    assert_eq!(exit_code(&outcome), 2);
}

#[test]
fn thread_count_above_32_bits_is_malformed_while_sum_may_be_so_large() {
    assert!(plan("4294967295", "4294967296").is_ok());
    assert_eq!(
        plan("4294967296", "4294967295"),
        Err(HarnessError::MalformedThreadCount(ParseFailure::Overflow))
    );
}
