use gelf_mover::clock::millis_of;

#[test]
fn milliseconds_are_kept_where_they_fit() {
    assert_eq!(millis_of(Some(0)), 0);
    assert_eq!(millis_of(Some(1_582_213_226_000)), 1_582_213_226_000);
    assert_eq!(millis_of(Some(u64::MAX as u128)), u64::MAX);
}

#[test]
fn milliseconds_that_do_not_fit_give_the_limit() {
    assert_eq!(millis_of(Some(u64::MAX as u128 + 1)), u64::MAX);
    assert_eq!(millis_of(Some(u128::MAX)), u64::MAX);
}

#[test]
fn clock_before_the_epoch_reads_zero() {
    assert_eq!(millis_of(None), 0);
}
