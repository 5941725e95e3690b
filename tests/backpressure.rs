use ws_bridge::{next_step, DeliveryError, DeliveryOutcome, RetryStep, RETRY_DELAY_MS};

#[test]
fn retry_delay_is_ten_milliseconds() {
    assert_eq!(RETRY_DELAY_MS, 10);
}

#[test]
fn delivered_finishes_with_success() {
    assert!(matches!(next_step::<u32>(DeliveryOutcome::Delivered), RetryStep::Finish(Ok(()))));
}

#[test]
fn full_hands_the_message_back_for_a_retry() {
    match next_step(DeliveryOutcome::Full(42u32)) {
        RetryStep::WaitAndRetry { message, delay_ms } => {
            assert_eq!(message, 42);
            assert_eq!(delay_ms, 10);
        }
        _ => panic!("a full channel must be retried"),
    }
}

#[test]
fn closed_finishes_with_the_returned_message() {
    assert!(matches!(
        next_step(DeliveryOutcome::Closed(Some(7u32))),
        RetryStep::Finish(Err(DeliveryError::Closed(Some(7))))
    ));
    assert!(matches!(
        next_step::<u32>(DeliveryOutcome::Closed(None)),
        RetryStep::Finish(Err(DeliveryError::Closed(None)))
    ));
}

#[test]
fn failed_finishes_with_failure() {
    assert!(matches!(next_step::<u32>(DeliveryOutcome::Failed), RetryStep::Finish(Err(DeliveryError::Failed))));
}

#[test]
fn stub_full_k_times_gives_k_retries() {
    for k in [0usize, 1, 3, 17] {
        let mut full_left = k;
        let mut message = String::from("payload");
        let mut retries = 0usize;
        let mut waited = 0u64;
        let result = loop {
            let outcome = if full_left > 0 {
                full_left -= 1;
                DeliveryOutcome::Full(message)
            } else {
                assert_eq!(message, "payload");
                DeliveryOutcome::Delivered
            };
            match next_step(outcome) {
                RetryStep::WaitAndRetry { message: m, delay_ms } => {
                    assert!(delay_ms >= 10);
                    waited += delay_ms;
                    retries += 1;
                    message = m;
                }
                RetryStep::Finish(r) => break r,
            }
        };
        assert!(result.is_ok());
        assert_eq!(retries, k);
        assert_eq!(waited, 10 * k as u64);
    }
}
