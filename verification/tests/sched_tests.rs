use payload_dumper::sched::{
    backoff_delay_ms, chunk_size, content_type_is_zip, needs_reader_limit, next_retry_step,
    routes_to_zip, url_ends_in_zip, use_parallel, RetryStep,
};

#[test]
fn url_zip_routing() {
    assert!(url_ends_in_zip(b"https://host/ota.zip"));
    assert!(url_ends_in_zip(b"https://host/OTA.ZIP"));
    assert!(url_ends_in_zip(b"https://host/ota.Zip"));
    assert!(!url_ends_in_zip(b"https://host/payload.bin"));
    assert!(!url_ends_in_zip(b"zip"));
    assert!(!url_ends_in_zip(b"https://host/ota.zipx"));
}

#[test]
fn content_type_routing() {
    assert!(content_type_is_zip(b"application/zip"));
    assert!(!content_type_is_zip(b"application/octet-stream"));
    assert!(!content_type_is_zip(b"application/zip; charset=binary"));
}

#[test]
fn zip_routing_by_either_signal() {
    let ct_zip = b"application/zip".to_vec();
    let ct_raw = b"application/octet-stream".to_vec();
    assert!(routes_to_zip(b"https://host/a.zip", None));
    assert!(routes_to_zip(b"https://host/a.bin", Some(&ct_zip)));
    assert!(!routes_to_zip(b"https://host/a.bin", Some(&ct_raw)));
    assert!(!routes_to_zip(b"https://host/a.bin", None));
}

#[test]
fn parallel_strategy_choice() {
    assert!(use_parallel(true, false, false, false));
    assert!(use_parallel(false, true, false, false));
    assert!(use_parallel(false, false, true, false));
    assert!(!use_parallel(true, false, false, true));
    assert!(!use_parallel(false, false, false, false));
}

#[test]
fn reader_limit_only_for_local_zip() {
    assert!(needs_reader_limit(false, true));
    assert!(!needs_reader_limit(true, true));
    assert!(!needs_reader_limit(false, false));
}

#[test]
fn chunking_is_an_even_split_at_least_one() {
    assert_eq!(chunk_size(0, 4), 1);
    assert_eq!(chunk_size(3, 4), 1);
    assert_eq!(chunk_size(8, 4), 2);
    assert_eq!(chunk_size(9, 4), 2);
    assert_eq!(chunk_size(7, 1), 7);
}

#[test]
fn backoff_doubles_and_holds_at_sixteen_hundred() {
    assert_eq!(backoff_delay_ms(0), 100);
    assert_eq!(backoff_delay_ms(1), 200);
    assert_eq!(backoff_delay_ms(2), 400);
    assert_eq!(backoff_delay_ms(3), 800);
    assert_eq!(backoff_delay_ms(4), 1600);
    assert_eq!(backoff_delay_ms(10), 1600);
}

#[test]
fn retry_steps_until_budget_spent() {
    assert_eq!(
        next_retry_step(0, 3),
        RetryStep::Proceed { delay_ms: 200 }
    );
    assert_eq!(
        next_retry_step(1, 3),
        RetryStep::Proceed { delay_ms: 400 }
    );
    assert_eq!(next_retry_step(2, 3), RetryStep::RecordFailure);
    assert_eq!(next_retry_step(0, 1), RetryStep::RecordFailure);
}
