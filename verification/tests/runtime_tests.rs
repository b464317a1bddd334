use perf_exporter::collector::apply_tick;
use perf_exporter::collector::build_streams;
use perf_exporter::collector::collector_step;
use perf_exporter::collector::responder_step;
use perf_exporter::collector::CollectorAction;
use perf_exporter::collector::CollectorState;
use perf_exporter::collector::MetricRegistry;
use perf_exporter::collector::ResponderAction;
use perf_exporter::collector::ResponderState;
use perf_exporter::collector::WaitOutcome;
use perf_exporter::constants::ERROR_SUCCESS;
use perf_exporter::constants::PDH_CSTATUS_NO_COUNTER;
use perf_exporter::constants::PDH_FMT_DOUBLE;
use perf_exporter::constants::PDH_FMT_LARGE;
use perf_exporter::constants::PDH_FMT_LONG;
use perf_exporter::constants::PDH_INVALID_DATA;
use perf_exporter::constants::PDH_INVALID_HANDLE;
use perf_exporter::error::PdhError;
use perf_exporter::query::CollectReply;
use perf_exporter::query::FormattedValue;
use perf_exporter::query::PdhQuery;
use perf_exporter::query::ValueKind;
use perf_exporter::stream::CounterStream;

fn labels(pairs: &[(&str, &str)]) -> Vec<(String, String)> {
    pairs
        .iter()
        .map(|(n, i)| ((*n).to_owned(), (*i).to_owned()))
        .collect()
}

#[test]
fn open_query_needs_success() {
    let query = PdhQuery::open_query(ERROR_SUCCESS, 7).unwrap();
    assert_eq!(query.handle, 7);
    assert!(matches!(
        PdhQuery::open_query(PDH_INVALID_HANDLE, 7),
        Err(PdhError::Open(PDH_INVALID_HANDLE))
    ));
}

#[test]
fn counter_paths_are_validated_before_attach() {
    let query = PdhQuery::open_query(ERROR_SUCCESS, 1).unwrap();
    assert_eq!(query.check_counter_path(r"\Memory\Available Bytes"), Ok(()));
    assert_eq!(
        query.check_counter_path("not a path"),
        Err(PdhError::InvalidPath)
    );
}

#[test]
fn attached_counters_are_bound_to_their_query() {
    let query = PdhQuery::open_query(ERROR_SUCCESS, 9).unwrap();
    let counter = query.finish_add_counter(ERROR_SUCCESS, 33).unwrap();
    assert_eq!(counter.handle, 33);
    assert_eq!(counter.query, 9);
    assert!(matches!(
        query.finish_add_counter(PDH_CSTATUS_NO_COUNTER, 0),
        Err(PdhError::Attach(PDH_CSTATUS_NO_COUNTER))
    ));
}

#[test]
fn format_codes_match_the_requested_kind() {
    assert_eq!(ValueKind::Long.format_code(), PDH_FMT_LONG);
    assert_eq!(ValueKind::Large.format_code(), PDH_FMT_LARGE);
    assert_eq!(ValueKind::Double.format_code(), PDH_FMT_DOUBLE);
}

#[test]
fn stream_plans_exactly_the_configured_pacing() {
    let query = PdhQuery::open_query(ERROR_SUCCESS, 2).unwrap();
    let counter = query.finish_add_counter(ERROR_SUCCESS, 5).unwrap();
    let stream = CounterStream::new(&query, counter, ValueKind::Large);
    let request = stream.next_request();
    assert_eq!(request.delay_ms, None);
    assert_eq!(request.query, 2);
    assert_eq!(request.counter, 5);
    assert_eq!(request.format, PDH_FMT_LARGE);

    let stream = stream.with_delay(250);
    let request = stream.next_request();
    assert_eq!(request.delay_ms, Some(250));
}

#[test]
fn stream_reports_readings_and_one_tick_errors() {
    let query = PdhQuery::open_query(ERROR_SUCCESS, 2).unwrap();
    let counter = query.finish_add_counter(ERROR_SUCCESS, 5).unwrap();
    let stream = CounterStream::new(&query, counter, ValueKind::Long);
    let ok = CollectReply {
        collect_status: ERROR_SUCCESS,
        format_status: ERROR_SUCCESS,
        value: FormattedValue::Long(41),
    };
    assert_eq!(stream.next(ok), Ok(FormattedValue::Long(41)));
    let bad_refresh = CollectReply {
        collect_status: PDH_INVALID_HANDLE,
        format_status: ERROR_SUCCESS,
        value: FormattedValue::Long(0),
    };
    assert_eq!(
        stream.next(bad_refresh),
        Err(PdhError::Collect(PDH_INVALID_HANDLE))
    );
    let bad_format = CollectReply {
        collect_status: ERROR_SUCCESS,
        format_status: PDH_INVALID_DATA,
        value: FormattedValue::Long(0),
    };
    assert_eq!(
        stream.next(bad_format),
        Err(PdhError::Collect(PDH_INVALID_DATA))
    );
    let again = CollectReply {
        collect_status: ERROR_SUCCESS,
        format_status: ERROR_SUCCESS,
        value: FormattedValue::Long(42),
    };
    assert_eq!(stream.next(again), Ok(FormattedValue::Long(42)));
}

#[test]
fn registry_starts_unpopulated() {
    let registry = MetricRegistry::new(&labels(&[
        ("cpu_total_pct", ""),
        ("net_bytes", "eth0"),
    ]));
    assert_eq!(registry.len(), 2);
    assert_eq!(registry.entries[0].name, "cpu_total_pct");
    assert_eq!(registry.entries[0].instance, "");
    assert_eq!(registry.entries[0].value, None);
    assert_eq!(registry.entries[1].instance, "eth0");
    assert_eq!(registry.entries[1].value, None);
}

#[test]
fn failed_streams_keep_the_prior_value_for_one_tick() {
    let mut registry = MetricRegistry::new(&labels(&[("a", ""), ("b", ""), ("c", "")]));
    let first = vec![
        Ok(FormattedValue::Large(1)),
        Ok(FormattedValue::Large(2)),
        Ok(FormattedValue::Large(3)),
    ];
    apply_tick(&mut registry, &first);
    let second = vec![
        Ok(FormattedValue::Large(10)),
        Err(PdhError::Collect(PDH_INVALID_DATA)),
        Ok(FormattedValue::Large(30)),
    ];
    apply_tick(&mut registry, &second);
    assert_eq!(registry.entries[0].value, Some(FormattedValue::Large(10)));
    assert_eq!(registry.entries[1].value, Some(FormattedValue::Large(2)));
    assert_eq!(registry.entries[2].value, Some(FormattedValue::Large(30)));
}

#[test]
fn snapshot_copies_every_entry() {
    let mut registry = MetricRegistry::new(&labels(&[("a", ""), ("b", "x")]));
    apply_tick(
        &mut registry,
        &vec![Ok(FormattedValue::Double(42)), Err(PdhError::Collect(1))],
    );
    let snap = registry.snapshot();
    assert_eq!(snap.len(), 2);
    assert_eq!(snap[0].name, "a");
    assert_eq!(snap[0].value, Some(FormattedValue::Double(42)));
    assert_eq!(snap[1].name, "b");
    assert_eq!(snap[1].instance, "x");
    assert_eq!(snap[1].value, None);
}

#[test]
fn one_bad_attach_fails_the_whole_startup() {
    let query = PdhQuery::open_query(ERROR_SUCCESS, 4).unwrap();
    let c1 = query.finish_add_counter(ERROR_SUCCESS, 11).unwrap();
    let c3 = query.finish_add_counter(ERROR_SUCCESS, 13).unwrap();
    let outcomes = vec![
        Ok(c1),
        Err(PdhError::Attach(PDH_CSTATUS_NO_COUNTER)),
        Ok(c3),
    ];
    let built = build_streams(&query, ValueKind::Double, Some(10), outcomes);
    assert!(matches!(
        built,
        Err(PdhError::Attach(PDH_CSTATUS_NO_COUNTER))
    ));
}

#[test]
fn all_good_attaches_build_one_stream_per_pair() {
    let query = PdhQuery::open_query(ERROR_SUCCESS, 4).unwrap();
    let c1 = query.finish_add_counter(ERROR_SUCCESS, 11).unwrap();
    let c2 = query.finish_add_counter(ERROR_SUCCESS, 12).unwrap();
    let streams = build_streams(&query, ValueKind::Double, Some(10), vec![Ok(c1), Ok(c2)])
        .unwrap();
    assert_eq!(streams.len(), 2);
    assert_eq!(streams[0].counter.handle, 11);
    assert_eq!(streams[1].counter.handle, 12);
    assert_eq!(streams[0].delay_ms, Some(10));
    assert_eq!(streams[1].kind, ValueKind::Double);
}

#[test]
fn a_set_stop_flag_stops_both_tasks_at_once() {
    for event in [WaitOutcome::Request, WaitOutcome::TimedOut, WaitOutcome::Failed] {
        assert_eq!(
            responder_step(true, event),
            (ResponderState::Stopped, ResponderAction::Exit)
        );
    }
    for state in [
        CollectorState::Polling,
        CollectorState::Sleeping,
        CollectorState::Stopped,
    ] {
        assert_eq!(
            collector_step(true, state),
            (CollectorState::Stopped, CollectorAction::Exit)
        );
    }
}

#[test]
fn unstopped_tasks_keep_cycling() {
    assert_eq!(
        responder_step(false, WaitOutcome::Request),
        (ResponderState::Handling, ResponderAction::Reply)
    );
    assert_eq!(
        responder_step(false, WaitOutcome::TimedOut),
        (ResponderState::WaitingForRequest, ResponderAction::Wait)
    );
    assert_eq!(
        responder_step(false, WaitOutcome::Failed),
        (ResponderState::WaitingForRequest, ResponderAction::Wait)
    );
    assert_eq!(
        collector_step(false, CollectorState::Polling),
        (CollectorState::Sleeping, CollectorAction::PollAll)
    );
    assert_eq!(
        collector_step(false, CollectorState::Sleeping),
        (CollectorState::Polling, CollectorAction::Sleep)
    );
}
