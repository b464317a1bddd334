use perf_exporter::path::parse_counter_path;
use perf_exporter::path::parse_instance;
use perf_exporter::path::render_counter_path;
use perf_exporter::path::validate_counter_path;
use perf_exporter::path::CounterPath;

#[test]
fn render_without_host_or_instance() {
    let path = CounterPath {
        host: None,
        object: "Memory".to_owned(),
        instance: String::new(),
        counter: "Available Bytes".to_owned(),
    };
    assert_eq!(render_counter_path(&path), r"\Memory\Available Bytes");
}

#[test]
fn render_with_host_and_instance() {
    let path = CounterPath {
        host: Some("H".to_owned()),
        object: "Memory".to_owned(),
        instance: "0".to_owned(),
        counter: "Available Bytes".to_owned(),
    };
    assert_eq!(render_counter_path(&path), r"\\H\Memory(0)\Available Bytes");
}

#[test]
fn parse_instance_takes_the_parenthesized_token() {
    assert_eq!(
        parse_instance(r"\Processor Information(_Total)\% Processor Time"),
        "_Total"
    );
    assert_eq!(parse_instance(r"\Memory\Available Bytes"), "");
}

#[test]
fn parse_instance_takes_the_last_group() {
    assert_eq!(parse_instance(r"\Proc(a)(b)\c"), "b");
    assert_eq!(parse_instance("no parens at all"), "");
    assert_eq!(parse_instance("only ( open"), "");
}

#[test]
fn valid_paths_pass_validation() {
    assert!(validate_counter_path(r"\Memory\Available Bytes"));
    assert!(validate_counter_path(r"\Processor(_Total)\% Idle Time"));
    assert!(validate_counter_path(r"\\H\Memory(0)\Available Bytes"));
    assert!(validate_counter_path(r"\Network Interface(*)\Bytes Sent/sec"));
}

#[test]
fn malformed_paths_fail_validation() {
    assert!(!validate_counter_path("Memory"));
    assert!(!validate_counter_path(r"\Memory"));
    assert!(!validate_counter_path(r"\Memory()\Counter"));
    assert!(!validate_counter_path(r"\(x)\Counter"));
    assert!(!validate_counter_path(r"\a\b\c"));
    assert!(!validate_counter_path(r"\Memory\"));
    assert!(!validate_counter_path(""));
}

#[test]
fn parse_counter_path_splits_the_segments() {
    let parsed = parse_counter_path(r"\\H\Proc(0)\Time").unwrap();
    assert_eq!(parsed.host.as_deref(), Some("H"));
    assert_eq!(parsed.object, "Proc");
    assert_eq!(parsed.instance, "0");
    assert_eq!(parsed.counter, "Time");

    let parsed = parse_counter_path(r"\Memory\Available Bytes").unwrap();
    assert!(parsed.host.is_none());
    assert_eq!(parsed.object, "Memory");
    assert_eq!(parsed.instance, "");
    assert_eq!(parsed.counter, "Available Bytes");
}

#[test]
fn parse_then_render_reproduces_the_path() {
    for p in [
        r"\Memory\Available Bytes",
        r"\Processor(_Total)\% Idle Time",
        r"\\HOST\PhysicalDisk(_Total)\Disk Read Bytes/sec",
    ] {
        let parsed = parse_counter_path(p).unwrap();
        assert_eq!(render_counter_path(&parsed), p);
    }
}
