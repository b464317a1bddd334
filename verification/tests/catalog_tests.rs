use perf_exporter::catalog::enumeration_probe;
use perf_exporter::catalog::expansion_probe;
use perf_exporter::catalog::object_counter_paths;
use perf_exporter::catalog::wildcard_labels;
use perf_exporter::catalog::BufferReply;
use perf_exporter::catalog::ItemsBufferReply;
use perf_exporter::catalog::ObjectItems;
use perf_exporter::catalog::ProbeReply;
use perf_exporter::catalog::PDH;
use perf_exporter::constants::ERROR_SUCCESS;
use perf_exporter::constants::PDH_CSTATUS_NO_OBJECT;
use perf_exporter::constants::PDH_INVALID_ARGUMENT;
use perf_exporter::constants::PDH_MORE_DATA;
use perf_exporter::error::PdhError;

fn units(s: &str) -> Vec<u16> {
    s.encode_utf16().collect()
}

fn owned(names: &[&str]) -> Vec<String> {
    names.iter().map(|n| (*n).to_owned()).collect()
}

#[test]
fn enumeration_probe_wants_more_data() {
    let reply = ProbeReply { status: PDH_MORE_DATA, needed_len: 42 };
    assert_eq!(enumeration_probe(&reply), Ok(42));
    let reply = ProbeReply { status: ERROR_SUCCESS, needed_len: 42 };
    assert_eq!(
        enumeration_probe(&reply),
        Err(PdhError::Enumeration(ERROR_SUCCESS))
    );
}

#[test]
fn expansion_probe_wants_success() {
    let reply = ProbeReply { status: ERROR_SUCCESS, needed_len: 7 };
    assert_eq!(expansion_probe(&reply), Ok(7));
    let reply = ProbeReply { status: PDH_MORE_DATA, needed_len: 7 };
    assert_eq!(
        expansion_probe(&reply),
        Err(PdhError::Enumeration(PDH_MORE_DATA))
    );
}

#[test]
fn enumerate_objects_decodes_the_buffer() {
    let pdh = PDH::new();
    let fill = BufferReply { status: ERROR_SUCCESS, data: units("Memory\0System\0\0") };
    assert_eq!(
        pdh.enumerate_objects_string(fill),
        Ok(owned(&["Memory", "System"]))
    );
}

#[test]
fn enumerate_objects_propagates_failures() {
    let pdh = PDH::new();
    let fill = BufferReply { status: PDH_INVALID_ARGUMENT, data: Vec::new() };
    assert_eq!(
        pdh.enumerate_objects_string(fill),
        Err(PdhError::Enumeration(PDH_INVALID_ARGUMENT))
    );
    let fill = BufferReply { status: ERROR_SUCCESS, data: vec![0] };
    assert_eq!(pdh.enumerate_objects_string(fill), Err(PdhError::Protocol));
}

#[test]
fn enumerate_items_decodes_both_buffers() {
    let pdh = PDH::new();
    let fill = ItemsBufferReply {
        status: ERROR_SUCCESS,
        counters: units("Available Bytes\0Cache Bytes\0\0"),
        instances: units("\0\0"),
    };
    let (counters, instances) = pdh.enumerate_items_string(fill).unwrap();
    assert_eq!(counters, owned(&["Available Bytes", "Cache Bytes"]));
    assert_eq!(instances, owned(&[""]));
}

#[test]
fn enumerate_items_rejects_short_buffers() {
    let pdh = PDH::new();
    let fill = ItemsBufferReply {
        status: ERROR_SUCCESS,
        counters: units("A\0\0"),
        instances: vec![0],
    };
    assert_eq!(pdh.enumerate_items_string(fill), Err(PdhError::Protocol));
    let fill = ItemsBufferReply {
        status: PDH_CSTATUS_NO_OBJECT,
        counters: Vec::new(),
        instances: Vec::new(),
    };
    assert_eq!(
        pdh.enumerate_items_string(fill),
        Err(PdhError::Enumeration(PDH_CSTATUS_NO_OBJECT))
    );
}

#[test]
fn object_paths_cross_instances_and_counters() {
    let paths = object_counter_paths(
        "",
        "Processor",
        &owned(&["% User Time", "% Idle Time"]),
        &owned(&["0", "_Total"]),
    );
    assert_eq!(
        paths,
        owned(&[
            r"\Processor(0)\% User Time",
            r"\Processor(0)\% Idle Time",
            r"\Processor(_Total)\% User Time",
            r"\Processor(_Total)\% Idle Time",
        ])
    );
}

#[test]
fn missing_object_is_skipped_by_the_walk() {
    let pdh = PDH::new();
    let objects = owned(&["Memory", "Gone", "System"]);
    let outcomes = vec![
        Ok(ObjectItems {
            counters: owned(&["Available Bytes"]),
            instances: owned(&[""]),
        }),
        Err(PdhError::Enumeration(PDH_CSTATUS_NO_OBJECT)),
        Ok(ObjectItems {
            counters: owned(&["Processes", "Threads"]),
            instances: owned(&[""]),
        }),
    ];
    let paths = pdh.enumerate_counters(&objects, &outcomes).unwrap();
    assert_eq!(
        paths,
        owned(&[
            r"\Memory\Available Bytes",
            r"\System\Processes",
            r"\System\Threads",
        ])
    );
}

#[test]
fn other_enumeration_errors_abort_the_walk() {
    let pdh = PDH::new();
    let objects = owned(&["Memory", "Bad"]);
    let outcomes = vec![
        Ok(ObjectItems {
            counters: owned(&["Available Bytes"]),
            instances: owned(&[""]),
        }),
        Err(PdhError::Enumeration(PDH_INVALID_ARGUMENT)),
    ];
    assert_eq!(
        pdh.enumerate_counters(&objects, &outcomes),
        Err(PdhError::Enumeration(PDH_INVALID_ARGUMENT))
    );
}

#[test]
fn machine_prefix_names_the_host() {
    let pdh = PDH::new().with_machine_name(units("HOST"));
    assert_eq!(pdh.machine_prefix(), r"\\HOST");
    let objects = owned(&["Memory"]);
    let outcomes = vec![Ok(ObjectItems {
        counters: owned(&["Available Bytes"]),
        instances: owned(&[""]),
    })];
    let paths = pdh.enumerate_counters(&objects, &outcomes).unwrap();
    assert_eq!(paths, owned(&[r"\\HOST\Memory\Available Bytes"]));
}

#[test]
fn expand_counter_path_decodes_the_buffer() {
    let pdh = PDH::new();
    let fill = BufferReply {
        status: ERROR_SUCCESS,
        data: units("\\Net(eth0)\\Bytes\0\\Net(lo)\\Bytes\0\0"),
    };
    assert_eq!(
        pdh.expand_counter_path_string(fill),
        Ok(owned(&[r"\Net(eth0)\Bytes", r"\Net(lo)\Bytes"]))
    );
}

#[test]
fn wildcard_labels_pair_each_path_with_its_instance() {
    let expanded = owned(&[r"\Net(eth0)\Bytes", r"\Net(lo)\Bytes"]);
    let pairs = wildcard_labels(&expanded);
    assert_eq!(pairs.len(), 2);
    assert_eq!(pairs[0].0, r"\Net(eth0)\Bytes");
    assert_eq!(pairs[0].1, "eth0");
    assert_eq!(pairs[1].0, r"\Net(lo)\Bytes");
    assert_eq!(pairs[1].1, "lo");
}
