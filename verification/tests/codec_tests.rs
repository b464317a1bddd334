use perf_exporter::codec::encode_multi_string;
use perf_exporter::codec::null_separated_to_vec;
use perf_exporter::codec::str_to_utf16;
use perf_exporter::codec::utf16_units_to_string;
use perf_exporter::codec::zeroed_buffer;
use perf_exporter::constants::pdh_status_friendly_name;
use perf_exporter::constants::u32_decimal_string;
use perf_exporter::constants::PDH_CSTATUS_NO_OBJECT;
use perf_exporter::constants::PDH_MORE_DATA;
use perf_exporter::error::PdhError;

fn units(s: &str) -> Vec<u16> {
    s.encode_utf16().collect()
}

#[test]
fn decode_two_strings() {
    let buf = units("Memory\0System\0\0");
    let segs = null_separated_to_vec(buf).unwrap();
    assert_eq!(segs.len(), 2);
    assert_eq!(utf16_units_to_string(&segs[0]), "Memory");
    assert_eq!(utf16_units_to_string(&segs[1]), "System");
}

#[test]
fn decode_keeps_empty_segments() {
    let buf = units("a\0\0b\0\0");
    let segs = null_separated_to_vec(buf).unwrap();
    assert_eq!(segs.len(), 3);
    assert_eq!(segs[0], units("a"));
    assert_eq!(segs[1], Vec::<u16>::new());
    assert_eq!(segs[2], units("b"));
}

#[test]
fn decode_short_buffer_is_protocol_error() {
    assert_eq!(null_separated_to_vec(vec![0]), Err(PdhError::Protocol));
    assert_eq!(null_separated_to_vec(Vec::new()), Err(PdhError::Protocol));
}

#[test]
fn encode_then_decode_gives_back_the_strings() {
    let items = vec![units("Mem"), units(""), units("Sys")];
    let buf = encode_multi_string(&items);
    assert_eq!(buf, units("Mem\0\0Sys\0\0"));
    let segs = null_separated_to_vec(buf).unwrap();
    assert_eq!(segs.len(), 3);
    assert_eq!(segs, items);
}

#[test]
fn decode_then_encode_reproduces_the_buffer() {
    let buf = units("x\0y\0\0");
    let segs = null_separated_to_vec(buf.clone()).unwrap();
    assert_eq!(encode_multi_string(&segs), buf);
}

#[test]
fn str_to_utf16_appends_one_terminator() {
    assert_eq!(str_to_utf16("AB"), vec![65, 66, 0]);
    assert_eq!(str_to_utf16(""), vec![0]);
}

#[test]
fn str_to_utf16_encodes_a_surrogate_pair() {
    assert_eq!(str_to_utf16("\u{10348}"), vec![0xD800, 0xDF48, 0]);
}

#[test]
fn utf16_round_trip_through_decoding() {
    let mut buf = str_to_utf16("Processor Information");
    buf.pop();
    assert_eq!(utf16_units_to_string(&buf), "Processor Information");
}

#[test]
fn zeroed_buffer_is_all_zero() {
    assert_eq!(zeroed_buffer(5), vec![0u16; 5]);
    assert_eq!(zeroed_buffer(0), Vec::<u16>::new());
}

#[test]
fn friendly_name_of_known_statuses() {
    assert_eq!(
        pdh_status_friendly_name(PDH_CSTATUS_NO_OBJECT),
        "PDH_CSTATUS_NO_OBJECT"
    );
    assert_eq!(pdh_status_friendly_name(PDH_MORE_DATA), "PDH_MORE_DATA");
}

#[test]
fn friendly_name_of_unknown_status_is_decimal() {
    assert_eq!(pdh_status_friendly_name(12345), "12345");
    assert_eq!(pdh_status_friendly_name(7), "7");
}

#[test]
fn decimal_rendering() {
    assert_eq!(u32_decimal_string(0), "0");
    assert_eq!(u32_decimal_string(4294967295), "4294967295");
    assert_eq!(u32_decimal_string(1000), "1000");
}
