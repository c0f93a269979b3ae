use bencher::{decode, encode, encode_failure, encode_results, respond, BenchResult, Failure};
use bencher::Response;

fn record(name: &str, value: u64) -> BenchResult {
    BenchResult { name: name.to_string(), value }
}

fn integer(v: u64) -> Vec<u8> {
    v.to_le_bytes().to_vec()
}

fn text(t: &str) -> Vec<u8> {
    let mut bytes = integer(t.len() as u64);
    bytes.extend_from_slice(t.as_bytes());
    bytes
}

fn name_field(name: &str) -> Vec<u8> {
    let mut bytes = vec![1u8];
    bytes.extend(text(name));
    bytes
}

fn value_field(value: u64) -> Vec<u8> {
    let mut bytes = vec![2u8];
    bytes.extend(integer(value));
    bytes
}

fn results_frame(count: u64, fields: Vec<Vec<u8>>) -> Vec<u8> {
    let mut bytes = vec![0u8];
    bytes.extend(integer(count));
    for field in fields {
        bytes.extend(field);
    }
    bytes
}

#[test]
fn an_empty_list_is_a_tag_and_a_zero_count() {
    assert_eq!(encode_results(&Vec::new()), vec![0, 0, 0, 0, 0, 0, 0, 0, 0]);
    assert_eq!(decode(&[0, 0, 0, 0, 0, 0, 0, 0, 0]), Some(Response::Results(Vec::new())));
}

#[test]
fn a_record_is_written_name_first() {
    let bytes = encode_results(&vec![record("foo", 10)]);
    let expected: Vec<u8> = vec![
        0, // results
        1, 0, 0, 0, 0, 0, 0, 0, // one record
        1, // name
        3, 0, 0, 0, 0, 0, 0, 0, b'f', b'o', b'o', // three bytes
        2, // value
        10, 0, 0, 0, 0, 0, 0, 0,
    ];
    assert_eq!(bytes, expected);
}

#[test]
fn a_failure_is_a_tag_and_the_message() {
    let bytes = encode_failure("boom");
    assert_eq!(bytes, vec![1, 4, 0, 0, 0, 0, 0, 0, 0, b'b', b'o', b'o', b'm']);
    assert_eq!(decode(&bytes), Some(Response::Failure("boom".to_string())));
}

#[test]
fn integers_are_written_least_significant_byte_first() {
    let bytes = encode_results(&vec![record("", 0x0102_0304_0506_0708)]);
    assert_eq!(&bytes[bytes.len() - 8..], &[8, 7, 6, 5, 4, 3, 2, 1]);
    assert_eq!(decode(&bytes), Some(Response::Results(vec![record("", 0x0102_0304_0506_0708)])));
}

#[test]
fn what_is_written_is_read_back() {
    let results = vec![
        record("foo", 10),
        record("bench_name", 25),
        record("", 0),
        record("foo", u64::MAX),
        record("größe ∑ 測定 🚀", 1 << 40),
    ];
    let bytes = encode_results(&results);
    assert_eq!(decode(&bytes), Some(Response::Results(results.clone())));
    assert_eq!(encode(&Response::Results(results.clone())), bytes);
    let failure = Response::Failure("panicked at 'überlauf', src/lib.rs:3:5".to_string());
    assert_eq!(decode(&encode(&failure)), Some(failure));
}

#[test]
fn the_order_of_the_list_is_kept() {
    let forward = vec![record("a", 1), record("b", 2), record("c", 3)];
    let backward = vec![record("c", 3), record("b", 2), record("a", 1)];
    assert_ne!(encode_results(&forward), encode_results(&backward));
    assert_eq!(decode(&encode_results(&backward)), Some(Response::Results(backward)));
    assert_eq!(decode(&encode_results(&forward)), Some(Response::Results(forward)));
}

#[test]
fn the_fields_of_a_record_can_come_in_either_order() {
    let name_first = results_frame(2, vec![
        name_field("foo"), value_field(10), name_field("bar"), value_field(25),
    ]);
    let value_first = results_frame(2, vec![
        value_field(10), name_field("foo"), name_field("bar"), value_field(25),
    ]);
    let expected = Some(Response::Results(vec![record("foo", 10), record("bar", 25)]));
    assert_eq!(decode(&name_first), expected);
    assert_eq!(decode(&value_first), expected);
    assert_eq!(encode_results(&vec![record("foo", 10), record("bar", 25)]), name_first);
}

#[test]
fn a_record_needs_one_name_and_one_value() {
    assert_eq!(decode(&results_frame(1, vec![name_field("a"), name_field("b")])), None);
    assert_eq!(decode(&results_frame(1, vec![value_field(1), value_field(2)])), None);
    assert_eq!(decode(&results_frame(1, vec![name_field("a")])), None);
    assert_eq!(decode(&results_frame(1, vec![value_field(1)])), None);
    assert_eq!(
        decode(&results_frame(1, vec![name_field("a"), value_field(1), value_field(2)])),
        None
    );
}

#[test]
fn bytes_that_are_no_response_are_refused() {
    assert_eq!(decode(&[]), None);
    assert_eq!(decode(&[0]), None);
    assert_eq!(decode(&[1]), None);
    assert_eq!(decode(&[2, 0, 0, 0, 0, 0, 0, 0, 0]), None);
    assert_eq!(decode(&[0, 0, 0, 0, 0, 0, 0, 0]), None);
    // an unknown field tag
    let mut unknown = results_frame(1, vec![name_field("a")]);
    unknown.push(3);
    unknown.extend(integer(1));
    assert_eq!(decode(&unknown), None);
}

#[test]
fn a_count_that_the_bytes_do_not_bear_out_is_refused() {
    let one = vec![name_field("a"), value_field(1)];
    assert_eq!(decode(&results_frame(2, one.clone())), None);
    assert_eq!(decode(&results_frame(0, one.clone())), None);
    assert_eq!(decode(&results_frame(u64::MAX, one.clone())), None);
    assert_eq!(decode(&results_frame(1, one)), Some(Response::Results(vec![record("a", 1)])));
}

#[test]
fn a_length_that_the_bytes_do_not_bear_out_is_refused() {
    let mut long = vec![1u8];
    long.extend(integer(5));
    long.extend_from_slice(b"boom");
    assert_eq!(decode(&long), None);
    let mut huge = vec![1u8];
    huge.extend(integer(u64::MAX));
    huge.extend_from_slice(b"boom");
    assert_eq!(decode(&huge), None);
    let mut short = vec![1u8];
    short.extend(integer(3));
    short.extend_from_slice(b"boom");
    assert_eq!(decode(&short), None);
}

#[test]
fn bytes_after_the_end_are_refused() {
    let mut bytes = encode_results(&vec![record("foo", 10)]);
    bytes.push(0);
    assert_eq!(decode(&bytes), None);
    let mut bytes = encode_failure("boom");
    bytes.push(b'!');
    assert_eq!(decode(&bytes), None);
}

#[test]
fn a_truncated_response_is_refused() {
    let bytes = encode_results(&vec![record("foo", 10), record("bar", 25)]);
    for cut in 0..bytes.len() {
        assert_eq!(decode(&bytes[..cut]), None);
    }
    assert!(decode(&bytes).is_some());
}

#[test]
fn a_name_that_is_not_utf8_is_refused() {
    let mut bad_name = vec![1u8];
    bad_name.extend(integer(2));
    bad_name.extend_from_slice(&[0xC3, 0x28]);
    assert_eq!(decode(&results_frame(1, vec![bad_name, value_field(1)])), None);
    let mut bad_message = vec![1u8];
    bad_message.extend(integer(1));
    bad_message.push(0xFF);
    assert_eq!(decode(&bad_message), None);
    // a surrogate and an overlong form are not UTF-8 either
    let mut surrogate = vec![1u8];
    surrogate.extend(integer(3));
    surrogate.extend_from_slice(&[0xED, 0xA0, 0x80]);
    assert_eq!(decode(&surrogate), None);
    let mut overlong = vec![1u8];
    overlong.extend(integer(2));
    overlong.extend_from_slice(&[0xC0, 0x80]);
    assert_eq!(decode(&overlong), None);
}

#[test]
fn the_bounds_of_utf8_are_where_the_standard_puts_them() {
    let failure = |body: &[u8]| {
        let mut bytes = vec![1u8];
        bytes.extend(integer(body.len() as u64));
        bytes.extend_from_slice(body);
        decode(&bytes)
    };
    assert_eq!(failure(&[0x7F]), Some(Response::Failure("\u{7F}".to_string())));
    assert_eq!(failure(&[0x80]), None);
    assert_eq!(failure(&[0xC2, 0x80]), Some(Response::Failure("\u{80}".to_string())));
    assert_eq!(failure(&[0xC1, 0xBF]), None);
    assert_eq!(failure(&[0xE0, 0xA0, 0x80]), Some(Response::Failure("\u{800}".to_string())));
    assert_eq!(failure(&[0xE0, 0x9F, 0xBF]), None);
    assert_eq!(failure(&[0xED, 0x9F, 0xBF]), Some(Response::Failure("\u{D7FF}".to_string())));
    assert_eq!(failure(&[0xED, 0xBF, 0xBF]), None);
    assert_eq!(failure(&[0xEE, 0x80, 0x80]), Some(Response::Failure("\u{E000}".to_string())));
    assert_eq!(
        failure(&[0xF0, 0x90, 0x80, 0x80]),
        Some(Response::Failure("\u{10000}".to_string()))
    );
    assert_eq!(failure(&[0xF0, 0x8F, 0xBF, 0xBF]), None);
    assert_eq!(
        failure(&[0xF4, 0x8F, 0xBF, 0xBF]),
        Some(Response::Failure("\u{10FFFF}".to_string()))
    );
    assert_eq!(failure(&[0xF4, 0x90, 0x80, 0x80]), None);
    assert_eq!(failure(&[0xF5, 0x80, 0x80, 0x80]), None);
    assert_eq!(failure(&[0xF8, 0x88, 0x80, 0x80, 0x80]), None);
    assert_eq!(failure(&[0xE2, 0x82]), None);
    assert_eq!(failure(&[0xE2, 0x82, 0x41]), None);
}

#[test]
fn a_name_of_several_bytes_a_character_is_read_as_text() {
    let mut bytes = vec![1u8];
    bytes.extend(integer(7));
    bytes.extend_from_slice(&[0xC3, 0xA9, 0xE2, 0x82, 0xAC, b'o', b'k']);
    assert_eq!(decode(&bytes), Some(Response::Failure("é€ok".to_string())));
}

#[test]
fn the_guest_answers_with_its_results_or_with_its_failure() {
    let results = vec![record("foo", 10)];
    assert_eq!(respond(&Ok(results.clone())), encode_results(&results));
    assert_eq!(
        respond(&Err(Failure::Guest("out of gas".to_string()))),
        encode_failure("out of gas")
    );
    assert_eq!(
        decode(&respond(&Err(Failure::Configuration))),
        Some(Response::Failure("a benchmark registered no measured step".to_string()))
    );
}
