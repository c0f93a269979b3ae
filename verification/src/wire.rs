//! What crosses the boundary between guest and host: one response, which is
//! either the whole list of results or the message of the failure that
//! ended the run.
//!
//! A response is a tag byte and a body. All integers are eight bytes, least
//! significant first. A text is its length in bytes and then its UTF-8
//! bytes.
//!
//! ```text
//! response := 0x00 count record*        the results, in the order they ran
//!           | 0x01 text                 the failure's message
//! record   := field field               one name and one value, either first
//! field    := 0x01 text                 the name
//!           | 0x02 integer              the value
//! ```
//!
//! The encoder writes the name first. The decoder takes the two fields of a
//! record in either order, and nothing else: no unknown tag, no missing or
//! doubled field, no byte after the end.

use vstd::prelude::*;
use vstd::bytes::{
    lemma_auto_spec_u64_to_from_le_bytes, spec_u64_from_le_bytes, spec_u64_to_le_bytes,
    u64_from_le_bytes, u64_to_le_bytes,
};
use vstd::slice::{slice_subrange, slice_to_vec};
use vstd::utf8::{
    decode_utf8, encode_utf8, encode_utf8_decode_utf8, encode_utf8_valid_utf8, valid_utf8,
};
use crate::result::{views, BenchResult, BenchResultView};

verus! {

/// The tag of a response that holds results.
pub const TAG_RESULTS: u8 = 0;

/// The tag of a response that holds a failure's message.
pub const TAG_FAILURE: u8 = 1;

/// The tag of a record's name.
pub const FIELD_NAME: u8 = 1;

/// The tag of a record's value.
pub const FIELD_VALUE: u8 = 2;

/// What the guest hands back.
#[derive(Clone, Debug, PartialEq, Eq)]
pub enum Response {
    /// Every result of a run that finished, in the order the cases ran.
    Results(Vec<BenchResult>),
    /// The message of the failure that ended the run.
    Failure(String),
}

/// The mathematical value of a [`Response`].
pub enum ResponseView {
    Results(Seq<BenchResultView>),
    Failure(Seq<char>),
}

impl View for Response {
    type V = ResponseView;

    open spec fn view(&self) -> ResponseView {
        match *self {
            Response::Results(results) => ResponseView::Results(views(results@)),
            Response::Failure(message) => ResponseView::Failure(message@),
        }
    }
}

/// One field of a record.
pub enum FieldView {
    Name(Seq<char>),
    Value(u64),
}

/// The bytes of an integer.
pub open spec fn integer_bytes(v: u64) -> Seq<u8> {
    spec_u64_to_le_bytes(v)
}

/// The bytes of a text.
pub open spec fn text_bytes(t: Seq<char>) -> Seq<u8> {
    integer_bytes(encode_utf8(t).len() as u64) + encode_utf8(t)
}

/// The bytes of a record's name field.
pub open spec fn name_bytes(name: Seq<char>) -> Seq<u8> {
    seq![FIELD_NAME] + text_bytes(name)
}

/// The bytes of a record's value field.
pub open spec fn value_bytes(value: u64) -> Seq<u8> {
    seq![FIELD_VALUE] + integer_bytes(value)
}

/// The bytes of a record as the encoder writes it.
pub open spec fn record_bytes(record: BenchResultView) -> Seq<u8> {
    name_bytes(record.name) + value_bytes(record.value)
}

/// The bytes of a list of records, one after the other.
pub open spec fn records_bytes(records: Seq<BenchResultView>) -> Seq<u8>
    decreases records.len(),
{
    if records.len() == 0 {
        Seq::empty()
    } else {
        record_bytes(records[0]) + records_bytes(records.drop_first())
    }
}

/// The bytes of a response.
pub open spec fn response_bytes(response: ResponseView) -> Seq<u8> {
    match response {
        ResponseView::Results(records) => seq![TAG_RESULTS] + integer_bytes(records.len() as u64)
            + records_bytes(records),
        ResponseView::Failure(message) => seq![TAG_FAILURE] + text_bytes(message),
    }
}

/// Whether every length in the response fits the eight bytes it is written
/// in. It does for every response that a machine can hold.
pub open spec fn representable(response: ResponseView) -> bool {
    match response {
        ResponseView::Results(records) => {
            &&& records.len() <= u64::MAX
            &&& forall|i: int|
                0 <= i < records.len() ==> encode_utf8(#[trigger] records[i].name).len()
                    <= u64::MAX
        },
        ResponseView::Failure(message) => encode_utf8(message).len() <= u64::MAX,
    }
}

/// An integer at the front of `bytes`, and what follows it.
pub open spec fn parse_integer(bytes: Seq<u8>) -> Option<(u64, Seq<u8>)> {
    if bytes.len() >= 8 {
        Some((spec_u64_from_le_bytes(bytes.subrange(0, 8)), bytes.subrange(8, bytes.len() as int)))
    } else {
        None
    }
}

/// A text at the front of `bytes`, and what follows it.
pub open spec fn parse_text(bytes: Seq<u8>) -> Option<(Seq<char>, Seq<u8>)> {
    match parse_integer(bytes) {
        Some((length, rest)) => if length <= rest.len() && valid_utf8(
            rest.subrange(0, length as int),
        ) {
            Some(
                (
                    decode_utf8(rest.subrange(0, length as int)),
                    rest.subrange(length as int, rest.len() as int),
                ),
            )
        } else {
            None
        },
        None => None,
    }
}

/// A field at the front of `bytes`, and what follows it.
pub open spec fn parse_field(bytes: Seq<u8>) -> Option<(FieldView, Seq<u8>)> {
    if bytes.len() == 0 {
        None
    } else if bytes[0] == FIELD_NAME {
        match parse_text(bytes.drop_first()) {
            Some((name, rest)) => Some((FieldView::Name(name), rest)),
            None => None,
        }
    } else if bytes[0] == FIELD_VALUE {
        match parse_integer(bytes.drop_first()) {
            Some((value, rest)) => Some((FieldView::Value(value), rest)),
            None => None,
        }
    } else {
        None
    }
}

/// A record at the front of `bytes`, and what follows it: two fields, one a
/// name and one a value, whichever comes first.
pub open spec fn parse_record(bytes: Seq<u8>) -> Option<(BenchResultView, Seq<u8>)> {
    match parse_field(bytes) {
        Some((FieldView::Name(name), rest)) => match parse_field(rest) {
            Some((FieldView::Value(value), end)) => Some((BenchResultView { name, value }, end)),
            _ => None,
        },
        Some((FieldView::Value(value), rest)) => match parse_field(rest) {
            Some((FieldView::Name(name), end)) => Some((BenchResultView { name, value }, end)),
            _ => None,
        },
        None => None,
    }
}

/// `count` records at the front of `bytes`, in the order they stand, and
/// what follows them.
pub open spec fn parse_records(bytes: Seq<u8>, count: nat) -> Option<
    (Seq<BenchResultView>, Seq<u8>),
>
    decreases count,
{
    if count == 0 {
        Some((Seq::empty(), bytes))
    } else {
        match parse_record(bytes) {
            Some((record, rest)) => match parse_records(rest, (count - 1) as nat) {
                Some((records, end)) => Some((seq![record] + records, end)),
                None => None,
            },
            None => None,
        }
    }
}

/// The response that `bytes` hold, if they hold one and nothing more.
pub open spec fn parse_response(bytes: Seq<u8>) -> Option<ResponseView> {
    if bytes.len() == 0 {
        None
    } else if bytes[0] == TAG_RESULTS {
        match parse_integer(bytes.drop_first()) {
            Some((count, rest)) => match parse_records(rest, count as nat) {
                Some((records, end)) => if end.len() == 0 {
                    Some(ResponseView::Results(records))
                } else {
                    None
                },
                None => None,
            },
            None => None,
        }
    } else if bytes[0] == TAG_FAILURE {
        match parse_text(bytes.drop_first()) {
            Some((message, end)) => if end.len() == 0 {
                Some(ResponseView::Failure(message))
            } else {
                None
            },
            None => None,
        }
    } else {
        None
    }
}

/// What is left of `bytes` from position `at` on.
pub open spec fn tail(bytes: Seq<u8>, at: int) -> Seq<u8> {
    bytes.subrange(at, bytes.len() as int)
}

/// `String::from_utf8` of the standard library: the text whose UTF-8
/// encoding `bytes` is. It is there exactly when `bytes` is valid UTF-8.
#[verifier::external_body]
fn text_from_utf8(bytes: Vec<u8>) -> (r: Option<String>)
    ensures
        r is Some <==> valid_utf8(bytes@),
        r matches Some(text) ==> text@ == decode_utf8(bytes@),
{
    String::from_utf8(bytes).ok()
}

/// Appends an integer.
fn put_integer(out: &mut Vec<u8>, v: u64)
    ensures
        final(out)@ == old(out)@ + integer_bytes(v),
{
    let mut bytes = u64_to_le_bytes(v);
    out.append(&mut bytes);
}

/// Appends a text.
fn put_text(out: &mut Vec<u8>, t: &str)
    ensures
        final(out)@ == old(out)@ + text_bytes(t@),
        encode_utf8(t@).len() <= u64::MAX,
{
    let bytes = t.as_bytes();
    put_integer(out, bytes.len() as u64);
    let mut copy = slice_to_vec(bytes);
    out.append(&mut copy);
    assert(out@ =~= old(out)@ + text_bytes(t@));
}

/// Appends a record, name first.
fn put_record(out: &mut Vec<u8>, record: &BenchResult)
    ensures
        final(out)@ == old(out)@ + record_bytes(record@),
        encode_utf8(record@.name).len() <= u64::MAX,
{
    out.push(FIELD_NAME);
    put_text(out, record.name.as_str());
    out.push(FIELD_VALUE);
    put_integer(out, record.value);
    assert(out@ =~= old(out)@ + record_bytes(record@));
}

/// A list of records with one more at its end is written as the list and
/// then the one.
proof fn lemma_records_bytes_push(records: Seq<BenchResultView>, record: BenchResultView)
    ensures
        records_bytes(records.push(record)) == records_bytes(records) + record_bytes(record),
    decreases records.len(),
{
    reveal_with_fuel(records_bytes, 2);
    if records.len() == 0 {
        assert(records.push(record).drop_first() =~= Seq::empty());
        assert(records_bytes(records.push(record)) =~= record_bytes(record));
        assert(records_bytes(records) + record_bytes(record) =~= record_bytes(record));
    } else {
        assert(records.push(record).drop_first() =~= records.drop_first().push(record));
        lemma_records_bytes_push(records.drop_first(), record);
        assert(records_bytes(records.push(record)) =~= records_bytes(records) + record_bytes(
            record,
        ));
    }
}

/// The response of a run that finished: what the export bridge's entry point
/// returns to the host. Read back, it gives the same results in the same
/// order.
pub fn encode_results(results: &Vec<BenchResult>) -> (out: Vec<u8>)
    ensures
        out@ == response_bytes(ResponseView::Results(views(results@))),
        parse_response(out@) == Some(ResponseView::Results(views(results@))),
{
    let mut out: Vec<u8> = Vec::new();
    out.push(TAG_RESULTS);
    put_integer(&mut out, results.len() as u64);
    let ghost all = views(results@);
    let ghost head = seq![TAG_RESULTS] + integer_bytes(results.len() as u64);
    let mut i: usize = 0;
    assert(all.take(0) =~= Seq::empty());
    while i < results.len()
        invariant
            i <= results.len(),
            all == views(results@),
            out@ == head + records_bytes(all.take(i as int)),
            forall|k: int| 0 <= k < i ==> encode_utf8(#[trigger] all[k].name).len() <= u64::MAX,
        decreases results.len() - i,
    {
        put_record(&mut out, &results[i]);
        proof {
            lemma_records_bytes_push(all.take(i as int), all[i as int]);
            assert(all.take(i as int + 1) =~= all.take(i as int).push(all[i as int]));
            assert(out@ =~= head + records_bytes(all.take(i as int + 1)));
        }
        i = i + 1;
    }
    proof {
        assert(all.take(i as int) =~= all);
        theorem_decode_inverts_encode(ResponseView::Results(all));
    }
    out
}

/// The response of a run that a failure ended: what the panic bridge sends
/// to the host before the guest terminates. Read back, it gives the same
/// message.
pub fn encode_failure(message: &str) -> (out: Vec<u8>)
    ensures
        out@ == response_bytes(ResponseView::Failure(message@)),
        parse_response(out@) == Some(ResponseView::Failure(message@)),
{
    let mut out: Vec<u8> = Vec::new();
    out.push(TAG_FAILURE);
    put_text(&mut out, message);
    proof {
        theorem_decode_inverts_encode(ResponseView::Failure(message@));
    }
    out
}

/// The bytes of `response`. Read back, they give `response`.
pub fn encode(response: &Response) -> (out: Vec<u8>)
    ensures
        out@ == response_bytes(response@),
        parse_response(out@) == Some(response@),
{
    match response {
        Response::Results(results) => encode_results(results),
        Response::Failure(message) => encode_failure(message.as_str()),
    }
}

/// Reads an integer at `at`; gives it with the position behind it.
fn read_integer(bytes: &[u8], at: usize) -> (r: Option<(u64, usize)>)
    requires
        at <= bytes@.len(),
    ensures
        match r {
            Some((v, next)) => next <= bytes@.len() && parse_integer(tail(bytes@, at as int))
                == Some((v, tail(bytes@, next as int))),
            None => parse_integer(tail(bytes@, at as int)) is None,
        },
{
    if bytes.len() - at < 8 {
        None
    } else {
        let v: u64 = u64_from_le_bytes(slice_subrange(bytes, at, at + 8));
        proof {
            let rest = tail(bytes@, at as int);
            assert(rest.subrange(0, 8) =~= bytes@.subrange(at as int, at + 8));
            assert(rest.subrange(8, rest.len() as int) =~= tail(bytes@, at + 8));
        }
        Some((v, at + 8))
    }
}

/// Reads a text at `at`; gives it with the position behind it.
fn read_text(bytes: &[u8], at: usize) -> (r: Option<(String, usize)>)
    requires
        at <= bytes@.len(),
    ensures
        match r {
            Some((text, next)) => next <= bytes@.len() && parse_text(tail(bytes@, at as int))
                == Some((text@, tail(bytes@, next as int))),
            None => parse_text(tail(bytes@, at as int)) is None,
        },
{
    match read_integer(bytes, at) {
        None => None,
        Some((length, start)) => {
            if length > (bytes.len() - start) as u64 {
                None
            } else {
                let end: usize = start + length as usize;
                let body = slice_to_vec(slice_subrange(bytes, start, end));
                proof {
                    let rest = tail(bytes@, start as int);
                    assert(rest.subrange(0, length as int) =~= body@);
                    assert(rest.subrange(length as int, rest.len() as int) =~= tail(
                        bytes@,
                        end as int,
                    ));
                }
                match text_from_utf8(body) {
                    Some(text) => Some((text, end)),
                    None => None,
                }
            }
        },
    }
}

/// One field of a record, as read.
enum Field {
    Name(String),
    Value(u64),
}

impl View for Field {
    type V = FieldView;

    closed spec fn view(&self) -> FieldView {
        match *self {
            Field::Name(name) => FieldView::Name(name@),
            Field::Value(value) => FieldView::Value(value),
        }
    }
}

/// Reads a field at `at`; gives it with the position behind it.
fn read_field(bytes: &[u8], at: usize) -> (r: Option<(Field, usize)>)
    requires
        at <= bytes@.len(),
    ensures
        match r {
            Some((field, next)) => next <= bytes@.len() && parse_field(tail(bytes@, at as int))
                == Some((field@, tail(bytes@, next as int))),
            None => parse_field(tail(bytes@, at as int)) is None,
        },
{
    if at == bytes.len() {
        return None;
    }
    let tag: u8 = bytes[at];
    proof {
        assert(tail(bytes@, at as int)[0] == bytes@[at as int]);
        assert(tail(bytes@, at as int).drop_first() =~= tail(bytes@, at + 1));
    }
    if tag == FIELD_NAME {
        match read_text(bytes, at + 1) {
            Some((name, next)) => Some((Field::Name(name), next)),
            None => None,
        }
    } else if tag == FIELD_VALUE {
        match read_integer(bytes, at + 1) {
            Some((value, next)) => Some((Field::Value(value), next)),
            None => None,
        }
    } else {
        None
    }
}

/// Reads a record at `at`; gives it with the position behind it.
fn read_record(bytes: &[u8], at: usize) -> (r: Option<(BenchResult, usize)>)
    requires
        at <= bytes@.len(),
    ensures
        match r {
            Some((record, next)) => next <= bytes@.len() && parse_record(
                tail(bytes@, at as int),
            ) == Some((record@, tail(bytes@, next as int))),
            None => parse_record(tail(bytes@, at as int)) is None,
        },
{
    match read_field(bytes, at) {
        None => None,
        Some((Field::Name(name), middle)) => match read_field(bytes, middle) {
            Some((Field::Value(value), next)) => Some((BenchResult { name, value }, next)),
            _ => None,
        },
        Some((Field::Value(value), middle)) => match read_field(bytes, middle) {
            Some((Field::Name(name), next)) => Some((BenchResult { name, value }, next)),
            _ => None,
        },
    }
}

/// The response that `bytes` hold: there is one exactly when `bytes` are a
/// response in the format of this module and nothing more.
pub fn decode(bytes: &[u8]) -> (r: Option<Response>)
    ensures
        match r {
            Some(response) => parse_response(bytes@) == Some(response@),
            None => parse_response(bytes@) is None,
        },
{
    if bytes.len() == 0 {
        return None;
    }
    let tag: u8 = bytes[0];
    proof {
        assert(bytes@.drop_first() =~= tail(bytes@, 1));
    }
    if tag == TAG_RESULTS {
        match read_integer(bytes, 1) {
            None => None,
            Some((count, start)) => {
                let mut results: Vec<BenchResult> = Vec::new();
                let mut at: usize = start;
                let mut done: u64 = 0;
                let ghost whole = parse_records(tail(bytes@, start as int), count as nat);
                proof {
                    match parse_records(tail(bytes@, at as int), (count - done) as nat) {
                        Some((rest, end)) => {
                            assert(views(results@) + rest =~= rest);
                        },
                        None => {},
                    }
                }
                while done < count
                    invariant
                        done <= count,
                        at <= bytes@.len(),
                        parse_response(bytes@) == match whole {
                            Some((records, end)) => if end.len() == 0 {
                                Some(ResponseView::Results(records))
                            } else {
                                None
                            },
                            None => None,
                        },
                        whole == match parse_records(
                            tail(bytes@, at as int),
                            (count - done) as nat,
                        ) {
                            Some((rest, end)) => Some((views(results@) + rest, end)),
                            None => None,
                        },
                    decreases count - done,
                {
                    match read_record(bytes, at) {
                        None => {
                            return None;
                        },
                        Some((record, next)) => {
                            proof {
                                let before = views(results@);
                                match parse_records(
                                    tail(bytes@, next as int),
                                    (count - done - 1) as nat,
                                ) {
                                    Some((rest, end)) => {
                                        assert(before + (seq![record@] + rest) =~= before.push(
                                            record@,
                                        ) + rest);
                                    },
                                    None => {},
                                }
                                assert(views(results@.push(record)) =~= before.push(record@));
                            }
                            results.push(record);
                            at = next;
                            done = done + 1;
                        },
                    }
                }
                assert(views(results@) + Seq::<BenchResultView>::empty() =~= views(results@));
                if at == bytes.len() {
                    Some(Response::Results(results))
                } else {
                    None
                }
            },
        }
    } else if tag == TAG_FAILURE {
        match read_text(bytes, 1) {
            Some((message, end)) => if end == bytes.len() {
                Some(Response::Failure(message))
            } else {
                None
            },
            None => None,
        }
    } else {
        None
    }
}

/// An integer that was written is read back, and what followed it follows.
proof fn lemma_parse_integer(v: u64, rest: Seq<u8>)
    ensures
        parse_integer(integer_bytes(v) + rest) == Some((v, rest)),
{
    lemma_auto_spec_u64_to_from_le_bytes();
    let bytes = integer_bytes(v) + rest;
    assert(bytes.subrange(0, 8) =~= integer_bytes(v));
    assert(bytes.subrange(8, bytes.len() as int) =~= rest);
}

/// A text that was written is read back, and what followed it follows.
proof fn lemma_parse_text(t: Seq<char>, rest: Seq<u8>)
    requires
        encode_utf8(t).len() <= u64::MAX,
    ensures
        parse_text(text_bytes(t) + rest) == Some((t, rest)),
{
    let body = encode_utf8(t);
    let after = body + rest;
    assert(text_bytes(t) + rest =~= integer_bytes(body.len() as u64) + after);
    lemma_parse_integer(body.len() as u64, after);
    assert(after.subrange(0, body.len() as int) =~= body);
    assert(after.subrange(body.len() as int, after.len() as int) =~= rest);
    encode_utf8_valid_utf8(t);
    encode_utf8_decode_utf8(t);
}

/// A name field that was written is read back.
proof fn lemma_parse_name(name: Seq<char>, rest: Seq<u8>)
    requires
        encode_utf8(name).len() <= u64::MAX,
    ensures
        parse_field(name_bytes(name) + rest) == Some((FieldView::Name(name), rest)),
{
    let bytes = name_bytes(name) + rest;
    assert(bytes.drop_first() =~= text_bytes(name) + rest);
    assert(bytes[0] == FIELD_NAME);
    lemma_parse_text(name, rest);
}

/// A value field that was written is read back.
proof fn lemma_parse_value(value: u64, rest: Seq<u8>)
    ensures
        parse_field(value_bytes(value) + rest) == Some((FieldView::Value(value), rest)),
{
    let bytes = value_bytes(value) + rest;
    assert(bytes.drop_first() =~= integer_bytes(value) + rest);
    assert(bytes[0] == FIELD_VALUE);
    lemma_parse_integer(value, rest);
}

/// The two fields of a record can stand in either order: the record that is
/// read is the same.
pub proof fn theorem_field_order_is_free(record: BenchResultView, rest: Seq<u8>)
    requires
        encode_utf8(record.name).len() <= u64::MAX,
    ensures
        parse_record(name_bytes(record.name) + value_bytes(record.value) + rest) == Some(
            (record, rest),
        ),
        parse_record(value_bytes(record.value) + name_bytes(record.name) + rest) == Some(
            (record, rest),
        ),
{
    let name = name_bytes(record.name);
    let value = value_bytes(record.value);
    assert(name + value + rest =~= name + (value + rest));
    assert(value + name + rest =~= value + (name + rest));
    lemma_parse_name(record.name, value + rest);
    lemma_parse_value(record.value, rest);
    lemma_parse_value(record.value, name + rest);
    lemma_parse_name(record.name, rest);
}

/// A record that was written is read back, and what followed it follows.
proof fn lemma_parse_record(record: BenchResultView, rest: Seq<u8>)
    requires
        encode_utf8(record.name).len() <= u64::MAX,
    ensures
        parse_record(record_bytes(record) + rest) == Some((record, rest)),
{
    theorem_field_order_is_free(record, rest);
}

/// Records that were written are read back in the order they were written.
proof fn lemma_parse_records(records: Seq<BenchResultView>, rest: Seq<u8>)
    requires
        forall|i: int|
            0 <= i < records.len() ==> encode_utf8(#[trigger] records[i].name).len() <= u64::MAX,
    ensures
        parse_records(records_bytes(records) + rest, records.len()) == Some((records, rest)),
    decreases records.len(),
{
    if records.len() == 0 {
        assert(records_bytes(records) + rest =~= rest);
        assert(records =~= Seq::empty());
    } else {
        let first = records[0];
        let others = records.drop_first();
        let after = records_bytes(others) + rest;
        let bytes = records_bytes(records) + rest;
        assert(bytes == record_bytes(first) + after) by {
            assert(records_bytes(records) == record_bytes(first) + records_bytes(others));
            assert(bytes =~= record_bytes(first) + after);
        }
        assert(parse_record(bytes) == Some((first, after))) by {
            lemma_parse_record(first, after);
        }
        assert(parse_records(after, others.len()) == Some((others, rest))) by {
            assert forall|i: int| 0 <= i < others.len() implies encode_utf8(
                #[trigger] others[i].name,
            ).len() <= u64::MAX by {
                assert(others[i] == records[i + 1]);
            }
            lemma_parse_records(others, rest);
        }
        assert(seq![first] + others =~= records);
        assert((records.len() - 1) as nat == others.len());
    }
}

/// Decoding inverts encoding: what is read from the bytes of a response is
/// that response, with every result in its place.
pub proof fn theorem_decode_inverts_encode(response: ResponseView)
    requires
        representable(response),
    ensures
        parse_response(response_bytes(response)) == Some(response),
{
    let bytes = response_bytes(response);
    let empty = Seq::<u8>::empty();
    match response {
        ResponseView::Results(records) => {
            let count = integer_bytes(records.len() as u64);
            assert(bytes[0] == TAG_RESULTS);
            assert(bytes.drop_first() =~= count + (records_bytes(records) + empty));
            lemma_parse_integer(records.len() as u64, records_bytes(records) + empty);
            lemma_parse_records(records, empty);
        },
        ResponseView::Failure(message) => {
            assert(bytes[0] == TAG_FAILURE);
            assert(bytes.drop_first() =~= text_bytes(message) + empty);
            lemma_parse_text(message, empty);
        },
    }
}

} // verus!
