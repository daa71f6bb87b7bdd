//! What the encoded properties of a request say, and which of them can be read.
use crate::properties::{
    complete_from, correlation_data, data_end, data_of, decodable, decodable_from, identifier,
    identifier_end, integer_end, lemma_complete_decodable, listed_route, long_run, property_end,
    read_at, read_value, response_topic, value_end, value_kind, value_stop, Step, ValueKind,
};
use vstd::prelude::*;
use vstd::utf8::{decode_utf8, valid_utf8};

verus! {

/// How long a property is: an identifier of one byte, and a value of one, two or four bytes, or of
/// as many as the two bytes in front of it say. A block that ends before holds no such property.
pub proof fn law_property_lengths(block: Seq<u8>, start: int)
    requires
        0 <= start < block.len(),
    ensures
        seq![0x01u8, 0x17, 0x19, 0x24, 0x25, 0x28, 0x29, 0x2A].contains(block[start])
            ==> property_end(block, start) == (if start + 2 <= block.len() {
            Some(start + 2)
        } else {
            None
        }),
        seq![0x13u8, 0x21, 0x22, 0x23].contains(block[start]) ==> property_end(block, start) == (
        if start + 3 <= block.len() {
            Some(start + 3)
        } else {
            None
        }),
        seq![0x02u8, 0x11, 0x18, 0x27].contains(block[start]) ==> property_end(block, start) == (
        if start + 5 <= block.len() {
            Some(start + 5)
        } else {
            None
        }),
        seq![0x03u8, 0x08, 0x09, 0x12, 0x15, 0x16, 0x1A, 0x1C, 0x1F].contains(block[start])
            ==> property_end(block, start) == ({
            let end = start + 3 + block[start + 1] * 256 + block[start + 2];
            if start + 3 <= block.len() && end <= block.len() {
                Some(end)
            } else {
                None
            }
        }),
{
}

/// A number has up to four bytes, of which the last is the first without the top bit.
pub proof fn law_number_lengths(block: Seq<u8>, start: int, n: int)
    requires
        0 <= start,
        1 <= n <= 4,
        start + 1 + n <= block.len(),
        block[start] == 0x0B,
        block[start + n] < 0x80,
        forall|i: int| start < i < start + n ==> (#[trigger] block[i]) >= 0x80,
    ensures
        property_end(block, start) == Some(start + 1 + n),
{
    assert(n > 1 ==> block[start + 1] >= 0x80);
    assert(n > 2 ==> block[start + 2] >= 0x80);
    assert(n > 3 ==> block[start + 3] >= 0x80);
}

/// A user property has a key and a value, each behind its length, and the key is UTF-8.
pub proof fn law_user_property_lengths(block: Seq<u8>, start: int)
    requires
        0 <= start < block.len(),
        block[start] == 0x26,
    ensures
        ({
            let middle = start + 3 + block[start + 1] * 256 + block[start + 2];
            let end = middle + 2 + block[middle] * 256 + block[middle + 1];
            &&& end <= block.len() && middle + 2 <= block.len() && valid_utf8(
                block.subrange(start + 3, middle),
            ) ==> property_end(block, start) == Some(end)
            &&& middle + 2 > block.len() || end > block.len() ==> property_end(block, start) is None
        }),
{
}

proof fn lemma_data_end_shift(before: Seq<u8>, rest: Seq<u8>, s: int)
    requires
        0 <= s,
    ensures
        data_end(before + rest, before.len() + s) is Some <==> data_end(rest, s) is Some,
        data_end(rest, s) matches Some(end) ==> {
            &&& data_end(before + rest, before.len() + s) == Some(before.len() + end)
            &&& s + 2 <= end <= rest.len()
            &&& (before + rest).subrange(before.len() + s + 2, before.len() + end)
                == rest.subrange(s + 2, end)
        },
{
    if s + 2 <= rest.len() {
        assert((before + rest)[before.len() + s] == rest[s]);
        assert((before + rest)[before.len() + s + 1] == rest[s + 1]);
    }
    match data_end(rest, s) {
        Some(end) => {
            assert((before + rest).subrange(before.len() + s + 2, before.len() + end)
                =~= rest.subrange(s + 2, end));
        },
        None => {},
    }
}

proof fn lemma_value_shift(before: Seq<u8>, rest: Seq<u8>, s: int, kind: ValueKind)
    requires
        0 <= s <= rest.len(),
    ensures
        value_end(before + rest, before.len() + s, kind) is Some <==> value_end(
            rest,
            s,
            kind,
        ) is Some,
        value_end(rest, s, kind) matches Some(end) ==> value_end(
            before + rest,
            before.len() + s,
            kind,
        ) == Some(before.len() + end) && s <= end <= rest.len(),
        value_stop(before + rest, before.len() + s, kind) == before.len() + value_stop(
            rest,
            s,
            kind,
        ),
        s <= value_stop(rest, s, kind) <= rest.len(),
{
    lemma_data_end_shift(before, rest, s);
    lemma_integer_shift(before, rest, s);
    match data_end(rest, s) {
        Some(middle) => {
            lemma_data_end_shift(before, rest, middle);
        },
        None => {},
    }
}

proof fn lemma_integer_shift(before: Seq<u8>, rest: Seq<u8>, s: int)
    requires
        0 <= s <= rest.len(),
    ensures
        integer_end(before + rest, before.len() + s) is Some <==> integer_end(rest, s) is Some,
        integer_end(rest, s) matches Some(end) ==> integer_end(before + rest, before.len() + s)
            == Some(before.len() + end) && s < end <= rest.len(),
{
    assert(forall|i: int|
        s <= i < rest.len() ==> (#[trigger] rest[i]) == (before + rest)[before.len() + i]);
    assert(s < rest.len() ==> rest[s] == (before + rest)[before.len() + s]);
    assert(s + 1 < rest.len() ==> rest[s + 1] == (before + rest)[before.len() + s + 1]);
    assert(s + 2 < rest.len() ==> rest[s + 2] == (before + rest)[before.len() + s + 2]);
    assert(s + 3 < rest.len() ==> rest[s + 3] == (before + rest)[before.len() + s + 3]);
}

proof fn lemma_property_shift(before: Seq<u8>, rest: Seq<u8>, s: int)
    requires
        0 <= s < rest.len(),
    ensures
        property_end(before + rest, before.len() + s) is Some <==> property_end(rest, s) is Some,
        property_end(rest, s) matches Some(end) ==> property_end(before + rest, before.len() + s)
            == Some(before.len() + end) && s < end <= rest.len(),
{
    assert((before + rest)[before.len() + s] == rest[s]);
    match value_kind(rest[s]) {
        Some(kind) => {
            lemma_value_shift(before, rest, s + 1, kind);
        },
        None => {},
    }
}

/// The properties of `rest` are the same behind `before`.
proof fn lemma_rest_shift(before: Seq<u8>, rest: Seq<u8>, s: int)
    requires
        0 <= s <= rest.len(),
    ensures
        complete_from(before + rest, before.len() + s) == complete_from(rest, s),
        response_topic(before + rest, before.len() + s) == response_topic(rest, s),
        correlation_data(before + rest, before.len() + s) == correlation_data(rest, s),
    decreases rest.len() - s,
{
    if s < rest.len() {
        lemma_property_shift(before, rest, s);
        assert((before + rest)[before.len() + s] == rest[s]);
        match property_end(rest, s) {
            Some(end) => {
                lemma_rest_shift(before, rest, end);
                if s + 3 <= end {
                    assert(data_of(before + rest, before.len() + s, before.len() + end)
                        =~= data_of(rest, s, end));
                }
            },
            None => {},
        }
    }
}

/// A property of `before` is the same in front of `after`.
proof fn lemma_property_prefix(before: Seq<u8>, after: Seq<u8>, s: int)
    requires
        0 <= s < before.len(),
        property_end(before, s) is Some,
    ensures
        property_end(before + after, s) == property_end(before, s),
        s < property_end(before, s)->0 <= before.len(),
        s + 3 <= property_end(before, s)->0 ==> data_of(
            before + after,
            s,
            property_end(before, s)->0,
        ) == data_of(before, s, property_end(before, s)->0),
{
    let block = before + after;
    let end = property_end(before, s)->0;
    assert(forall|i: int| 0 <= i < before.len() ==> (#[trigger] block[i]) == before[i]);
    lemma_value_shift(Seq::empty(), before, s + 1, value_kind(before[s])->0);
    match value_kind(before[s])->0 {
        ValueKind::Pair => {
            let middle = data_end(before, s + 1)->0;
            assert(block.subrange(s + 3, middle) =~= before.subrange(s + 3, middle));
        },
        _ => {},
    }
    if s + 3 <= end {
        assert(data_of(block, s, end) =~= data_of(before, s, end));
    }
}

/// Properties follow each other: behind one that is complete, a block goes on as if it began
/// there. Of several response topics or correlation data, the first counts.
pub proof fn law_properties_follow_each_other(property: Seq<u8>, rest: Seq<u8>)
    requires
        property.len() > 0,
        property_end(property, 0) == Some(property.len() as int),
    ensures
        complete_from(Seq::<u8>::empty(), 0),
        complete_from(property + rest, 0) <==> complete_from(rest, 0),
        response_topic(property + rest, 0) == (if property[0] == 0x08 && valid_utf8(
            property.skip(3),
        ) {
            Some(decode_utf8(property.skip(3)))
        } else {
            response_topic(rest, 0)
        }),
        correlation_data(property + rest, 0) == (if property[0] == 0x09 {
            Some(property.skip(3))
        } else {
            correlation_data(rest, 0)
        }),
{
    let block = property + rest;
    lemma_property_prefix(property, rest, 0);
    lemma_rest_shift(property, rest, 0);
    assert(block[0] == property[0]);
    if property.len() >= 3 {
        assert(data_of(property, 0, property.len() as int) =~= property.skip(3));
    }
}

/// The route of a request is its response topic with its correlation data. Without a response
/// topic there is none.
pub proof fn law_route_needs_a_response_topic(block: Seq<u8>)
    ensures
        listed_route(block) is Some <==> response_topic(block, 0) is Some,
        listed_route(block) matches Some(route) ==> Some(route.topic) == response_topic(block, 0)
            && route.correlation == correlation_data(block, 0),
        response_topic(Seq::<u8>::empty(), 0) is None,
        correlation_data(Seq::<u8>::empty(), 0) is None,
{
}

/// Complete properties can be read.
pub proof fn law_complete_properties_are_decodable(block: Seq<u8>)
    requires
        complete_from(block, 0),
    ensures
        decodable(block),
{
    lemma_complete_decodable(block, 0, false, false);
}

proof fn lemma_reading_advances(block: Seq<u8>, start: int)
    requires
        0 <= start < block.len(),
    ensures
        start < read_at(block, start).1 <= block.len(),
{
    lemma_integer_shift(Seq::empty(), block, start);
    match identifier_end(block, start) {
        Some(end) => match identifier(block, start, end) {
            Some(id) => match value_kind(id) {
                Some(kind) => {
                    lemma_value_shift(Seq::empty(), block, end, kind);
                },
                None => {},
            },
            None => {},
        },
        None => {},
    }
    assert(integer_end(block, start) matches Some(end) ==> start < end <= block.len()) by {
        assert(Seq::<u8>::empty() + block =~= block);
    }
}

proof fn lemma_short_decodable(block: Seq<u8>, start: int, topic: bool, correlation: bool)
    requires
        0 <= start,
        forall|i: int| !#[trigger] long_run(block, i),
    ensures
        decodable_from(block, start, topic, correlation),
    decreases block.len() - start,
{
    if start < block.len() {
        lemma_reading_advances(block, start);
        let (step, next) = read_at(block, start);
        lemma_short_decodable(
            block,
            next,
            topic || step is ResponseTopic,
            correlation || step is CorrelationData,
        );
    }
}

/// Whatever a block holds, it can be read where no more than four bytes with the top bit set ever
/// stand next to each other in front of another one.
pub proof fn law_short_runs_are_decodable(block: Seq<u8>)
    requires
        forall|i: int|
            0 <= i && i + 5 < block.len() ==> (#[trigger] block[i]) < 0x80 || block[i + 1] < 0x80
                || block[i + 2] < 0x80 || block[i + 3] < 0x80 || block[i + 4] < 0x80,
    ensures
        decodable(block),
{
    assert forall|i: int| !#[trigger] long_run(block, i) by {
        if 0 <= i && i + 5 < block.len() {
            assert(block[i] < 0x80 || block[i + 1] < 0x80 || block[i + 2] < 0x80 || block[i + 3]
                < 0x80 || block[i + 4] < 0x80);
        }
    }
    lemma_short_decodable(block, 0, false, false);
}

/// An identifier of more than five bytes cannot be read.
pub proof fn law_long_identifiers_are_not_decodable(block: Seq<u8>)
    requires
        block.len() > 5,
        forall|i: int| 0 <= i < 5 ==> (#[trigger] block[i]) >= 0x80,
    ensures
        !decodable(block),
{
    assert(block[0] >= 0x80 && block[1] >= 0x80 && block[2] >= 0x80 && block[3] >= 0x80 && block[4]
        >= 0x80);
}

proof fn lemma_found_decodable(
    before: Seq<u8>,
    after: Seq<u8>,
    s: int,
    topic: bool,
    correlation: bool,
)
    requires
        0 <= s <= before.len(),
        complete_from(before, s),
        topic || response_topic(before, s) is Some,
        correlation || correlation_data(before, s) is Some,
    ensures
        decodable_from(before + after, s, topic, correlation),
    decreases before.len() - s,
{
    let block = before + after;
    if s < before.len() && !(topic && correlation) {
        let end = property_end(before, s)->0;
        lemma_property_prefix(before, after, s);
        assert(block[s] == before[s]);
        assert(before[s] < 0x80);
        assert(identifier_end(block, s) == Some(s + 1));
        let (step, next) = read_at(block, s);
        assert(next == end);
        assert(data_of(block, s, end) == block.subrange(s + 3, end));
        lemma_found_decodable(
            before,
            after,
            end,
            topic || step is ResponseTopic,
            correlation || step is CorrelationData,
        );
    }
}

/// Behind a response topic and correlation data, nothing is read: there a block may hold anything.
pub proof fn law_nothing_is_read_behind_the_route(before: Seq<u8>, after: Seq<u8>)
    requires
        complete_from(before, 0),
        response_topic(before, 0) is Some,
        correlation_data(before, 0) is Some,
    ensures
        decodable(before + after),
{
    lemma_found_decodable(before, after, 0, false, false);
}

proof fn lemma_read_shift(before: Seq<u8>, rest: Seq<u8>, s: int)
    requires
        0 <= s < rest.len(),
    ensures
        long_run(before + rest, before.len() + s) == long_run(rest, s),
        read_at(before + rest, before.len() + s) == (
            read_at(rest, s).0,
            before.len() + read_at(rest, s).1,
        ),
{
    let block = before + rest;
    let k = before.len() as int;
    assert forall|i: int| 0 <= i < rest.len() implies #[trigger] rest[i] == block[k + i] by {}
    assert(rest[s] == block[k + s]);
    assert(s + 1 < rest.len() ==> rest[s + 1] == block[k + s + 1]);
    assert(s + 2 < rest.len() ==> rest[s + 2] == block[k + s + 2]);
    assert(s + 3 < rest.len() ==> rest[s + 3] == block[k + s + 3]);
    assert(s + 4 < rest.len() ==> rest[s + 4] == block[k + s + 4]);
    lemma_integer_shift(before, rest, s);
    match identifier_end(rest, s) {
        Some(end) => {
            assert(identifier_end(block, k + s) == Some(k + end));
            assert(identifier(block, k + s, k + end) == identifier(rest, s, end)) by {
                assert(rest[end - 1] == block[k + end - 1]);
                if forall|i: int| s < i < end - 1 ==> (#[trigger] rest[i]) == 0x80 {
                    assert forall|j: int| k + s < j < k + end - 1 implies (#[trigger] block[j])
                        == 0x80 by {
                        assert(rest[j - k] == block[j]);
                    }
                }
                if forall|j: int| k + s < j < k + end - 1 ==> (#[trigger] block[j]) == 0x80 {
                    assert forall|i: int| s < i < end - 1 implies (#[trigger] rest[i]) == 0x80 by {
                        assert(block[k + i] == 0x80);
                    }
                }
            }
            match identifier(rest, s, end) {
                Some(id) => {
                    lemma_data_end_shift(before, rest, end);
                    match value_kind(id) {
                        Some(kind) => {
                            lemma_value_shift(before, rest, end, kind);
                        },
                        None => {},
                    }
                },
                None => {},
            }
        },
        None => {},
    }
}

proof fn lemma_decodable_shift(
    before: Seq<u8>,
    rest: Seq<u8>,
    s: int,
    topic: bool,
    correlation: bool,
)
    requires
        0 <= s <= rest.len(),
    ensures
        decodable_from(before + rest, before.len() + s, topic, correlation) == decodable_from(
            rest,
            s,
            topic,
            correlation,
        ),
    decreases rest.len() - s,
{
    if s < rest.len() {
        lemma_read_shift(before, rest, s);
        lemma_reading_advances(rest, s);
        let (step, next) = read_at(rest, s);
        lemma_decodable_shift(
            before,
            rest,
            next,
            topic || step is ResponseTopic,
            correlation || step is CorrelationData,
        );
    }
}

/// Behind an identifier that no property has, a block goes on as if it began there.
pub proof fn law_unknown_identifiers_are_skipped(id: u8, rest: Seq<u8>)
    requires
        id < 0x80,
        !seq![
            0x01u8, 0x02, 0x03, 0x08, 0x09, 0x0B, 0x11, 0x12, 0x13, 0x15, 0x16, 0x17, 0x18, 0x19,
            0x1A, 0x1C, 0x1F, 0x21, 0x22, 0x23, 0x24, 0x25, 0x26, 0x27, 0x28, 0x29, 0x2A,
        ].contains(id),
    ensures
        decodable(seq![id] + rest) <==> decodable(rest),
{
    let known = seq![
        0x01u8, 0x02, 0x03, 0x08, 0x09, 0x0B, 0x11, 0x12, 0x13, 0x15, 0x16, 0x17, 0x18, 0x19, 0x1A,
        0x1C, 0x1F, 0x21, 0x22, 0x23, 0x24, 0x25, 0x26, 0x27, 0x28, 0x29, 0x2A,
    ];
    assert(known[0] != id && known[1] != id && known[2] != id && known[3] != id && known[4] != id);
    assert(known[5] != id && known[6] != id && known[7] != id && known[8] != id && known[9] != id);
    assert(known[10] != id && known[11] != id && known[12] != id && known[13] != id);
    assert(known[14] != id && known[15] != id && known[16] != id && known[17] != id);
    assert(known[18] != id && known[19] != id && known[20] != id && known[21] != id);
    assert(known[22] != id && known[23] != id && known[24] != id && known[25] != id);
    assert(known[26] != id);
    let block = seq![id] + rest;
    assert(block[0] == id);
    assert(value_kind(id) is None);
    assert(read_at(block, 0) == (Step::Other, 1int));
    lemma_decodable_shift(seq![id], rest, 0, false, false);
}

/// Behind a complete property that is neither a response topic nor correlation data, a block goes
/// on as if it began there.
pub proof fn law_other_properties_are_skipped(property: Seq<u8>, rest: Seq<u8>)
    requires
        property.len() > 0,
        property_end(property, 0) == Some(property.len() as int),
        property[0] != 0x08,
        property[0] != 0x09,
    ensures
        decodable(property + rest) <==> decodable(rest),
{
    let block = property + rest;
    lemma_property_prefix(property, rest, 0);
    assert(block[0] == property[0]);
    assert(block[0] < 0x80);
    assert(identifier_end(block, 0) == Some(1int));
    assert(read_at(block, 0) == (Step::Other, property.len() as int));
    lemma_decodable_shift(property, rest, 0, false, false);
}

/// Behind a complete property, reading goes on with what it gave, unless all was found before. A
/// response topic counts where it is UTF-8.
pub proof fn law_what_is_found_is_remembered(
    property: Seq<u8>,
    rest: Seq<u8>,
    topic: bool,
    correlation: bool,
)
    requires
        property.len() > 0,
        property_end(property, 0) == Some(property.len() as int),
        !(topic && correlation),
    ensures
        decodable_from(property + rest, 0, topic, correlation) <==> decodable_from(
            rest,
            0,
            topic || (property[0] == 0x08 && valid_utf8(property.skip(3))),
            correlation || property[0] == 0x09,
        ),
        decodable_from(rest, 0, true, true),
        decodable(rest) <==> decodable_from(rest, 0, false, false),
{
    let block = property + rest;
    lemma_property_prefix(property, rest, 0);
    assert(block[0] == property[0]);
    assert(block[0] < 0x80);
    assert(identifier_end(block, 0) == Some(1int));
    let (step, next) = read_at(block, 0);
    assert(next == property.len());
    if property.len() >= 3 {
        assert(block.subrange(3, next) =~= property.skip(3));
    }
    lemma_decodable_shift(
        property,
        rest,
        0,
        topic || step is ResponseTopic,
        correlation || step is CorrelationData,
    );
}

/// Where a length is more than what is left, reading goes on behind the length.
pub proof fn law_reading_goes_on_behind_a_length(id: u8, high: u8, low: u8, rest: Seq<u8>)
    requires
        seq![0x03u8, 0x08, 0x09, 0x12, 0x15, 0x16, 0x1A, 0x1C, 0x1F, 0x26].contains(id),
        high * 256 + low > rest.len(),
    ensures
        decodable(seq![id, high, low] + rest) <==> decodable(rest),
{
    let start = seq![id, high, low];
    let block = start + rest;
    assert(block[0] == id && block[1] == high && block[2] == low);
    assert(identifier_end(block, 0) == Some(1int));
    assert(read_at(block, 0) == (Step::Other, 3int));
    lemma_decodable_shift(start, rest, 0, false, false);
}

/// Of a value of four bytes that is not all there, nothing is read.
pub proof fn law_reading_goes_on_in_front_of_four_bytes(id: u8, rest: Seq<u8>)
    requires
        seq![0x02u8, 0x11, 0x18, 0x27].contains(id),
        rest.len() < 4,
    ensures
        decodable(seq![id] + rest) <==> decodable(rest),
{
    let block = seq![id] + rest;
    assert(block[0] == id);
    assert(identifier_end(block, 0) == Some(1int));
    assert(read_at(block, 0) == (Step::Other, 1int));
    lemma_decodable_shift(seq![id], rest, 0, false, false);
}

/// Of a number that has no end, four bytes are read.
pub proof fn law_reading_goes_on_behind_four_bytes_of_a_number(number: Seq<u8>, rest: Seq<u8>)
    requires
        number.len() == 4,
        forall|i: int| 0 <= i < 4 ==> (#[trigger] number[i]) >= 0x80,
    ensures
        decodable(seq![0x0Bu8] + number + rest) <==> decodable(rest),
{
    let start = seq![0x0Bu8] + number;
    let block = start + rest;
    assert(block[0] == 0x0B);
    assert(block[1] == number[0] && block[2] == number[1] && block[3] == number[2] && block[4]
        == number[3]);
    assert(identifier_end(block, 0) == Some(1int));
    assert(read_at(block, 0) == (Step::Other, 5int));
    lemma_decodable_shift(start, rest, 0, false, false);
}

/// Behind a key that is not UTF-8, reading goes on as if a property began there.
pub proof fn law_reading_goes_on_behind_a_bad_key(key: Seq<u8>, rest: Seq<u8>)
    requires
        key.len() < 0x10000,
        !valid_utf8(key),
    ensures
        decodable(
            seq![0x26u8, (key.len() / 256) as u8, (key.len() % 256) as u8] + key + rest,
        ) <==> decodable(rest),
{
    let start = seq![0x26u8, (key.len() / 256) as u8, (key.len() % 256) as u8] + key;
    let block = start + rest;
    assert(block[0] == 0x26 && block[1] == (key.len() / 256) as u8 && block[2] == (key.len()
        % 256) as u8);
    assert(identifier_end(block, 0) == Some(1int));
    assert(data_end(block, 1) == Some(3 + key.len() as int));
    assert(block.subrange(3, 3 + key.len() as int) =~= key);
    assert(read_at(block, 0) == (Step::Other, start.len() as int));
    lemma_decodable_shift(start, rest, 0, false, false);
}

/// Where the length of a value behind a key is more than what is left, reading goes on behind it.
pub proof fn law_reading_goes_on_behind_the_length_of_a_value(
    key: Seq<u8>,
    high: u8,
    low: u8,
    rest: Seq<u8>,
)
    requires
        key.len() < 0x10000,
        valid_utf8(key),
        high * 256 + low > rest.len(),
    ensures
        decodable(
            seq![0x26u8, (key.len() / 256) as u8, (key.len() % 256) as u8] + key + seq![high, low]
                + rest,
        ) <==> decodable(rest),
{
    let start = seq![0x26u8, (key.len() / 256) as u8, (key.len() % 256) as u8] + key + seq![
        high,
        low,
    ];
    let block = start + rest;
    let middle = 3 + key.len() as int;
    assert(block[0] == 0x26 && block[1] == (key.len() / 256) as u8 && block[2] == (key.len()
        % 256) as u8);
    assert(block[middle] == high && block[middle + 1] == low);
    assert(identifier_end(block, 0) == Some(1int));
    assert(data_end(block, 1) == Some(middle));
    assert(block.subrange(3, middle) =~= key);
    assert(read_at(block, 0) == (Step::Other, start.len() as int));
    lemma_decodable_shift(start, rest, 0, false, false);
}

/// An identifier may take more bytes than it needs, up to five, as long as they add nothing.
pub proof fn law_identifiers_may_be_padded(id: u8, padding: Seq<u8>, last: u8, rest: Seq<u8>)
    requires
        id < 0x80,
        padding.len() <= 3,
        forall|i: int| 0 <= i < padding.len() ==> (#[trigger] padding[i]) == 0x80,
        last == 0 || (padding.len() == 3 && last < 0x80 && last % 16 == 0),
    ensures
        decodable(seq![(id + 0x80) as u8] + padding + seq![last] + rest) <==> decodable(
            seq![id] + rest,
        ),
{
    let start = seq![(id + 0x80) as u8] + padding + seq![last];
    let padded = start + rest;
    let plain = seq![id] + rest;
    let k = start.len() as int;
    assert(start.len() == padding.len() + 2);
    assert(padded[0] == (id + 0x80) as u8);
    assert forall|i: int| 0 < i < k - 1 implies (#[trigger] padded[i]) == 0x80 by {
        assert(padded[i] == padding[i - 1]);
    }
    assert(padded[k - 1] == last);
    assert(identifier_end(padded, 0) == Some(k));
    assert(identifier(padded, 0, k) == Some(id));
    assert(plain[0] == id);
    assert(identifier_end(plain, 0) == Some(1int));
    lemma_read_value_shift(start, rest, id);
    lemma_read_value_shift(seq![id], rest, id);
    let (step, next) = read_value(rest, id, 0);
    lemma_decodable_shift(start, rest, next, step is ResponseTopic, step is CorrelationData);
    lemma_decodable_shift(seq![id], rest, next, step is ResponseTopic, step is CorrelationData);
}

proof fn lemma_read_value_shift(before: Seq<u8>, rest: Seq<u8>, id: u8)
    ensures
        read_value(before + rest, id, before.len() as int) == (
            read_value(rest, id, 0).0,
            before.len() + read_value(rest, id, 0).1,
        ),
        0 <= read_value(rest, id, 0).1 <= rest.len(),
{
    lemma_data_end_shift(before, rest, 0);
    match value_kind(id) {
        Some(kind) => {
            lemma_value_shift(before, rest, 0, kind);
        },
        None => {},
    }
}

/// An identifier of two to five bytes that add anything to the first is none that a property has.
/// Behind it, a block goes on as if it began there.
pub proof fn law_large_identifiers_are_skipped(id: Seq<u8>, rest: Seq<u8>, i: int)
    requires
        2 <= id.len() <= 5,
        forall|j: int| 0 <= j < id.len() - 1 ==> (#[trigger] id[j]) >= 0x80,
        id.last() < 0x80,
        0 < i < id.len(),
        id[i] % 16 != 0 || (i < 4 && id[i] % 128 != 0),
    ensures
        decodable(id + rest) <==> decodable(rest),
{
    let block = id + rest;
    let k = id.len() as int;
    assert forall|j: int| 0 <= j < k implies (#[trigger] block[j]) == id[j] by {}
    assert(id[0] >= 0x80);
    assert(k > 2 ==> id[1] >= 0x80);
    assert(k > 3 ==> id[2] >= 0x80);
    assert(k > 4 ==> id[3] >= 0x80);
    assert(block[k - 1] == id[k - 1]);
    assert(identifier_end(block, 0) == Some(k));
    assert(block[i] == id[i]);
    if i < k - 1 {
        assert(block[i] != 0x80);
    }
    assert(identifier(block, 0, k) is None);
    assert(!long_run(block, 0));
    lemma_decodable_shift(id, rest, 0, false, false);
}

} // verus!
