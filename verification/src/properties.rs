//! The properties that a request carries, as the broker delivers them.
use crate::publication::{route_view, Route, RouteView};
use vstd::prelude::*;
use vstd::slice::slice_subrange;
use vstd::utf8::{decode_utf8, encode_utf8, valid_utf8};

verus! {

/// What kind of value a property has.
#[derive(Clone, Copy, PartialEq, Eq, Structural)]
pub enum ValueKind {
    /// So many bytes.
    Fixed(usize),
    /// An integer of one to four bytes, of which all but the last have the top bit set.
    VariableInteger,
    /// Two bytes that tell a length, and so many bytes.
    Data,
    /// Two of the kind [`ValueKind::Data`].
    Pair,
}

/// The kind of value that the property with the identifier `id` has.
pub open spec fn value_kind(id: u8) -> Option<ValueKind> {
    match id {
        0x01 | 0x17 | 0x19 | 0x24 | 0x25 | 0x28 | 0x29 | 0x2A => Some(ValueKind::Fixed(1)),
        0x13 | 0x21 | 0x22 | 0x23 => Some(ValueKind::Fixed(2)),
        0x02 | 0x11 | 0x18 | 0x27 => Some(ValueKind::Fixed(4)),
        0x0B => Some(ValueKind::VariableInteger),
        0x03 | 0x08 | 0x09 | 0x12 | 0x15 | 0x16 | 0x1A | 0x1C | 0x1F => Some(ValueKind::Data),
        0x26 => Some(ValueKind::Pair),
        _ => None,
    }
}

/// Where the data that begins at `start` ends, if `block` holds all of it.
pub open spec fn data_end(block: Seq<u8>, start: int) -> Option<int> {
    let end = start + 2 + block[start] * 256 + block[start + 1];
    if start + 2 <= block.len() && end <= block.len() {
        Some(end)
    } else {
        None
    }
}

/// Where the variable-length integer that begins at `start` ends, if `block` holds all of it.
pub open spec fn integer_end(block: Seq<u8>, start: int) -> Option<int> {
    if start < block.len() && block[start] < 0x80 {
        Some(start + 1)
    } else if start + 1 < block.len() && block[start + 1] < 0x80 {
        Some(start + 2)
    } else if start + 2 < block.len() && block[start + 2] < 0x80 {
        Some(start + 3)
    } else if start + 3 < block.len() && block[start + 3] < 0x80 {
        Some(start + 4)
    } else {
        None
    }
}

/// Where the value that begins at `start` ends, if `block` holds all of it. The first part of a
/// pair has to be UTF-8.
pub open spec fn value_end(block: Seq<u8>, start: int, kind: ValueKind) -> Option<int> {
    match kind {
        ValueKind::Fixed(n) => if start + n <= block.len() {
            Some(start + n)
        } else {
            None
        },
        ValueKind::VariableInteger => integer_end(block, start),
        ValueKind::Data => data_end(block, start),
        ValueKind::Pair => match data_end(block, start) {
            Some(middle) => if valid_utf8(block.subrange(start + 2, middle)) {
                data_end(block, middle)
            } else {
                None
            },
            None => None,
        },
    }
}

/// Where the property that begins at `start` ends, if `block` holds a complete one there.
pub open spec fn property_end(block: Seq<u8>, start: int) -> Option<int> {
    match value_kind(block[start]) {
        Some(kind) => value_end(block, start + 1, kind),
        None => None,
    }
}

/// Whether `block` is a sequence of complete properties from `start` on.
pub open spec fn complete_from(block: Seq<u8>, start: int) -> bool
    decreases block.len() - start,
{
    if start >= block.len() {
        true
    } else {
        match property_end(block, start) {
            Some(end) => end > start && complete_from(block, end),
            None => false,
        }
    }
}

/// Whether the five bytes from `i` on have their top bit set, and another byte follows.
pub open spec fn long_run(block: Seq<u8>, i: int) -> bool {
    &&& 0 <= i
    &&& i + 5 < block.len()
    &&& block[i] >= 0x80
    &&& block[i + 1] >= 0x80
    &&& block[i + 2] >= 0x80
    &&& block[i + 3] >= 0x80
    &&& block[i + 4] >= 0x80
}

/// The identifier of the property that names a response topic.
pub const RESPONSE_TOPIC: u8 = 0x08;

/// The identifier of the property that carries correlation data.
pub const CORRELATION_DATA: u8 = 0x09;

/// Where the identifier that begins at `start` ends, if `block` holds all of it and it takes no more
/// than five bytes. All its bytes but the last have the top bit set.
pub open spec fn identifier_end(block: Seq<u8>, start: int) -> Option<int> {
    match integer_end(block, start) {
        Some(end) => Some(end),
        None => if start + 4 < block.len() && block[start + 4] < 0x80 {
            Some(start + 5)
        } else {
            None
        },
    }
}

/// The identifier between `start` and `end`, unless it is too large to be one that is known. The
/// first byte has the low bits, and the others add nothing to them. The fifth byte has only four
/// bits that count.
pub open spec fn identifier(block: Seq<u8>, start: int, end: int) -> Option<u8> {
    if end == start + 1 {
        Some(block[start])
    } else if (forall|i: int| start < i < end - 1 ==> (#[trigger] block[i]) == 0x80) && block[end
        - 1] % 16 == 0 && (end == start + 5 || block[end - 1] == 0) {
        Some((block[start] - 0x80) as u8)
    } else {
        None
    }
}

/// Where reading data that begins at `start` stops, if `block` does not hold all of it: behind the
/// length.
pub open spec fn data_cut(block: Seq<u8>, start: int) -> int {
    if start + 2 <= block.len() {
        start + 2
    } else {
        block.len() as int
    }
}

/// Where reading a value that begins at `start` stops, if `block` does not hold a complete one. Of
/// values of four bytes, nothing is read then.
pub open spec fn value_cut(block: Seq<u8>, start: int, kind: ValueKind) -> int {
    match kind {
        ValueKind::Fixed(n) => if n < 4 {
            block.len() as int
        } else {
            start
        },
        ValueKind::VariableInteger => if start + 4 <= block.len() {
            start + 4
        } else {
            block.len() as int
        },
        ValueKind::Data => data_cut(block, start),
        ValueKind::Pair => match data_end(block, start) {
            Some(middle) => if valid_utf8(block.subrange(start + 2, middle)) {
                data_cut(block, middle)
            } else {
                middle
            },
            None => data_cut(block, start),
        },
    }
}

/// Where reading the value that begins at `start` stops.
pub open spec fn value_stop(block: Seq<u8>, start: int, kind: ValueKind) -> int {
    match value_end(block, start, kind) {
        Some(end) => end,
        None => value_cut(block, start, kind),
    }
}

/// What reading at one place in a block gives.
#[derive(Clone, Copy, PartialEq, Eq, Structural)]
pub enum Step {
    /// A response topic that is UTF-8.
    ResponseTopic,
    /// Correlation data.
    CorrelationData,
    /// Another property, or none.
    Other,
}

/// What is found, and where reading stops, where a property with the identifier `id` has its value
/// at `start`.
pub open spec fn read_value(block: Seq<u8>, id: u8, start: int) -> (Step, int) {
    match value_kind(id) {
        Some(kind) => {
            let stop = value_stop(block, start, kind);
            match data_end(block, start) {
                Some(end) => if id == RESPONSE_TOPIC && valid_utf8(
                    block.subrange(start + 2, end),
                ) {
                    (Step::ResponseTopic, stop)
                } else if id == CORRELATION_DATA {
                    (Step::CorrelationData, stop)
                } else {
                    (Step::Other, stop)
                },
                None => (Step::Other, stop),
            }
        },
        None => (Step::Other, start),
    }
}

/// What is found at `start`, where an identifier is read, and where reading goes on. Behind an
/// identifier that is not known, the next one is read.
pub open spec fn read_at(block: Seq<u8>, start: int) -> (Step, int) {
    match identifier_end(block, start) {
        Some(end) => match identifier(block, start, end) {
            Some(id) => read_value(block, id, end),
            None => (Step::Other, end),
        },
        None => (Step::Other, block.len() as int),
    }
}

/// Whether reading `block` from `start` on meets no identifier of more than five bytes before both
/// a response topic and correlation data were found. `topic` and `correlation` tell which of them
/// already were.
pub open spec fn decodable_from(
    block: Seq<u8>,
    start: int,
    topic: bool,
    correlation: bool,
) -> bool
    decreases block.len() - start,
{
    if start >= block.len() || topic && correlation {
        true
    } else if long_run(block, start) {
        false
    } else {
        let (step, next) = read_at(block, start);
        next > start && decodable_from(
            block,
            next,
            topic || step is ResponseTopic,
            correlation || step is CorrelationData,
        )
    }
}

/// Whether reading `block` for a response topic and for correlation data meets no identifier of
/// more than five bytes.
pub open spec fn decodable(block: Seq<u8>) -> bool {
    decodable_from(block, 0, false, false)
}

/// Complete properties can be read.
pub proof fn lemma_complete_decodable(block: Seq<u8>, start: int, topic: bool, correlation: bool)
    requires
        0 <= start,
        complete_from(block, start),
    ensures
        decodable_from(block, start, topic, correlation),
    decreases block.len() - start,
{
    if start < block.len() {
        let (step, next) = read_at(block, start);
        assert(block[start] < 0x80);
        assert(next == property_end(block, start)->0);
        lemma_complete_decodable(
            block,
            next,
            topic || step is ResponseTopic,
            correlation || step is CorrelationData,
        );
    }
}

/// The data of the property that begins at `start` and ends at `end`, behind its identifier and
/// the length.
pub open spec fn data_of(block: Seq<u8>, start: int, end: int) -> Seq<u8> {
    block.subrange(start + 3, end)
}

/// The first response topic that is named by the complete properties of `block` from `start` on.
/// One that is not UTF-8 does not count.
pub open spec fn response_topic(block: Seq<u8>, start: int) -> Option<Seq<char>>
    decreases block.len() - start,
{
    if start >= block.len() {
        None
    } else {
        match property_end(block, start) {
            Some(end) => if end <= start {
                None
            } else if block[start] == RESPONSE_TOPIC && valid_utf8(data_of(block, start, end)) {
                Some(decode_utf8(data_of(block, start, end)))
            } else {
                response_topic(block, end)
            },
            None => None,
        }
    }
}

/// The first correlation data among the complete properties of `block` from `start` on.
pub open spec fn correlation_data(block: Seq<u8>, start: int) -> Option<Seq<u8>>
    decreases block.len() - start,
{
    if start >= block.len() {
        None
    } else {
        match property_end(block, start) {
            Some(end) => if end <= start {
                None
            } else if block[start] == CORRELATION_DATA {
                Some(data_of(block, start, end))
            } else {
                correlation_data(block, end)
            },
            None => None,
        }
    }
}

/// The route that is given by a sequence of complete properties.
pub open spec fn listed_route(block: Seq<u8>) -> Option<RouteView> {
    match response_topic(block, 0) {
        Some(topic) => Some(RouteView { topic, correlation: correlation_data(block, 0) }),
        None => None,
    }
}

/// The property with the identifier `id` and the given data.
pub open spec fn data_property(id: u8, data: Seq<u8>) -> Seq<u8> {
    seq![id, (data.len() / 256) as u8, (data.len() % 256) as u8] + data
}

/// The properties by which a requester says where the answer goes.
pub open spec fn route_properties(route: RouteView) -> Seq<u8> {
    data_property(RESPONSE_TOPIC, encode_utf8(route.topic)) + match route.correlation {
        Some(data) => data_property(CORRELATION_DATA, data),
        None => Seq::empty(),
    }
}

/// The route that `minimq::Publication::reply` finds in the encoded properties of a request.
pub uninterp spec fn reply_route(block: Seq<u8>) -> Option<RouteView>;

/// Reads the encoded properties of a request with `minimq::Publication::reply`, and finishes the
/// publication, which fails where they name no response topic. What is found depends on the bytes
/// alone. In a sequence of complete properties, it is the first response topic that is UTF-8, and
/// the first correlation data. What is found in bytes that are not such a sequence is not said
/// here.
///
/// An identifier of more than five bytes overflows the decoder, which panics where overflow is
/// checked. The block is read once for the response topic and once for the correlation data, each
/// time up to where it is found.
#[verifier::external_body]
pub(crate) fn find_route(block: &[u8]) -> (route: Option<Route>)
    requires
        decodable(block@),
    ensures
        route_view(route) == reply_route(block@),
        complete_from(block@, 0) ==> route_view(route) == listed_route(block@),
{
    let properties = minimq::types::Properties::DataBlock(block);
    let reply = minimq::Publication::new(block).reply(&properties).finish().ok()?;
    Some(Route {
        topic: reply.topic.0.to_owned(),
        correlation: match reply.properties {
            minimq::types::Properties::CorrelatedSlice {
                correlation: minimq::Property::CorrelationData(data),
                ..
            } => Some(data.0.to_vec()),
            _ => None,
        },
    })
}

/// The kind of value that the property with the identifier `id` has.
fn kind_of(id: u8) -> (kind: Option<ValueKind>)
    ensures
        kind == value_kind(id),
{
    match id {
        0x01 | 0x17 | 0x19 | 0x24 | 0x25 | 0x28 | 0x29 | 0x2A => Some(ValueKind::Fixed(1)),
        0x13 | 0x21 | 0x22 | 0x23 => Some(ValueKind::Fixed(2)),
        0x02 | 0x11 | 0x18 | 0x27 => Some(ValueKind::Fixed(4)),
        0x0B => Some(ValueKind::VariableInteger),
        0x03 | 0x08 | 0x09 | 0x12 | 0x15 | 0x16 | 0x1A | 0x1C | 0x1F => Some(ValueKind::Data),
        0x26 => Some(ValueKind::Pair),
        _ => None,
    }
}

/// Where the data that begins at `start` ends.
fn find_data_end(block: &[u8], start: usize) -> (end: Option<usize>)
    requires
        start <= block.len(),
    ensures
        end is Some <==> data_end(block@, start as int) is Some,
        end is Some ==> Some(end->0 as int) == data_end(block@, start as int),
        end is Some ==> start < end->0 <= block.len(),
{
    let left = block.len() - start;
    if left < 2 {
        return None;
    }
    let n = block[start] as usize * 256 + block[start + 1] as usize;
    if n <= left - 2 {
        Some(start + 2 + n)
    } else {
        None
    }
}

/// Where the variable-length integer that begins at `start` ends.
fn find_integer_end(block: &[u8], start: usize) -> (end: Option<usize>)
    requires
        start <= block.len(),
    ensures
        end is Some <==> integer_end(block@, start as int) is Some,
        end is Some ==> Some(end->0 as int) == integer_end(block@, start as int),
        end is Some ==> start < end->0 <= block.len(),
{
    let left = block.len() - start;
    if left > 0 && block[start] < 0x80 {
        Some(start + 1)
    } else if left > 1 && block[start + 1] < 0x80 {
        Some(start + 2)
    } else if left > 2 && block[start + 2] < 0x80 {
        Some(start + 3)
    } else if left > 3 && block[start + 3] < 0x80 {
        Some(start + 4)
    } else {
        None
    }
}

/// `str::from_utf8`: whether it takes `bytes` for a string, which it does exactly where they are
/// UTF-8.
#[verifier::external_body]
fn is_utf8(bytes: &[u8]) -> (result: bool)
    ensures
        result == valid_utf8(bytes@),
{
    std::str::from_utf8(bytes).is_ok()
}

/// Where the identifier that begins at `start` ends.
fn find_identifier_end(block: &[u8], start: usize) -> (end: Option<usize>)
    requires
        start <= block.len(),
    ensures
        end is Some <==> identifier_end(block@, start as int) is Some,
        end is Some ==> Some(end->0 as int) == identifier_end(block@, start as int),
        end is Some ==> start < end->0 <= block.len(),
{
    match find_integer_end(block, start) {
        Some(end) => Some(end),
        None => if block.len() - start > 4 && block[start + 4] < 0x80 {
            Some(start + 5)
        } else {
            None
        },
    }
}

/// The identifier between `start` and `end`.
fn find_identifier(block: &[u8], start: usize, end: usize) -> (id: Option<u8>)
    requires
        start < end <= block.len(),
        identifier_end(block@, start as int) == Some(end as int),
    ensures
        id == identifier(block@, start as int, end as int),
{
    if end - start == 1 {
        return Some(block[start]);
    }
    let last = block[end - 1];
    if last % 16 != 0 || (end - start != 5 && last != 0) {
        return None;
    }
    let mut i: usize = start + 1;
    while i < end - 1
        invariant
            start < i <= end - 1,
            end <= block.len(),
            forall|j: int| start < j < i ==> (#[trigger] block@[j]) == 0x80,
        ensures
            forall|j: int| start < j < end - 1 ==> (#[trigger] block@[j]) == 0x80,
        decreases end - i,
    {
        if block[i] != 0x80 {
            assert(block@[i as int] != 0x80);
            return None;
        }
        i = i + 1;
    }
    Some(block[start] - 0x80)
}

/// Where reading data that begins at `start` stops, if not all of it is there.
fn find_data_cut(block: &[u8], start: usize) -> (stop: usize)
    requires
        start <= block.len(),
    ensures
        stop == data_cut(block@, start as int),
        start <= stop <= block.len(),
{
    if block.len() - start >= 2 {
        start + 2
    } else {
        block.len()
    }
}

/// Where reading the value that begins at `start` stops.
fn find_value_stop(block: &[u8], start: usize, kind: ValueKind) -> (stop: usize)
    requires
        start <= block.len(),
    ensures
        stop == value_stop(block@, start as int, kind),
        start <= stop <= block.len(),
{
    match kind {
        ValueKind::Fixed(n) => if n <= block.len() - start {
            start + n
        } else if n < 4 {
            block.len()
        } else {
            start
        },
        ValueKind::VariableInteger => match find_integer_end(block, start) {
            Some(end) => end,
            None => if block.len() - start >= 4 {
                start + 4
            } else {
                block.len()
            },
        },
        ValueKind::Data => match find_data_end(block, start) {
            Some(end) => end,
            None => find_data_cut(block, start),
        },
        ValueKind::Pair => match find_data_end(block, start) {
            Some(middle) => if is_utf8(slice_subrange(block, start + 2, middle)) {
                match find_data_end(block, middle) {
                    Some(end) => end,
                    None => find_data_cut(block, middle),
                }
            } else {
                middle
            },
            None => find_data_cut(block, start),
        },
    }
}

/// What is found, and where reading stops, where a property with the identifier `id` has its value
/// at `start`.
fn find_value(block: &[u8], id: u8, start: usize) -> (result: (Step, usize))
    requires
        start <= block.len(),
    ensures
        (result.0, result.1 as int) == read_value(block@, id, start as int),
        start <= result.1 <= block.len(),
{
    let kind = match kind_of(id) {
        Some(kind) => kind,
        None => return (Step::Other, start),
    };
    let stop = find_value_stop(block, start, kind);
    match find_data_end(block, start) {
        Some(end) => if id == RESPONSE_TOPIC && is_utf8(slice_subrange(block, start + 2, end)) {
            (Step::ResponseTopic, stop)
        } else if id == CORRELATION_DATA {
            (Step::CorrelationData, stop)
        } else {
            (Step::Other, stop)
        },
        None => (Step::Other, stop),
    }
}

/// What is found at `start`, where an identifier is read, and where reading goes on.
fn find_at(block: &[u8], start: usize) -> (result: (Step, usize))
    requires
        start < block.len(),
    ensures
        (result.0, result.1 as int) == read_at(block@, start as int),
        start < result.1 <= block.len(),
{
    match find_identifier_end(block, start) {
        Some(end) => match find_identifier(block, start, end) {
            Some(id) => find_value(block, id, end),
            None => (Step::Other, end),
        },
        None => (Step::Other, block.len()),
    }
}

/// Whether an identifier of more than five bytes is read at `start`.
fn is_long_run(block: &[u8], start: usize) -> (result: bool)
    requires
        start <= block.len(),
    ensures
        result == long_run(block@, start as int),
{
    block.len() - start > 5 && block[start] >= 0x80 && block[start + 1] >= 0x80 && block[start + 2]
        >= 0x80 && block[start + 3] >= 0x80 && block[start + 4] >= 0x80
}

/// Whether reading `block` for a response topic and for correlation data meets no identifier of
/// more than five bytes.
pub fn is_decodable(block: &[u8]) -> (result: bool)
    ensures
        result == decodable(block@),
{
    let mut start: usize = 0;
    let mut topic = false;
    let mut correlation = false;
    while start < block.len() && !(topic && correlation)
        invariant
            start <= block.len(),
            decodable(block@) == decodable_from(block@, start as int, topic, correlation),
        decreases block.len() - start,
    {
        if is_long_run(block, start) {
            return false;
        }
        let (step, next) = find_at(block, start);
        match step {
            Step::ResponseTopic => {
                topic = true;
            },
            Step::CorrelationData => {
                correlation = true;
            },
            Step::Other => {},
        }
        start = next;
    }
    true
}

} // verus!
