//! Strings of bounded capacity, and the few string operations that the library is built on.
use vstd::prelude::*;
use vstd::std_specs::cmp::PartialEqSpec;
use vstd::utf8::encode_utf8;
use vstd::utf8::is_ascii_chars;
use vstd::utf8::is_ascii_chars_encode_utf8;

verus! {

/// `heapless::String<N>`: a string held in place, of at most `N` bytes.
#[verifier::external_type_specification]
#[verifier::external_body]
pub struct ExHeaplessString<const N: usize>(heapless::String<N>);

/// The number of bytes that `t` takes in UTF-8.
pub open spec fn utf8_len(t: Seq<char>) -> nat {
    encode_utf8(t).len()
}

/// Whether `s` compares equal to a string slice that holds `t`.
pub open spec fn reads_as<const N: usize>(s: heapless::String<N>, t: Seq<char>) -> bool {
    exists|slice: &str| #[trigger] s.eq_spec(slice) && slice@ == t
}

/// The characters that `s` holds: those of the string slices that `s` compares equal to.
pub open spec fn text<const N: usize>(s: heapless::String<N>) -> Seq<char> {
    choose|t: Seq<char>| reads_as(s, t)
}

/// `heapless::String::new` gives the empty string.
pub assume_specification<const N: usize>[ heapless::String::<N>::new ]() -> (s: heapless::String<N>)
    ensures
        text(s) == Seq::<char>::empty(),
;

/// `heapless::String::push_str` appends the whole slice where the capacity allows it. Otherwise it
/// fails and leaves the string as it was.
pub assume_specification<const N: usize>[ heapless::String::<N>::push_str ](
    s: &mut heapless::String<N>,
    string: &str,
) -> (result: Result<(), ()>)
    ensures
        result is Ok <==> utf8_len(text(*old(s))) + utf8_len(string@) <= N,
        result is Ok ==> text(*final(s)) == text(*old(s)) + string@,
        result is Err ==> text(*final(s)) == text(*old(s)),
;

/// `heapless::String::as_str` lends the contents, which are within the capacity.
pub assume_specification<const N: usize>[ heapless::String::<N>::as_str ](
    s: &heapless::String<N>,
) -> (slice: &str)
    ensures
        slice@ == text(*s),
        utf8_len(slice@) <= N,
;

/// `str::strip_prefix` with a string pattern: the rest of `s` after `prefix`, or `None` where `s`
/// does not begin with `prefix`.
#[verifier::external_body]
pub(crate) fn strip_prefix<'s>(s: &'s str, prefix: &str) -> (rest: Option<&'s str>)
    ensures
        rest is Some <==> prefix@.is_prefix_of(s@),
        rest is Some ==> rest->0@ == s@.skip(prefix@.len() as int),
{
    s.strip_prefix(prefix)
}

/// `==` on string slices: whether both hold the same characters.
#[verifier::external_body]
pub(crate) fn same_text(a: &str, b: &str) -> (same: bool)
    ensures
        same == (a@ == b@),
{
    a == b
}

/// The bytes of a concatenation are those of its two parts.
pub proof fn lemma_utf8_len_concat(a: Seq<char>, b: Seq<char>)
    ensures
        utf8_len(a + b) == utf8_len(a) + utf8_len(b),
    decreases a.len(),
{
    if a.len() == 0 {
        assert(a + b =~= b);
    } else {
        assert((a + b).drop_first() =~= a.drop_first() + b);
        lemma_utf8_len_concat(a.drop_first(), b);
    }
}

/// ASCII text takes one byte for each character.
pub proof fn lemma_utf8_len_ascii(t: Seq<char>)
    requires
        is_ascii_chars(t),
    ensures
        utf8_len(t) == t.len(),
{
    is_ascii_chars_encode_utf8(t);
}

/// The string that holds `message`, for a message within the capacity.
pub(crate) fn bounded<const N: usize>(message: &str) -> (s: heapless::String<N>)
    requires
        utf8_len(message@) <= N,
    ensures
        text(s) == message@,
{
    let mut s = heapless::String::<N>::new();
    s.push_str(message).unwrap();
    assert(Seq::<char>::empty() + message@ =~= message@);
    s
}

} // verus!
