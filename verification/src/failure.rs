//! Telling a requester why its handler failed.
use embedded_io::Write;
use vstd::prelude::*;

verus! {

/// Formats `value` into the front of `buffer`, by `embedded_io::Write::write_fmt` of `&mut [u8]`,
/// and returns how many bytes are left, which stay as they were. As long as any are left, no write
/// failed, so what was written is all of the text that the value is displayed as.
///
/// A buffer that is full may hold the beginning of a longer text, where the `Display`
/// implementation of the value passes over failed writes. Formatting fails where that
/// implementation does, as most do once the buffer is full.
#[verifier::external_body]
pub(crate) fn write_display<E: std::fmt::Display>(buffer: &mut [u8], value: &E) -> (left: Result<
    usize,
    (),
>)
    ensures
        final(buffer)@.len() == old(buffer)@.len(),
        left matches Ok(left) ==> {
            let used = old(buffer)@.len() - left;
            &&& 0 <= used
            &&& final(buffer)@.skip(used) == old(buffer)@.skip(used)
            &&& left > 0 ==> exists|shown: String|
                vstd::string::to_string_from_display_ensures(value, shown) && final(buffer)@.take(
                    used,
                ) == #[trigger] vstd::utf8::encode_utf8(shown@)
        },
{
    let mut rest: &mut [u8] = buffer;
    write!(rest, "{}", value).map_err(|_| ())?;
    Ok(rest.len())
}

/// Whether displaying `value` into the front of `buffer` can give `left`: how many bytes are left,
/// or an error where formatting failed.
pub closed spec fn displays<E: std::fmt::Display>(
    buffer: &mut [u8],
    value: &E,
    left: Result<usize, ()>,
) -> bool {
    call_ensures(write_display::<E>, (buffer, value), left)
}

/// What displaying can give is what formatting into the buffer can give, and nothing else.
proof fn lemma_displays<E: std::fmt::Display>(
    buffer: &mut [u8],
    value: &E,
    left: Result<usize, ()>,
)
    ensures
        displays(buffer, value, left) <==> call_ensures(write_display::<E>, (buffer, value), left),
{
}

/// What was written and what is left make up the buffer. There is no count only where formatting
/// failed.
pub proof fn law_written_and_left_make_up_the_buffer(start: nat, left: Result<usize, ()>)
    requires
        start <= usize::MAX,
        left matches Ok(n) ==> n <= start,
    ensures
        left matches Ok(n) ==> written_length(start, left) matches Ok(count) && count + n == start,
        left is Err ==> written_length(start, left) is Err,
{
}

/// How many bytes of a buffer of the size `start` were written, if so many are `left`.
pub open spec fn written_length(start: nat, left: Result<usize, ()>) -> Result<usize, ()> {
    match left {
        Ok(left) => Ok((start - left) as usize),
        Err(()) => Err(()),
    }
}

/// Calls `f` on `buffer`, and keeps at hand that the result is one of this call.
fn apply<E, F: FnOnce(&mut [u8], &E) -> Result<usize, ()>>(
    f: F,
    buffer: &mut [u8],
    value: &E,
) -> (left: Result<usize, ()>)
    requires
        forall|b: &mut [u8]| #[trigger] call_requires(f, (b, value)),
    ensures
        exists|b: &mut [u8]| #[trigger]
            call_ensures(f, (b, value), left) && (*b)@ == old(buffer)@
                && (*final(b))@ == final(buffer)@,
{
    f(buffer, value)
}

/// How many bytes of a buffer of the size `start` were written, if so many are `left`.
pub fn written(start: usize, left: Result<usize, ()>) -> (length: Result<usize, ()>)
    requires
        left matches Ok(left) ==> left <= start,
    ensures
        length == written_length(start as nat, left),
        left matches Ok(n) ==> length matches Ok(count) && count + n == start,
        left is Err <==> length is Err,
{
    match left {
        Ok(left) => Ok(start - left),
        Err(()) => Err(()),
    }
}

/// Writes `err` as text into the front of `buffer`, and returns how many bytes it takes, or an
/// error exactly where formatting fails. The rest of the buffer stays as it was. Text that fills
/// the whole buffer may have been cut off.
pub fn render<E: std::fmt::Display>(err: &E, buffer: &mut [u8]) -> (length: Result<usize, ()>)
    ensures
        exists|b: &mut [u8], left: Result<usize, ()>| #[trigger]
            displays(b, err, left) && (*b)@ == old(buffer)@ && (*final(b))@ == final(buffer)@
                && length == written_length(old(buffer)@.len(), left) && (left matches Ok(n)
                ==> length matches Ok(count) && count + n == old(buffer)@.len()) && (left is Err
                <==> length is Err),
        final(buffer)@.len() == old(buffer)@.len(),
        length matches Ok(length) ==> {
            &&& length <= old(buffer)@.len()
            &&& final(buffer)@.skip(length as int) == old(buffer)@.skip(length as int)
            &&& length < old(buffer)@.len() ==> exists|shown: String|
                vstd::string::to_string_from_display_ensures(err, shown) && final(buffer)@.take(
                    length as int,
                ) == #[trigger] vstd::utf8::encode_utf8(shown@)
        },
{
    let start = buffer.len();
    let left = apply(write_display::<E>, buffer, err);
    proof {
        let b = choose|b: &mut [u8]| #[trigger]
            call_ensures(write_display::<E>, (b, err), left) && (*b)@ == old(buffer)@
                && (*final(b))@ == buffer@;
        lemma_displays(b, err, left);
    }
    written(start, left)
}

} // verus!
