//! Responses with a numeric code.
use crate::text::{bounded, lemma_utf8_len_ascii, text, utf8_len};
use std::fmt::Write;
use vstd::prelude::*;

verus! {

/// Responses are always generated as a result of handling an in-bound request.
#[derive(Debug)]
pub struct Response<const MAX_RESPONSE_SIZE: usize> {
    pub code: i32,
    pub data: heapless::String<MAX_RESPONSE_SIZE>,
}

/// What a [`Response`] says.
#[verifier::ext_equal]
pub struct ResponseView {
    pub code: int,
    pub data: Seq<char>,
}

impl<const MAX_RESPONSE_SIZE: usize> View for Response<MAX_RESPONSE_SIZE> {
    type V = ResponseView;

    open spec fn view(&self) -> ResponseView {
        ResponseView { code: self.code as int, data: text(self.data) }
    }
}

/// The response with the given code and message, where a message of up to `size` bytes fits.
pub open spec fn custom_response(size: usize, code: int, message: Seq<char>) -> ResponseView {
    ResponseView {
        code,
        data: if utf8_len(message) <= size {
            message
        } else {
            "Truncated"@
        },
    }
}

/// Whether a response of up to `size` bytes can hold the message, or at least tell that it was too
/// long.
pub open spec fn has_room(size: usize, message: Seq<char>) -> bool {
    utf8_len(message) <= size || 9 <= size
}

/// Formats `value` for debugging into an empty string, by `core::fmt::Write::write_fmt` of
/// `heapless::String`. `None` where that fails. What is written is within the capacity.
///
/// What the `Debug` implementation of the value writes is not said here, nor whether it fits: that
/// implementation may fail by itself, or pass over failed writes.
#[verifier::external_body]
fn debug_text<E: std::fmt::Debug, const N: usize>(value: E) -> (msg: Option<heapless::String<N>>)
    ensures
        msg matches Some(msg) ==> utf8_len(text(msg)) <= N,
{
    let mut msg = heapless::String::<N>::new();
    write!(msg, "{:?}", value).ok()?;
    Some(msg)
}

/// Whether formatting `value` for debugging into an empty string of up to `N` bytes can give `msg`:
/// the text that was written, or `None` where formatting failed.
pub closed spec fn debugs_as<E: std::fmt::Debug, const N: usize>(
    value: E,
    msg: Option<heapless::String<N>>,
) -> bool {
    call_ensures(debug_text::<E, N>, (value,), msg)
}

/// What formatting for debugging can give is what formatting into an empty string can give, and
/// nothing else.
proof fn lemma_debugs_as<E: std::fmt::Debug, const N: usize>(
    value: E,
    msg: Option<heapless::String<N>>,
)
    ensures
        debugs_as(value, msg) <==> call_ensures(debug_text::<E, N>, (value,), msg),
{
}

/// The response of up to `size` bytes to an error that formatting gave `msg` for: the text, or the
/// word `Error` where formatting failed. `None` where that word does not fit either.
pub open spec fn error_response(size: usize, msg: Option<Seq<char>>) -> Option<ResponseView> {
    match msg {
        Some(msg) => Some(ResponseView { code: -1, data: msg }),
        None => if 5 <= size {
            Some(ResponseView { code: -1, data: "Error"@ })
        } else {
            None
        },
    }
}

/// The characters of an optional string.
pub open spec fn text_view<const N: usize>(msg: Option<heapless::String<N>>) -> Option<Seq<char>> {
    match msg {
        Some(msg) => Some(text(msg)),
        None => None,
    }
}

/// What an optional [`Response`] says.
pub open spec fn response_view<const N: usize>(response: Option<Response<N>>) -> Option<
    ResponseView,
> {
    match response {
        Some(response) => Some(response@),
        None => None,
    }
}

/// Calls `f`, and keeps at hand that the result is one of this call.
fn apply<X, Y, F: FnOnce(X) -> Y>(f: F, x: X) -> (y: Y)
    requires
        call_requires(f, (x,)),
    ensures
        call_ensures(f, (x,), y),
{
    f(x)
}

impl<const MAX_RESPONSE_SIZE: usize> Default for Response<MAX_RESPONSE_SIZE> {
    /// The empty response with the code 0.
    fn default() -> (response: Self)
        ensures
            response@ == (ResponseView { code: 0, data: Seq::empty() }),
    {
        Response { code: 0, data: heapless::String::new() }
    }
}

impl<const MAX_RESPONSE_SIZE: usize> Clone for Response<MAX_RESPONSE_SIZE> {
    fn clone(&self) -> (response: Self)
        ensures
            response@ == self@,
    {
        Response { code: self.code, data: bounded(self.data.as_str()) }
    }
}

impl<const MAX_RESPONSE_SIZE: usize> Response<MAX_RESPONSE_SIZE> {
    /// A response without data indicating success.
    pub fn ok() -> (response: Self)
        requires
            2 <= MAX_RESPONSE_SIZE,
        ensures
            response@ == (ResponseView { code: 0, data: "Ok"@ }),
            response.code == 0,
            text(response.data) == seq!['O', 'k'],
    {
        proof {
            reveal_strlit("Ok");
            lemma_utf8_len_ascii("Ok"@);
            assert("Ok"@ =~= seq!['O', 'k']);
        }
        Self::custom(0, "Ok")
    }

    /// A response indicating failure with some error code: the error as it is formatted for
    /// debugging, or the word `Error` where that fails.
    pub fn error<E: std::fmt::Debug>(err: E) -> (response: Self)
        requires
            5 <= MAX_RESPONSE_SIZE,
        ensures
            exists|msg: Option<heapless::String<MAX_RESPONSE_SIZE>>| #[trigger]
                debugs_as(err, msg) && Some(response@) == error_response(
                    MAX_RESPONSE_SIZE,
                    text_view(msg),
                ),
            response.code == -1,
            utf8_len(response@.data) <= MAX_RESPONSE_SIZE,
    {
        let msg = apply(debug_text::<E, MAX_RESPONSE_SIZE>, err);
        proof {
            lemma_debugs_as(err, msg);
        }
        Self::error_message(msg)
    }

    /// A response indicating failure with some error code, of any size. `None` where neither the
    /// error fits nor the word in its place.
    pub fn try_error<E: std::fmt::Debug>(err: E) -> (response: Option<Self>)
        ensures
            exists|msg: Option<heapless::String<MAX_RESPONSE_SIZE>>| #[trigger]
                debugs_as(err, msg) && response_view(response) == error_response(
                    MAX_RESPONSE_SIZE,
                    text_view(msg),
                ),
            5 <= MAX_RESPONSE_SIZE ==> response is Some,
            response matches Some(response) ==> response.code == -1 && utf8_len(response@.data)
                <= MAX_RESPONSE_SIZE,
    {
        let msg = apply(debug_text::<E, MAX_RESPONSE_SIZE>, err);
        proof {
            lemma_debugs_as(err, msg);
        }
        Self::try_error_message(msg)
    }

    /// The response to an error that reads as `msg`, or that could not be formatted.
    pub fn error_message(msg: Option<heapless::String<MAX_RESPONSE_SIZE>>) -> (response: Self)
        requires
            msg is None ==> 5 <= MAX_RESPONSE_SIZE,
        ensures
            Some(response@) == error_response(MAX_RESPONSE_SIZE, text_view(msg)),
            utf8_len(response@.data) <= MAX_RESPONSE_SIZE,
    {
        proof {
            reveal_strlit("Error");
            lemma_utf8_len_ascii("Error"@);
        }
        let msg = match msg {
            Some(msg) => msg,
            None => bounded("Error"),
        };
        Self::custom(-1, msg.as_str())
    }

    /// The response to an error that reads as `msg`, or that could not be formatted, of any size.
    /// `None` where there is no message and no room for the word in its place.
    pub fn try_error_message(msg: Option<heapless::String<MAX_RESPONSE_SIZE>>) -> (response: Option<
        Self,
    >)
        ensures
            response_view(response) == error_response(MAX_RESPONSE_SIZE, text_view(msg)),
            response matches Some(response) ==> utf8_len(response@.data) <= MAX_RESPONSE_SIZE,
    {
        if msg.is_some() || 5 <= MAX_RESPONSE_SIZE {
            Some(Self::error_message(msg))
        } else {
            None
        }
    }

    /// A response with json-serialized data indicating success.
    ///
    /// # Args
    /// * `serialized` - What serializing the data gave.
    ///
    /// # Note
    /// If the data cannot fit into the message, an error will be returned instead.
    pub fn data<J>(serialized: Result<heapless::String<MAX_RESPONSE_SIZE>, J>) -> (response: Self)
        requires
            serialized is Err ==> 9 <= MAX_RESPONSE_SIZE,
        ensures
            response@ == (match serialized {
                Ok(data) => ResponseView { code: 0, data: text(data) },
                Err(_) => custom_response(MAX_RESPONSE_SIZE, -2, "Response too large"@),
            }),
    {
        let data = match serialized {
            Ok(data) => data,
            Err(_) => return Self::custom(-2, "Response too large"),
        };

        Response { code: 0, data }
    }

    /// A custom response type using the provided code and message.
    pub fn custom(code: i32, message: &str) -> (response: Self)
        requires
            has_room(MAX_RESPONSE_SIZE, message@),
        ensures
            response@ == custom_response(MAX_RESPONSE_SIZE, code as int, message@),
            response.code == code,
            text(response.data) == (if utf8_len(message@) <= MAX_RESPONSE_SIZE {
                message@
            } else {
                "Truncated"@
            }),
    {
        proof {
            reveal_strlit("Truncated");
            lemma_utf8_len_ascii("Truncated"@);
            assert(Seq::<char>::empty() + message@ =~= message@);
        }
        let mut data = heapless::String::<MAX_RESPONSE_SIZE>::new();

        if data.push_str(message).is_err() {
            data = bounded("Truncated");
        }
        Response { code, data }
    }
}

} // verus!
