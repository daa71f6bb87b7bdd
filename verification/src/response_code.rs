//! The outcome that every answer reports to the requester.
use vstd::prelude::*;

verus! {

/// Whether a request was served.
#[derive(Clone, Copy, Debug, PartialEq, Eq, Structural)]
pub enum ResponseCode {
    Success,
    Error,
}

/// An MQTT user property: a key and a value, both text.
#[derive(Clone, Copy, Debug)]
pub struct UserProperty {
    pub key: &'static str,
    pub value: &'static str,
}

/// What a [`UserProperty`] says.
#[verifier::ext_equal]
pub struct UserPropertyView {
    pub key: Seq<char>,
    pub value: Seq<char>,
}

impl View for UserProperty {
    type V = UserPropertyView;

    open spec fn view(&self) -> UserPropertyView {
        UserPropertyView { key: self.key@, value: self.value@ }
    }
}

impl ResponseCode {
    /// The user property by which an answer carries this code.
    pub open spec fn user_property(self) -> UserPropertyView {
        UserPropertyView {
            key: "code"@,
            value: match self {
                ResponseCode::Success => "Ok"@,
                ResponseCode::Error => "Error"@,
            },
        }
    }

    /// The user property by which an answer carries this code: `code`, with the value `Ok` or
    /// `Error`.
    pub fn to_user_property(self) -> (property: UserProperty)
        ensures
            property@ == self.user_property(),
            property.key@ == "code"@,
            property.value@ == (if self is Success {
                "Ok"@
            } else {
                "Error"@
            }),
    {
        let code = match self {
            ResponseCode::Success => "Ok",
            ResponseCode::Error => "Error",
        };

        UserProperty { key: "code", value: code }
    }
}

} // verus!
