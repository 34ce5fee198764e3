//! The error value shared by every fallible operation of the library.

use vstd::prelude::*;
use vstd::string::StringExecFns;

verus! {

/// Carries a short message naming the operation that failed together with the
/// underlying reason, usually the text of a lower-level error.
#[derive(Clone, Debug)]
pub struct IndexError {
    message: String,
    reason: String,
}

impl IndexError {
    /// The message text, as contracts see it.
    pub closed spec fn spec_message(&self) -> Seq<char> {
        self.message@
    }

    /// The reason text, as contracts see it.
    pub closed spec fn spec_reason(&self) -> Seq<char> {
        self.reason@
    }

    pub fn new(message: String, reason: String) -> (r: Self)
        ensures
            r.spec_message() == message@,
            r.spec_reason() == reason@,
    {
        IndexError { message, reason }
    }

    pub fn message(&self) -> (r: &String)
        ensures
            r@ == self.spec_message(),
    {
        &self.message
    }

    pub fn reason(&self) -> (r: &String)
        ensures
            r@ == self.spec_reason(),
    {
        &self.reason
    }

    /// A one-line rendering of the error, led by its message.
    pub fn describe(&self) -> (r: String)
        ensures
            r@ == "Message: "@ + self.spec_message(),
    {
        let mut s = String::from_str("Message: ");
        s.append(self.message.as_str());
        s
    }
}

} // verus!

verus! {

#[verifier::external_type_specification]
#[verifier::external_body]
pub struct ExIoError(std::io::Error);

/// Carries an input/output failure, keeping its rendering as the reason.
impl From<std::io::Error> for IndexError {
    fn from(error: std::io::Error) -> (r: Self) {
        IndexError::new(String::from_str("Unable to create index dir"), error.to_string())
    }
}

impl vstd::std_specs::convert::FromSpecImpl<std::io::Error> for IndexError {
    open spec fn obeys_from_spec() -> bool {
        false
    }

    open spec fn from_spec(v: std::io::Error) -> Self {
        arbitrary()
    }
}

/// Carries a storage engine failure, keeping its rendering as the reason.
impl From<tantivy::TantivyError> for IndexError {
    fn from(error: tantivy::TantivyError) -> (r: Self) {
        IndexError::new(String::from_str("Unable to open Index"), error.to_string())
    }
}

impl vstd::std_specs::convert::FromSpecImpl<tantivy::TantivyError> for IndexError {
    open spec fn obeys_from_spec() -> bool {
        false
    }

    open spec fn from_spec(v: tantivy::TantivyError) -> Self {
        arbitrary()
    }
}

} // verus!
