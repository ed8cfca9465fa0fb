//! The kinds of failure the server reports, and their texts.
use vstd::prelude::*;
use vstd::string::*;

verus! {

/// A kind of failure of the server.
pub enum ErrorsData {
    ServerConnectionError,
    ClientConnectionError,
    StreamUnwrapError,
    DataConnectionError,
}

/// The text that describes a kind of failure.
pub open spec fn error_text(e: ErrorsData) -> Seq<char> {
    match e {
        ErrorsData::ServerConnectionError => "Error while connecting to server"@,
        ErrorsData::ClientConnectionError => "Error while handling client connection"@,
        ErrorsData::StreamUnwrapError => "Error while unwrapping stream"@,
        ErrorsData::DataConnectionError => "Error while opening Data chanel"@,
    }
}

impl ErrorsData {
    /// The text that describes this kind of failure.
    pub fn message(&self) -> (r: String)
        ensures
            r@ == error_text(*self),
    {
        match self {
            ErrorsData::ServerConnectionError => String::from_str("Error while connecting to server"),
            ErrorsData::ClientConnectionError => String::from_str(
                "Error while handling client connection",
            ),
            ErrorsData::StreamUnwrapError => String::from_str("Error while unwrapping stream"),
            ErrorsData::DataConnectionError => String::from_str("Error while opening Data chanel"),
        }
    }
}

} // verus!
