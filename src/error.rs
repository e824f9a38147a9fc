//! Errors of message delivery.
use reqwest::Error as TransportError;
use vstd::prelude::*;

verus! {

#[verifier::external_type_specification]
#[verifier::external_body]
pub struct ExTransportError(TransportError);

/// What can go wrong while configuring, formatting or delivering a message.
#[derive(Debug)]
pub enum Error {
    /// Missing or invalid settings.
    Configuration(String),
    /// The transport failed to reach the endpoint.
    Http(TransportError),
    /// The endpoint rejected the request; the text is its description.
    Api(String),
    /// The message could not be formatted into something sendable.
    Formatting(String),
    /// Anything else.
    Other(String),
}

impl Error {
    pub fn configuration(message: &str) -> (r: Error)
        ensures
            r matches Error::Configuration(m) && m@ == message@,
    {
        Error::Configuration(String::from_str(message))
    }

    pub fn api(message: &str) -> (r: Error)
        ensures
            r matches Error::Api(m) && m@ == message@,
    {
        Error::Api(String::from_str(message))
    }

    pub fn formatting(message: &str) -> (r: Error)
        ensures
            r matches Error::Formatting(m) && m@ == message@,
    {
        Error::Formatting(String::from_str(message))
    }

    pub fn other(message: &str) -> (r: Error)
        ensures
            r matches Error::Other(m) && m@ == message@,
    {
        Error::Other(String::from_str(message))
    }
}

} // verus!
