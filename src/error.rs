//! Errors of the frame layer and of the connection.
use vstd::prelude::*;

verus! {

#[verifier::external_type_specification]
#[verifier::external_body]
pub struct ExSerdeError(amqp_serde::Error);

/// Relies on amqp_serde's `Display` for its `Error`: the text of the error.
#[verifier::external_body]
fn serde_error_text(err: &amqp_serde::Error) -> String {
    err.to_string()
}

/// An error of the frame layer.
#[derive(Debug)]
pub enum FrameError {
    Corrupted,
    Inner(String),
}

impl FrameError {
    /// A decoding failure of the method codec, kept as its text.
    pub fn from_serde(err: amqp_serde::Error) -> (r: FrameError)
        ensures
            r is Inner,
    {
        FrameError::Inner(serde_error_text(&err))
    }

    /// What `Corrupted` reads as; `None` for `Inner`, whose text is its own.
    pub fn fixed_text(&self) -> (r: Option<&'static str>)
        ensures
            (self is Corrupted) == (r == Some("corrupted frame")),
            (self is Inner) == r.is_none(),
    {
        match self {
            FrameError::Corrupted => Some("corrupted frame"),
            FrameError::Inner(_) => None,
        }
    }
}

/// Why an operation of the connection failed.
#[derive(Debug)]
pub enum ConnectionError {
    NetworkIoError(String),
    InternalChannelError(String),
    SerdeError(String),
    FramingError(String),
    /// The server's reply is not the one the request expects, or the channel
    /// is closing.
    ChannelUseError(String),
    CloseCallbackError,
    Interrupted,
}

impl ConnectionError {
    pub fn from_serde(err: amqp_serde::Error) -> (r: ConnectionError)
        ensures
            r is SerdeError,
    {
        ConnectionError::SerdeError(serde_error_text(&err))
    }

    pub fn from_frame(err: FrameError) -> (r: ConnectionError)
        ensures
            r matches ConnectionError::FramingError(msg) && (err is Inner ==> msg == err->Inner_0) && (
            err is Corrupted ==> msg@ == "corrupted frame"@),
    {
        match err {
            FrameError::Corrupted => ConnectionError::FramingError(String::from_str("corrupted frame")),
            FrameError::Inner(msg) => ConnectionError::FramingError(msg),
        }
    }

    /// The words that open the error's text; what follows them, if
    /// anything, is the message it carries.
    pub fn kind_text(&self) -> (r: &'static str)
        ensures
            r == (match self {
                ConnectionError::NetworkIoError(_) => "network io error",
                ConnectionError::InternalChannelError(_) => "internal communication error",
                ConnectionError::SerdeError(_) => "serde error",
                ConnectionError::FramingError(_) => "framing error",
                ConnectionError::ChannelUseError(_) => "channel use error",
                ConnectionError::CloseCallbackError => "peer shutdown",
                ConnectionError::Interrupted => "connection interrupted",
            }),
    {
        match self {
            ConnectionError::NetworkIoError(_) => "network io error",
            ConnectionError::InternalChannelError(_) => "internal communication error",
            ConnectionError::SerdeError(_) => "serde error",
            ConnectionError::FramingError(_) => "framing error",
            ConnectionError::ChannelUseError(_) => "channel use error",
            ConnectionError::CloseCallbackError => "peer shutdown",
            ConnectionError::Interrupted => "connection interrupted",
        }
    }

    /// The message that the error carries, if any.
    pub fn detail(&self) -> (r: Option<&String>)
        ensures
            r == (match self {
                ConnectionError::NetworkIoError(m) => Some(m),
                ConnectionError::InternalChannelError(m) => Some(m),
                ConnectionError::SerdeError(m) => Some(m),
                ConnectionError::FramingError(m) => Some(m),
                ConnectionError::ChannelUseError(m) => Some(m),
                ConnectionError::CloseCallbackError => None::<&String>,
                ConnectionError::Interrupted => None::<&String>,
            }),
    {
        match self {
            ConnectionError::NetworkIoError(m) => Some(m),
            ConnectionError::InternalChannelError(m) => Some(m),
            ConnectionError::SerdeError(m) => Some(m),
            ConnectionError::FramingError(m) => Some(m),
            ConnectionError::ChannelUseError(m) => Some(m),
            ConnectionError::CloseCallbackError => None,
            ConnectionError::Interrupted => None,
        }
    }
}

} // verus!
