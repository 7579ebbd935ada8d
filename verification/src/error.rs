use vstd::prelude::*;

verus! {

/// The errors of the session engine.
#[derive(Clone, Debug, PartialEq)]
pub enum Error {
    ChannelClosed(&'static str),
    SignalingFailed(String),
    WebRTCError(String),
    ConnectionFailed(String),
    BadRTCDescriptor(String),
    EngineFailed(String),
    BadCommand(String),
    InvalidSceneObject(String),
    InvalidValue(String),
    InvalidMode(String),
}

impl Error {
    /// The text of the error, as its display shows it.
    pub fn to_string(&self) -> (r: String)
        ensures
            r@ == match self {
                Error::ChannelClosed(m) => "channel closed: "@ + m@,
                Error::SignalingFailed(m) => "failed to complete signaling due to error: "@ + m@,
                Error::WebRTCError(m) => "webrtc error occurred: "@ + m@,
                Error::ConnectionFailed(m) => "connection failed: "@ + m@,
                Error::BadRTCDescriptor(m) => "bad webrtc descriptor: "@ + m@,
                Error::EngineFailed(m) => "engine failed: "@ + m@,
                Error::BadCommand(m) => "bad command error: "@ + m@,
                Error::InvalidSceneObject(m) => "invalid scene object: "@ + m@,
                Error::InvalidValue(m) => "invalid property value: "@ + m@,
                Error::InvalidMode(m) => "invalid mode: "@ + m@,
            },
    {
        let (prefix, m): (&str, &str) = match self {
            Error::ChannelClosed(m) => ("channel closed: ", m),
            Error::SignalingFailed(m) => ("failed to complete signaling due to error: ", m.as_str()),
            Error::WebRTCError(m) => ("webrtc error occurred: ", m.as_str()),
            Error::ConnectionFailed(m) => ("connection failed: ", m.as_str()),
            Error::BadRTCDescriptor(m) => ("bad webrtc descriptor: ", m.as_str()),
            Error::EngineFailed(m) => ("engine failed: ", m.as_str()),
            Error::BadCommand(m) => ("bad command error: ", m.as_str()),
            Error::InvalidSceneObject(m) => ("invalid scene object: ", m.as_str()),
            Error::InvalidValue(m) => ("invalid property value: ", m.as_str()),
            Error::InvalidMode(m) => ("invalid mode: ", m.as_str()),
        };
        let mut s = prefix.to_owned();
        s.append(m);
        s
    }
}

/// Result of the engine's operations.
pub type Result<T> = std::result::Result<T, Error>;

} // verus!
