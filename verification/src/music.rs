//! What the music service sends: tracks by path.

use vstd::prelude::*;
use vstd::string::*;

verus! {

/// What goes with every call of the music service: nothing.
#[derive(Debug, Clone, PartialEq, Eq)]
pub struct Metadata {}

/// A piece of the data of a track.
#[derive(Debug, Clone, PartialEq, Eq)]
pub struct TrackData {
    pub data: String,
}

/// The path of a track.
#[derive(Debug, Clone, PartialEq, Eq)]
pub struct TrackPath {
    pub path: String,
}

/// A call that the music service answers.
#[derive(Debug, Clone, Copy, PartialEq, Eq, Structural)]
pub enum Call {
    /// The data of a track is streamed.
    StreamTrack,
}

pub ghost enum ClientErrorModel {
    UnknownMethod(Seq<char>),
}

/// Why the service stops serving a client.
#[derive(Debug, Clone, PartialEq, Eq)]
pub enum ClientError {
    /// The client called a method that the service does not have.
    UnknownMethod(String),
}

impl View for ClientError {
    type V = ClientErrorModel;

    open spec fn view(&self) -> ClientErrorModel {
        match self {
            ClientError::UnknownMethod(name) => ClientErrorModel::UnknownMethod(name@),
        }
    }
}

/// Finds the call that a client asks for by the name of its method.
pub fn handle_client(method_name: &str) -> (call: Result<Call, ClientError>)
    ensures
        match call {
            Ok(found) => method_name@ == "stream_track"@ && found is StreamTrack,
            Err(error) => method_name@ != "stream_track"@ && error@
                == ClientErrorModel::UnknownMethod(method_name@),
        },
{
    if crate::text::str_eq(method_name, "stream_track") {
        Ok(Call::StreamTrack)
    } else {
        Err(ClientError::UnknownMethod(method_name.to_owned()))
    }
}

} // verus!
