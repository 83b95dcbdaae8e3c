//! The error of a call of the line protocol.

use vstd::prelude::*;
use vstd::string::*;

verus! {

pub ghost enum RpcErrorModel {
    SerializationFailed(Seq<char>),
    IoError(Seq<char>),
    Custom(Seq<char>),
}

/// Why a call failed, with a message for the caller.
#[derive(Debug, Clone, PartialEq, Eq)]
pub enum RpcError {
    SerializationFailed(String),
    IoError(String),
    Custom(String),
}

impl View for RpcError {
    type V = RpcErrorModel;

    open spec fn view(&self) -> RpcErrorModel {
        match self {
            RpcError::SerializationFailed(message) => RpcErrorModel::SerializationFailed(message@),
            RpcError::IoError(message) => RpcErrorModel::IoError(message@),
            RpcError::Custom(message) => RpcErrorModel::Custom(message@),
        }
    }
}

/// The sentence that describes an error.
pub open spec fn error_message(error: RpcErrorModel) -> Seq<char> {
    match error {
        RpcErrorModel::SerializationFailed(message) => "Serialization failed: "@ + message,
        RpcErrorModel::IoError(message) => "IO failed: "@ + message,
        RpcErrorModel::Custom(message) => message,
    }
}

impl RpcError {
    /// The error as a sentence for the user.
    pub fn to_string(&self) -> (message: String)
        ensures
            message@ == error_message(self@),
    {
        match self {
            RpcError::SerializationFailed(text) => {
                let mut message = String::from_str("Serialization failed: ");
                message.append(text.as_str());
                message
            },
            RpcError::IoError(text) => {
                let mut message = String::from_str("IO failed: ");
                message.append(text.as_str());
                message
            },
            RpcError::Custom(text) => text.clone(),
        }
    }

    /// A copy of the error.
    pub fn duplicate(&self) -> (copy: Self)
        ensures
            copy@ == self@,
    {
        match self {
            RpcError::SerializationFailed(text) => RpcError::SerializationFailed(text.clone()),
            RpcError::IoError(text) => RpcError::IoError(text.clone()),
            RpcError::Custom(text) => RpcError::Custom(text.clone()),
        }
    }
}

} // verus!
