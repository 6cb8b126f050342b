use vstd::prelude::*;

verus! {

#[verifier::external_type_specification]
#[verifier::external_body]
pub struct ExDecodeError(base64::DecodeError);

/// The error kinds of the node runtime.
///
/// Errors raised by collaborators that live outside the library (transport,
/// file system, configuration loader, serializers) carry their message.
#[derive(Debug, PartialEq, Eq)]
pub enum SnekcloudError {
    Vented(String),
    IoError(String),
    Base64DecodeError(base64::DecodeError),
    TomlDeserializeError(String),
    TomlSerializeError(String),
    JsonError(String),
    InvalidKey,
    ConfigError(String),
    GlobPatternError(String),
}

pub type SnekcloudResult<T> = Result<T, SnekcloudError>;

impl SnekcloudError {
    /// A line that describes the error.
    pub fn message(&self) -> (r: String)
        ensures
            match self {
                SnekcloudError::Vented(m) => r@ == "Vented Error: "@ + m@,
                SnekcloudError::IoError(m) => r@ == "IO Error: "@ + m@,
                SnekcloudError::Base64DecodeError(_) => exists|t: Seq<char>|
                    r@ == "Base 64 Decode error: "@ + t,
                SnekcloudError::InvalidKey => r@ == "Invalid Key!"@,
                SnekcloudError::TomlDeserializeError(m) => r@ == "Toml Deserialization Error: "@
                    + m@,
                SnekcloudError::TomlSerializeError(m) => r@ == "Toml Serialization Error: "@ + m@,
                SnekcloudError::ConfigError(m) => r@ == "Config Error: "@ + m@,
                SnekcloudError::GlobPatternError(m) => r@ == "Glob Error "@ + m@,
                SnekcloudError::JsonError(m) => r@ == "JSON Error: "@ + m@,
            },
    {
        match self {
            SnekcloudError::Vented(m) => String::from_str("Vented Error: ").concat(m.as_str()),
            SnekcloudError::IoError(m) => String::from_str("IO Error: ").concat(m.as_str()),
            SnekcloudError::Base64DecodeError(e) => {
                let detail = e.to_string();
                let r = String::from_str("Base 64 Decode error: ").concat(detail.as_str());
                assert(r@ == "Base 64 Decode error: "@ + detail@);
                r
            },
            SnekcloudError::InvalidKey => String::from_str("Invalid Key!"),
            SnekcloudError::TomlDeserializeError(m) => String::from_str(
                "Toml Deserialization Error: ",
            ).concat(m.as_str()),
            SnekcloudError::TomlSerializeError(m) => String::from_str(
                "Toml Serialization Error: ",
            ).concat(m.as_str()),
            SnekcloudError::ConfigError(m) => String::from_str("Config Error: ").concat(m.as_str()),
            SnekcloudError::GlobPatternError(m) => String::from_str("Glob Error ").concat(m.as_str()),
            SnekcloudError::JsonError(m) => String::from_str("JSON Error: ").concat(m.as_str()),
        }
    }
}

} // verus!
