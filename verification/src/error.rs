//! The failures of loading a configuration and resolving its secret.

use vstd::prelude::*;
use vstd::string::StringExecFns;

verus! {

/// Why a configuration could not be loaded or its secret not resolved.
///
/// Variants that carry a `String` alone hold the text of an underlying
/// cause, which is kept for the reader and not interpreted.
#[derive(Debug, PartialEq, Eq)]
pub enum Error {
    /// The base document could not be read.
    ConfigNotFound { path: String },
    /// A document is malformed, or the merged tree does not fit the schema.
    ConfigParseError(String),
    /// An input or output operation failed outside any named file.
    IO(String),
    /// Neither an inline secret nor a secret path is configured.
    MissingSecret,
    AssetNotFound { asset: String },
    /// A file could not be read.
    IOError { source: String, path: String },
    /// A duration is neither a decimal string nor a count of seconds.
    InvalidDuration(String),
    /// The requested extra key is absent.
    NotPresent { key: String },
    /// The decryption engine failed.
    GpgError(String),
    /// The per-user configuration directory could not be determined.
    XdgError(String),
    /// A named profile has no file in the configuration directory.
    ProfileConfigNotFound(String),
}

/// What a failure says, without the text of underlying causes.
pub enum Failure {
    ConfigNotFound { path: Seq<char> },
    ConfigParseError,
    IO,
    MissingSecret,
    AssetNotFound { asset: Seq<char> },
    IOError { path: Seq<char> },
    InvalidDuration(Seq<char>),
    NotPresent { key: Seq<char> },
    GpgError,
    XdgError,
    ProfileConfigNotFound(Seq<char>),
}

impl View for Error {
    type V = Failure;

    open spec fn view(&self) -> Failure {
        match self {
            Error::ConfigNotFound { path } => Failure::ConfigNotFound { path: path@ },
            Error::ConfigParseError(_) => Failure::ConfigParseError,
            Error::IO(_) => Failure::IO,
            Error::MissingSecret => Failure::MissingSecret,
            Error::AssetNotFound { asset } => Failure::AssetNotFound { asset: asset@ },
            Error::IOError { source, path } => Failure::IOError { path: path@ },
            Error::InvalidDuration(value) => Failure::InvalidDuration(value@),
            Error::NotPresent { key } => Failure::NotPresent { key: key@ },
            Error::GpgError(_) => Failure::GpgError,
            Error::XdgError(_) => Failure::XdgError,
            Error::ProfileConfigNotFound(file) => Failure::ProfileConfigNotFound(file@),
        }
    }
}

impl Error {
    /// The text of the failure, as shown to a user.
    pub open spec fn message_text(self) -> Seq<char> {
        match self {
            Error::ConfigNotFound { path } => "config not found "@ + path@,
            Error::ConfigParseError(cause) => cause@,
            Error::IO(cause) => cause@,
            Error::MissingSecret =>
                "missing secret key. Check your configuration file or set env FIREBLOCKS_SECRET"@,
            Error::AssetNotFound { asset } => asset@ + " not found"@,
            Error::IOError { source, path } => "IO error for file "@ + path@ + ": "@ + source@,
            Error::InvalidDuration(value) => "Invalid Duration "@ + value@,
            Error::NotPresent { key } => "Key '"@ + key@ + "' not present in configuration"@,
            Error::GpgError(cause) => cause@,
            Error::XdgError(cause) => cause@,
            Error::ProfileConfigNotFound(file) => "profile config not found "@ + file@,
        }
    }

    /// The text of the failure, as shown to a user.
    pub fn message(&self) -> (r: String)
        ensures
            r@ == self.message_text(),
    {
        match self {
            Error::ConfigNotFound { path } => String::from_str("config not found ").concat(
                path.as_str(),
            ),
            Error::ConfigParseError(cause) => cause.clone(),
            Error::IO(cause) => cause.clone(),
            Error::MissingSecret => String::from_str(
                "missing secret key. Check your configuration file or set env FIREBLOCKS_SECRET",
            ),
            Error::AssetNotFound { asset } => asset.clone().concat(" not found"),
            Error::IOError { source, path } => String::from_str("IO error for file ").concat(
                path.as_str(),
            ).concat(": ").concat(source.as_str()),
            Error::InvalidDuration(value) => String::from_str("Invalid Duration ").concat(
                value.as_str(),
            ),
            Error::NotPresent { key } => String::from_str("Key '").concat(key.as_str()).concat(
                "' not present in configuration",
            ),
            Error::GpgError(cause) => cause.clone(),
            Error::XdgError(cause) => cause.clone(),
            Error::ProfileConfigNotFound(file) => String::from_str(
                "profile config not found ",
            ).concat(file.as_str()),
        }
    }
}

/// The content of a result: that of the value, or that of the failure.
pub open spec fn outcome<T: View>(r: Result<T, Error>) -> Result<T::V, Failure> {
    match r {
        Ok(value) => Ok(value@),
        Err(e) => Err(e@),
    }
}

} // verus!
