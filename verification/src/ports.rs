//! The ports through which the service reaches its surroundings: the
//! environment, the clock, files and the network. Their users implement
//! them.

use crate::text::joined;
use vstd::prelude::*;

verus! {

/// What can go wrong with the environment.
#[derive(Debug, Clone)]
pub enum EnvError {
    /// The variable of this name is not set.
    NotFound(String),
    /// The variable of this name holds a value that cannot be used, for
    /// this reason.
    InvalidValue(String, String),
}

impl EnvError {
    /// The error in words.
    pub open spec fn text(self) -> Seq<char> {
        match self {
            EnvError::NotFound(name) => "Environment variable not found: "@ + name@,
            EnvError::InvalidValue(name, why) => "Invalid value for environment variable "@ + name@
                + ": "@ + why@,
        }
    }

    /// The error in words.
    pub fn message(&self) -> (s: String)
        ensures
            s@ == self.text(),
    {
        match self {
            EnvError::NotFound(name) => joined("Environment variable not found: ", name.as_str()),
            EnvError::InvalidValue(name, why) => {
                let a = joined("Invalid value for environment variable ", name.as_str());
                let b = joined(a.as_str(), ": ");
                let c = joined(b.as_str(), why.as_str());
                assert(c@ =~= self.text());
                c
            },
        }
    }
}

/// What can go wrong with files and the network.
#[derive(Debug, Clone)]
pub enum IoError {
    NotFound(String),
    PermissionDenied(String),
    OperationFailed(String),
}

impl IoError {
    /// The error in words.
    pub open spec fn text(self) -> Seq<char> {
        match self {
            IoError::NotFound(what) => "File not found: "@ + what@,
            IoError::PermissionDenied(what) => "Permission denied: "@ + what@,
            IoError::OperationFailed(what) => "IO operation failed: "@ + what@,
        }
    }

    /// The error in words.
    pub fn message(&self) -> (s: String)
        ensures
            s@ == self.text(),
    {
        match self {
            IoError::NotFound(what) => joined("File not found: ", what.as_str()),
            IoError::PermissionDenied(what) => joined("Permission denied: ", what.as_str()),
            IoError::OperationFailed(what) => joined("IO operation failed: ", what.as_str()),
        }
    }
}

/// The environment of the process.
pub trait EnvironmentPort {
    fn get_var(&self, key: &str) -> Result<String, EnvError>;

    fn set_var(&self, key: &str, value: &str);

    fn remove_var(&self, key: &str);

    fn current_dir(&self) -> Result<String, EnvError>;

    fn args(&self) -> Vec<String>;
}

/// The clock.
pub trait TimePort {
    /// Milliseconds since the beginning of 1970.
    fn now_millis(&self) -> u64;

    /// Seconds since the beginning of 1970.
    fn now_secs(&self) -> u64;
}

/// Files.
pub trait FileSystemPort {
    fn read(&self, path: &str) -> Result<Vec<u8>, IoError>;

    fn write(&self, path: &str, data: &[u8]) -> Result<(), IoError>;

    fn path_exists(&self, path: &str) -> Result<bool, IoError>;

    fn delete(&self, path: &str) -> Result<(), IoError>;
}

/// The network.
pub trait NetworkPort {
    fn http_get(&self, url: &str) -> Result<Vec<u8>, IoError>;

    fn http_post(&self, url: &str, body: &[u8]) -> Result<Vec<u8>, IoError>;
}

} // verus!
