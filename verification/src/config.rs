//! The configuration of the two outside services: the database and the
//! object store.

use vstd::prelude::*;

use crate::error::{Error, UsageError};

verus! {

/// How to reach the database.
#[derive(Debug, PartialEq, Eq)]
pub struct SqlConfig {
    pub host: String,
}

/// How to reach the object store.
#[derive(Debug, PartialEq, Eq)]
pub struct S3Config {
    pub key: String,
    pub secret: String,
    pub bucket: String,
    pub region: String,
}

/// The configuration of a run or of a packaging.
#[derive(Debug, PartialEq, Eq)]
pub struct Config {
    pub sql: SqlConfig,
    pub s3: S3Config,
}

/// The file to read the configuration from. Running and packaging need one:
/// it is an error if none was given.
pub fn config_file(given: Option<String>) -> (out: Result<String, Error>)
    ensures
        out == match given {
            Some(file) => Ok::<String, Error>(file),
            None => Err(Error::Usage(UsageError::MissingConfig)),
        },
{
    match given {
        Some(file) => Ok(file),
        None => Err(Error::Usage(UsageError::MissingConfig)),
    }
}

} // verus!
