//! The errors the service answers with, and their text.

use vstd::prelude::*;
use crate::text::{decimal, spec_decimal};

verus! {

/// `std::io::Error`, carried opaquely inside `BumAhhError::IO`.
#[verifier::external_type_specification]
#[verifier::external_body]
pub struct ExIoError(std::io::Error);

/// Why a request failed.
#[derive(Debug)]
pub enum BumAhhError {
    IO(std::io::Error),
    Internal(String),
    InvalidRequest(String),
    FileTooBig(usize),
    TooManyFiles(usize),
    FileNotFound,
    OutOfStorage,
    Unknown,
}

/// The text a client is sent for each error.
pub open spec fn spec_message(e: BumAhhError) -> Seq<char> {
    match e {
        BumAhhError::IO(_) => "I/O Error\n"@,
        BumAhhError::Internal(_) => "Internal Error\n"@,
        BumAhhError::InvalidRequest(m) => "Invalid Request: "@ + m@ + "\n"@,
        BumAhhError::FileTooBig(n) => "File too big, max file size in bytes: "@ + spec_decimal(n as nat)
            + " bytes\n"@,
        BumAhhError::TooManyFiles(n) => "Too many files, allowed a maximum of: "@ + spec_decimal(
            n as nat,
        ) + "\n"@,
        BumAhhError::FileNotFound => "File not found\n"@,
        BumAhhError::OutOfStorage => "Storage bucket has reached its limit\n"@,
        BumAhhError::Unknown => "unknown data store error\n"@,
    }
}

impl BumAhhError {
    /// The text a client is sent for this error (its display form).
    pub fn message(&self) -> (s: String)
        ensures
            s@ == spec_message(*self),
    {
        match self {
            BumAhhError::IO(_) => String::from_str("I/O Error\n"),
            BumAhhError::Internal(_) => String::from_str("Internal Error\n"),
            BumAhhError::InvalidRequest(m) => {
                let mut s = String::from_str("Invalid Request: ");
                s.append(m.as_str());
                s.append("\n");
                s
            },
            BumAhhError::FileTooBig(n) => {
                let mut s = String::from_str("File too big, max file size in bytes: ");
                let digits = decimal(*n as u64);
                s.append(digits.as_str());
                s.append(" bytes\n");
                s
            },
            BumAhhError::TooManyFiles(n) => {
                let mut s = String::from_str("Too many files, allowed a maximum of: ");
                let digits = decimal(*n as u64);
                s.append(digits.as_str());
                s.append("\n");
                s
            },
            BumAhhError::FileNotFound => String::from_str("File not found\n"),
            BumAhhError::OutOfStorage => String::from_str("Storage bucket has reached its limit\n"),
            BumAhhError::Unknown => String::from_str("unknown data store error\n"),
        }
    }
}

} // verus!
