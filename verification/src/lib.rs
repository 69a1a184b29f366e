//! Verified core of a virtual-host fuzzer: argument resolution, target URL
//! normalisation, wordlist parsing, request headers and probe bookkeeping.

pub mod constants;
pub mod fuzzer;
pub mod parsers;
pub mod probe;
pub mod progress;
pub mod requester;
pub mod text;
