//! Decoding, inspection and comparison of X.509 certificates.
//!
//! The library works on bytes that its caller has obtained: it decodes them
//! into a [`cert::ParsedCertificate`], renders a certificate as text, lists
//! its alternative names and its validity window, and compares two
//! certificates field by field. Every function is verified against the
//! specification functions that its contract names.

/// Helpers on byte strings.
pub mod bytes;
/// Numbers, values and object identifiers as text.
pub mod text;
/// Elements of the encoding: headers, integers, identifiers, bit strings.
pub mod der;
/// Instants and the two forms of time.
pub mod time;
/// The decoded certificate and its parts.
pub mod cert;
/// Distinguished names.
pub mod name;
/// Extensions and alternative names.
pub mod ext;
/// The certificate decoder.
pub mod decode;
/// The certificate comparator.
pub mod compare;
/// A certificate and its parts as text.
pub mod dump;
/// Errors and verdicts as text.
pub mod report;
/// The errors that a command can fail with.
pub mod error;
/// From an input to certificate bytes.
pub mod resolve;
/// The commands: inspect, sans, validity, compare.
pub mod command;
