use vstd::prelude::*;
use crate::der::MalformedEncoding;

verus! {

/// Why a command failed.
#[derive(Clone, Copy, Debug, PartialEq, Eq, Structural)]
pub enum InspectError {
    /// The input names no file and no host, and nothing was piped in.
    UnresolvableInput,
    /// The host could not be found or reached.
    ConnectionError,
    /// The host was reached but presented no certificate.
    TlsHandshakeError,
    /// The host did not answer in time.
    Timeout,
    /// The certificate bytes are not a well-formed encoding.
    MalformedEncoding(MalformedEncoding),
}

} // verus!
