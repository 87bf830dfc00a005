use vstd::prelude::*;
use vstd::string::StringSliceAdditionalSpecFns;
use crate::cert::{Origin, RawCertificateBytes};
use crate::error::InspectError;

verus! {

/// What an input names.
#[derive(Clone, Debug)]
pub enum InputType {
    /// A host to ask for its certificate.
    Domain(String),
    /// A file that holds a certificate.
    File(String),
    /// Certificate bytes that were piped in.
    Stdin(Vec<u8>),
}

/// What an input type holds.
pub ghost enum InputTypeView {
    Domain(Seq<char>),
    File(Seq<char>),
    Stdin(Seq<u8>),
}

impl View for InputType {
    type V = InputTypeView;

    open spec fn view(&self) -> InputTypeView {
        match self {
            InputType::Domain(d) => InputTypeView::Domain(d@),
            InputType::File(f) => InputTypeView::File(f@),
            InputType::Stdin(b) => InputTypeView::Stdin(b@),
        }
    }
}

/// What is known of an input before the standard input is touched.
#[derive(Clone, Debug)]
pub enum Resolution {
    /// The input names a file or a host.
    Resolved(InputType),
    /// The input names neither: the standard input is to be read.
    NeedsStdin,
}

/// What a resolution holds.
pub ghost enum ResolutionView {
    Resolved(InputTypeView),
    NeedsStdin,
}

impl View for Resolution {
    type V = ResolutionView;

    open spec fn view(&self) -> ResolutionView {
        match self {
            Resolution::Resolved(t) => ResolutionView::Resolved(t@),
            Resolution::NeedsStdin => ResolutionView::NeedsStdin,
        }
    }
}

/// The input has the shape of a host name: a full stop in it and no slash.
pub open spec fn spec_domain_shaped(input: &str) -> bool {
    input.spec_bytes().contains(46u8) && !input.spec_bytes().contains(47u8)
}

/// What the input `input` names, where `is_file` says whether a regular file
/// of that name exists: a file wins over a host name, and a host name over
/// the standard input.
pub open spec fn spec_input_type(input: &str, is_file: bool) -> ResolutionView {
    if is_file {
        ResolutionView::Resolved(InputTypeView::File(input@))
    } else if spec_domain_shaped(input) {
        ResolutionView::Resolved(InputTypeView::Domain(input@))
    } else {
        ResolutionView::NeedsStdin
    }
}

/// Tells whether the byte `b` occurs in `s`.
pub fn contains_byte(s: &[u8], b: u8) -> (r: bool)
    ensures
        r == s@.contains(b),
{
    let mut i: usize = 0;
    while i < s.len()
        invariant
            i <= s@.len(),
            forall|k: int| 0 <= k < i ==> s@[k] != b,
        decreases s@.len() - i,
    {
        if s[i] == b {
            return true;
        }
        i += 1;
    }
    false
}

/// Classifies an input, given whether a regular file of that name exists. A
/// file whose name looks like a host name is a file.
pub fn input_type(input: &str, is_file: bool) -> (r: Resolution)
    ensures
        r@ == spec_input_type(input, is_file),
{
    if is_file {
        Resolution::Resolved(InputType::File(input.to_owned()))
    } else if contains_byte(input.as_bytes(), 46) && !contains_byte(input.as_bytes(), 47) {
        Resolution::Resolved(InputType::Domain(input.to_owned()))
    } else {
        Resolution::NeedsStdin
    }
}

/// What the bytes read from the standard input resolve to: an input of their
/// own where there are any; where there are none the input cannot be
/// resolved.
pub fn stdin_input(bytes: Vec<u8>) -> (r: Result<InputType, InspectError>)
    ensures
        bytes@.len() == 0 ==> r == Err::<InputType, InspectError>(InspectError::UnresolvableInput),
        bytes@.len() > 0 ==> r is Ok && r->Ok_0@ == InputTypeView::Stdin(bytes@),
{
    if bytes.len() == 0 {
        Err(InspectError::UnresolvableInput)
    } else {
        Ok(InputType::Stdin(bytes))
    }
}

/// How an attempt to fetch a host's certificate ended.
#[derive(Clone, Debug)]
pub enum FetchOutcome {
    /// The host could not be found, or refused the connection.
    Unreachable,
    /// The host did not answer within the time allowed.
    TimedOut,
    /// The connection was made, but the handshake yielded no certificate.
    NoCertificate,
    /// The host presented a certificate, given here as encoded.
    Presented(Vec<u8>),
}

/// The certificate bytes that a fetch yielded, or the error that says at
/// which stage it failed. Whatever the host presented is taken as it is: it
/// is not validated.
pub fn fetched(outcome: FetchOutcome) -> (r: Result<RawCertificateBytes, InspectError>)
    ensures
        match outcome {
            FetchOutcome::Unreachable => r == Err::<RawCertificateBytes, InspectError>(
                InspectError::ConnectionError,
            ),
            FetchOutcome::TimedOut => r == Err::<RawCertificateBytes, InspectError>(
                InspectError::Timeout,
            ),
            FetchOutcome::NoCertificate => r == Err::<RawCertificateBytes, InspectError>(
                InspectError::TlsHandshakeError,
            ),
            FetchOutcome::Presented(bytes) => r is Ok && r->Ok_0.origin == Origin::FromNetwork
                && r->Ok_0.bytes@ == bytes@,
        },
{
    match outcome {
        FetchOutcome::Unreachable => Err(InspectError::ConnectionError),
        FetchOutcome::TimedOut => Err(InspectError::Timeout),
        FetchOutcome::NoCertificate => Err(InspectError::TlsHandshakeError),
        FetchOutcome::Presented(bytes) => Ok(
            RawCertificateBytes { origin: Origin::FromNetwork, bytes },
        ),
    }
}

/// Tags certificate bytes with their origin.
pub fn raw_certificate(origin: Origin, bytes: Vec<u8>) -> (r: RawCertificateBytes)
    ensures
        r.origin == origin,
        r.bytes@ == bytes@,
{
    RawCertificateBytes { origin, bytes }
}

} // verus!
