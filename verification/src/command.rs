use vstd::prelude::*;
use crate::bytes::append_label;
use crate::cert::{CertificateView, RawCertificateBytes};
use crate::compare::{
    compare_decoded, lemma_compare_decoded_symmetric, spec_compare_decoded, spec_swapped_verdict,
    ComparisonResult, ComparisonResultView,
};
use crate::decode::{decode, spec_decode};
use crate::der::MalformedEncoding;
use crate::error::InspectError;
use crate::dump::{
    full_text_dump, spec_full_text_dump, spec_numbered_sans, spec_validity_text,
    write_numbered_sans, write_validity,
};
use crate::report::{comparison_text, spec_comparison_text, spec_malformed_text, write_malformed};
use crate::text::text;

verus! {

/// What a command hands to its caller: the text for the standard output, the
/// text for the standard error, and the exit code.
#[derive(Clone, Debug)]
pub struct CommandOutput {
    pub stdout: Vec<u8>,
    pub stderr: Vec<u8>,
    pub exit_code: u8,
}

/// The text that the command `inspect` prints for the bytes `s`, or the error
/// that it fails with.
pub open spec fn spec_inspect_output(s: Seq<u8>) -> Result<Seq<u8>, InspectError> {
    match spec_decode(s, false) {
        Ok(c) => Ok(spec_full_text_dump(c)),
        Err(e) => Err(InspectError::MalformedEncoding(e)),
    }
}

/// The text that the command `sans` prints for the bytes `s`, or the error
/// that it fails with.
pub open spec fn spec_sans_output(s: Seq<u8>) -> Result<Seq<u8>, InspectError> {
    match spec_decode(s, false) {
        Ok(c) => Ok(spec_numbered_sans(c.sans)),
        Err(e) => Err(InspectError::MalformedEncoding(e)),
    }
}

/// The text that the command `validity` prints for the bytes `s`, or the
/// error that it fails with.
pub open spec fn spec_validity_output(s: Seq<u8>) -> Result<Seq<u8>, InspectError> {
    match spec_decode(s, false) {
        Ok(c) => Ok(spec_validity_text(c.validity)),
        Err(e) => Err(InspectError::MalformedEncoding(e)),
    }
}

/// The verdict of the command `compare` on the bytes `a` and `b`.
pub open spec fn spec_compare_inputs(a: Seq<u8>, b: Seq<u8>) -> ComparisonResultView {
    spec_compare_decoded(spec_decode(a, false), spec_decode(b, false))
}

/// The outcome `r` holds the text or the error that `expected` names.
pub open spec fn spec_outcome_is(
    r: Result<Vec<u8>, InspectError>,
    expected: Result<Seq<u8>, InspectError>,
) -> bool {
    match r {
        Ok(t) => expected == Ok::<Seq<u8>, InspectError>(t@),
        Err(e) => expected == Err::<Seq<u8>, InspectError>(e),
    }
}

/// Decodes a certificate and renders all of its fields as text.
pub fn inspect(raw: &RawCertificateBytes) -> (r: Result<Vec<u8>, InspectError>)
    ensures
        spec_outcome_is(r, spec_inspect_output(raw.bytes@)),
{
    match decode(raw, false) {
        Ok(c) => Ok(full_text_dump(&c)),
        Err(e) => Err(InspectError::MalformedEncoding(e)),
    }
}

/// Decodes a certificate and lists its alternative names, one per line,
/// numbered from 1 on; no line where it has none.
pub fn sans(raw: &RawCertificateBytes) -> (r: Result<Vec<u8>, InspectError>)
    ensures
        spec_outcome_is(r, spec_sans_output(raw.bytes@)),
{
    match decode(raw, false) {
        Ok(c) => {
            let mut out: Vec<u8> = Vec::new();
            write_numbered_sans(&mut out, &c.sans);
            assert(out@ =~= spec_numbered_sans(c@.sans));
            Ok(out)
        },
        Err(e) => Err(InspectError::MalformedEncoding(e)),
    }
}

/// Decodes a certificate and states its validity window in two lines.
pub fn validity(raw: &RawCertificateBytes) -> (r: Result<Vec<u8>, InspectError>)
    ensures
        spec_outcome_is(r, spec_validity_output(raw.bytes@)),
{
    match decode(raw, false) {
        Ok(c) => {
            let mut out: Vec<u8> = Vec::new();
            write_validity(&mut out, &c.validity);
            assert(out@ =~= spec_validity_text(c@.validity));
            Ok(out)
        },
        Err(e) => Err(InspectError::MalformedEncoding(e)),
    }
}

/// Decodes two certificates and compares them; where one cannot be decoded
/// the verdict names the side that failed.
pub fn compare_inputs(a: &RawCertificateBytes, b: &RawCertificateBytes) -> (r: ComparisonResult)
    ensures
        r@ == spec_compare_inputs(a.bytes@, b.bytes@),
{
    let x = decode(a, false);
    let y = decode(b, false);
    compare_decoded(&x, &y)
}

/// Decodes two certificates, compares them and renders the verdict as text.
pub fn compare_report(a: &RawCertificateBytes, b: &RawCertificateBytes) -> (out: Vec<u8>)
    ensures
        out@ == spec_comparison_text(spec_compare_inputs(a.bytes@, b.bytes@)),
{
    let r = compare_inputs(a, b);
    comparison_text(&r)
}

/// The one line that reports an error.
pub open spec fn spec_diagnostic(e: InspectError) -> Seq<u8> {
    match e {
        InspectError::UnresolvableInput => text("Error: input does not match any expected type\n"),
        InspectError::ConnectionError => text("Error: connection failed\n"),
        InspectError::TlsHandshakeError => text("Error: TLS handshake failed\n"),
        InspectError::Timeout => text("Error: timed out\n"),
        InspectError::MalformedEncoding(m) => text("Error: ") + spec_malformed_text(m) + text("\n"),
    }
}

/// Renders the one line that reports an error.
pub fn diagnostic(e: &InspectError) -> (out: Vec<u8>)
    ensures
        out@ == spec_diagnostic(*e),
{
    let mut out: Vec<u8> = Vec::new();
    match e {
        InspectError::UnresolvableInput => {
            append_label(&mut out, "Error: input does not match any expected type\n");
        },
        InspectError::ConnectionError => {
            append_label(&mut out, "Error: connection failed\n");
        },
        InspectError::TlsHandshakeError => {
            append_label(&mut out, "Error: TLS handshake failed\n");
        },
        InspectError::Timeout => {
            append_label(&mut out, "Error: timed out\n");
        },
        InspectError::MalformedEncoding(m) => {
            append_label(&mut out, "Error: ");
            write_malformed(&mut out, m);
            append_label(&mut out, "\n");
        },
    }
    assert(out@ =~= spec_diagnostic(*e));
    out
}

/// Turns the outcome of a command into what it prints and how it exits: on
/// success the text on the standard output and exit code 0; on failure
/// nothing on the standard output, one line on the standard error, and exit
/// code 1.
pub fn finish(outcome: Result<Vec<u8>, InspectError>) -> (r: CommandOutput)
    ensures
        match outcome {
            Ok(t) => r.stdout@ == t@ && r.stderr@.len() == 0 && r.exit_code == 0,
            Err(e) => r.stdout@.len() == 0 && r.stderr@ == spec_diagnostic(e) && r.exit_code == 1,
        },
{
    match outcome {
        Ok(t) => CommandOutput { stdout: t, stderr: Vec::new(), exit_code: 0 },
        Err(e) => CommandOutput { stdout: Vec::new(), stderr: diagnostic(&e), exit_code: 1 },
    }
}

/// The text of a certificate depends on its bytes alone: two decodings of
/// the same bytes give the same text.
pub proof fn lemma_dump_is_deterministic(
    s: Seq<u8>,
    strict: bool,
    first: CertificateView,
    second: CertificateView,
)
    requires
        spec_decode(s, strict) == Ok::<CertificateView, MalformedEncoding>(first),
        spec_decode(s, strict) == Ok::<CertificateView, MalformedEncoding>(second),
    ensures
        first == second,
        spec_full_text_dump(first) == spec_full_text_dump(second),
{
}

/// Two inputs that decode to the same certificate compare as identical,
/// however each of them is encoded.
pub proof fn lemma_same_certificate_any_encoding(a: Seq<u8>, b: Seq<u8>, c: CertificateView)
    requires
        spec_decode(a, false) == Ok::<CertificateView, MalformedEncoding>(c),
        spec_decode(b, false) == Ok::<CertificateView, MalformedEncoding>(c),
    ensures
        spec_compare_inputs(a, b) == ComparisonResultView::Identical,
{
}

/// Comparing two inputs in the other direction gives the same verdict seen
/// from the other side.
pub proof fn lemma_compare_inputs_symmetric(a: Seq<u8>, b: Seq<u8>)
    ensures
        spec_compare_inputs(b, a) == spec_swapped_verdict(spec_compare_inputs(a, b)),
{
    lemma_compare_decoded_symmetric(spec_decode(a, false), spec_decode(b, false));
}

} // verus!
