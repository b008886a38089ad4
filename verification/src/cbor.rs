//! The CBOR codec. The bytes are produced and read by `serde_cbor`; Verus
//! takes the contracts in this file on trust.

use vstd::prelude::*;

verus! {

/// One resource on the wire: its id, its definition, the number of its
/// status, and the time of its last observation.
pub type Row = (u64, String, u8, u64);

/// One message on the wire: its tag, one argument, and any number of rows.
/// Commands and responses alike travel in this shape, as a CBOR array of
/// three items.
pub type Envelope = (u8, u64, Vec<(u64, String, u8, u64)>);

/// What a [`Row`] is, as a mathematical value.
pub type RowView = (u64, Seq<char>, u8, u64);

/// What an [`Envelope`] is, as a mathematical value.
pub type EnvelopeView = (u8, u64, Seq<(u64, Seq<char>, u8, u64)>);

/// The views of a sequence of rows, in the same order.
pub open spec fn row_views(rows: Seq<Row>) -> Seq<RowView> {
    rows.map_values(|row: Row| (row.0, row.1@, row.2, row.3))
}

/// The view of an envelope.
pub open spec fn envelope_view(envelope: Envelope) -> EnvelopeView {
    (envelope.0, envelope.1, row_views(envelope.2@))
}

/// The error type of `serde_cbor`.
#[verifier::external_type_specification]
#[verifier::external_body]
pub struct ExCborError(serde_cbor::Error);

/// The bytes that `serde_cbor::to_vec` gives for an envelope, or `None` where
/// it reports an error.
pub uninterp spec fn cbor_encoding(
    tag: u8,
    argument: u64,
    rows: Seq<(u64, Seq<char>, u8, u64)>,
) -> Option<Seq<u8>>;

/// The envelope that `serde_cbor::from_slice` reads from these bytes, or
/// `None` where it reports an error.
pub uninterp spec fn cbor_decoding(bytes: Seq<u8>) -> Option<(u8, u64, Seq<(u64, Seq<char>, u8, u64)>)>;

/// Calls `serde_cbor::to_vec` on an envelope. Trusted: the outcome depends on
/// the envelope's contents alone, so it is `cbor_encoding` of them; and the
/// bytes it gives are read back by `serde_cbor::from_slice` as the same
/// envelope, which is what the crate documents as its round trip ("the data
/// will not change in any way"). Nothing else is claimed about the bytes, nor
/// that the call succeeds.
#[verifier::external_body]
pub(crate) fn to_vec(envelope: &(u8, u64, Vec<(u64, String, u8, u64)>)) -> (encoded: Result<
    Vec<u8>,
    serde_cbor::Error,
>)
    ensures
        match encoded {
            Ok(bytes) => {
                &&& cbor_encoding(envelope.0, envelope.1, row_views(envelope.2@)) == Some(bytes@)
                &&& cbor_decoding(bytes@) == Some(envelope_view(*envelope))
            },
            Err(_) => cbor_encoding(envelope.0, envelope.1, row_views(envelope.2@)) is None,
        },
{
    serde_cbor::to_vec(envelope)
}

/// Calls `serde_cbor::from_slice` to read an envelope. Trusted: the outcome
/// depends on the bytes alone, so it is `cbor_decoding` of them. Nothing is
/// claimed about which bytes are read as which envelope.
#[verifier::external_body]
pub(crate) fn from_slice(bytes: &[u8]) -> (decoded: Result<
    (u8, u64, Vec<(u64, String, u8, u64)>),
    serde_cbor::Error,
>)
    ensures
        match decoded {
            Ok(envelope) => cbor_decoding(bytes@) == Some(envelope_view(envelope)),
            Err(_) => cbor_decoding(bytes@) is None,
        },
{
    serde_cbor::from_slice(bytes)
}

} // verus!
