//! The decode orchestrator: sniffs the payload, follows the declared content
//! type, and falls back between the two decoders. Errors are reported in the
//! structured format even when tabular output was requested, so a failed
//! tabular decode falls back to the structured decoder.

use vstd::prelude::*;

use crate::decode_csv::{
    decode_code_csv, decode_layer_csv, decode_metadata_csv, spec_decode_code_csv,
    spec_decode_layer_csv, spec_decode_metadata_csv,
};
use crate::decode_json::{
    decode_code_json, decode_layer_json, decode_metadata_json, spec_decode_code_json,
    spec_decode_layer_json, spec_decode_metadata_json,
};
use crate::error::BojError;
use crate::model::{
    CodeResponse, CodeResponseView, LayerResponse, LayerResponseView, MetadataResponse,
    MetadataResponseView,
};
use crate::options::CsvEncoding;
use crate::text::{contains_seq, contains_str, lower_seq, lower_string};

verus! {

/// Whether the first byte that is not an ASCII space, tab, carriage return
/// or newline opens a structured document (`{` or `[`).
pub open spec fn looks_like_json(body: Seq<u8>) -> bool
    decreases body.len(),
{
    if body.len() == 0 {
        false
    } else if body[0] == 32 || body[0] == 10 || body[0] == 9 || body[0] == 13 {
        looks_like_json(body.drop_first())
    } else {
        body[0] == 123 || body[0] == 91
    }
}

/// Sniffs whether a payload starts like a structured document.
pub fn body_looks_like_json(body: &[u8]) -> (r: bool)
    ensures
        r == looks_like_json(body@),
{
    let n = body.len();
    let mut i: usize = 0;
    assert(body@.skip(0) =~= body@);
    while i < n
        invariant
            n == body@.len(),
            i <= n,
            looks_like_json(body@) == looks_like_json(body@.skip(i as int)),
        decreases n - i,
    {
        let b = body[i];
        proof {
            assert(body@.skip(i as int)[0] == body@[i as int]);
            assert(body@.skip(i as int).drop_first() =~= body@.skip(i + 1));
        }
        if b == 32 || b == 10 || b == 9 || b == 13 {
            i = i + 1;
        } else {
            return b == 123 || b == 91;
        }
    }
    false
}

/// Whether a declared content type mentions a format name, compared after
/// ASCII lower-casing.
pub open spec fn content_type_mentions(ct: Seq<char>, name: Seq<char>) -> bool {
    contains_seq(lower_seq(ct), name)
}

/// Whether a declared content type mentions a format name.
fn mentions(ct: &str, name: &str) -> (r: bool)
    ensures
        r == content_type_mentions(ct@, name@),
{
    let lc = lower_string(ct);
    contains_str(lc.as_str(), name)
}

/// The decoder-selection rule shared by the three endpoints, stated here for
/// the by-code response: sniffed structured payloads go to the structured
/// decoder; else the declared content type decides, a failed tabular decode
/// falling back to the structured decoder; with no usable signal the
/// structured decoder is tried first and the tabular one second.
pub open spec fn spec_decode_code(
    body: Seq<u8>,
    content_type: Option<Seq<char>>,
    hint: CsvEncoding,
) -> Result<CodeResponseView, ()> {
    if looks_like_json(body) {
        spec_decode_code_json(body)
    } else {
        match content_type {
            Some(ct) => if content_type_mentions(ct, "json"@) {
                spec_decode_code_json(body)
            } else if content_type_mentions(ct, "csv"@) {
                match spec_decode_code_csv(body, hint) {
                    Ok(r) => Ok(r),
                    Err(()) => spec_decode_code_json(body),
                }
            } else {
                spec_decode_code_fallback(body, hint)
            },
            None => spec_decode_code_fallback(body, hint),
        }
    }
}

/// The no-signal fallback: structured first, tabular second.
pub open spec fn spec_decode_code_fallback(body: Seq<u8>, hint: CsvEncoding) -> Result<
    CodeResponseView,
    (),
> {
    match spec_decode_code_json(body) {
        Ok(r) => Ok(r),
        Err(()) => spec_decode_code_csv(body, hint),
    }
}

/// Decodes a by-code payload, choosing and falling back between the two
/// decoders; see [`spec_decode_code`].
pub fn decode_code(body: &[u8], content_type: Option<&str>, csv_encoding_hint: CsvEncoding) -> (r:
    Result<CodeResponse, BojError>)
    ensures
        ({
            let ct = match content_type {
                Some(c) => Some(c@),
                None => None,
            };
            match r {
                Ok(resp) => spec_decode_code(body@, ct, csv_encoding_hint) == Ok::<
                    CodeResponseView,
                    (),
                >(resp@),
                Err(e) => spec_decode_code(body@, ct, csv_encoding_hint) is Err && e matches
                    BojError::DecodeError(_),
            }
        }),
{
    if body_looks_like_json(body) {
        return decode_code_json(body);
    }
    if let Some(ct) = content_type {
        if mentions(ct, "json") {
            return decode_code_json(body);
        }
        if mentions(ct, "csv") {
            return match decode_code_csv(body, csv_encoding_hint) {
                Ok(r) => Ok(r),
                Err(_) => decode_code_json(body),
            };
        }
    }
    match decode_code_json(body) {
        Ok(r) => Ok(r),
        Err(_) => decode_code_csv(body, csv_encoding_hint),
    }
}

/// The decoder-selection rule for the by-layer response.
pub open spec fn spec_decode_layer(
    body: Seq<u8>,
    content_type: Option<Seq<char>>,
    hint: CsvEncoding,
) -> Result<LayerResponseView, ()> {
    if looks_like_json(body) {
        spec_decode_layer_json(body)
    } else {
        match content_type {
            Some(ct) => if content_type_mentions(ct, "json"@) {
                spec_decode_layer_json(body)
            } else if content_type_mentions(ct, "csv"@) {
                match spec_decode_layer_csv(body, hint) {
                    Ok(r) => Ok(r),
                    Err(()) => spec_decode_layer_json(body),
                }
            } else {
                spec_decode_layer_fallback(body, hint)
            },
            None => spec_decode_layer_fallback(body, hint),
        }
    }
}

/// The no-signal fallback: structured first, tabular second.
pub open spec fn spec_decode_layer_fallback(body: Seq<u8>, hint: CsvEncoding) -> Result<
    LayerResponseView,
    (),
> {
    match spec_decode_layer_json(body) {
        Ok(r) => Ok(r),
        Err(()) => spec_decode_layer_csv(body, hint),
    }
}

/// Decodes a by-layer payload, choosing and falling back between the two
/// decoders; see [`spec_decode_layer`].
pub fn decode_layer(body: &[u8], content_type: Option<&str>, csv_encoding_hint: CsvEncoding) -> (r:
    Result<LayerResponse, BojError>)
    ensures
        ({
            let ct = match content_type {
                Some(c) => Some(c@),
                None => None,
            };
            match r {
                Ok(resp) => spec_decode_layer(body@, ct, csv_encoding_hint) == Ok::<
                    LayerResponseView,
                    (),
                >(resp@),
                Err(e) => spec_decode_layer(body@, ct, csv_encoding_hint) is Err && e matches
                    BojError::DecodeError(_),
            }
        }),
{
    if body_looks_like_json(body) {
        return decode_layer_json(body);
    }
    if let Some(ct) = content_type {
        if mentions(ct, "json") {
            return decode_layer_json(body);
        }
        if mentions(ct, "csv") {
            return match decode_layer_csv(body, csv_encoding_hint) {
                Ok(r) => Ok(r),
                Err(_) => decode_layer_json(body),
            };
        }
    }
    match decode_layer_json(body) {
        Ok(r) => Ok(r),
        Err(_) => decode_layer_csv(body, csv_encoding_hint),
    }
}

/// The decoder-selection rule for the metadata response.
pub open spec fn spec_decode_metadata(
    body: Seq<u8>,
    content_type: Option<Seq<char>>,
    hint: CsvEncoding,
) -> Result<MetadataResponseView, ()> {
    if looks_like_json(body) {
        spec_decode_metadata_json(body)
    } else {
        match content_type {
            Some(ct) => if content_type_mentions(ct, "json"@) {
                spec_decode_metadata_json(body)
            } else if content_type_mentions(ct, "csv"@) {
                match spec_decode_metadata_csv(body, hint) {
                    Ok(r) => Ok(r),
                    Err(()) => spec_decode_metadata_json(body),
                }
            } else {
                spec_decode_metadata_fallback(body, hint)
            },
            None => spec_decode_metadata_fallback(body, hint),
        }
    }
}

/// The no-signal fallback: structured first, tabular second.
pub open spec fn spec_decode_metadata_fallback(body: Seq<u8>, hint: CsvEncoding) -> Result<
    MetadataResponseView,
    (),
> {
    match spec_decode_metadata_json(body) {
        Ok(r) => Ok(r),
        Err(()) => spec_decode_metadata_csv(body, hint),
    }
}

/// Decodes a metadata payload, choosing and falling back between the two
/// decoders; see [`spec_decode_metadata`].
pub fn decode_metadata(
    body: &[u8],
    content_type: Option<&str>,
    csv_encoding_hint: CsvEncoding,
) -> (r: Result<MetadataResponse, BojError>)
    ensures
        ({
            let ct = match content_type {
                Some(c) => Some(c@),
                None => None,
            };
            match r {
                Ok(resp) => spec_decode_metadata(body@, ct, csv_encoding_hint) == Ok::<
                    MetadataResponseView,
                    (),
                >(resp@),
                Err(e) => spec_decode_metadata(body@, ct, csv_encoding_hint) is Err && e
                    matches BojError::DecodeError(_),
            }
        }),
{
    if body_looks_like_json(body) {
        return decode_metadata_json(body);
    }
    if let Some(ct) = content_type {
        if mentions(ct, "json") {
            return decode_metadata_json(body);
        }
        if mentions(ct, "csv") {
            return match decode_metadata_csv(body, csv_encoding_hint) {
                Ok(r) => Ok(r),
                Err(_) => decode_metadata_json(body),
            };
        }
    }
    match decode_metadata_json(body) {
        Ok(r) => Ok(r),
        Err(_) => decode_metadata_csv(body, csv_encoding_hint),
    }
}

/// Checks the decoded status: only `200` is success; anything else is the
/// server reporting a logical failure, surfaced as an API error carrying the
/// decoded status and message fields.
pub fn ensure_success_status(status: u16, message_id: &str, message: &str) -> (r: Result<
    (),
    BojError,
>)
    ensures
        match r {
            Ok(()) => status == 200,
            Err(e) => status != 200 && (e matches BojError::ApiError {
                status: s,
                message_id: mi,
                message: m,
            } && s == status && mi@ == message_id@ && m@ == message@),
        },
{
    if status != 200 {
        return Err(BojError::api(status, message_id, message));
    }
    Ok(())
}

} // verus!
