//! The Dropbox LAN-sync beacon: a small JSON object broadcast on the local
//! network.

use vstd::prelude::*;
use crate::centrifuge::ArwahCentrifugeError;
use crate::bytes::arwah_utf8_text;
use vstd::utf8::{decode_utf8, valid_utf8};

verus! {

/// A LAN-sync beacon's fields.
#[derive(Debug, Clone, PartialEq, Eq)]
pub struct ArwahDropboxBeacon {
    pub version: Vec<u8>,
    pub host_int: u128,
    pub namespaces: Vec<u64>,
    pub displayname: String,
    pub port: u16,
}

/// What JSON decoding yields for beacon text: the five fields with their
/// exact types, or nothing where the text is no such object.
pub uninterp spec fn spec_dropbox_of(s: Seq<char>) -> Option<ArwahDropboxBeacon>;

/// Relies on `serde_json::from_str` into a JSON value and on the value
/// accessors: the version bytes, host number and port are read with their
/// exact types, and any missing or mistyped field rejects the text.
#[verifier::external_body]
fn arwah_dropbox_json_numbers(s: &str) -> (r: Option<(Vec<u8>, u128, u16)>)
    ensures
        match r {
            Some(h) => spec_dropbox_of(s@) matches Some(b) && b.version@ == h.0@ && b.host_int
                == h.1 && b.port == h.2,
            None => spec_dropbox_of(s@) is None,
        },
{
    let v: serde_json::Value = serde_json::from_str(s).ok()?;
    Some((
        v.get("version")?.as_array()?.iter().map(
            |x| x.as_u64().and_then(|n| u8::try_from(n).ok()),
        ).collect::<Option<Vec<u8>>>()?,
        v.get("host_int")?.as_number()?.as_u128()?,
        u16::try_from(v.get("port")?.as_u64()?).ok()?,
    ))
}

/// Relies on `serde_json::from_str` into a JSON value and on the value
/// accessors, as the numbers wrapper does, for the namespace list and the
/// display name.
#[verifier::external_body]
fn arwah_dropbox_json_names(s: &str) -> (r: Option<(Vec<u64>, String)>)
    ensures
        match r {
            Some(h) => spec_dropbox_of(s@) matches Some(b) && b.namespaces@ == h.0@
                && b.displayname@ == h.1@,
            None => spec_dropbox_of(s@) is None,
        },
{
    let v: serde_json::Value = serde_json::from_str(s).ok()?;
    Some((
        v.get("namespaces")?.as_array()?.iter().map(|x| x.as_u64()).collect::<
            Option<Vec<u64>>,
        >()?,
        v.get("displayname")?.as_str()?.to_string(),
    ))
}

/// Whether the bytes are beacon text.
pub open spec fn spec_dropbox_accepts(b: Seq<u8>) -> bool {
    valid_utf8(b) && spec_dropbox_of(decode_utf8(b)) is Some
}

/// What a successful beacon extraction of the bytes holds.
pub open spec fn spec_dropbox_result_ok(data: Seq<u8>, b: ArwahDropboxBeacon) -> bool {
    valid_utf8(data) && match spec_dropbox_of(decode_utf8(data)) {
        Some(d) => d.version@ == b.version@ && d.host_int == b.host_int && d.namespaces@
            == b.namespaces@ && d.displayname@ == b.displayname@ && d.port == b.port,
        None => false,
    }
}

/// Extracts a beacon: the bytes must be text and the text must decode as a
/// beacon object; anything else is an invalid packet.
pub fn arwah_extract(data: &Vec<u8>) -> (r: Result<ArwahDropboxBeacon, ArwahCentrifugeError>)
    ensures
        r is Ok <==> spec_dropbox_accepts(data@),
        r matches Err(e) ==> e == ArwahCentrifugeError::InvalidPacket,
        r matches Ok(b) ==> spec_dropbox_result_ok(data@, b),
{
    let text = match arwah_utf8_text(data) {
        Some(t) => t,
        None => {
            return Err(ArwahCentrifugeError::InvalidPacket);
        },
    };
    let numbers = match arwah_dropbox_json_numbers(text.as_str()) {
        Some(h) => h,
        None => {
            return Err(ArwahCentrifugeError::InvalidPacket);
        },
    };
    match arwah_dropbox_json_names(text.as_str()) {
        Some(names) => Ok(
            ArwahDropboxBeacon {
                version: numbers.0,
                host_int: numbers.1,
                namespaces: names.0,
                displayname: names.1,
                port: numbers.2,
            },
        ),
        None => Err(ArwahCentrifugeError::InvalidPacket),
    }
}

} // verus!
