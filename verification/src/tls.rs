//! TLS plaintext records: ClientHello with its server-name extension, and
//! ServerHello with its chosen cipher.

use vstd::prelude::*;
use vstd::utf8::{decode_utf8, valid_utf8};
use tls_parser::{TlsMessage, TlsMessageHandshake};
use crate::centrifuge::ArwahCentrifugeError;
use crate::bytes::arwah_tail;
use crate::scan::arwah_clone_bytes;

verus! {

/// A ClientHello, reduced to its version label, session id and server
/// name.
#[derive(Debug, Clone, PartialEq, Eq)]
pub struct ArwahClientHello {
    pub version: Option<String>,
    pub session_id: Option<String>,
    pub hostname: Option<String>,
}

/// A ServerHello, reduced to its version label, session id and cipher
/// name.
#[derive(Debug, Clone, PartialEq, Eq)]
pub struct ArwahServerHello {
    pub version: Option<String>,
    pub session_id: Option<String>,
    pub cipher: Option<String>,
}

/// A decoded TLS handshake message of interest.
#[derive(Debug, Clone, PartialEq, Eq)]
pub enum ArwahTls {
    ClientHello(ArwahClientHello),
    ServerHello(ArwahServerHello),
}

/// One record-level message, reduced to plain values.
#[derive(Debug, Clone, PartialEq, Eq)]
pub enum ArwahTlsMsgRaw {
    ClientHello { version: u16, session_id: Option<Vec<u8>>, ext: Option<Vec<u8>> },
    ServerHello { version: u16, session_id: Option<Vec<u8>>, cipher: u16 },
    Other,
}

/// One parsed extension, reduced to plain values.
#[derive(Debug, Clone, PartialEq, Eq)]
pub enum ArwahTlsExtRaw {
    Sni(Vec<Vec<u8>>),
    Other,
}

/// What `tls_parser::parse_tls_plaintext` yields on the bytes: the record's
/// messages, reduced, or nothing where no record parses.
pub uninterp spec fn spec_tls_msgs_of(b: Seq<u8>) -> Option<Seq<ArwahTlsMsgRaw>>;

/// What `tls_parser::parse_tls_extension` yields on the bytes: how many
/// bytes the first extension took and what it was, or nothing.
pub uninterp spec fn spec_tls_ext_of(b: Seq<u8>) -> Option<(usize, ArwahTlsExtRaw)>;

/// What `tls_parser`'s cipher-suite registry calls the cipher id.
pub uninterp spec fn spec_cipher_name_of(id: u16) -> Option<Seq<char>>;

/// Relies on `tls_parser::parse_tls_plaintext`: on success the record's
/// messages are handed through, each reduced to the fields the dissector
/// keeps.
#[verifier::external_body]
fn arwah_tls_msgs(b: &Vec<u8>) -> (r: Option<Vec<ArwahTlsMsgRaw>>)
    ensures
        match r {
            Some(msgs) => spec_tls_msgs_of(b@) == Some(msgs@),
            None => spec_tls_msgs_of(b@) is None,
        },
{
    match tls_parser::parse_tls_plaintext(b.as_slice()) {
        Ok((_rem, record)) => Some(record.msg.iter().map(|m| match m {
            TlsMessage::Handshake(TlsMessageHandshake::ClientHello(c)) => ArwahTlsMsgRaw::ClientHello {
                version: c.version.0, session_id: c.session_id.map(|s| s.to_vec()), ext: c.ext.map(|e| e.to_vec()) },
            TlsMessage::Handshake(TlsMessageHandshake::ServerHello(h)) => ArwahTlsMsgRaw::ServerHello {
                version: h.version.0, session_id: h.session_id.map(|s| s.to_vec()), cipher: h.cipher.0 },
            _ => ArwahTlsMsgRaw::Other,
        }).collect()),
        Err(_) => None,
    }
}

/// Relies on `tls_parser::parse_tls_extension`: on success at least the
/// four header bytes are consumed, and a server-name extension hands its
/// names through in order.
#[verifier::external_body]
fn arwah_tls_ext_step(b: &Vec<u8>) -> (r: Option<(usize, ArwahTlsExtRaw)>)
    ensures
        r == spec_tls_ext_of(b@),
        r matches Some(p) ==> 1 <= p.0 <= b@.len(),
{
    match tls_parser::parse_tls_extension(b.as_slice()) {
        Ok((rem, ext)) => Some((
            b.len() - rem.len(),
            match ext {
                tls_parser::TlsExtension::SNI(sni) => ArwahTlsExtRaw::Sni(
                    sni.iter().map(|s| s.1.to_vec()).collect(),
                ),
                _ => ArwahTlsExtRaw::Other,
            },
        )),
        Err(_) => None,
    }
}

/// Relies on `tls_parser::TlsCipherSuite::from_id`: the registry's name
/// for the cipher id, a function of the id alone.
#[verifier::external_body]
fn arwah_cipher_name(id: u16) -> (r: Option<String>)
    ensures
        match r {
            Some(s) => spec_cipher_name_of(id) == Some(s@),
            None => spec_cipher_name_of(id) is None,
        },
{
    tls_parser::TlsCipherSuite::from_id(id).map(|c| c.name.to_string())
}

/// The label given to a raw TLS version word; versions outside the five
/// named ones stay unlabeled.
pub open spec fn spec_tls_version_label(v: u16) -> Option<Seq<char>> {
    if v == 0x0300 {
        Some("ssl3.0"@)
    } else if v == 0x0301 {
        Some("tls1.0"@)
    } else if v == 0x0302 {
        Some("tls1.1"@)
    } else if v == 0x0303 {
        Some("tls1.2"@)
    } else if v == 0x0304 {
        Some("tls1.3"@)
    } else {
        None
    }
}

/// Maps a raw version word to its label.
pub fn arwah_tls_version(v: u16) -> (r: Option<String>)
    ensures
        match r {
            Some(s) => spec_tls_version_label(v) == Some(s@),
            None => spec_tls_version_label(v) is None,
        },
{
    if v == 0x0300 {
        Some("ssl3.0".to_owned())
    } else if v == 0x0301 {
        Some("tls1.0".to_owned())
    } else if v == 0x0302 {
        Some("tls1.1".to_owned())
    } else if v == 0x0303 {
        Some("tls1.2".to_owned())
    } else if v == 0x0304 {
        Some("tls1.3".to_owned())
    } else {
        None
    }
}

/// What a session id is rendered as; the rendering depends on the bytes
/// alone.
pub uninterp spec fn spec_base64_of(b: Seq<u8>) -> Seq<char>;

/// Relies on `data_encoding::BASE64.encode`: the standard base64 text of
/// the bytes, a function of the bytes alone.
#[verifier::external_body]
pub fn arwah_base64(b: &Vec<u8>) -> (r: String)
    ensures
        r@ == spec_base64_of(b@),
{
    data_encoding::BASE64.encode(b.as_slice())
}

/// Scanning one extension list for the server name: names are taken in
/// order, each must decode as text, and the last one seen wins.
pub open spec fn spec_scan_names(names: Seq<Seq<u8>>, cur: Option<Seq<char>>) -> Result<
    Option<Seq<char>>,
    (),
>
    decreases names.len(),
{
    if names.len() == 0 {
        Ok(cur)
    } else if !valid_utf8(names[0]) {
        Err(())
    } else {
        spec_scan_names(names.drop_first(), Some(decode_utf8(names[0])))
    }
}

/// The server name the extension bytes carry: extensions are parsed one
/// after the other for as long as they parse, and each server-name
/// extension's names are scanned in order.
pub open spec fn spec_sni_scan(ext: Seq<u8>, cur: Option<Seq<char>>) -> Result<
    Option<Seq<char>>,
    (),
>
    decreases ext.len(),
{
    match spec_tls_ext_of(ext) {
        None => Ok(cur),
        Some((n, e)) => if n < 1 || n > ext.len() {
            Ok(cur)
        } else {
            let step = match e {
                ArwahTlsExtRaw::Sni(names) => spec_scan_names(
                    Seq::new(names@.len(), |k: int| names@[k]@),
                    cur,
                ),
                ArwahTlsExtRaw::Other => Ok(cur),
            };
            match step {
                Err(u) => Err(u),
                Ok(cur2) => spec_sni_scan(ext.skip(n as int), cur2),
            }
        },
    }
}

/// Walks one extension list, keeping the last server name seen.
fn arwah_sni_walk(ext: &Vec<u8>, cur: Option<String>) -> (r: Result<
    Option<String>,
    ArwahCentrifugeError,
>)
    ensures
        match r {
            Ok(h) => spec_sni_scan(ext@, match cur {
                Some(c) => Some(c@),
                None => None,
            }) == Ok::<Option<Seq<char>>, ()>(
                match h {
                    Some(hs) => Some(hs@),
                    None => None,
                },
            ),
            Err(e) => e == ArwahCentrifugeError::ParsingError && spec_sni_scan(ext@, match cur {
                Some(c) => Some(c@),
                None => None,
            }) is Err,
        },
    decreases ext@.len(),
{
    match arwah_tls_ext_step(ext) {
        None => Ok(cur),
        Some((n, e)) => {
            if n < 1 || n > ext.len() {
                return Ok(cur);
            }
            let mut cur2 = cur;
            match &e {
                ArwahTlsExtRaw::Sni(names) => {
                    let ghost gnames = Seq::new(names@.len(), |k: int| names@[k]@);
                    let ghost cur0 = match cur2 {
                        Some(ref c) => Some(c@),
                        None => None,
                    };
                    let mut i: usize = 0;
                    proof {
                        assert(gnames.skip(0) =~= gnames);
                    }
                    while i < names.len()
                        invariant
                            i <= names@.len(),
                            gnames == Seq::new(names@.len(), |k: int| names@[k]@),
                            spec_tls_ext_of(ext@) == Some((n, ArwahTlsExtRaw::Sni(*names))),
                            1 <= n <= ext@.len(),
                            cur0 == (match cur {
                                Some(c) => Some(c@),
                                None => None,
                            }),
                            spec_scan_names(gnames, cur0) == spec_scan_names(
                                gnames.skip(i as int),
                                match cur2 {
                                    Some(ref c) => Some(c@),
                                    None => None,
                                },
                            ),
                        decreases names@.len() - i,
                    {
                        proof {
                            assert(gnames.skip(i as int).drop_first() =~= gnames.skip(i + 1));
                            assert(gnames.skip(i as int)[0] == names@[i as int]@);
                        }
                        match crate::bytes::arwah_utf8_text(&names[i]) {
                            Some(name) => {
                                cur2 = Some(name);
                            },
                            None => {
                                return Err(ArwahCentrifugeError::ParsingError);
                            },
                        }
                        i += 1;
                    }
                    proof {
                        assert(gnames.skip(names@.len() as int).len() == 0);
                    }
                },
                ArwahTlsExtRaw::Other => {},
            }
            let rest = arwah_tail(ext, n);
            arwah_sni_walk(&rest, cur2)
        },
    }
}

/// The message the record-level walk settles on: the first ClientHello
/// that carries extensions, or the first ServerHello, whichever comes
/// first.
pub open spec fn spec_tls_pick(msgs: Seq<ArwahTlsMsgRaw>) -> Option<ArwahTlsMsgRaw>
    decreases msgs.len(),
{
    if msgs.len() == 0 {
        None
    } else {
        match msgs[0] {
            ArwahTlsMsgRaw::ClientHello { version, session_id, ext } => match ext {
                Some(e) => Some(msgs[0]),
                None => spec_tls_pick(msgs.drop_first()),
            },
            ArwahTlsMsgRaw::ServerHello { version, session_id, cipher } => Some(msgs[0]),
            ArwahTlsMsgRaw::Other => spec_tls_pick(msgs.drop_first()),
        }
    }
}

/// Whether the bytes carry a record the extractor returns: a record must
/// parse, its walk must settle on a hello, and a ClientHello's server-name
/// scan must not fail.
pub open spec fn spec_tls_accepts(b: Seq<u8>) -> bool {
    match spec_tls_msgs_of(b) {
        None => false,
        Some(msgs) => match spec_tls_pick(msgs) {
            None => false,
            Some(m) => match m {
                ArwahTlsMsgRaw::ClientHello { version, session_id, ext } => match ext {
                    Some(e) => spec_sni_scan(e@, None) is Ok,
                    None => false,
                },
                ArwahTlsMsgRaw::ServerHello { version, session_id, cipher } => true,
                ArwahTlsMsgRaw::Other => false,
            },
        },
    }
}

/// What a successful TLS extraction of the bytes holds, relative to the
/// message the walk settled on.
pub open spec fn spec_tls_result_ok(b: Seq<u8>, v: ArwahTls) -> bool {
    match spec_tls_msgs_of(b) {
        None => false,
        Some(msgs) => match spec_tls_pick(msgs) {
            None => false,
            Some(m) => match (v, m) {
                (
                    ArwahTls::ClientHello(ch),
                    ArwahTlsMsgRaw::ClientHello { version, session_id, ext },
                ) => (match ch.version {
                    Some(s) => spec_tls_version_label(version) == Some(s@),
                    None => spec_tls_version_label(version) is None,
                }) && (match (ch.session_id, session_id) {
                    (Some(s), Some(sid)) => s@ == spec_base64_of(sid@),
                    (None, None) => true,
                    _ => false,
                }) && (match ext {
                    Some(e) => spec_sni_scan(e@, None) == Ok::<Option<Seq<char>>, ()>(
                        match ch.hostname {
                            Some(h) => Some(h@),
                            None => None,
                        },
                    ),
                    None => false,
                }),
                (
                    ArwahTls::ServerHello(sh),
                    ArwahTlsMsgRaw::ServerHello { version, session_id, cipher },
                ) => (match sh.version {
                    Some(s) => spec_tls_version_label(version) == Some(s@),
                    None => spec_tls_version_label(version) is None,
                }) && (match (sh.session_id, session_id) {
                    (Some(s), Some(sid)) => s@ == spec_base64_of(sid@),
                    (None, None) => true,
                    _ => false,
                }) && (match sh.cipher {
                    Some(s) => spec_cipher_name_of(cipher) == Some(s@),
                    None => spec_cipher_name_of(cipher) is None,
                }),
                _ => false,
            },
        },
    }
}

/// Extracts the handshake summary of a TLS record: no record means the
/// wrong protocol, a record with neither hello or with an unreadable
/// server name is a parsing failure, a ClientHello keeps its last valid
/// server name, and a ServerHello keeps its cipher's name.
pub fn arwah_extract(remaining: &Vec<u8>) -> (r: Result<ArwahTls, ArwahCentrifugeError>)
    ensures
        r is Ok <==> spec_tls_accepts(remaining@),
        spec_tls_msgs_of(remaining@) is None ==> r == Err::<ArwahTls, _>(
            ArwahCentrifugeError::WrongProtocol,
        ),
        spec_tls_msgs_of(remaining@) is Some && !spec_tls_accepts(remaining@) ==> r == Err::<
            ArwahTls,
            _,
        >(ArwahCentrifugeError::ParsingError),
        r matches Ok(v) ==> spec_tls_result_ok(remaining@, v),
{
    let msgs = match arwah_tls_msgs(remaining) {
        Some(msgs) => msgs,
        None => {
            return Err(ArwahCentrifugeError::WrongProtocol);
        },
    };
    let ghost gmsgs = msgs@;
    let mut i: usize = 0;
    proof {
        assert(gmsgs.skip(0) =~= gmsgs);
    }
    while i < msgs.len()
        invariant
            i <= msgs@.len(),
            msgs@ == gmsgs,
            spec_tls_msgs_of(remaining@) == Some(gmsgs),
            spec_tls_pick(gmsgs) == spec_tls_pick(gmsgs.skip(i as int)),
        decreases msgs@.len() - i,
    {
        proof {
            assert(gmsgs.skip(i as int).drop_first() =~= gmsgs.skip(i + 1));
            assert(gmsgs.skip(i as int)[0] == gmsgs[i as int]);
        }
        match &msgs[i] {
            ArwahTlsMsgRaw::ClientHello { version, session_id, ext } => {
                if let Some(e) = ext {
                    let hostname = match arwah_sni_walk(e, None) {
                        Ok(h) => h,
                        Err(err) => {
                            return Err(err);
                        },
                    };
                    let session = match session_id {
                        Some(b) => Some(arwah_base64(b)),
                        None => None,
                    };
                    return Ok(
                        ArwahTls::ClientHello(
                            ArwahClientHello {
                                version: arwah_tls_version(*version),
                                session_id: session,
                                hostname,
                            },
                        ),
                    );
                }
            },
            ArwahTlsMsgRaw::ServerHello { version, session_id, cipher } => {
                let session = match session_id {
                    Some(b) => Some(arwah_base64(b)),
                    None => None,
                };
                return Ok(
                    ArwahTls::ServerHello(
                        ArwahServerHello {
                            version: arwah_tls_version(*version),
                            session_id: session,
                            cipher: arwah_cipher_name(*cipher),
                        },
                    ),
                );
            },
            ArwahTlsMsgRaw::Other => {},
        }
        i += 1;
    }
    proof {
        assert(gmsgs.skip(msgs@.len() as int).len() == 0);
    }
    Err(ArwahCentrifugeError::ParsingError)
}

} // verus!
