//! TCP: the header grammar, and classification of the payload.

use vstd::prelude::*;
use vstd::utf8::{decode_utf8, valid_utf8};
use crate::centrifuge::ArwahCentrifugeError;
use crate::packet::{ArwahTcpHeader, ArwahTcpOption, ARWAH_TCP};
use crate::bytes::{arwah_contains_zero, arwah_tail, arwah_utf8_text, spec_has_zero};
use crate::http;
use crate::tls;

verus! {

/// One parsed option and how many bytes it took, or a failure.
pub open spec fn spec_tcp_option_at(b: Seq<u8>, at: int) -> Option<(int, ArwahTcpOption)> {
    if at >= b.len() {
        None
    } else if b[at] == 0 {
        Some((1, ArwahTcpOption::EndOfOptions))
    } else if b[at] == 1 {
        Some((1, ArwahTcpOption::NoOperation))
    } else if b[at] == 2 {
        if at + 4 <= b.len() {
            Some((4, ArwahTcpOption::MaximumSegmentSize((b[at + 2] * 256 + b[at + 3]) as u16)))
        } else {
            None
        }
    } else if b[at] == 3 {
        if at + 3 <= b.len() {
            Some((3, ArwahTcpOption::WindowScale(b[at + 2])))
        } else {
            None
        }
    } else if b[at] == 4 {
        if at + 2 <= b.len() {
            Some((2, ArwahTcpOption::SackPermitted))
        } else {
            None
        }
    } else {
        None
    }
}

/// Parses the options area from `at` on: options are read one after the
/// other until an end-of-options mark; running out of bytes or an unknown
/// kind fails the whole header.
pub open spec fn spec_tcp_options_from(b: Seq<u8>, at: int) -> Option<Seq<ArwahTcpOption>>
    decreases b.len() - at,
{
    if at < 0 {
        None
    } else {
        match spec_tcp_option_at(b, at) {
            None => None,
            Some((n, opt)) => if opt == ArwahTcpOption::EndOfOptions {
                Some(seq![opt])
            } else if at + n <= b.len() {
                match spec_tcp_options_from(b, at + n) {
                    None => None,
                    Some(rest) => Some(seq![opt] + rest),
                }
            } else {
                None
            },
        }
    }
}

/// Reads the options area.
fn arwah_tcp_options(b: &Vec<u8>, start: usize) -> (r: Option<Vec<ArwahTcpOption>>)
    requires
        start <= b@.len(),
    ensures
        match r {
            Some(opts) => spec_tcp_options_from(b@, start as int) == Some(opts@),
            None => spec_tcp_options_from(b@, start as int) is None,
        },
{
    let mut out: Vec<ArwahTcpOption> = Vec::new();
    let mut at: usize = start;
    proof {
        assert(Seq::<ArwahTcpOption>::empty() + spec_tcp_options_from(b@, start as int)->0
            =~= spec_tcp_options_from(b@, start as int)->0);
    }
    loop
        invariant
            start <= at <= b@.len(),
            (match spec_tcp_options_from(b@, start as int) {
                Some(all) => spec_tcp_options_from(b@, at as int) matches Some(rest) && all
                    == out@ + rest,
                None => spec_tcp_options_from(b@, at as int) is None,
            }),
        decreases b@.len() - at,
    {
        let ghost old_out = out@;
        let ghost old_at = at as int;
        if at >= b.len() {
            return None;
        }
        let kind = b[at];
        let n: usize;
        if kind == 0 {
            out.push(ArwahTcpOption::EndOfOptions);
            proof {
                if spec_tcp_options_from(b@, start as int) is Some {
                    let all = spec_tcp_options_from(b@, start as int)->0;
                    assert(spec_tcp_options_from(b@, old_at) == Some(
                        seq![ArwahTcpOption::EndOfOptions],
                    ));
                    assert(old_out + seq![ArwahTcpOption::EndOfOptions] =~= out@);
                    assert(all == out@);
                }
            }
            return Some(out);
        } else if kind == 1 {
            out.push(ArwahTcpOption::NoOperation);
            n = 1;
        } else if kind == 2 {
            if b.len() - at < 4 {
                return None;
            }
            let mss = (b[at + 2] as u16) * 256 + (b[at + 3] as u16);
            out.push(ArwahTcpOption::MaximumSegmentSize(mss));
            n = 4;
        } else if kind == 3 {
            if b.len() - at < 3 {
                return None;
            }
            out.push(ArwahTcpOption::WindowScale(b[at + 2]));
            n = 3;
        } else if kind == 4 {
            if b.len() - at < 2 {
                return None;
            }
            out.push(ArwahTcpOption::SackPermitted);
            n = 2;
        } else {
            return None;
        }
        at += n;
        proof {
            let opt = out@.last();
            assert(spec_tcp_option_at(b@, old_at) == Some(((at - old_at) as int, opt)));
            if spec_tcp_options_from(b@, old_at) is Some {
                let prev_rest = spec_tcp_options_from(b@, old_at)->0;
                assert(prev_rest == seq![opt] + spec_tcp_options_from(b@, at as int)->0);
                assert(old_out + (seq![opt] + spec_tcp_options_from(b@, at as int)->0) =~= out@
                    + spec_tcp_options_from(b@, at as int)->0);
            }
        }
    }
}

/// The fixed part of the TCP header read from twenty bytes.
pub open spec fn spec_tcp_fixed(b: Seq<u8>) -> ArwahTcpHeader {
    ArwahTcpHeader {
        source_port: (b[0] * 256 + b[1]) as u16,
        dest_port: (b[2] * 256 + b[3]) as u16,
        sequence_no: (((b[4] * 256 + b[5]) * 256 + b[6]) * 256 + b[7]) as u32,
        ack_no: (((b[8] * 256 + b[9]) * 256 + b[10]) * 256 + b[11]) as u32,
        data_offset: b[12] / 16,
        reserved: ((b[12] % 16) * 4 + b[13] / 64) as u8,
        flag_urg: (b[13] / 32) % 2 == 1,
        flag_ack: (b[13] / 16) % 2 == 1,
        flag_psh: (b[13] / 8) % 2 == 1,
        flag_rst: (b[13] / 4) % 2 == 1,
        flag_syn: (b[13] / 2) % 2 == 1,
        flag_fin: b[13] % 2 == 1,
        window: (b[14] * 256 + b[15]) as u16,
        checksum: (b[16] * 256 + b[17]) as u16,
        urgent_pointer: (b[18] * 256 + b[19]) as u16,
        options: None,
    }
}

/// Parses a TCP header: twenty fixed bytes, and where the data offset says
/// more, an options area of that size.  The area's options are kept when
/// they all read cleanly and dropped otherwise; either way the area is
/// consumed.  Returns the header and how many bytes of the input belong to
/// it.
pub fn arwah_parse_tcp_header(b: &Vec<u8>) -> (r: Option<(ArwahTcpHeader, usize)>)
    ensures
        b@.len() < 20 ==> r is None,
        r matches Some(p) ==> (b@.len() >= 20 && ({
            let fixed = spec_tcp_fixed(b@);
            &&& p.1 <= b@.len()
            &&& (if fixed.data_offset > 5 {
                p.1 == 20 + (fixed.data_offset - 5) * 4 && (match spec_tcp_options_from(
                    b@.subrange(20, p.1 as int),
                    0,
                ) {
                    Some(opts) => p.0 == ArwahTcpHeader {
                        options: Some(p.0.options->0),
                        ..fixed
                    } && p.0.options->0@ == opts,
                    None => p.0 == fixed,
                })
            } else {
                p.1 == 20 && p.0 == fixed
            })
        })),
        r is None <==> (b@.len() < 20 || (spec_tcp_fixed(b@).data_offset > 5 && 20 + (spec_tcp_fixed(
            b@,
        ).data_offset - 5) * 4 > b@.len())),
{
    if b.len() < 20 {
        return None;
    }
    let source_port = (b[0] as u16) * 256 + (b[1] as u16);
    let dest_port = (b[2] as u16) * 256 + (b[3] as u16);
    let sequence_no = (((b[4] as u32) * 256 + (b[5] as u32)) * 256 + (b[6] as u32)) * 256 + (
    b[7] as u32);
    let ack_no = (((b[8] as u32) * 256 + (b[9] as u32)) * 256 + (b[10] as u32)) * 256 + (
    b[11] as u32);
    let data_offset = b[12] / 16;
    let reserved = (b[12] % 16) * 4 + b[13] / 64;
    let flags = b[13];
    let window = (b[14] as u16) * 256 + (b[15] as u16);
    let checksum = (b[16] as u16) * 256 + (b[17] as u16);
    let urgent_pointer = (b[18] as u16) * 256 + (b[19] as u16);
    let mut header = ArwahTcpHeader {
        source_port,
        dest_port,
        sequence_no,
        ack_no,
        data_offset,
        reserved,
        flag_urg: (flags / 32) % 2 == 1,
        flag_ack: (flags / 16) % 2 == 1,
        flag_psh: (flags / 8) % 2 == 1,
        flag_rst: (flags / 4) % 2 == 1,
        flag_syn: (flags / 2) % 2 == 1,
        flag_fin: flags % 2 == 1,
        window,
        checksum,
        urgent_pointer,
        options: None,
    };
    if data_offset > 5 {
        let options_len: usize = ((data_offset - 5) as usize) * 4;
        if 20 + options_len > b.len() {
            return None;
        }
        let area = arwah_slice_range(b, 20, 20 + options_len);
        match arwah_tcp_options(&area, 0) {
            Some(opts) => {
                header.options = Some(opts);
            },
            None => {},
        }
        Some((header, 20 + options_len))
    } else {
        Some((header, 20))
    }
}

/// Copies `b[from..to]`.
pub fn arwah_slice_range(b: &Vec<u8>, from: usize, to: usize) -> (r: Vec<u8>)
    requires
        from <= to <= b@.len(),
    ensures
        r@ == b@.subrange(from as int, to as int),
{
    let mut out: Vec<u8> = Vec::new();
    let mut i: usize = from;
    while i < to
        invariant
            from <= i <= to <= b@.len(),
            out@ =~= b@.subrange(from as int, i as int),
        decreases to - i,
    {
        out.push(b[i]);
        i += 1;
    }
    proof {
        assert(out@ =~= b@.subrange(from as int, to as int));
    }
    out
}

/// Classifies a nonempty TCP payload that decodes as no known protocol:
/// bytes holding a zero are binary, other valid text is text, the rest is
/// binary.
pub fn arwah_unknown(remaining: &Vec<u8>) -> (r: ARWAH_TCP)
    ensures
        spec_has_zero(remaining@) ==> (r matches ARWAH_TCP::Binary(b) && b@ == remaining@),
        !spec_has_zero(remaining@) && valid_utf8(remaining@) ==> (r matches ARWAH_TCP::Text(t)
            && t@ == decode_utf8(remaining@)),
        !spec_has_zero(remaining@) && !valid_utf8(remaining@) ==> (r matches ARWAH_TCP::Binary(b)
            && b@ == remaining@),
{
    if arwah_contains_zero(remaining) {
        ARWAH_TCP::Binary(arwah_tail(remaining, 0))
    } else {
        match arwah_utf8_text(remaining) {
            Some(text) => ARWAH_TCP::Text(text),
            None => ARWAH_TCP::Binary(arwah_tail(remaining, 0)),
        }
    }
}

/// What classifying a TCP payload leaves: empty payload is `Empty`; a TLS
/// record wins over HTTP; with neither, the extractor gives up and its
/// caller keeps the bytes as text or binary.
pub open spec fn spec_tcp_class_ok(payload: Seq<u8>, c: ARWAH_TCP) -> bool {
    if payload.len() == 0 {
        c == ARWAH_TCP::Empty
    } else if crate::tls::spec_tls_accepts(payload) {
        c matches ARWAH_TCP::TLS(t) && crate::tls::spec_tls_result_ok(payload, t)
    } else if crate::http::spec_http_accepts(payload) {
        c matches ARWAH_TCP::HTTP(h) && crate::http::spec_http_result_ok(payload, h)
    } else {
        match c {
            ARWAH_TCP::Binary(b) => b@ == payload && (spec_has_zero(payload) || !valid_utf8(
                payload,
            )),
            ARWAH_TCP::Text(t) => !spec_has_zero(payload) && valid_utf8(payload) && t@
                == decode_utf8(payload),
            _ => false,
        }
    }
}

/// Classifies a TCP payload: empty, then TLS, then HTTP, and otherwise no
/// known protocol.
pub fn arwah_extract(_tcp_header: &ArwahTcpHeader, remaining: &Vec<u8>) -> (r: Result<
    ARWAH_TCP,
    ArwahCentrifugeError,
>)
    ensures
        remaining@.len() == 0 ==> r == Ok::<ARWAH_TCP, ArwahCentrifugeError>(ARWAH_TCP::Empty),
        r is Ok <==> (remaining@.len() == 0 || crate::tls::spec_tls_accepts(remaining@)
            || crate::http::spec_http_accepts(remaining@)),
        r matches Err(e) ==> e == ArwahCentrifugeError::UnknownProtocol,
        remaining@.len() > 0 && crate::tls::spec_tls_accepts(remaining@) ==> (r matches Ok(v)
            && v matches ARWAH_TCP::TLS(t) && crate::tls::spec_tls_result_ok(remaining@, t)),
        remaining@.len() > 0 && !crate::tls::spec_tls_accepts(remaining@)
            && crate::http::spec_http_accepts(remaining@) ==> (r matches Ok(v)
            && v matches ARWAH_TCP::HTTP(h) && crate::http::spec_http_result_ok(remaining@, h)),
{
    if remaining.len() == 0 {
        return Ok(ARWAH_TCP::Empty);
    }
    if let Ok(hello) = tls::arwah_extract(remaining) {
        return Ok(ARWAH_TCP::TLS(hello));
    }
    if let Ok(msg) = http::arwah_extract(remaining) {
        return Ok(ARWAH_TCP::HTTP(msg));
    }
    Err(ArwahCentrifugeError::UnknownProtocol)
}

/// Whether the bytes open with a readable TCP header.
pub open spec fn spec_tcp_header_accepts(b: Seq<u8>) -> bool {
    b.len() >= 20 && (spec_tcp_fixed(b).data_offset <= 5 || 20 + (spec_tcp_fixed(b).data_offset
        - 5) * 4 <= b.len())
}

/// How many bytes of the input the TCP header takes.
pub open spec fn spec_tcp_consumed(b: Seq<u8>) -> int {
    if spec_tcp_fixed(b).data_offset > 5 {
        20 + (spec_tcp_fixed(b).data_offset - 5) * 4
    } else {
        20
    }
}

/// What a successful TCP parse of the bytes holds: the header's scalar
/// fields from the fixed twenty bytes, the options area kept when it reads
/// cleanly, and the payload past the header classified.
pub open spec fn spec_tcp_parse_ok(b: Seq<u8>, h: ArwahTcpHeader, c: ARWAH_TCP) -> bool {
    let fixed = spec_tcp_fixed(b);
    &&& spec_tcp_header_accepts(b)
    &&& (if fixed.data_offset > 5 {
        match spec_tcp_options_from(b.subrange(20, spec_tcp_consumed(b)), 0) {
            Some(opts) => h == ArwahTcpHeader { options: Some(h.options->0), ..fixed }
                && h.options->0@ == opts,
            None => h == fixed,
        }
    } else {
        h == fixed
    })
    &&& spec_tcp_class_ok(b.skip(spec_tcp_consumed(b)), c)
}

/// Parses the TCP layer: the header grammar, then the payload classified,
/// with an unclassifiable payload kept as text or bytes.
pub fn arwah_parse(remaining: &Vec<u8>) -> (r: Result<
    (ArwahTcpHeader, ARWAH_TCP),
    ArwahCentrifugeError,
>)
    ensures
        r is Ok <==> spec_tcp_header_accepts(remaining@),
        r matches Err(e) ==> e == ArwahCentrifugeError::InvalidPacket,
        r matches Ok(p) ==> spec_tcp_parse_ok(remaining@, p.0, p.1),
{
    match arwah_parse_tcp_header(remaining) {
        Some((header, consumed)) => {
            proof {
                assert(consumed == spec_tcp_consumed(remaining@));
            }
            let payload = arwah_tail(remaining, consumed);
            let inner = match arwah_extract(&header, &payload) {
                Ok(x) => x,
                Err(_) => arwah_unknown(&payload),
            };
            proof {
                assert(payload@ == remaining@.skip(spec_tcp_consumed(remaining@)));
                assert(spec_tcp_class_ok(payload@, inner));
            }
            Ok((header, inner))
        },
        None => Err(ArwahCentrifugeError::InvalidPacket),
    }
}

} // verus!
