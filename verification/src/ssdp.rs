//! SSDP (HTTPU) discovery text: prefix dispatch over the request line.

use vstd::prelude::*;
use crate::centrifuge::ArwahCentrifugeError;

verus! {

/// An SSDP message: a search, a notification, or a torrent search, with
/// whatever followed the request line.
#[derive(Debug, Clone, PartialEq, Eq)]
#[allow(non_camel_case_types)]
pub enum ARWAH_SSDP {
    Discover(Option<String>),
    Notify(String),
    BTSearch(String),
}

/// Whether `p` is a prefix of `s`.
pub open spec fn spec_starts_with(s: Seq<char>, p: Seq<char>) -> bool {
    s.len() >= p.len() && s.subrange(0, p.len() as int) == p
}

/// Strips a known prefix, if present.
fn arwah_strip_prefix(data: &str, prefix: &str) -> (r: Option<String>)
    ensures
        r is Some <==> spec_starts_with(data@, prefix@),
        r matches Some(rest) ==> rest@ == data@.skip(prefix@.len() as int),
{
    let dn = data.unicode_len();
    let pn = prefix.unicode_len();
    if pn > dn {
        proof {
            if spec_starts_with(data@, prefix@) {
            }
        }
        return None;
    }
    let mut j: usize = 0;
    while j < pn
        invariant
            j <= pn,
            pn <= dn,
            dn == data@.len(),
            pn == prefix@.len(),
            data@.subrange(0, j as int) =~= prefix@.subrange(0, j as int),
        decreases pn - j,
    {
        if data.get_char(j) != prefix.get_char(j) {
            proof {
                assert(data@.subrange(0, prefix@.len() as int)[j as int] == data@[j as int]);
                assert(!spec_starts_with(data@, prefix@));
            }
            return None;
        }
        j += 1;
        proof {
            assert(data@.subrange(0, j as int) =~= prefix@.subrange(0, j as int));
        }
    }
    let rest = data.substring_char(pn, dn);
    proof {
        assert(prefix@.subrange(0, prefix@.len() as int) =~= prefix@);
        assert(spec_starts_with(data@, prefix@));
        assert(rest@ =~= data@.skip(prefix@.len() as int));
    }
    Some(rest.to_owned())
}

/// Whether two strings hold the same characters.
fn arwah_text_eq(a: &str, b: &str) -> (r: bool)
    ensures
        r == (a@ == b@),
{
    let an = a.unicode_len();
    let bn = b.unicode_len();
    if an != bn {
        return false;
    }
    let mut j: usize = 0;
    while j < an
        invariant
            j <= an,
            an == a@.len(),
            bn == b@.len(),
            an == bn,
            a@.subrange(0, j as int) =~= b@.subrange(0, j as int),
        decreases an - j,
    {
        if a.get_char(j) != b.get_char(j) {
            proof {
                assert(a@[j as int] != b@[j as int]);
            }
            return false;
        }
        j += 1;
        proof {
            assert(a@.subrange(0, j as int) =~= b@.subrange(0, j as int));
        }
    }
    proof {
        assert(a@.subrange(0, an as int) =~= a@);
        assert(b@.subrange(0, bn as int) =~= b@);
        assert(a@ =~= b@);
    }
    true
}

/// Whether the text's request line is one of the recognized SSDP forms.
pub open spec fn spec_ssdp_accepts(data: Seq<char>) -> bool {
    ||| spec_starts_with(data, "M-SEARCH * HTTP/1.1\r\n"@)
    ||| data == "M-SEARCH * HTTP/1.0"@
    ||| spec_starts_with(data, "NOTIFY * HTTP/1.1\r\n"@)
    ||| spec_starts_with(data, "BT-SEARCH * HTTP/1.1\r\n"@)
}

/// What a successful SSDP classification of the text holds.
pub open spec fn spec_ssdp_result_ok(data: Seq<char>, v: ARWAH_SSDP) -> bool {
    match v {
        ARWAH_SSDP::Discover(extra) => (spec_starts_with(data, "M-SEARCH * HTTP/1.1\r\n"@)
            && (match extra {
            Some(e) => e@ == data.skip("M-SEARCH * HTTP/1.1\r\n"@.len() as int) && e@.len() > 0,
            None => data.len() == "M-SEARCH * HTTP/1.1\r\n"@.len(),
        })) || (data == "M-SEARCH * HTTP/1.0"@ && extra is None),
        ARWAH_SSDP::Notify(e) => spec_starts_with(data, "NOTIFY * HTTP/1.1\r\n"@) && e@
            == data.skip("NOTIFY * HTTP/1.1\r\n"@.len() as int),
        ARWAH_SSDP::BTSearch(e) => spec_starts_with(data, "BT-SEARCH * HTTP/1.1\r\n"@) && e@
            == data.skip("BT-SEARCH * HTTP/1.1\r\n"@.len() as int),
    }
}

/// Classifies SSDP text: an `M-SEARCH` line (1.1 with trailing text kept,
/// or a bare 1.0 line), a `NOTIFY` line, or a torrent `BT-SEARCH` line;
/// anything else is no SSDP.
pub fn arwah_parse_ssdp(data: &str) -> (r: Result<ARWAH_SSDP, ArwahCentrifugeError>)
    ensures
        r is Ok <==> spec_ssdp_accepts(data@),
        match r {
            Ok(v) => spec_ssdp_result_ok(data@, v),
            Err(e) => e == ArwahCentrifugeError::UnknownProtocol,
        },
{
    if let Some(extra) = arwah_strip_prefix(data, "M-SEARCH * HTTP/1.1\r\n") {
        let extra = if extra.as_str().is_empty() {
            None
        } else {
            Some(extra)
        };
        Ok(ARWAH_SSDP::Discover(extra))
    } else if arwah_text_eq(data, "M-SEARCH * HTTP/1.0") {
        Ok(ARWAH_SSDP::Discover(None))
    } else if let Some(rest) = arwah_strip_prefix(data, "NOTIFY * HTTP/1.1\r\n") {
        Ok(ARWAH_SSDP::Notify(rest))
    } else if let Some(rest) = arwah_strip_prefix(data, "BT-SEARCH * HTTP/1.1\r\n") {
        Ok(ARWAH_SSDP::BTSearch(rest))
    } else {
        Err(ArwahCentrifugeError::UnknownProtocol)
    }
}

} // verus!
