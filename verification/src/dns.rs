//! DNS packets: queries with their question types, answers with their
//! record data.

use vstd::prelude::*;
use dns_parser::RData;
use crate::centrifuge::ArwahCentrifugeError;

verus! {

/// A question type, by its registry mnemonic.
#[derive(Debug, Clone, Copy, PartialEq, Eq, Structural)]
pub enum ArwahQueryType {
    A,
    NS,
    MF,
    CNAME,
    SOA,
    MB,
    MG,
    MR,
    NULL,
    WKS,
    PTR,
    HINFO,
    MINFO,
    MX,
    TXT,
    AAAA,
    SRV,
    AXFR,
    MAILB,
    MAILA,
    All,
}

/// A record's data, reduced to plain values.
#[derive(Debug, Clone, PartialEq, Eq)]
pub enum ArwahRecord {
    A([u8; 4]),
    AAAA([u8; 16]),
    CNAME(String),
    NS(String),
    PTR(String),
    TXT(Vec<Vec<u8>>),
    Unknown,
}

/// A query: the questions asked.
#[derive(Debug, Clone, PartialEq, Eq)]
pub struct ArwahRequest {
    pub questions: Vec<(ArwahQueryType, String)>,
}

/// An answer set: each name with its record data.
#[derive(Debug, Clone, PartialEq, Eq)]
pub struct ArwahResponse {
    pub answers: Vec<(String, ArwahRecord)>,
}

/// A DNS message: a query or an answer set.
#[derive(Debug, Clone, PartialEq, Eq)]
#[allow(non_camel_case_types)]
pub enum ARWAH_DNS {
    Request(ArwahRequest),
    Response(ArwahResponse),
}

/// What the parser filled in, with question types still numeric.
#[derive(Debug, Clone, PartialEq, Eq)]
pub struct ArwahDnsRaw {
    pub query: bool,
    pub questions: Vec<(u16, String)>,
    pub answers: Vec<(String, ArwahRecord)>,
}

/// What `dns_parser::Packet::parse` yields on the bytes, reduced, or
/// nothing where no packet parses.
pub uninterp spec fn spec_dns_of(b: Seq<u8>) -> Option<ArwahDnsRaw>;

/// The numeric question types the parser can yield.
pub open spec fn spec_valid_qtype(q: u16) -> bool {
    q == 1 || q == 2 || q == 4 || q == 5 || q == 6 || q == 7 || q == 8 || q == 9 || q == 10 || q
        == 11 || q == 12 || q == 13 || q == 14 || q == 15 || q == 16 || q == 28 || q == 33 || q
        == 252 || q == 253 || q == 254 || q == 255
}

/// Relies on `dns_parser::Packet::parse` for the header's query bit and
/// the question list; question types keep their registry numbers, which
/// the parser has already validated.
#[verifier::external_body]
fn arwah_dns_head(b: &Vec<u8>) -> (r: Option<(bool, Vec<(u16, String)>)>)
    ensures
        match r {
            Some(h) => spec_dns_of(b@) matches Some(d) && d.query == h.0 && d.questions@ == h.1@
                && forall|k: int|
                0 <= k < h.1@.len() ==> spec_valid_qtype((#[trigger] h.1@[k]).0),
            None => spec_dns_of(b@) is None,
        },
{
    match dns_parser::Packet::parse(b.as_slice()) {
        Err(_) => None,
        Ok(p) => Some((
            p.header.query,
            p.questions.iter().map(|q| (q.qtype as u16, q.qname.to_string())).collect(),
        )),
    }
}

/// Relies on `dns_parser::Packet::parse` for the answers' names, in
/// order.
#[verifier::external_body]
fn arwah_dns_answer_names(b: &Vec<u8>) -> (r: Option<Vec<String>>)
    ensures
        match r {
            Some(names) => spec_dns_of(b@) matches Some(d) && d.answers@.len() == names@.len()
                && forall|k: int|
                0 <= k < names@.len() ==> (#[trigger] d.answers@[k]).0 == names@[k],
            None => spec_dns_of(b@) is None,
        },
{
    match dns_parser::Packet::parse(b.as_slice()) {
        Err(_) => None,
        Ok(p) => Some(p.answers.iter().map(|a| a.name.to_string()).collect()),
    }
}

/// Relies on `dns_parser::Packet::parse` for the answers' record data, in
/// order: each record is reduced to plain values, and anything else
/// becomes `Unknown`.
#[verifier::external_body]
fn arwah_dns_answer_records(b: &Vec<u8>) -> (r: Option<Vec<ArwahRecord>>)
    ensures
        match r {
            Some(records) => spec_dns_of(b@) matches Some(d) && d.answers@.len() == records@.len()
                && forall|k: int|
                0 <= k < records@.len() ==> (#[trigger] d.answers@[k]).1 == records@[k],
            None => spec_dns_of(b@) is None,
        },
{
    match dns_parser::Packet::parse(b.as_slice()) {
        Err(_) => None,
        Ok(p) => Some(p.answers.iter().map(|a| match &a.data {
            RData::A(x) => ArwahRecord::A(x.0.octets()),
            RData::AAAA(x) => ArwahRecord::AAAA(x.0.octets()),
            RData::CNAME(n) => ArwahRecord::CNAME(n.0.to_string()),
            RData::NS(n) => ArwahRecord::NS(n.0.to_string()),
            RData::PTR(n) => ArwahRecord::PTR(n.0.to_string()),
            RData::TXT(t) => ArwahRecord::TXT(t.iter().map(|c| c.to_vec()).collect()),
            _ => ArwahRecord::Unknown,
        }).collect()),
    }
}

/// The mnemonic for a numeric question type; numbers outside the registry
/// list fall back to `A`, which the parser never yields.
pub open spec fn spec_qtype_of(q: u16) -> ArwahQueryType {
    if q == 2 {
        ArwahQueryType::NS
    } else if q == 4 {
        ArwahQueryType::MF
    } else if q == 5 {
        ArwahQueryType::CNAME
    } else if q == 6 {
        ArwahQueryType::SOA
    } else if q == 7 {
        ArwahQueryType::MB
    } else if q == 8 {
        ArwahQueryType::MG
    } else if q == 9 {
        ArwahQueryType::MR
    } else if q == 10 {
        ArwahQueryType::NULL
    } else if q == 11 {
        ArwahQueryType::WKS
    } else if q == 12 {
        ArwahQueryType::PTR
    } else if q == 13 {
        ArwahQueryType::HINFO
    } else if q == 14 {
        ArwahQueryType::MINFO
    } else if q == 15 {
        ArwahQueryType::MX
    } else if q == 16 {
        ArwahQueryType::TXT
    } else if q == 28 {
        ArwahQueryType::AAAA
    } else if q == 33 {
        ArwahQueryType::SRV
    } else if q == 252 {
        ArwahQueryType::AXFR
    } else if q == 253 {
        ArwahQueryType::MAILB
    } else if q == 254 {
        ArwahQueryType::MAILA
    } else if q == 255 {
        ArwahQueryType::All
    } else {
        ArwahQueryType::A
    }
}

/// Maps a numeric question type to its mnemonic.
pub fn arwah_qtype(q: u16) -> (r: ArwahQueryType)
    ensures
        r == spec_qtype_of(q),
{
    if q == 2 {
        ArwahQueryType::NS
    } else if q == 4 {
        ArwahQueryType::MF
    } else if q == 5 {
        ArwahQueryType::CNAME
    } else if q == 6 {
        ArwahQueryType::SOA
    } else if q == 7 {
        ArwahQueryType::MB
    } else if q == 8 {
        ArwahQueryType::MG
    } else if q == 9 {
        ArwahQueryType::MR
    } else if q == 10 {
        ArwahQueryType::NULL
    } else if q == 11 {
        ArwahQueryType::WKS
    } else if q == 12 {
        ArwahQueryType::PTR
    } else if q == 13 {
        ArwahQueryType::HINFO
    } else if q == 14 {
        ArwahQueryType::MINFO
    } else if q == 15 {
        ArwahQueryType::MX
    } else if q == 16 {
        ArwahQueryType::TXT
    } else if q == 28 {
        ArwahQueryType::AAAA
    } else if q == 33 {
        ArwahQueryType::SRV
    } else if q == 252 {
        ArwahQueryType::AXFR
    } else if q == 253 {
        ArwahQueryType::MAILB
    } else if q == 254 {
        ArwahQueryType::MAILA
    } else if q == 255 {
        ArwahQueryType::All
    } else {
        ArwahQueryType::A
    }
}

impl ArwahRequest {
    /// Wraps the questions.
    pub fn arwah_new(questions: Vec<(ArwahQueryType, String)>) -> (r: ArwahRequest)
        ensures
            r.questions == questions,
    {
        ArwahRequest { questions }
    }

    /// Tags the query as a DNS message.
    pub fn arwah_wrap(self) -> (r: ARWAH_DNS)
        ensures
            r == ARWAH_DNS::Request(self),
    {
        ARWAH_DNS::Request(self)
    }
}

impl ArwahResponse {
    /// Wraps the answers.
    pub fn arwah_new(answers: Vec<(String, ArwahRecord)>) -> (r: ArwahResponse)
        ensures
            r.answers == answers,
    {
        ArwahResponse { answers }
    }

    /// Tags the answer set as a DNS message.
    pub fn arwah_wrap(self) -> (r: ARWAH_DNS)
        ensures
            r == ARWAH_DNS::Response(self),
    {
        ARWAH_DNS::Response(self)
    }
}

/// What a successful DNS extraction of the bytes holds: the query bit
/// decides the variant, questions carry their mapped types, and answers
/// come through unchanged.
pub open spec fn spec_dns_result_ok(b: Seq<u8>, v: ARWAH_DNS) -> bool {
    match spec_dns_of(b) {
        Some(d) => match v {
            ARWAH_DNS::Request(req) => d.query && req.questions@.len() == d.questions@.len()
                && forall|k: int|
                0 <= k < d.questions@.len() ==> (#[trigger] req.questions@[k]).0 == spec_qtype_of(
                    d.questions@[k].0,
                ) && req.questions@[k].1 == d.questions@[k].1,
            ARWAH_DNS::Response(resp) => !d.query && resp.answers@.len() == d.answers@.len() && (
            forall|k: int|
                0 <= k < d.answers@.len() ==> (#[trigger] resp.answers@[k]).0 == d.answers@[k].0
                    && resp.answers@[k].1 == d.answers@[k].1),
        },
        None => false,
    }
}

/// Extracts a DNS message: a packet whose header sets the query bit
/// becomes a request with its questions, any other packet becomes a
/// response with its answers, and bytes that parse as neither are the
/// wrong protocol.
pub fn arwah_extract(remaining: &Vec<u8>) -> (r: Result<ARWAH_DNS, ArwahCentrifugeError>)
    ensures
        r is Err <==> spec_dns_of(remaining@) is None,
        r matches Err(e) ==> e == ArwahCentrifugeError::WrongProtocol,
        r matches Ok(v) ==> spec_dns_result_ok(remaining@, v),
{
    let head = match arwah_dns_head(remaining) {
        Some(h) => h,
        None => {
            return Err(ArwahCentrifugeError::WrongProtocol);
        },
    };
    let (query, raw_questions) = head;
    if query {
        let mut questions: Vec<(ArwahQueryType, String)> = Vec::new();
        let mut i: usize = 0;
        while i < raw_questions.len()
            invariant
                i <= raw_questions@.len(),
                questions@.len() == i,
                forall|k: int|
                    0 <= k < i ==> (#[trigger] questions@[k]).0 == spec_qtype_of(
                        raw_questions@[k].0,
                    ) && questions@[k].1 == raw_questions@[k].1,
            decreases raw_questions@.len() - i,
        {
            let qt = arwah_qtype(raw_questions[i].0);
            questions.push((qt, raw_questions[i].1.clone()));
            i += 1;
        }
        Ok(ArwahRequest::arwah_new(questions).arwah_wrap())
    } else {
        let names = match arwah_dns_answer_names(remaining) {
            Some(names) => names,
            None => {
                return Err(ArwahCentrifugeError::WrongProtocol);
            },
        };
        let records = match arwah_dns_answer_records(remaining) {
            Some(records) => records,
            None => {
                return Err(ArwahCentrifugeError::WrongProtocol);
            },
        };
        let ghost d = spec_dns_of(remaining@)->0;
        let mut answers: Vec<(String, ArwahRecord)> = Vec::new();
        let mut names = names;
        let mut records = records;
        let ghost total = d.answers@.len();
        while names.len() > 0 && records.len() > 0
            invariant
                names@.len() == records@.len(),
                answers@.len() + names@.len() == total,
                d == spec_dns_of(remaining@)->0,
                spec_dns_of(remaining@) is Some,
                total == d.answers@.len(),
                forall|k: int|
                    0 <= k < names@.len() ==> (#[trigger] d.answers@[k + answers@.len()]).0
                        == names@[k],
                forall|k: int|
                    0 <= k < records@.len() ==> (#[trigger] d.answers@[k + answers@.len()]).1
                        == records@[k],
                forall|k: int|
                    0 <= k < answers@.len() ==> (#[trigger] answers@[k]).0 == d.answers@[k].0
                        && answers@[k].1 == d.answers@[k].1,
            decreases names@.len(),
        {
            let ghost pre_names = names@;
            let ghost pre_records = records@;
            let ghost pre_answers = answers@;
            let name = names.remove(0);
            let record = records.remove(0);
            answers.push((name, record));
            proof {
                assert(names@ =~= pre_names.skip(1));
                assert(records@ =~= pre_records.skip(1));
                assert forall|k: int|
                    0 <= k < names@.len() implies (#[trigger] d.answers@[k + answers@.len()]).0
                    == names@[k] by {
                    assert(names@[k] == pre_names[k + 1]);
                    assert(d.answers@[(k + 1) + pre_answers.len()].0 == pre_names[k + 1]);
                }
                assert forall|k: int|
                    0 <= k < records@.len() implies (#[trigger] d.answers@[k + answers@.len()]).1
                    == records@[k] by {
                    assert(records@[k] == pre_records[k + 1]);
                    assert(d.answers@[(k + 1) + pre_answers.len()].1 == pre_records[k + 1]);
                }
                assert forall|k: int|
                    0 <= k < answers@.len() implies (#[trigger] answers@[k]).0 == d.answers@[k].0
                    && answers@[k].1 == d.answers@[k].1 by {
                    if k < pre_answers.len() {
                        assert(answers@[k] == pre_answers[k]);
                    } else {
                        assert(answers@[k] == (name, record));
                        assert(d.answers@[0 + pre_answers.len() as int].0 == pre_names[0]);
                        assert(d.answers@[0 + pre_answers.len() as int].1 == pre_records[0]);
                    }
                }
            }
        }
        Ok(ArwahResponse::arwah_new(answers).arwah_wrap())
    }
}

} // verus!
