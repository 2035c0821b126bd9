//! The local DNS relay's answers: every query is forwarded to the
//! encrypted resolver, and the reply is built from its result. Receiving
//! and sending datagrams, and encoding DNS messages (with `hickory-proto`),
//! are the application's.
//!
//! Only `A`/`AAAA` queries are answered; replies carry a fixed TTL.

use vstd::prelude::*;

use crate::dns::error::DnsError;
use crate::net::IpAddress;

verus! {

/// TTL of every answer record, in seconds.
pub const ANSWER_TTL: u32 = 60;

/// The record type a query asks for.
#[derive(Debug, Clone, Copy, PartialEq, Eq, Structural)]
pub enum QueryType {
    A,
    Aaaa,
    Other,
}

#[derive(Debug, Clone, Copy, PartialEq, Eq, Structural)]
pub enum ResponseCode {
    NoError,
    ServFail,
}

/// The question of a query: the name asked about and the record type.
#[derive(Debug, Clone)]
pub struct DnsQuestion {
    pub name: String,
    pub query_type: QueryType,
}

/// One answer record: the name it answers for, its TTL in seconds, and
/// the address.
#[derive(Debug, Clone)]
pub struct AnswerRecord {
    pub name: String,
    pub ttl: u32,
    pub address: IpAddress,
}

/// A reply: the request's id and opcode, the response code, the question
/// echoed back, and the answer records.
#[derive(Debug, Clone)]
pub struct ResponsePlan {
    pub id: u16,
    pub op_code: u8,
    pub response_code: ResponseCode,
    pub question: DnsQuestion,
    pub answers: Vec<AnswerRecord>,
}

/// The addresses of some answer records, in order.
pub open spec fn answer_addresses(answers: Seq<AnswerRecord>) -> Seq<IpAddress> {
    answers.map_values(|a: AnswerRecord| a.address)
}

/// Every record answers for `name` with the fixed TTL.
pub open spec fn answers_for(answers: Seq<AnswerRecord>, name: Seq<char>) -> bool {
    forall|i: int| 0 <= i < answers.len() ==> (#[trigger] answers[i]).name@ == name && answers[i].ttl == ANSWER_TTL
}

/// `ip` answers a query of type `t`: IPv4 for `A`, IPv6 for `AAAA`.
pub open spec fn answers_type(ip: IpAddress, t: QueryType) -> bool {
    match (ip, t) {
        (IpAddress::V4(..), QueryType::A) => true,
        (IpAddress::V6(..), QueryType::Aaaa) => true,
        _ => false,
    }
}

/// The addresses of `ips` that answer type `t`, in order.
pub open spec fn matching(ips: Seq<IpAddress>, t: QueryType) -> Seq<IpAddress>
    decreases ips.len(),
{
    if ips.len() == 0 {
        Seq::empty()
    } else if answers_type(ips.last(), t) {
        matching(ips.drop_last(), t).push(ips.last())
    } else {
        matching(ips.drop_last(), t)
    }
}

/// The reply to a query from the encrypted resolver's result. A failed
/// lookup, and any query that is neither `A` nor `AAAA`, is answered
/// `SERVFAIL` with no answers, never with a made-up or stale address; an
/// address of the wrong family is left out rather than coerced.
pub fn build_response(
    request_id: u16,
    op_code: u8,
    question: &DnsQuestion,
    result: &Result<Vec<IpAddress>, DnsError>,
) -> (r: ResponsePlan)
    ensures
        r.id == request_id,
        r.op_code == op_code,
        r.question.name@ == question.name@,
        r.question.query_type == question.query_type,
        answers_for(r.answers@, question.name@),
        (result is Err || question.query_type == QueryType::Other) ==> r.response_code
            == ResponseCode::ServFail && r.answers@.len() == 0,
        (result is Ok && question.query_type != QueryType::Other) ==> r.response_code == ResponseCode::NoError
            && answer_addresses(r.answers@) == matching(result->Ok_0@, question.query_type),
{
    let query_type = question.query_type;
    let echoed = DnsQuestion { name: question.name.clone(), query_type };
    if query_type == QueryType::Other {
        return ResponsePlan {
            id: request_id,
            op_code,
            response_code: ResponseCode::ServFail,
            question: echoed,
            answers: Vec::new(),
        };
    }
    match result {
        Ok(ips) => {
            let mut answers: Vec<AnswerRecord> = Vec::new();
            let mut i: usize = 0;
            while i < ips.len()
                invariant
                    i <= ips@.len(),
                    answer_addresses(answers@) == matching(ips@.take(i as int), query_type),
                    answers_for(answers@, question.name@),
                decreases ips@.len() - i,
            {
                let ip = ips[i];
                proof {
                    assert(ips@.take(i + 1).drop_last() =~= ips@.take(i as int));
                    assert(ips@.take(i + 1).last() == ip);
                }
                let keep = match (ip, query_type) {
                    (IpAddress::V4(..), QueryType::A) => true,
                    (IpAddress::V6(..), QueryType::Aaaa) => true,
                    _ => false,
                };
                if keep {
                    let ghost before = answers@;
                    answers.push(AnswerRecord { name: question.name.clone(), ttl: ANSWER_TTL, address: ip });
                    assert(answer_addresses(answers@) =~= answer_addresses(before).push(ip));
                } else {
                }
                i = i + 1;
            }
            assert(ips@.take(i as int) =~= ips@);
            ResponsePlan { id: request_id, op_code, response_code: ResponseCode::NoError, question: echoed, answers }
        },
        Err(_) => ResponsePlan {
            id: request_id,
            op_code,
            response_code: ResponseCode::ServFail,
            question: echoed,
            answers: Vec::new(),
        },
    }
}

/// Every address a reply carries answers the query's type and came from
/// the resolver's answer.
pub proof fn law_answers_match_the_query(ips: Seq<IpAddress>, t: QueryType, i: int)
    requires
        0 <= i < matching(ips, t).len(),
    ensures
        answers_type(matching(ips, t)[i], t),
        ips.contains(matching(ips, t)[i]),
    decreases ips.len(),
{
    let rest = matching(ips.drop_last(), t);
    if answers_type(ips.last(), t) && i == rest.len() {
        assert(ips[ips.len() - 1] == ips.last());
    } else {
        law_answers_match_the_query(ips.drop_last(), t, i);
        let j = choose|j: int| 0 <= j < ips.drop_last().len() && ips.drop_last()[j] == matching(
            ips,
            t,
        )[i];
        assert(ips[j] == ips.drop_last()[j]);
    }
}

} // verus!
