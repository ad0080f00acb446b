//! The two lookups, from the text of an address to the reply, and the
//! liveness reply.

use crate::address::IpAddress;
use crate::grammar::address;
use crate::database::{record_at, GeoDatabase};
use crate::taxonomy::{LookupError, Reply, ReplyView};
use vstd::prelude::*;
use vstd::string::StringSliceAdditionalSpecFns;

verus! {

/// The status of a reply that carries a record.
pub const STATUS_OK: u16 = 200;

/// What a lookup makes of what the database holds for an address: the
/// record as it stands with status 200, or the failure that says that there
/// is none.
pub open spec fn outcome_of(found: Option<Seq<char>>) -> Result<ReplyView, LookupError> {
    match found {
        Some(record) => Ok(ReplyView { status: STATUS_OK, body: record }),
        None => Err(LookupError::IpAddressNotFound),
    }
}

/// What a lookup in a store of records answers to the text of an address.
/// A text that denotes no address is refused before the store is asked.
pub open spec fn lookup_outcome(records: Map<Seq<u8>, Seq<char>>, text: Seq<u8>) -> Result<
    ReplyView,
    LookupError,
> {
    match address(text) {
        Some(octets) => outcome_of(record_at(records, octets)),
        None => Err(LookupError::IpAddressInvalid),
    }
}

/// What the city lookup answers to a text.
pub open spec fn city_outcome(db: GeoDatabase, text: Seq<u8>) -> Result<ReplyView, LookupError> {
    lookup_outcome(db.cities(), text)
}

/// What the country lookup answers to a text.
pub open spec fn country_outcome(db: GeoDatabase, text: Seq<u8>) -> Result<
    ReplyView,
    LookupError,
> {
    lookup_outcome(db.countries(), text)
}

/// Whether `answer` is what `expected` says, the reply taken by its view.
pub open spec fn agrees(answer: Result<Reply, LookupError>, expected: Result<ReplyView, LookupError>)
    -> bool {
    match answer {
        Ok(reply) => expected == Ok::<ReplyView, LookupError>(reply@),
        Err(failure) => expected == Err::<ReplyView, LookupError>(failure),
    }
}

/// Shapes what the database gave for an address into the answer.
pub fn record_reply(found: Option<String>) -> (answer: Result<Reply, LookupError>)
    ensures
        agrees(
            answer,
            outcome_of(
                match found {
                    Some(record) => Some(record@),
                    None => None,
                },
            ),
        ),
{
    match found {
        Some(record) => Ok(Reply { status: STATUS_OK, body: record }),
        None => Err(LookupError::IpAddressNotFound),
    }
}

/// Looks up the city record of the address that `raw` denotes.
pub fn city(db: &GeoDatabase, raw: &str) -> (answer: Result<Reply, LookupError>)
    ensures
        agrees(answer, city_outcome(*db, raw.spec_bytes())),
{
    match IpAddress::parse(raw) {
        Some(ip) => record_reply(db.lookup_city(ip)),
        None => Err(LookupError::IpAddressInvalid),
    }
}

/// Looks up the country record of the address that `raw` denotes.
pub fn country(db: &GeoDatabase, raw: &str) -> (answer: Result<Reply, LookupError>)
    ensures
        agrees(answer, country_outcome(*db, raw.spec_bytes())),
{
    match IpAddress::parse(raw) {
        Some(ip) => record_reply(db.lookup_country(ip)),
        None => Err(LookupError::IpAddressInvalid),
    }
}

/// What is sent for an outcome: the reply itself, or the failure's reply.
pub open spec fn reply_of(outcome: Result<ReplyView, LookupError>) -> ReplyView {
    match outcome {
        Ok(reply) => reply,
        Err(failure) => ReplyView { status: failure.spec_status(), body: failure.spec_body() },
    }
}

/// Turns an answer into the reply to send. Every failure leaves here as its
/// own status, code and message.
pub fn respond(answer: Result<Reply, LookupError>) -> (reply: Reply)
    ensures
        reply@ == reply_of(
            match answer {
                Ok(found) => Ok(found@),
                Err(failure) => Err(failure),
            },
        ),
{
    match answer {
        Ok(found) => found,
        Err(failure) => failure.into_response(),
    }
}

/// The reply that says that the service is up. It asks nothing of any
/// database.
pub fn liveness() -> (reply: Reply)
    ensures
        reply@.status == STATUS_OK,
        reply@.body == "ok"@,
{
    Reply { status: STATUS_OK, body: "ok".to_owned() }
}

} // verus!
