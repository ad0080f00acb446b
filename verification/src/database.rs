//! The geolocation database: a read-only store of records keyed by address.

use crate::address::IpAddress;
use maxminddb::geoip2;
use maxminddb::Mmap;
use maxminddb::Reader;
use vstd::prelude::*;

verus! {

/// A reader over a memory-mapped database image, as the one who opened it
/// hands it over. Verification does not look inside: what it holds is
/// spoken of through [`city_records`] and [`country_records`].
///
/// The mapped bytes are taken to stay as they are for as long as the image
/// lives. A file that is rewritten under its mapping has no fixed contents,
/// and nothing that is said here holds of it.
#[verifier::external_body]
pub struct Image {
    pub reader: Reader<Mmap>,
}

/// The city records of an image: for the octets of each address that it has
/// one for, the record as compact JSON text with the members of each object
/// in the order of their names. `None` for an image that is not laid out as
/// a MaxMind DB, on which a lookup need not return.
pub uninterp spec fn city_records(image: Image) -> Option<Map<Seq<u8>, Seq<char>>>;

/// The country records of an image, in the same form as [`city_records`].
pub uninterp spec fn country_records(image: Image) -> Option<Map<Seq<u8>, Seq<char>>>;

/// Whether an image is laid out as a MaxMind DB, so that every lookup on it
/// returns. Nothing in this library can test that: it is what the one who
/// opens a database answers for.
pub open spec fn well_formed(image: Image) -> bool {
    city_records(image) is Some && country_records(image) is Some
}

/// What a store of records holds for one key.
pub open spec fn record_at(records: Map<Seq<u8>, Seq<char>>, key: Seq<u8>) -> Option<Seq<char>> {
    if records.contains_key(key) {
        Some(records[key])
    } else {
        None
    }
}

/// Whether `found` is what `expected` says, the record taken by its view.
pub open spec fn holds(found: Option<String>, expected: Option<Seq<char>>) -> bool {
    match found {
        Some(record) => expected == Some(record@),
        None => expected is None,
    }
}

/// Calls `maxminddb::Reader::lookup` for a `geoip2::City` and renders the
/// record through `serde_json::to_value` and `serde_json::to_string`.
///
/// Believed, not proved: the outcome depends on the image and the address
/// alone, so it is the entry of [`city_records`] for the address's octets;
/// an address for which the lookup or the rendering fails has no entry.
#[verifier::external_body]
fn find_city(image: &Image, ip: IpAddress) -> (found: Option<String>)
    requires
        city_records(*image) is Some,
    ensures
        holds(found, record_at(city_records(*image).unwrap(), ip@)),
{
    let record: geoip2::City = match ip {
        IpAddress::V4(octets) => image.reader.lookup(octets.into()),
        IpAddress::V6(octets) => image.reader.lookup(octets.into()),
    }.ok()?;
    serde_json::to_string(&serde_json::to_value(record).ok()?).ok()
}

/// Calls `maxminddb::Reader::lookup` for a `geoip2::Country` and renders
/// the record as [`find_city`] does.
///
/// Believed, not proved: the outcome is the entry of [`country_records`]
/// for the address's octets.
#[verifier::external_body]
fn find_country(image: &Image, ip: IpAddress) -> (found: Option<String>)
    requires
        country_records(*image) is Some,
    ensures
        holds(found, record_at(country_records(*image).unwrap(), ip@)),
{
    let record: geoip2::Country = match ip {
        IpAddress::V4(octets) => image.reader.lookup(octets.into()),
        IpAddress::V6(octets) => image.reader.lookup(octets.into()),
    }.ok()?;
    serde_json::to_string(&serde_json::to_value(record).ok()?).ok()
}

/// A geolocation database: a well-formed image, opened once and never
/// written to. Lookups read it and change nothing.
pub struct GeoDatabase {
    image: Image,
}

impl GeoDatabase {
    #[verifier::type_invariant]
    spec fn image_is_well_formed(self) -> bool {
        well_formed(self.image)
    }

    /// The city records: for the octets of each address that has one, the
    /// record as compact JSON text.
    pub closed spec fn cities(&self) -> Map<Seq<u8>, Seq<char>> {
        city_records(self.image).unwrap()
    }

    /// The country records, in the same form.
    pub closed spec fn countries(&self) -> Map<Seq<u8>, Seq<char>> {
        country_records(self.image).unwrap()
    }

    /// Takes over an opened image. The image must be a well-formed
    /// database; from here on no lookup asks for that again.
    pub fn new(image: Image) -> (db: GeoDatabase)
        requires
            well_formed(image),
        ensures
            city_records(image) == Some(db.cities()),
            country_records(image) == Some(db.countries()),
    {
        GeoDatabase { image }
    }

    /// The city record of an address, or `None` where the database has
    /// none for it.
    pub fn lookup_city(&self, ip: IpAddress) -> (found: Option<String>)
        ensures
            holds(found, record_at(self.cities(), ip@)),
    {
        proof {
            use_type_invariant(self);
        }
        find_city(&self.image, ip)
    }

    /// The country record of an address, or `None` where the database has
    /// none for it.
    pub fn lookup_country(&self, ip: IpAddress) -> (found: Option<String>)
        ensures
            holds(found, record_at(self.countries(), ip@)),
    {
        proof {
            use_type_invariant(self);
        }
        find_country(&self.image, ip)
    }
}

} // verus!
