//! What holds of every lookup, whatever the text and the database.

use crate::database::GeoDatabase;
use crate::grammar::{
    address, dotted_quad, fields, first_gap, first_index, gap_at, group, groups, has_gap,
    is_digit, is_hex_digit, lemma_first_gap_is_first, lemma_first_index_is_first, lemma_no_gap,
    octet, pieces, segments, COLON, DOT,
};
use crate::handler::{agrees, city_outcome, country_outcome, reply_of, STATUS_OK};
use crate::taxonomy::{LookupError, Reply, ReplyView};
use vstd::prelude::*;

verus! {

/// A text that denotes no address is refused by both lookups, whatever the
/// database holds: the reply has status 400 and the code
/// `IP_ADDRESS_INVALID`.
pub proof fn lemma_invalid_text_is_refused(db: GeoDatabase, text: Seq<u8>)
    requires
        address(text) is None,
    ensures
        city_outcome(db, text) == Err::<ReplyView, LookupError>(LookupError::IpAddressInvalid),
        country_outcome(db, text) == Err::<ReplyView, LookupError>(LookupError::IpAddressInvalid),
        reply_of(city_outcome(db, text)).status == 400,
        reply_of(country_outcome(db, text)).status == 400,
        reply_of(city_outcome(db, text)).body == LookupError::IpAddressInvalid.spec_body(),
        reply_of(country_outcome(db, text)).body == LookupError::IpAddressInvalid.spec_body(),
        LookupError::IpAddressInvalid.spec_code() == "IP_ADDRESS_INVALID"@,
{
}

/// The empty text denotes no address.
pub proof fn lemma_empty_text_is_no_address()
    ensures
        address(Seq::<u8>::empty()) is None,
{
    let text = Seq::<u8>::empty();
    reveal(pieces);
    assert(first_index(text, DOT) == 0);
    assert(fields(text, DOT) =~= seq![text]);
    assert(dotted_quad(text) is None);
    lemma_no_gap(text);
    assert(pieces(text, true) == Some(Seq::<u16>::empty()));
    assert(segments(text) is None);
}

/// Whether `b` is one of the bytes that the text of an address is made of:
/// a hexadecimal digit, a dot or a colon.
pub open spec fn in_alphabet(b: u8) -> bool {
    is_hex_digit(b) || b == DOT || b == COLON
}

/// Whether one of the fields holds the byte `b`.
spec fn held(f: Seq<Seq<u8>>, b: u8) -> bool {
    exists|k: int, j: int| 0 <= k < f.len() && 0 <= j < f[k].len() && #[trigger] f[k][j] == b
}

/// Every byte of a text that is no separator stands in one of its fields.
proof fn lemma_fields_hold_every_byte(s: Seq<u8>, sep: u8, i: int)
    requires
        0 <= i < s.len(),
        s[i] != sep,
    ensures
        held(fields(s, sep), s[i]),
    decreases s.len(),
{
    lemma_first_index_is_first(s, sep);
    let n = first_index(s, sep);
    let f = fields(s, sep);
    if n >= s.len() {
        assert(f =~= seq![s]);
        assert(f[0][i] == s[i]);
    } else if i < n {
        assert(f[0] == s.take(n));
        assert(f[0][i] == s[i]);
    } else {
        let rest = s.skip(n + 1);
        assert(rest[i - n - 1] == s[i]);
        lemma_fields_hold_every_byte(rest, sep, i - n - 1);
        let g = fields(rest, sep);
        let (k, j) = choose|k: int, j: int|
            0 <= k < g.len() && 0 <= j < g[k].len() && #[trigger] g[k][j] == s[i];
        assert(f[k + 1] == g[k]);
        assert(f[k + 1][j] == s[i]);
    }
}

/// A dotted quad is made of decimal digits and dots.
proof fn lemma_quad_alphabet(s: Seq<u8>, i: int)
    requires
        dotted_quad(s) is Some,
        0 <= i < s.len(),
    ensures
        s[i] == DOT || is_digit(s[i]),
{
    if s[i] != DOT {
        lemma_fields_hold_every_byte(s, DOT, i);
        let f = fields(s, DOT);
        let (k, j) = choose|k: int, j: int|
            0 <= k < f.len() && 0 <= j < f[k].len() && #[trigger] f[k][j] == s[i];
        assert(octet(f[k]) is Some);
    }
}

/// A run of groups is made of the bytes of the alphabet.
proof fn lemma_pieces_alphabet(s: Seq<u8>, quad_allowed: bool, i: int)
    requires
        pieces(s, quad_allowed) is Some,
        0 <= i < s.len(),
    ensures
        in_alphabet(s[i]),
{
    reveal(pieces);
    if s[i] != COLON {
        lemma_fields_hold_every_byte(s, COLON, i);
        let f = fields(s, COLON);
        let (k, j) = choose|k: int, j: int|
            0 <= k < f.len() && 0 <= j < f[k].len() && #[trigger] f[k][j] == s[i];
        if quad_allowed && dotted_quad(f.last()) is Some {
            if k == f.len() - 1 {
                lemma_quad_alphabet(f.last(), j);
            } else {
                assert(groups(f.drop_last()) is Some);
                assert(f.drop_last()[k] == f[k]);
                assert(group(f.drop_last()[k]) is Some);
            }
        } else {
            assert(groups(f) is Some);
            assert(group(f[k]) is Some);
        }
    }
}

/// The text of an IPv6 address is made of the bytes of the alphabet.
proof fn lemma_segments_alphabet(s: Seq<u8>, i: int)
    requires
        segments(s) is Some,
        0 <= i < s.len(),
    ensures
        in_alphabet(s[i]),
{
    if has_gap(s) {
        lemma_first_gap_is_first(s);
        let at = first_gap(s);
        assert(gap_at(s, at));
        if i < at {
            assert(s.take(at)[i] == s[i]);
            lemma_pieces_alphabet(s.take(at), false, i);
        } else if i >= at + 2 {
            assert(s.skip(at + 2)[i - at - 2] == s[i]);
            lemma_pieces_alphabet(s.skip(at + 2), true, i - at - 2);
        }
    } else {
        lemma_pieces_alphabet(s, true, i);
    }
}

/// A text that holds a byte from outside the alphabet denotes no address.
/// So no text with a letter beyond `f`, a space, a sign, a slash, a bracket
/// or a byte of a character outside ASCII is taken for an address.
pub proof fn lemma_foreign_byte_is_no_address(text: Seq<u8>, i: int)
    requires
        0 <= i < text.len(),
        !in_alphabet(text[i]),
    ensures
        address(text) is None,
{
    if dotted_quad(text) is Some {
        lemma_quad_alphabet(text, i);
    }
    if segments(text) is Some {
        lemma_segments_alphabet(text, i);
    }
}

/// The text of an address that the database has no record for is answered
/// with status 404 and the code `IP_ADDRESS_NOT_FOUND`, by the city lookup
/// where the city records lack it, by the country lookup where the country
/// records lack it.
pub proof fn lemma_absent_address_is_not_found(db: GeoDatabase, text: Seq<u8>)
    requires
        address(text) is Some,
    ensures
        !db.cities().contains_key(address(text).unwrap()) ==> {
            &&& city_outcome(db, text) == Err::<ReplyView, LookupError>(
                LookupError::IpAddressNotFound,
            )
            &&& reply_of(city_outcome(db, text)).status == 404
            &&& reply_of(city_outcome(db, text)).body == LookupError::IpAddressNotFound.spec_body()
        },
        !db.countries().contains_key(address(text).unwrap()) ==> {
            &&& country_outcome(db, text) == Err::<ReplyView, LookupError>(
                LookupError::IpAddressNotFound,
            )
            &&& reply_of(country_outcome(db, text)).status == 404
            &&& reply_of(country_outcome(db, text)).body
                == LookupError::IpAddressNotFound.spec_body()
        },
        LookupError::IpAddressNotFound.spec_code() == "IP_ADDRESS_NOT_FOUND"@,
{
}

/// The text of an address that the database has a record for is answered
/// with status 200 and that record, character for character.
pub proof fn lemma_present_address_gives_its_record(db: GeoDatabase, text: Seq<u8>)
    requires
        address(text) is Some,
    ensures
        db.cities().contains_key(address(text).unwrap()) ==> reply_of(city_outcome(db, text))
            == (ReplyView { status: 200, body: db.cities()[address(text).unwrap()] }),
        db.countries().contains_key(address(text).unwrap()) ==> reply_of(country_outcome(db, text))
            == (ReplyView { status: 200, body: db.countries()[address(text).unwrap()] }),
{
}

/// Whether two answers are the same: the same failure, or replies with the
/// same status and the same body.
pub open spec fn same_answer(first: Result<Reply, LookupError>, second: Result<Reply, LookupError>)
    -> bool {
    match (first, second) {
        (Ok(a), Ok(b)) => a@ == b@,
        (Err(e), Err(f)) => e == f,
        _ => false,
    }
}

/// Asking the city lookup twice for one text gives the same answer twice.
pub proof fn lemma_city_lookup_repeats(
    db: GeoDatabase,
    text: Seq<u8>,
    first: Result<Reply, LookupError>,
    second: Result<Reply, LookupError>,
)
    requires
        agrees(first, city_outcome(db, text)),
        agrees(second, city_outcome(db, text)),
    ensures
        same_answer(first, second),
{
}

/// Asking the country lookup twice for one text gives the same answer twice.
pub proof fn lemma_country_lookup_repeats(
    db: GeoDatabase,
    text: Seq<u8>,
    first: Result<Reply, LookupError>,
    second: Result<Reply, LookupError>,
)
    requires
        agrees(first, country_outcome(db, text)),
        agrees(second, country_outcome(db, text)),
    ensures
        same_answer(first, second),
{
}

/// A lookup fails in two ways only: the text is no address, or the
/// database has no record. The other kinds of failure never come from it.
pub proof fn lemma_lookup_fails_in_two_ways(db: GeoDatabase, text: Seq<u8>)
    ensures
        city_outcome(db, text) matches Err(failure) ==> failure == LookupError::IpAddressInvalid
            || failure == LookupError::IpAddressNotFound,
        country_outcome(db, text) matches Err(failure) ==> failure == LookupError::IpAddressInvalid
            || failure == LookupError::IpAddressNotFound,
        city_outcome(db, text) matches Ok(reply) ==> reply.status == STATUS_OK,
        country_outcome(db, text) matches Ok(reply) ==> reply.status == STATUS_OK,
{
}

/// The text of an address denotes four octets or sixteen.
pub proof fn lemma_address_has_four_or_sixteen_octets(text: Seq<u8>)
    ensures
        address(text) matches Some(octets) ==> octets.len() == 4 || octets.len() == 16,
{
}

/// No failure is sent with the status of a success: each has one of the
/// statuses 400 to 404.
pub proof fn lemma_failure_is_a_client_error(failure: LookupError)
    ensures
        400 <= failure.spec_status() <= 404,
        failure.spec_status() != STATUS_OK,
{
}

/// No two kinds of failure share a code.
pub proof fn lemma_codes_are_distinct(first: LookupError, second: LookupError)
    requires
        first.spec_code() == second.spec_code(),
    ensures
        first == second,
{
    reveal_strlit("IP_ADDRESS_INVALID");
    reveal_strlit("IP_ADDRESS_REQUIRED");
    reveal_strlit("IP_ADDRESS_NOT_FOUND");
    reveal_strlit("IP_ADDRESS_RESERVED");
    reveal_strlit("ACCOUNT_ID_REQUIRED");
    reveal_strlit("ACCOUNT_ID_UNKNOWN");
    reveal_strlit("AUTHORIZATION_INVALID");
    reveal_strlit("LICENSE_KEY_REQUIRED");
    reveal_strlit("INSUFFICIENT_FUNDS");
    reveal_strlit("PERMISSION_REQUIRED");
    let a = first.spec_code();
    let b = second.spec_code();
    assert(a.len() == b.len() && a[0] == b[0] && a[1] == b[1] && a[13] == b[13]);
}

} // verus!
