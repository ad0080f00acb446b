//! The grammar of the textual forms of an address.
//!
//! The grammar is stated over the bytes of a text. An IPv4 address is four
//! decimal octets between dots. An IPv6 address is eight hexadecimal groups
//! between colons, where one `::` may stand for a run of zero groups and a
//! dotted quad may stand for the last two groups.

use vstd::prelude::*;

verus! {

/// The byte `.`, which separates the octets of a dotted quad.
pub const DOT: u8 = 0x2e;

/// The byte `:`, which separates the groups of an IPv6 address.
pub const COLON: u8 = 0x3a;

/// The byte `0`; the other decimal digits follow it up to `9`.
pub const DIGIT_0: u8 = 0x30;

/// The byte `9`.
pub const DIGIT_9: u8 = 0x39;

/// The byte `A`; the hexadecimal digits in upper case run up to `F`.
pub const UPPER_A: u8 = 0x41;

/// The byte `F`.
pub const UPPER_F: u8 = 0x46;

/// The byte `a`; the hexadecimal digits in lower case run up to `f`.
pub const LOWER_A: u8 = 0x61;

/// The byte `f`.
pub const LOWER_F: u8 = 0x66;

/// Whether `b` is one of `0` to `9`.
pub open spec fn is_digit(b: u8) -> bool {
    DIGIT_0 <= b <= DIGIT_9
}

/// Whether `b` is a decimal digit or one of `a` to `f` in either case.
pub open spec fn is_hex_digit(b: u8) -> bool {
    is_digit(b) || LOWER_A <= b <= LOWER_F || UPPER_A <= b <= UPPER_F
}

/// What a digit counts for.
pub open spec fn digit_value(b: u8) -> int {
    if is_digit(b) {
        b - DIGIT_0
    } else if LOWER_A <= b <= LOWER_F {
        b - LOWER_A + 10
    } else {
        b - UPPER_A + 10
    }
}

/// The number that a run of digits denotes in the given radix, the first
/// digit counting most.
pub open spec fn number(digits: Seq<u8>, radix: int) -> int
    decreases digits.len(),
{
    if digits.len() == 0 {
        0
    } else {
        number(digits.drop_last(), radix) * radix + digit_value(digits.last())
    }
}

/// The octet that a field of a dotted quad denotes: one to three decimal
/// digits, without a leading zero before another digit, at most 255.
pub open spec fn octet(field: Seq<u8>) -> Option<u8> {
    if 1 <= field.len() <= 3 && (forall|i: int|
        0 <= i < field.len() ==> is_digit(#[trigger] field[i])) && (field.len() > 1 ==> field[0]
        != DIGIT_0) && number(field, 10) <= 255 {
        Some(number(field, 10) as u8)
    } else {
        None
    }
}

/// The group that a field of an IPv6 address denotes: one to four
/// hexadecimal digits.
pub open spec fn group(field: Seq<u8>) -> Option<u16> {
    if 1 <= field.len() <= 4 && (forall|i: int|
        0 <= i < field.len() ==> is_hex_digit(#[trigger] field[i])) {
        Some(number(field, 16) as u16)
    } else {
        None
    }
}

/// The position of the first `sep` in `s`, or the length of `s` if it holds
/// none.
pub open spec fn first_index(s: Seq<u8>, sep: u8) -> int
    decreases s.len(),
{
    if s.len() == 0 || s[0] == sep {
        0
    } else {
        1 + first_index(s.drop_first(), sep)
    }
}

/// The fields of `s`: what stands before, between and after its separators.
/// A text with `n` separators has `n + 1` fields, some of them maybe empty.
pub open spec fn fields(s: Seq<u8>, sep: u8) -> Seq<Seq<u8>>
    decreases s.len(),
{
    let i = first_index(s, sep);
    if 0 <= i < s.len() {
        seq![s.take(i)] + fields(s.skip(i + 1), sep)
    } else {
        seq![s]
    }
}

/// The four octets that a dotted quad denotes.
pub open spec fn dotted_quad(s: Seq<u8>) -> Option<Seq<u8>> {
    let f = fields(s, DOT);
    if f.len() == 4 && octet(f[0]) is Some && octet(f[1]) is Some && octet(f[2]) is Some && octet(
        f[3],
    ) is Some {
        Some(
            seq![
                octet(f[0]).unwrap(),
                octet(f[1]).unwrap(),
                octet(f[2]).unwrap(),
                octet(f[3]).unwrap(),
            ],
        )
    } else {
        None
    }
}

/// The groups that a list of fields denotes, if each of them is a group.
pub open spec fn groups(f: Seq<Seq<u8>>) -> Option<Seq<u16>> {
    if forall|k: int| 0 <= k < f.len() ==> group(#[trigger] f[k]) is Some {
        Some(Seq::new(f.len(), |k: int| group(f[k]).unwrap()))
    } else {
        None
    }
}

/// The group that two octets make, the first counting most.
pub open spec fn join(high: u8, low: u8) -> u16 {
    (high * 256 + low) as u16
}

/// The groups that a run between colons denotes. The empty run denotes no
/// group. Where a quad is allowed, a last field that is a dotted quad
/// denotes two groups.
#[verifier::opaque]
pub open spec fn pieces(s: Seq<u8>, quad_allowed: bool) -> Option<Seq<u16>> {
    let f = fields(s, COLON);
    if s.len() == 0 {
        Some(Seq::empty())
    } else if quad_allowed && dotted_quad(f.last()) is Some {
        let q = dotted_quad(f.last()).unwrap();
        match groups(f.drop_last()) {
            Some(g) => Some(g + seq![join(q[0], q[1]), join(q[2], q[3])]),
            None => None,
        }
    } else {
        groups(f)
    }
}

/// Whether `::` stands at position `i` of `s`.
pub open spec fn gap_at(s: Seq<u8>, i: int) -> bool {
    0 <= i && i + 1 < s.len() && s[i] == COLON && s[i + 1] == COLON
}

/// Whether `s` holds a `::`.
#[verifier::opaque]
pub open spec fn has_gap(s: Seq<u8>) -> bool {
    exists|i: int| gap_at(s, i)
}

/// The position of the first `::` in a text that holds one.
#[verifier::opaque]
pub open spec fn first_gap(s: Seq<u8>) -> int {
    choose|i: int| gap_at(s, i) && forall|j: int| 0 <= j < i ==> !gap_at(s, j)
}

/// A run of `n` zero groups.
pub open spec fn zeros(n: int) -> Seq<u16> {
    Seq::new(n as nat, |k: int| 0u16)
}

/// The eight groups that the text of an IPv6 address denotes. With a `::`,
/// the groups before it and after it are at most seven, and zeros fill the
/// gap; no dotted quad stands before it. Without, the text denotes all eight.
pub open spec fn segments(s: Seq<u8>) -> Option<Seq<u16>> {
    if has_gap(s) {
        let i = first_gap(s);
        match pieces(s.take(i), false) {
            Some(head) => match pieces(s.skip(i + 2), true) {
                Some(tail) => if head.len() + tail.len() <= 7 {
                    Some(head + zeros(8 - head.len() - tail.len()) + tail)
                } else {
                    None
                },
                None => None,
            },
            None => None,
        }
    } else {
        match pieces(s, true) {
            Some(all) => if all.len() == 8 {
                Some(all)
            } else {
                None
            },
            None => None,
        }
    }
}

/// The octets of a list of groups, the high octet of each group first.
pub open spec fn octets_of(g: Seq<u16>) -> Seq<u8> {
    Seq::new(
        2 * g.len(),
        |i: int|
            if i % 2 == 0 {
                (g[i / 2] / 256) as u8
            } else {
                (g[i / 2] % 256) as u8
            },
    )
}

/// The octets of the address that a text denotes: four where the text is a
/// dotted quad, sixteen where it is an IPv6 address, `None` where it is
/// neither.
pub open spec fn address(text: Seq<u8>) -> Option<Seq<u8>> {
    match dotted_quad(text) {
        Some(q) => Some(q),
        None => match segments(text) {
            Some(g) => Some(octets_of(g)),
            None => None,
        },
    }
}

/// A position with no separator before it, which holds one or ends the
/// text, is the first index.
pub proof fn lemma_first_index_found(s: Seq<u8>, sep: u8, n: int)
    requires
        0 <= n <= s.len(),
        forall|j: int| 0 <= j < n ==> s[j] != sep,
        n < s.len() ==> s[n] == sep,
    ensures
        first_index(s, sep) == n,
    decreases n,
{
    if n > 0 {
        let t = s.drop_first();
        assert forall|j: int| 0 <= j < n - 1 implies t[j] != sep by {
            assert(t[j] == s[j + 1]);
        }
        lemma_first_index_found(t, sep, n - 1);
    }
}

/// The first index has no separator before it, and holds one unless it is
/// the end of the text.
pub proof fn lemma_first_index_is_first(s: Seq<u8>, sep: u8)
    ensures
        0 <= first_index(s, sep) <= s.len(),
        forall|j: int| 0 <= j < first_index(s, sep) ==> s[j] != sep,
        first_index(s, sep) < s.len() ==> s[first_index(s, sep)] == sep,
    decreases s.len(),
{
    if !(s.len() == 0 || s[0] == sep) {
        let t = s.drop_first();
        lemma_first_index_is_first(t, sep);
        assert forall|j: int| 0 <= j < first_index(s, sep) implies s[j] != sep by {
            if j > 0 {
                assert(t[j - 1] == s[j]);
            }
        }
        if first_index(s, sep) < s.len() {
            assert(t[first_index(t, sep)] == s[first_index(s, sep)]);
        }
    }
}

/// Where a `::` stands at `at`, there is a first one, at `at` or before it.
proof fn lemma_some_gap_is_first(s: Seq<u8>, at: int)
    requires
        gap_at(s, at),
    ensures
        exists|m: int| gap_at(s, m) && forall|j: int| 0 <= j < m ==> !gap_at(s, j),
    decreases at,
{
    if exists|j: int| 0 <= j < at && gap_at(s, j) {
        let j = choose|j: int| 0 <= j < at && gap_at(s, j);
        lemma_some_gap_is_first(s, j);
    } else {
        assert(gap_at(s, at) && forall|j: int| 0 <= j < at ==> !gap_at(s, j));
    }
}

/// In a text that holds a `::`, the first gap is one, and none stands
/// before it.
pub proof fn lemma_first_gap_is_first(s: Seq<u8>)
    requires
        has_gap(s),
    ensures
        gap_at(s, first_gap(s)),
        forall|j: int| 0 <= j < first_gap(s) ==> !gap_at(s, j),
{
    reveal(has_gap);
    reveal(first_gap);
    let at = choose|i: int| gap_at(s, i);
    lemma_some_gap_is_first(s, at);
}

/// A `::` with none before it is the first gap.
pub proof fn lemma_first_gap_found(s: Seq<u8>, at: int)
    requires
        gap_at(s, at),
        forall|j: int| 0 <= j < at ==> !gap_at(s, j),
    ensures
        has_gap(s),
        first_gap(s) == at,
{
    reveal(has_gap);
    lemma_first_gap_is_first(s);
}

/// A text in which no `::` stands at any position holds none.
pub proof fn lemma_no_gap(s: Seq<u8>)
    requires
        forall|j: int| 0 <= j && j + 1 < s.len() ==> !gap_at(s, j),
    ensures
        !has_gap(s),
{
    reveal(has_gap);
}

} // verus!
