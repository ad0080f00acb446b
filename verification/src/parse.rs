//! Reading an address from its text.

use crate::address::IpAddress;
use crate::grammar::{
    address, digit_value, dotted_quad, fields, first_gap, gap_at, group, groups, has_gap,
    is_digit, is_hex_digit, join, lemma_first_gap_found, lemma_first_index_found, lemma_no_gap,
    number, octet, octets_of, pieces, segments, zeros, COLON, DIGIT_0, DIGIT_9, DOT,
    LOWER_A, LOWER_F, UPPER_A, UPPER_F,
};
use vstd::prelude::*;
use vstd::slice::slice_subrange;
use vstd::string::StringSliceAdditionalSpecFns;

verus! {

/// The stretches of `text` that a list of bounds marks out.
pub open spec fn cut(text: Seq<u8>, bounds: Seq<(usize, usize)>) -> Seq<Seq<u8>> {
    Seq::new(bounds.len(), |k: int| text.subrange(bounds[k].0 as int, bounds[k].1 as int))
}

/// Whether each pair of bounds marks out a stretch of a text of length `len`.
pub open spec fn within(bounds: Seq<(usize, usize)>, len: int) -> bool {
    forall|k: int| 0 <= k < bounds.len() ==> (#[trigger] bounds[k]).0 <= bounds[k].1 <= len
}

/// Finds the fields of `text`, each as the bounds of a stretch of it.
pub fn split(text: &[u8], sep: u8) -> (bounds: Vec<(usize, usize)>)
    ensures
        bounds@.len() >= 1,
        within(bounds@, text@.len() as int),
        cut(text@, bounds@) == fields(text@, sep),
{
    let len = text.len();
    let mut bounds: Vec<(usize, usize)> = Vec::new();
    let mut start: usize = 0;
    let mut i: usize = 0;
    proof {
        assert(text@.skip(0) =~= text@);
    }
    while i < len
        invariant
            len == text@.len(),
            start <= i <= len,
            forall|j: int| start <= j < i ==> text@[j] != sep,
            within(bounds@, len as int),
            fields(text@, sep) =~= cut(text@, bounds@) + fields(text@.skip(start as int), sep),
        decreases len - i,
    {
        if text[i] == sep {
            proof {
                let rest = text@.skip(start as int);
                lemma_first_index_found(rest, sep, i - start);
                assert(rest.take(i - start) =~= text@.subrange(start as int, i as int));
                assert(rest.skip(i - start + 1) =~= text@.skip(i + 1));
                assert(cut(text@, bounds@.push((start, i))) =~= cut(text@, bounds@)
                    + seq![text@.subrange(start as int, i as int)]);
            }
            bounds.push((start, i));
            start = i + 1;
        }
        i += 1;
    }
    proof {
        let rest = text@.skip(start as int);
        lemma_first_index_found(rest, sep, len - start);
        assert(rest =~= text@.subrange(start as int, len as int));
        assert(cut(text@, bounds@.push((start, len))) =~= cut(text@, bounds@)
            + seq![text@.subrange(start as int, len as int)]);
    }
    bounds.push((start, len));
    bounds
}

/// A run of digits with one more digit counts the run times the radix, plus
/// the digit.
proof fn lemma_number_step(digits: Seq<u8>, radix: int, i: int)
    requires
        0 <= i < digits.len(),
    ensures
        number(digits.take(i + 1), radix) == number(digits.take(i), radix) * radix + digit_value(
            digits[i],
        ),
{
    assert(digits.take(i + 1).drop_last() =~= digits.take(i));
}

/// Reads one field of a dotted quad.
pub fn parse_octet(field: &[u8]) -> (value: Option<u8>)
    ensures
        value == octet(field@),
{
    let len = field.len();
    if len == 0 || len > 3 {
        return None;
    }
    if len > 1 && field[0] == DIGIT_0 {
        return None;
    }
    let mut value: u16 = 0;
    let mut i: usize = 0;
    while i < len
        invariant
            len == field@.len(),
            i <= len <= 3,
            forall|j: int| 0 <= j < i ==> is_digit(#[trigger] field@[j]),
            value == number(field@.take(i as int), 10),
            i == 0 ==> value == 0,
            i == 1 ==> value <= 9,
            i == 2 ==> value <= 99,
            i == 3 ==> value <= 999,
        decreases len - i,
    {
        let b = field[i];
        if b < DIGIT_0 || b > DIGIT_9 {
            return None;
        }
        proof {
            lemma_number_step(field@, 10, i as int);
        }
        value = value * 10 + (b - DIGIT_0) as u16;
        i += 1;
    }
    proof {
        assert(field@.take(len as int) =~= field@);
    }
    if value > 255 {
        None
    } else {
        Some(value as u8)
    }
}

/// What a hexadecimal digit counts for, or `None` for another byte.
pub fn hex_digit(b: u8) -> (value: Option<u8>)
    ensures
        value is Some <==> is_hex_digit(b),
        value matches Some(v) ==> v == digit_value(b),
{
    if DIGIT_0 <= b && b <= DIGIT_9 {
        Some(b - DIGIT_0)
    } else if LOWER_A <= b && b <= LOWER_F {
        Some(b - LOWER_A + 10)
    } else if UPPER_A <= b && b <= UPPER_F {
        Some(b - UPPER_A + 10)
    } else {
        None
    }
}

/// Reads one field of an IPv6 address.
pub fn parse_group(field: &[u8]) -> (value: Option<u16>)
    ensures
        value == group(field@),
{
    let len = field.len();
    if len == 0 || len > 4 {
        return None;
    }
    let mut value: u32 = 0;
    let mut i: usize = 0;
    while i < len
        invariant
            len == field@.len(),
            i <= len <= 4,
            forall|j: int| 0 <= j < i ==> is_hex_digit(#[trigger] field@[j]),
            value == number(field@.take(i as int), 16),
            i == 0 ==> value == 0,
            i == 1 ==> value < 0x10,
            i == 2 ==> value < 0x100,
            i == 3 ==> value < 0x1000,
            i == 4 ==> value < 0x10000,
        decreases len - i,
    {
        match hex_digit(field[i]) {
            Some(d) => {
                proof {
                    lemma_number_step(field@, 16, i as int);
                }
                value = value * 16 + d as u32;
            },
            None => {
                return None;
            },
        }
        i += 1;
    }
    proof {
        assert(field@.take(len as int) =~= field@);
    }
    Some(value as u16)
}

/// Reads a dotted quad.
pub fn parse_quad(text: &[u8]) -> (quad: Option<[u8; 4]>)
    ensures
        match quad {
            Some(q) => dotted_quad(text@) == Some(q@),
            None => dotted_quad(text@) is None,
        },
{
    let bounds = split(text, DOT);
    if bounds.len() != 4 {
        return None;
    }
    proof {
        let f = cut(text@, bounds@);
        assert(f[0] == text@.subrange(bounds[0].0 as int, bounds[0].1 as int));
        assert(f[1] == text@.subrange(bounds[1].0 as int, bounds[1].1 as int));
        assert(f[2] == text@.subrange(bounds[2].0 as int, bounds[2].1 as int));
        assert(f[3] == text@.subrange(bounds[3].0 as int, bounds[3].1 as int));
    }
    let a = match parse_octet(slice_subrange(text, bounds[0].0, bounds[0].1)) {
        Some(v) => v,
        None => {
            return None;
        },
    };
    let b = match parse_octet(slice_subrange(text, bounds[1].0, bounds[1].1)) {
        Some(v) => v,
        None => {
            return None;
        },
    };
    let c = match parse_octet(slice_subrange(text, bounds[2].0, bounds[2].1)) {
        Some(v) => v,
        None => {
            return None;
        },
    };
    let d = match parse_octet(slice_subrange(text, bounds[3].0, bounds[3].1)) {
        Some(v) => v,
        None => {
            return None;
        },
    };
    let quad = [a, b, c, d];
    proof {
        assert(quad@ =~= seq![a, b, c, d]);
    }
    Some(quad)
}

/// Reads the first `count` of the fields that `bounds` marks out, each as
/// a group.
pub fn parse_groups(text: &[u8], bounds: &Vec<(usize, usize)>, count: usize) -> (list: Option<
    Vec<u16>,
>)
    requires
        within(bounds@, text@.len() as int),
        count <= bounds@.len(),
    ensures
        match list {
            Some(g) => groups(cut(text@, bounds@.take(count as int))) == Some(g@),
            None => groups(cut(text@, bounds@.take(count as int))) is None,
        },
{
    let ghost f = cut(text@, bounds@.take(count as int));
    let mut list: Vec<u16> = Vec::new();
    let mut k: usize = 0;
    while k < count
        invariant
            within(bounds@, text@.len() as int),
            k <= count <= bounds@.len(),
            f == cut(text@, bounds@.take(count as int)),
            list@.len() == k,
            forall|j: int| 0 <= j < k ==> group(#[trigger] f[j]) == Some(list@[j]),
        decreases count - k,
    {
        let (from, to) = bounds[k];
        proof {
            assert(f[k as int] == text@.subrange(from as int, to as int));
        }
        match parse_group(slice_subrange(text, from, to)) {
            Some(g) => {
                list.push(g);
            },
            None => {
                return None;
            },
        }
        k += 1;
    }
    proof {
        assert(groups(f).unwrap() =~= list@);
    }
    Some(list)
}

/// The group that two octets make.
pub fn join_octets(high: u8, low: u8) -> (value: u16)
    ensures
        value == join(high, low),
{
    high as u16 * 256 + low as u16
}

/// Reads the groups of a run between colons.
pub fn parse_pieces(text: &[u8], quad_allowed: bool) -> (list: Option<Vec<u16>>)
    ensures
        match list {
            Some(g) => pieces(text@, quad_allowed) == Some(g@),
            None => pieces(text@, quad_allowed) is None,
        },
{
    proof {
        reveal(pieces);
    }
    if text.len() == 0 {
        return Some(Vec::new());
    }
    let bounds = split(text, COLON);
    let count = bounds.len();
    let ghost f = fields(text@, COLON);
    proof {
        assert(bounds@.take(count as int) =~= bounds@);
        assert(cut(text@, bounds@.take(count - 1)) =~= f.drop_last());
    }
    if quad_allowed {
        let (from, to) = bounds[count - 1];
        proof {
            assert(f.last() == text@.subrange(from as int, to as int));
        }
        match parse_quad(slice_subrange(text, from, to)) {
            Some(q) => match parse_groups(text, &bounds, count - 1) {
                Some(mut list) => {
                    list.push(join_octets(q[0], q[1]));
                    list.push(join_octets(q[2], q[3]));
                    proof {
                        let g = groups(f.drop_last()).unwrap();
                        assert(list@ =~= g + seq![join(q@[0], q@[1]), join(q@[2], q@[3])]);
                    }
                    Some(list)
                },
                None => None,
            },
            None => parse_groups(text, &bounds, count),
        }
    } else {
        parse_groups(text, &bounds, count)
    }
}

/// Where the first `::` of `text` stands, if it holds one.
pub fn find_gap(text: &[u8]) -> (at: Option<usize>)
    ensures
        match at {
            Some(i) => has_gap(text@) && i == first_gap(text@) && i + 2 <= text@.len(),
            None => !has_gap(text@),
        },
{
    let len = text.len();
    let mut i: usize = 0;
    while i < len && i + 1 < len
        invariant
            len == text@.len(),
            i <= len,
            forall|j: int| 0 <= j < i ==> !gap_at(text@, j),
        decreases len - i,
    {
        if text[i] == COLON && text[i + 1] == COLON {
            proof {
                lemma_first_gap_found(text@, i as int);
            }
            return Some(i);
        }
        i += 1;
    }
    proof {
        lemma_no_gap(text@);
    }
    None
}

/// Joins the groups before and after a `::`, with zeros between them to
/// make eight.
pub fn fill_gap(head: Vec<u16>, tail: Vec<u16>) -> (list: Vec<u16>)
    requires
        head@.len() + tail@.len() <= 7,
    ensures
        list@ == head@ + zeros(8 - head@.len() - tail@.len()) + tail@,
        list@.len() == 8,
{
    let mut list = head;
    let ghost before = list@;
    while list.len() + tail.len() < 8
        invariant
            before.len() + tail@.len() <= 7,
            before.len() <= list@.len() <= 8 - tail@.len(),
            list@ =~= before + zeros(list@.len() - before.len()),
        decreases 8 - list@.len(),
    {
        list.push(0);
    }
    let ghost filled = list@;
    let mut k: usize = 0;
    while k < tail.len()
        invariant
            k <= tail@.len(),
            filled.len() + tail@.len() == 8,
            list@ =~= filled + tail@.take(k as int),
        decreases tail@.len() - k,
    {
        list.push(tail[k]);
        k += 1;
    }
    proof {
        assert(tail@.take(k as int) =~= tail@);
    }
    list
}

/// Reads the eight groups of an IPv6 address.
pub fn parse_segments(text: &[u8]) -> (list: Option<Vec<u16>>)
    ensures
        match list {
            Some(g) => segments(text@) == Some(g@) && g@.len() == 8,
            None => segments(text@) is None,
        },
{
    let len = text.len();
    match find_gap(text) {
        Some(i) => {
            proof {
                assert(text@.subrange(0, i as int) =~= text@.take(i as int));
                assert(text@.subrange(i + 2, text@.len() as int) =~= text@.skip(i + 2));
            }
            let head = match parse_pieces(slice_subrange(text, 0, i), false) {
                Some(head) => head,
                None => {
                    return None;
                },
            };
            let tail = match parse_pieces(slice_subrange(text, i + 2, len), true) {
                Some(tail) => tail,
                None => {
                    return None;
                },
            };
            if head.len() > 7 || tail.len() > 7 - head.len() {
                None
            } else {
                Some(fill_gap(head, tail))
            }
        },
        None => match parse_pieces(text, true) {
            Some(all) => if all.len() == 8 {
                Some(all)
            } else {
                None
            },
            None => None,
        },
    }
}

/// The sixteen octets of eight groups.
pub fn to_octets(g: &Vec<u16>) -> (octets: [u8; 16])
    requires
        g@.len() == 8,
    ensures
        octets@ == octets_of(g@),
{
    let octets = [
        (g[0] / 256) as u8,
        (g[0] % 256) as u8,
        (g[1] / 256) as u8,
        (g[1] % 256) as u8,
        (g[2] / 256) as u8,
        (g[2] % 256) as u8,
        (g[3] / 256) as u8,
        (g[3] % 256) as u8,
        (g[4] / 256) as u8,
        (g[4] % 256) as u8,
        (g[5] / 256) as u8,
        (g[5] % 256) as u8,
        (g[6] / 256) as u8,
        (g[6] % 256) as u8,
        (g[7] / 256) as u8,
        (g[7] % 256) as u8,
    ];
    proof {
        assert(octets@ =~= octets_of(g@));
    }
    octets
}

impl IpAddress {
    /// Reads an address from its text: a dotted quad, or else the text of an
    /// IPv6 address. `None` where the text is neither.
    pub fn parse(text: &str) -> (ip: Option<IpAddress>)
        ensures
            match ip {
                Some(found) => address(text.spec_bytes()) == Some(found@),
                None => address(text.spec_bytes()) is None,
            },
    {
        let bytes = text.as_bytes();
        match parse_quad(bytes) {
            Some(q) => Some(IpAddress::V4(q)),
            None => match parse_segments(bytes) {
                Some(g) => Some(IpAddress::V6(to_octets(&g))),
                None => None,
            },
        }
    }
}

} // verus!
