use geoip2_server::parse::{
    fill_gap, find_gap, hex_digit, join_octets, parse_group, parse_groups, parse_octet,
    parse_pieces, parse_quad, parse_segments, split, to_octets,
};
use geoip2_server::IpAddress;

fn valid_texts() -> Vec<&'static str> {
    vec![
        "8.8.8.8",
        "0.0.0.0",
        "255.255.255.255",
        "192.168.1.10",
        "203.0.113.1",
        "::",
        "::1",
        "1::",
        "2001:db8::1",
        "2001:0db8:85a3:0000:0000:8a2e:0370:7334",
        "::ffff:192.0.2.128",
        "1:2:3:4:5:6:7:8",
        "1:2:3:4:5:6:7::",
        "::2:3:4:5:6:7:8",
        "1:2:3:4:5:6::8",
        "1:2:3:4:5:6:1.2.3.4",
        "1:2:3:4:5::1.2.3.4",
        "ABCD:ef01::",
        "64:ff9b::192.0.2.33",
        "::8.8.8.8",
        "0:0:0:0:0:0:0:0",
        "fe80::0001",
    ]
}

fn invalid_texts() -> Vec<&'static str> {
    vec![
        "",
        "not-an-ip",
        "999.999.999.999",
        "256.1.1.1",
        "01.2.3.4",
        "1.2.3.04",
        "1.2.3",
        "1.2.3.4.5",
        "1..2.3",
        ".1.2.3",
        "1.2.3.",
        "1.2.3.4 ",
        " 1.2.3.4",
        "1.2.3.-4",
        "1.2.3.+4",
        "1.2.3.4/24",
        "1234.1.1.1",
        "0x1.2.3.4",
        "1.2.3.4\n",
        "\u{661}.\u{662}.\u{663}.\u{664}",
        "8.8.8.8\u{0}",
        ":",
        ":::",
        "::::",
        "1:2:3:4:5:6:7",
        "1:2:3:4:5:6:7:8:9",
        "1::2::3",
        "12345::",
        "::12345",
        "1:2:3:4:5:6:7:1.2.3.4",
        "1:2:3:4:5:6:7::1.2.3.4",
        "1.2.3.4::",
        "1:1.2.3.4::",
        "::1.2.3",
        "::1.2.3.4:5",
        "::1.2.3.256",
        "::01.2.3.4",
        "fe80::1%eth0",
        "g::",
        "1:2:3:4:5:6:7::8",
        "::1:2:3:4:5:6:7:8",
        "1:2:3:4:5:6:7:8::",
        ":1:2:3:4:5:6:7",
        "1:2:3:4:5:6:7:",
        "[::1]",
        "::1 ",
        "2001:db8::\u{e9}",
        "localhost",
    ]
}

#[test]
fn dotted_quads_give_their_four_octets() {
    assert_eq!(IpAddress::parse("8.8.8.8"), Some(IpAddress::V4([8, 8, 8, 8])));
    assert_eq!(IpAddress::parse("0.0.0.0"), Some(IpAddress::V4([0, 0, 0, 0])));
    assert_eq!(IpAddress::parse("255.255.255.255"), Some(IpAddress::V4([255, 255, 255, 255])));
    assert_eq!(IpAddress::parse("192.168.1.10"), Some(IpAddress::V4([192, 168, 1, 10])));
    assert_eq!(IpAddress::parse("203.0.113.1"), Some(IpAddress::V4([203, 0, 113, 1])));
}

#[test]
fn full_ipv6_text_gives_its_sixteen_octets() {
    assert_eq!(
        IpAddress::parse("2001:0db8:85a3:0000:0000:8a2e:0370:7334"),
        Some(IpAddress::V6([
            0x20, 0x01, 0x0d, 0xb8, 0x85, 0xa3, 0, 0, 0, 0, 0x8a, 0x2e, 0x03, 0x70, 0x73, 0x34
        ]))
    );
    assert_eq!(
        IpAddress::parse("1:2:3:4:5:6:7:8"),
        Some(IpAddress::V6([0, 1, 0, 2, 0, 3, 0, 4, 0, 5, 0, 6, 0, 7, 0, 8]))
    );
}

#[test]
fn double_colon_stands_for_zero_groups() {
    assert_eq!(IpAddress::parse("::"), Some(IpAddress::V6([0; 16])));
    assert_eq!(
        IpAddress::parse("::1"),
        Some(IpAddress::V6([0, 0, 0, 0, 0, 0, 0, 0, 0, 0, 0, 0, 0, 0, 0, 1]))
    );
    assert_eq!(
        IpAddress::parse("1::"),
        Some(IpAddress::V6([0, 1, 0, 0, 0, 0, 0, 0, 0, 0, 0, 0, 0, 0, 0, 0]))
    );
    assert_eq!(
        IpAddress::parse("2001:db8::1"),
        Some(IpAddress::V6([0x20, 0x01, 0x0d, 0xb8, 0, 0, 0, 0, 0, 0, 0, 0, 0, 0, 0, 1]))
    );
    assert_eq!(
        IpAddress::parse("1:2:3:4:5:6:7::"),
        Some(IpAddress::V6([0, 1, 0, 2, 0, 3, 0, 4, 0, 5, 0, 6, 0, 7, 0, 0]))
    );
    assert_eq!(
        IpAddress::parse("::2:3:4:5:6:7:8"),
        Some(IpAddress::V6([0, 0, 0, 2, 0, 3, 0, 4, 0, 5, 0, 6, 0, 7, 0, 8]))
    );
    assert_eq!(
        IpAddress::parse("ABCD:ef01::"),
        Some(IpAddress::V6([0xab, 0xcd, 0xef, 0x01, 0, 0, 0, 0, 0, 0, 0, 0, 0, 0, 0, 0]))
    );
}

#[test]
fn dotted_quad_stands_for_the_last_two_groups() {
    assert_eq!(
        IpAddress::parse("::ffff:192.0.2.128"),
        Some(IpAddress::V6([0, 0, 0, 0, 0, 0, 0, 0, 0, 0, 0xff, 0xff, 192, 0, 2, 128]))
    );
    assert_eq!(
        IpAddress::parse("1:2:3:4:5:6:1.2.3.4"),
        Some(IpAddress::V6([0, 1, 0, 2, 0, 3, 0, 4, 0, 5, 0, 6, 1, 2, 3, 4]))
    );
    assert_eq!(
        IpAddress::parse("64:ff9b::192.0.2.33"),
        Some(IpAddress::V6([0, 0x64, 0xff, 0x9b, 0, 0, 0, 0, 0, 0, 0, 0, 192, 0, 2, 33]))
    );
    assert_eq!(
        IpAddress::parse("::8.8.8.8"),
        Some(IpAddress::V6([0, 0, 0, 0, 0, 0, 0, 0, 0, 0, 0, 0, 8, 8, 8, 8]))
    );
}

#[test]
fn texts_that_are_no_address_give_none() {
    for text in invalid_texts() {
        assert_eq!(IpAddress::parse(text), None, "{:?}", text);
    }
}

#[test]
fn texts_that_are_an_address_give_one() {
    for text in valid_texts() {
        assert!(IpAddress::parse(text).is_some(), "{:?}", text);
    }
}

#[test]
fn split_marks_out_each_field() {
    assert_eq!(split(b"1.22.333", b'.'), vec![(0, 1), (2, 4), (5, 8)]);
    assert_eq!(split(b"", b'.'), vec![(0, 0)]);
    assert_eq!(split(b"::", b':'), vec![(0, 0), (1, 1), (2, 2)]);
    assert_eq!(split(b"abc", b':'), vec![(0, 3)]);
    assert_eq!(split(b"a:", b':'), vec![(0, 1), (2, 2)]);
}

#[test]
fn octets_are_one_to_three_digits_up_to_255() {
    assert_eq!(parse_octet(b"0"), Some(0));
    assert_eq!(parse_octet(b"7"), Some(7));
    assert_eq!(parse_octet(b"10"), Some(10));
    assert_eq!(parse_octet(b"255"), Some(255));
    assert_eq!(parse_octet(b"256"), None);
    assert_eq!(parse_octet(b"999"), None);
    assert_eq!(parse_octet(b"00"), None);
    assert_eq!(parse_octet(b"010"), None);
    assert_eq!(parse_octet(b""), None);
    assert_eq!(parse_octet(b"1000"), None);
    assert_eq!(parse_octet(b"1a"), None);
    assert_eq!(parse_octet(b"/"), None);
    assert_eq!(parse_octet(b":"), None);
}

#[test]
fn groups_are_one_to_four_hex_digits() {
    assert_eq!(parse_group(b"0"), Some(0));
    assert_eq!(parse_group(b"0000"), Some(0));
    assert_eq!(parse_group(b"ffff"), Some(0xffff));
    assert_eq!(parse_group(b"FFFF"), Some(0xffff));
    assert_eq!(parse_group(b"db8"), Some(0x0db8));
    assert_eq!(parse_group(b"aB9"), Some(0x0ab9));
    assert_eq!(parse_group(b""), None);
    assert_eq!(parse_group(b"12345"), None);
    assert_eq!(parse_group(b"g"), None);
    assert_eq!(parse_group(b"1.2"), None);
}

#[test]
fn hex_digits_count_in_either_case() {
    assert_eq!(hex_digit(b'0'), Some(0));
    assert_eq!(hex_digit(b'9'), Some(9));
    assert_eq!(hex_digit(b'a'), Some(10));
    assert_eq!(hex_digit(b'f'), Some(15));
    assert_eq!(hex_digit(b'A'), Some(10));
    assert_eq!(hex_digit(b'F'), Some(15));
    assert_eq!(hex_digit(b'g'), None);
    assert_eq!(hex_digit(b'G'), None);
    assert_eq!(hex_digit(b'/'), None);
    assert_eq!(hex_digit(b':'), None);
    assert_eq!(hex_digit(b'@'), None);
    assert_eq!(hex_digit(b'`'), None);
}

#[test]
fn quads_need_exactly_four_octets() {
    assert_eq!(parse_quad(b"1.2.3.4"), Some([1, 2, 3, 4]));
    assert_eq!(parse_quad(b"1.2.3"), None);
    assert_eq!(parse_quad(b"1.2.3.4.5"), None);
    assert_eq!(parse_quad(b"1.2.3."), None);
    assert_eq!(parse_quad(b""), None);
}

#[test]
fn two_octets_join_high_first() {
    assert_eq!(join_octets(0, 0), 0);
    assert_eq!(join_octets(0x12, 0x34), 0x1234);
    assert_eq!(join_octets(255, 255), 0xffff);
    assert_eq!(join_octets(1, 0), 256);
}

#[test]
fn pieces_take_a_quad_only_where_allowed() {
    assert_eq!(parse_pieces(b"", true), Some(vec![]));
    assert_eq!(parse_pieces(b"", false), Some(vec![]));
    assert_eq!(parse_pieces(b"1:2", false), Some(vec![1, 2]));
    assert_eq!(parse_pieces(b"ffff:1.2.3.4", true), Some(vec![0xffff, 0x0102, 0x0304]));
    assert_eq!(parse_pieces(b"ffff:1.2.3.4", false), None);
    assert_eq!(parse_pieces(b"1.2.3.4:ffff", true), None);
    assert_eq!(parse_pieces(b"1:", true), None);
    assert_eq!(parse_pieces(b":1", true), None);
}

#[test]
fn the_first_gap_is_found() {
    assert_eq!(find_gap(b"::"), Some(0));
    assert_eq!(find_gap(b"1::2"), Some(1));
    assert_eq!(find_gap(b"1::2::3"), Some(1));
    assert_eq!(find_gap(b":::"), Some(0));
    assert_eq!(find_gap(b"1:2:3"), None);
    assert_eq!(find_gap(b":"), None);
    assert_eq!(find_gap(b""), None);
}

#[test]
fn segments_are_always_eight() {
    assert_eq!(parse_segments(b"::"), Some(vec![0, 0, 0, 0, 0, 0, 0, 0]));
    assert_eq!(parse_segments(b"1::8"), Some(vec![1, 0, 0, 0, 0, 0, 0, 8]));
    assert_eq!(parse_segments(b"1:2:3:4:5:6:7:8"), Some(vec![1, 2, 3, 4, 5, 6, 7, 8]));
    assert_eq!(parse_segments(b"1:2:3:4:5:6:7"), None);
    assert_eq!(parse_segments(b"1:2:3:4:5:6:7::8"), None);
}

#[test]
fn zeros_fill_the_gap_up_to_eight_groups() {
    assert_eq!(fill_gap(vec![], vec![]), vec![0, 0, 0, 0, 0, 0, 0, 0]);
    assert_eq!(fill_gap(vec![1, 2], vec![3]), vec![1, 2, 0, 0, 0, 0, 0, 3]);
    assert_eq!(fill_gap(vec![1, 2, 3, 4, 5, 6, 7], vec![]), vec![1, 2, 3, 4, 5, 6, 7, 0]);
    assert_eq!(fill_gap(vec![], vec![1, 2, 3, 4, 5, 6, 7]), vec![0, 1, 2, 3, 4, 5, 6, 7]);
}

#[test]
fn groups_give_their_octets_high_first() {
    assert_eq!(to_octets(&vec![0xffff; 8]), [0xff; 16]);
    assert_eq!(
        to_octets(&vec![0x0001, 0x0100, 0x00ff, 0xff00, 0x1234, 0x4321, 0, 0xabcd]),
        [0, 1, 1, 0, 0, 0xff, 0xff, 0, 0x12, 0x34, 0x43, 0x21, 0, 0, 0xab, 0xcd]
    );
    assert_eq!(
        to_octets(&vec![0x2001, 0x0db8, 0, 0, 0, 0, 0xff00, 0x0042]),
        [0x20, 0x01, 0x0d, 0xb8, 0, 0, 0, 0, 0, 0, 0, 0, 0xff, 0x00, 0x00, 0x42]
    );
}

#[test]
fn the_first_fields_are_read_as_groups() {
    let text = b"1:ff:zz";
    let bounds = split(text, b':');
    assert_eq!(parse_groups(text, &bounds, 0), Some(vec![]));
    assert_eq!(parse_groups(text, &bounds, 2), Some(vec![1, 0xff]));
    assert_eq!(parse_groups(text, &bounds, 3), None);
}

#[test]
fn a_byte_from_outside_the_alphabet_spoils_the_text() {
    for foreign in ["g", "G", " ", "-", "+", "/", "%", "[", "]", "\u{e9}", "\u{0}", "x"] {
        for text in ["8.8.8.8", "::1", "2001:db8::1", "::ffff:1.2.3.4"] {
            assert_eq!(IpAddress::parse(&format!("{}{}", text, foreign)), None);
            assert_eq!(IpAddress::parse(&format!("{}{}", foreign, text)), None);
            let (front, back) = text.split_at(2);
            assert_eq!(IpAddress::parse(&format!("{}{}{}", front, foreign, back)), None);
        }
    }
}
