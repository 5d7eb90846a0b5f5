use wol::errors::MacParseError;
use wol::mac::format_mac;
use wol::mac::normalize_case;
use wol::mac::parse_mac;
use wol::mac::MacAddress;
use wol::packet::build_magic_packet;
use wol::packet::MAGIC_PACKET_LEN;
use wol::packet::WOL_PORT;

#[test]
fn parses_colon_separated() {
    let m = parse_mac("00:11:22:33:44:55").unwrap();
    assert_eq!(m.bytes, vec![0x00, 0x11, 0x22, 0x33, 0x44, 0x55]);
}

#[test]
fn parses_dash_separated_identically() {
    let a = parse_mac("00:11:22:33:44:55").unwrap();
    let b = parse_mac("00-11-22-33-44-55").unwrap();
    assert_eq!(a.bytes, b.bytes);
}

#[test]
fn parsing_is_case_insensitive() {
    let upper = parse_mac("AA:BB:CC:DD:EE:FF").unwrap();
    let lower = parse_mac("aa:bb:cc:dd:ee:ff").unwrap();
    assert_eq!(upper.bytes, vec![0xAA, 0xBB, 0xCC, 0xDD, 0xEE, 0xFF]);
    assert_eq!(upper.bytes, lower.bytes);
}

#[test]
fn rejects_wrong_length_regardless_of_content() {
    assert_eq!(parse_mac("").unwrap_err(), MacParseError::WrongLength);
    assert_eq!(parse_mac("00:11:22:33:44:5").unwrap_err(), MacParseError::WrongLength);
    assert_eq!(parse_mac("00:11:22:33:44:555").unwrap_err(), MacParseError::WrongLength);
    assert_eq!(parse_mac("completely wrong").unwrap_err(), MacParseError::WrongLength);
}

#[test]
fn rejects_missing_separator() {
    assert_eq!(parse_mac("00112233445566778").unwrap_err(), MacParseError::MissingSeparator);
}

#[test]
fn rejects_wrong_part_count() {
    assert_eq!(parse_mac("00:11:22:33:44550").unwrap_err(), MacParseError::WrongPartCount);
}

#[test]
fn rejects_wrong_part_length() {
    assert_eq!(parse_mac("0:011:22:33:44:55").unwrap_err(), MacParseError::WrongPartLength);
}

#[test]
fn rejects_non_hexadecimal() {
    assert_eq!(parse_mac("0G:11:22:33:44:55").unwrap_err(), MacParseError::NotHexadecimal);
}

#[test]
fn format_is_uppercase_colon_joined() {
    let m = MacAddress { bytes: vec![0x00, 0x11, 0xAA, 0xBB, 0x04, 0x55] };
    assert_eq!(format_mac(&m), "00:11:AA:BB:04:55");
}

#[test]
fn format_then_parse_round_trips() {
    let m = MacAddress { bytes: vec![0xDE, 0xAD, 0xBE, 0xEF, 0x00, 0x01] };
    let text = format_mac(&m);
    let back = parse_mac(text.as_str()).unwrap();
    assert_eq!(back.bytes, m.bytes);
}

#[test]
fn octets_returns_the_bytes() {
    let m = parse_mac("01:02:03:04:05:06").unwrap();
    assert_eq!(m.octets(), &vec![1, 2, 3, 4, 5, 6]);
}

#[test]
fn normalize_case_raises_ascii_letters_only() {
    assert_eq!(normalize_case("aa-bb:cc dz#9/"), "AA-BB:CC DZ#9/");
    assert_eq!(normalize_case(""), "");
}

#[test]
fn magic_packet_layout() {
    let m = parse_mac("00:11:22:33:44:55").unwrap();
    let p = build_magic_packet(&m);
    assert_eq!(p.len(), 102);
    assert_eq!(p.len(), MAGIC_PACKET_LEN);
    for i in 0..6 {
        assert_eq!(p[i], 0xFF);
    }
    for k in 0..16 {
        assert_eq!(&p[6 + 6 * k..6 + 6 * (k + 1)], &m.bytes[..]);
    }
}

#[test]
fn wol_port_is_discard() {
    assert_eq!(WOL_PORT, 9);
}
