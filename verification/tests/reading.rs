//! Reading and writing of arguments, MAC addresses and IP addresses.

use netbox::args::{complain_of_switch, on_off, parse_cidr};
use netbox::error::Error;
use netbox::ip::{broadcast, IpAddress};
use netbox::mac::{mac_to_string, parse_mac};
use netbox::number::IntError;

const V6_LOCAL: IpAddress = IpAddress::V6([0xfe80, 0, 0, 0, 0, 0, 0, 1]);

fn v4(a: u32, b: u32, c: u32, d: u32) -> IpAddress {
    IpAddress::V4((a << 24) | (b << 16) | (c << 8) | d)
}

#[test]
fn switch_is_on_or_off() {
    assert_eq!(on_off("on"), Ok(true));
    assert_eq!(on_off("off"), Ok(false));
}

#[test]
fn other_switches_are_quoted_back() {
    assert_eq!(on_off("maybe"), Err("expected on|off, got \"maybe\"".to_string()));
    assert_eq!(on_off(""), Err("expected on|off, got \"\"".to_string()));
    assert_eq!(on_off("ON"), Err("expected on|off, got \"ON\"".to_string()));
    assert_eq!(on_off("a\"b\n"), Err("expected on|off, got \"a\\\"b\\n\"".to_string()));
    assert_eq!(complain_of_switch("[x]"), "expected on|off, got [x]");
}

#[test]
fn mac_is_written_in_lower_case() {
    assert_eq!(mac_to_string(&[0x02, 0x00, 0xab, 0xCD, 0x0f, 0xff]), "02:00:ab:cd:0f:ff");
    assert_eq!(mac_to_string(&[]), "");
    assert_eq!(mac_to_string(&[7]), "07");
}

#[test]
fn mac_is_read_in_either_case() {
    assert_eq!(parse_mac("02:00:AB:cd:0F:ff"), Ok(vec![2, 0, 0xab, 0xcd, 0x0f, 0xff]));
    assert_eq!(parse_mac("2:0:a:b:+c:00d"), Ok(vec![2, 0, 10, 11, 12, 13]));
}

#[test]
fn bad_mac_octets_come_before_a_bad_length() {
    let bad = |s: &str, e: IntError| assert_eq!(parse_mac(s), Err(Error::BadMac(s.to_string(), e)));
    bad("", IntError::Empty);
    bad("00:11:22:33:44:", IntError::Empty);
    bad("00:11:22:33:44:gg", IntError::InvalidDigit);
    bad("00:11:22:33:44:+", IntError::InvalidDigit);
    bad("00:11:22:33:44:-1", IntError::InvalidDigit);
    bad("00:11:22:33:44:100", IntError::PosOverflow);
    bad("zz:11", IntError::InvalidDigit);
}

#[test]
fn mac_has_six_octets() {
    for s in ["00:11:22:33:44", "00:11:22:33:44:55:66", "00"] {
        assert_eq!(parse_mac(s), Err(Error::MacLength(s.to_string())));
    }
}

#[test]
fn mac_reads_back() {
    let bytes = vec![0u8, 1, 9, 0x10, 0xa0, 0xff];
    assert_eq!(parse_mac(&mac_to_string(&bytes)), Ok(bytes));
}

#[test]
fn other_numbers_of_bytes_do_not_read_back() {
    assert_eq!(parse_mac(&mac_to_string(&[])), Err(Error::BadMac(String::new(), IntError::Empty)));
    for n in [1usize, 5, 7, 20] {
        let text = mac_to_string(&vec![0xabu8; n]);
        assert_eq!(parse_mac(&text), Err(Error::MacLength(text.clone())));
    }
}

#[test]
fn cidr_is_an_address_and_a_prefix_length() {
    assert_eq!(parse_cidr("192.168.1.20/24"), Ok((v4(192, 168, 1, 20), 24)));
    assert_eq!(parse_cidr("fe80::1/64"), Ok((V6_LOCAL, 64)));
    assert_eq!(parse_cidr("10.0.0.1/+8"), Ok((v4(10, 0, 0, 1), 8)));
    assert_eq!(parse_cidr("10.0.0.1/255"), Ok((v4(10, 0, 0, 1), 255)));
}

#[test]
fn cidr_needs_a_slash() {
    assert_eq!(parse_cidr("10.0.0.1"), Err(Error::NotCidr("10.0.0.1".to_string())));
    assert_eq!(parse_cidr(""), Err(Error::NotCidr(String::new())));
}

#[test]
fn bad_address_comes_before_a_bad_prefix_length() {
    assert_eq!(parse_cidr("10.0.0/x"), Err(Error::BadAddress));
    assert_eq!(parse_cidr("/8"), Err(Error::BadAddress));
    assert_eq!(parse_cidr("10.0.0.1/"), Err(Error::BadPrefix(IntError::Empty)));
    assert_eq!(parse_cidr("10.0.0.1/8/8"), Err(Error::BadPrefix(IntError::InvalidDigit)));
    assert_eq!(parse_cidr("10.0.0.1/256"), Err(Error::BadPrefix(IntError::PosOverflow)));
}

#[test]
fn cidr_reads_back() {
    for ip in [v4(0, 0, 0, 0), v4(10, 1, 2, 3), V6_LOCAL] {
        for plen in [0u8, 9, 32, 128, 255] {
            assert_eq!(parse_cidr(&format!("{}/{}", ip.to_string(), plen)), Ok((ip, plen)));
        }
    }
}

#[test]
fn v4_is_dotted_decimal() {
    assert_eq!(v4(255, 0, 10, 9).to_string(), "255.0.10.9");
    assert_eq!(IpAddress::parse("255.0.10.9"), Some(v4(255, 0, 10, 9)));
    for s in ["1.2.3", "1.2.3.4.5", "01.2.3.4", "1.2.3.256", "1.2.3.+4", "1.2.3.", " 1.2.3.4", "1.2.3.4 "] {
        assert_eq!(IpAddress::parse(s), None, "{s}");
    }
}

#[test]
fn addresses_are_read_and_written_back() {
    let cases = [
        ("0.0.0.0", "0.0.0.0"),
        ("255.255.255.255", "255.255.255.255"),
        ("::", "::"),
        ("::1", "::1"),
        ("1::", "1::"),
        ("fe80::1", "fe80::1"),
        ("2001:db8::8:0:0:1", "2001:db8::8:0:0:1"),
        ("2001:db8:0:1:1:1:1:1", "2001:db8:0:1:1:1:1:1"),
        ("1:0:0:2:0:0:0:3", "1:0:0:2::3"),
        ("1:0:0:2:3:0:0:4", "1::2:3:0:0:4"),
        ("::ffff:1.2.3.4", "::ffff:1.2.3.4"),
        ("0:0:0:0:0:ffff:102:304", "::ffff:1.2.3.4"),
        ("::1.2.3.4", "::102:304"),
        ("64:ff9b::1.2.3.4", "64:ff9b::102:304"),
        ("::ffff:0:1.2.3.4", "::ffff:0:102:304"),
        ("1:2:3:4:5:6:7:8", "1:2:3:4:5:6:7:8"),
        ("1:2:3:4:5:6:1.2.3.4", "1:2:3:4:5:6:102:304"),
        ("1:2:3:4:5:6:7::", "1:2:3:4:5:6:7:0"),
        ("::2:3:4:5:6:7:8", "0:2:3:4:5:6:7:8"),
        ("ABCD::EF01", "abcd::ef01"),
        ("0001:0:0:0:0:0:0:1", "1::1"),
    ];
    for (text, written) in cases {
        let ip = IpAddress::parse(text).unwrap();
        assert_eq!(ip.to_string(), written);
        assert_eq!(IpAddress::parse(written), Some(ip));
    }
}

#[test]
fn other_texts_are_no_addresses() {
    let texts = [
        "", ":", "1:", ":::", "1:2:3:4:5:6:7:8:9", "1:2:3:4:5:6:7", "1::2::3", ":1::2", "1:2:3:4:5:6:7::8",
        "12345::", "g::", "1.2.3.4::", "1::1.2.3.4:5", "::1.2.3", "::1.2.3.04", "1:2:3:4:5:6:7:1.2.3.4",
        "fe80::1%eth0", "1.2.3.4/8", "+1::", "-1::",
    ];
    for text in texts {
        assert_eq!(IpAddress::parse(text), None, "{text}");
    }
}

#[test]
fn broadcast_sets_every_host_bit() {
    assert_eq!(broadcast(0xc0a8_0114, 24), 0xc0a8_01ff);
    assert_eq!(broadcast(0x0a00_0001, 8), 0x0aff_ffff);
    assert_eq!(broadcast(0x0a00_0001, 0), 0xffff_ffff);
    assert_eq!(broadcast(0x0a00_0001, 30), 0x0a00_0003);
    assert_eq!(broadcast(0x0a00_0002, 31), 0x0a00_0003);
}
