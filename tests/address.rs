use dyndnsd::address::{ipv4_string, ipv6_string, splice_ipv6_addrs};
use dyndnsd::config::Ipv6PrefixLen;

const DOC_PREFIX: u128 = 0x2001_0db8_0000_0000_0000_0000_0000_0000;

fn len(l: u8) -> Ipv6PrefixLen {
    Ipv6PrefixLen::try_from(l).unwrap()
}

#[test]
fn splice_takes_top_bits_from_prefix() {
    let r = splice_ipv6_addrs(&len(64), DOC_PREFIX | 0xffff, 0x1234);
    assert_eq!(r, 0x2001_0db8_0000_0000_0000_0000_0000_1234);
    assert_eq!(ipv6_string(r), "2001:db8::1234");
}

#[test]
fn splice_keeps_each_side_of_the_boundary() {
    let p = u128::MAX;
    let s = 0u128;
    for l in 1..=128u8 {
        let r = splice_ipv6_addrs(&len(l), p, s);
        let host = 128 - l as u32;
        assert_eq!(r >> host, p >> host, "top bits for {}", l);
        if host > 0 {
            let mask = (1u128 << host) - 1;
            assert_eq!(r & mask, s & mask, "low bits for {}", l);
        }
    }
}

#[test]
fn splice_with_full_and_empty_prefix() {
    let p = 0x1111_2222_3333_4444_5555_6666_7777_8888u128;
    let s = 0x9999_aaaa_bbbb_cccc_dddd_eeee_ffff_0000u128;
    assert_eq!(splice_ipv6_addrs(&len(128), p, s), p);
    assert_eq!(splice_ipv6_addrs(&len(0), p, s), s);
    assert_eq!(
        splice_ipv6_addrs(&len(56), p, s),
        0x1111_2222_3333_44cc_dddd_eeee_ffff_0000u128
    );
}

#[test]
fn ipv4_text_is_dotted_decimal() {
    assert_eq!(ipv4_string(0x0102_0304), "1.2.3.4");
    assert_eq!(ipv4_string(0), "0.0.0.0");
    assert_eq!(ipv4_string(u32::MAX), "255.255.255.255");
    assert_eq!(ipv4_string(0xc0a8_000a), "192.168.0.10");
}

#[test]
fn ipv6_text_is_canonical() {
    assert_eq!(ipv6_string(0), "::");
    assert_eq!(ipv6_string(1), "::1");
    assert_eq!(ipv6_string(DOC_PREFIX), "2001:db8::");
    assert_eq!(ipv6_string(u128::MAX), "ffff:ffff:ffff:ffff:ffff:ffff:ffff:ffff");
    assert_eq!(
        ipv6_string(0x0001_0000_0000_0002_0000_0000_0000_0003),
        "1:0:0:2::3"
    );
    assert_eq!(
        ipv6_string(0x0001_0000_0000_0002_0000_0000_0003_0004),
        "1::2:0:0:3:4"
    );
    assert_eq!(
        ipv6_string(0x2001_0db8_0000_0001_0001_0001_0001_0001),
        "2001:db8:0:1:1:1:1:1"
    );
    assert_eq!(
        ipv6_string(0xfe80_0000_0000_0000_0abc_0000_0000_0001),
        "fe80::abc:0:0:1"
    );
}

#[test]
fn ipv6_text_of_ipv4_mapped_address() {
    assert_eq!(ipv6_string(0xffff_0102_0304), "::ffff:1.2.3.4");
    assert_eq!(ipv6_string(0x0102_0304), "::102:304");
}
