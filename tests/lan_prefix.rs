use dyndnsd::config::Ipv6PrefixLenError;
use dyndnsd::ipv6lanprefix::{parse_u8, Ipv6LanPrefix, Ipv6LanPrefixError};

const DOC_PREFIX: u128 = 0x2001_0db8_0000_0000_0000_0000_0000_0000;

#[test]
fn lan_prefix_parses_address_and_length() {
    let value = "2001:db8::/56";
    assert_eq!(Ipv6LanPrefix::address_text(value), Some("2001:db8::"));
    let p = Ipv6LanPrefix::try_from(value, Some(DOC_PREFIX)).unwrap();
    assert_eq!(p.prefix, DOC_PREFIX);
    assert_eq!(p.prefix_length.value(), 56);
}

#[test]
fn lan_prefix_length_200_is_invalid() {
    match Ipv6LanPrefix::try_from("2001:db8::/200", Some(DOC_PREFIX)) {
        Err(Ipv6LanPrefixError::InvalidPrefixLength {
            prefix_length,
            source,
        }) => {
            assert_eq!(prefix_length, 200);
            assert_eq!(source, Ipv6PrefixLenError::TooLong { prefixlen: 200 });
        }
        other => panic!("unexpected {:?}", other),
    }
}

#[test]
fn lan_prefix_without_slash() {
    assert_eq!(Ipv6LanPrefix::address_text("nodelimiter"), None);
    match Ipv6LanPrefix::try_from("nodelimiter", None) {
        Err(Ipv6LanPrefixError::NoSlash { string }) => assert_eq!(string, "nodelimiter"),
        other => panic!("unexpected {:?}", other),
    }
}

#[test]
fn lan_prefix_with_bad_address() {
    assert_eq!(Ipv6LanPrefix::address_text("bad::addr::/10"), Some("bad::addr::"));
    match Ipv6LanPrefix::try_from("bad::addr::/10", None) {
        Err(Ipv6LanPrefixError::InvalidAddress { prefix }) => assert_eq!(prefix, "bad::addr::"),
        other => panic!("unexpected {:?}", other),
    }
}

#[test]
fn lan_prefix_length_not_a_number() {
    for length in ["abc", "", "256", "-1", "5 ", "+"] {
        let value = format!("::/{}", length);
        match Ipv6LanPrefix::try_from(&value, Some(0)) {
            Err(Ipv6LanPrefixError::PrefixLengthNotANumber { prefix_length }) => {
                assert_eq!(prefix_length, length)
            }
            other => panic!("unexpected {:?} for {}", other, value),
        }
    }
}

#[test]
fn lan_prefix_splits_at_first_slash() {
    match Ipv6LanPrefix::try_from("::/5/6", Some(0)) {
        Err(Ipv6LanPrefixError::PrefixLengthNotANumber { prefix_length }) => {
            assert_eq!(prefix_length, "5/6")
        }
        other => panic!("unexpected {:?}", other),
    }
    assert_eq!(Ipv6LanPrefix::address_text("a/b/c"), Some("a"));
}

#[test]
fn lan_prefix_length_bounds() {
    assert_eq!(Ipv6LanPrefix::try_from("::/0", Some(0)).unwrap().prefix_length.value(), 0);
    assert_eq!(Ipv6LanPrefix::try_from("::/128", Some(0)).unwrap().prefix_length.value(), 128);
    assert!(matches!(
        Ipv6LanPrefix::try_from("::/129", Some(0)),
        Err(Ipv6LanPrefixError::InvalidPrefixLength { prefix_length: 129, .. })
    ));
}

#[test]
fn u8_parsing_follows_std() {
    for s in ["0", "7", "56", "255", "+56", "0056", "00000000000000000001", "", "+", "-0", "256", "1000", "5a", " 5", "++5"] {
        assert_eq!(parse_u8(s), s.parse::<u8>().ok(), "for {:?}", s);
    }
}
