use argon2::password_hash::{PasswordHasher, SaltString};
use argon2::{Algorithm, Argon2, Params, Version};
use dyndnsd::config::{
    Config, ConfigConvertError, DomainConvertError, IpAddress, Ipv6PrefixLenOrLan,
    Ipv6PrefixLenOrLanError, Listen, RawConfig, RawDomain, RawIpv6PrefixLenOrLan, RawUser,
    SpecialUpdateProgram, UpdateProgram, UserConvertError,
};

fn hash_of(password: &str) -> String {
    let salt = SaltString::from_b64("c29tZXNhbHRzYWx0").unwrap();
    let argon2 = Argon2::new(
        Algorithm::Argon2id,
        Version::V0x13,
        Params::new(8, 1, 1, None).unwrap(),
    );
    argon2
        .hash_password(password.as_bytes(), &salt)
        .unwrap()
        .to_string()
}

fn program() -> UpdateProgram {
    UpdateProgram {
        bin: "nsupdate".to_string(),
        args: vec!["-l".to_string()],
        initial_stdin: None,
        stdin_per_zone_update: "send\n".to_string(),
        final_stdin: "quit\n".to_string(),
        ipv4: SpecialUpdateProgram {
            stdin: "add {domain} {ttl} A {ipv4}\n".to_string(),
        },
        ipv6: SpecialUpdateProgram {
            stdin: "add {domain} {ttl} AAAA {ipv6}\n".to_string(),
        },
    }
}

fn domain(ttl: u32, prefix: RawIpv6PrefixLenOrLan) -> RawDomain {
    RawDomain {
        ttl,
        ipv6prefixlen: prefix,
        ipv6suffix: 1,
    }
}

fn raw_config(users: Vec<(String, RawUser)>) -> RawConfig {
    RawConfig {
        listen: Some(Listen {
            ip: IpAddress::V4(0x7f00_0001),
            port: 3092,
        }),
        update_program: program(),
        users,
    }
}

#[test]
fn valid_config_loads() {
    let user = RawUser {
        hash: hash_of("secret"),
        domains: vec![
            ("a.example".to_string(), domain(60, RawIpv6PrefixLenOrLan::Len(64))),
            ("b.example".to_string(), domain(120, RawIpv6PrefixLenOrLan::Lan("lan".to_string()))),
        ],
    };
    let config = Config::try_from(raw_config(vec![("alice".to_string(), user)])).unwrap();
    assert_eq!(
        config.listen,
        Some(Listen {
            ip: IpAddress::V4(0x7f00_0001),
            port: 3092
        })
    );
    assert_eq!(config.users.len(), 1);
    assert_eq!(config.users[0].0, "alice");
    let domains = &config.users[0].1.domains;
    assert_eq!(domains.len(), 2);
    assert_eq!(domains[0].0, "a.example");
    assert_eq!(domains[0].1.ttl, 60);
    assert_eq!(domains[0].1.ipv6suffix, 1);
    assert!(matches!(domains[0].1.ipv6prefixlen, Ipv6PrefixLenOrLan::Len(l) if l.value() == 64));
    assert_eq!(domains[1].0, "b.example");
    assert_eq!(domains[1].1.ipv6prefixlen, Ipv6PrefixLenOrLan::Lan);
}

#[test]
fn prefix_len_200_fails_to_load() {
    let user = RawUser {
        hash: hash_of("secret"),
        domains: vec![
            ("a.example".to_string(), domain(60, RawIpv6PrefixLenOrLan::Len(64))),
            ("b.example".to_string(), domain(60, RawIpv6PrefixLenOrLan::Len(200))),
        ],
    };
    match Config::try_from(raw_config(vec![("alice".to_string(), user)])) {
        Err(ConfigConvertError::UserConvert {
            source:
                UserConvertError::DomainConvert {
                    username,
                    source:
                        DomainConvertError::InvalidIpv6PrefixLen {
                            domain_name,
                            source: Ipv6PrefixLenOrLanError::PrefixTooLong { .. },
                        },
                },
        }) => {
            assert_eq!(username, "alice");
            assert_eq!(domain_name, "b.example");
        }
        Err(e) => panic!("unexpected {:?}", e),
        Ok(_) => panic!("a prefix length of 200 must not load"),
    }
}

#[test]
fn unexpected_prefix_string_fails_to_load() {
    let user = RawUser {
        hash: hash_of("secret"),
        domains: vec![("a.example".to_string(), domain(60, RawIpv6PrefixLenOrLan::Lan("wan".to_string())))],
    };
    assert!(matches!(
        Config::try_from(raw_config(vec![("alice".to_string(), user)])),
        Err(ConfigConvertError::UserConvert {
            source: UserConvertError::DomainConvert {
                source: DomainConvertError::InvalidIpv6PrefixLen {
                    source: Ipv6PrefixLenOrLanError::UnexpectedString { .. },
                    ..
                },
                ..
            },
        })
    ));
}

#[test]
fn malformed_hash_fails_to_load() {
    let user = RawUser {
        hash: "not a hash".to_string(),
        domains: vec![("a.example".to_string(), domain(60, RawIpv6PrefixLenOrLan::Len(64)))],
    };
    match Config::try_from(raw_config(vec![
        ("alice".to_string(), RawUser { hash: hash_of("x"), domains: vec![] }),
        ("bob".to_string(), user),
    ])) {
        Err(ConfigConvertError::UserConvert {
            source: UserConvertError::InvalidPasswordHash { username, hash, .. },
        }) => {
            assert_eq!(username, "bob");
            assert_eq!(hash, "not a hash");
        }
        Err(e) => panic!("unexpected {:?}", e),
        Ok(_) => panic!("a malformed hash must not load"),
    }
}

#[test]
fn hash_error_comes_before_domain_error() {
    let user = RawUser {
        hash: String::new(),
        domains: vec![("a.example".to_string(), domain(60, RawIpv6PrefixLenOrLan::Len(129)))],
    };
    assert!(matches!(
        Config::try_from(raw_config(vec![("alice".to_string(), user)])),
        Err(ConfigConvertError::UserConvert {
            source: UserConvertError::InvalidPasswordHash { .. },
        })
    ));
}

#[test]
fn empty_config_loads() {
    let config = Config::try_from(raw_config(vec![])).unwrap();
    assert!(config.users.is_empty());
}
