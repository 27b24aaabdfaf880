use vstd::prelude::*;

use crate::credential::{check_password_hash, is_password_hash};
use crate::search::{is_first, lemma_first_is_unique};

verus! {

/// A prefix length as it stands in the configuration file: either a number or a string,
/// of which only `"lan"` is meaningful.
pub enum RawIpv6PrefixLenOrLan {
    Len(u8),
    Lan(String),
}

/// An IPv6 prefix length, always in `0..=128`.
#[derive(Clone, Copy, Debug, PartialEq, Eq)]
pub struct Ipv6PrefixLen(u8);

/// The prefix length of a domain: a fixed length, or the prefix that the client reports
/// for its LAN.
#[derive(Clone, Copy, Debug, PartialEq, Eq)]
pub enum Ipv6PrefixLenOrLan {
    Lan,
    Len(Ipv6PrefixLen),
}

#[derive(Clone, Copy, Debug, PartialEq, Eq)]
pub enum Ipv6PrefixLenError {
    TooLong { prefixlen: u8 },
}

#[derive(Debug)]
pub enum Ipv6PrefixLenOrLanError {
    PrefixTooLong { source: Ipv6PrefixLenError },
    UnexpectedString { string: String },
    IsLan {},
}

/// The largest prefix length of an IPv6 address.
pub const MAX_PREFIX_LEN: u8 = 128;

impl View for Ipv6PrefixLen {
    type V = u8;

    closed spec fn view(&self) -> u8 {
        self.0
    }
}

impl Ipv6PrefixLen {
    #[verifier::type_invariant]
    spec fn in_range(self) -> bool {
        self.0 <= MAX_PREFIX_LEN
    }

    /// Validates a prefix length: it must not exceed 128.
    pub fn try_from(prefixlen: u8) -> (r: Result<Ipv6PrefixLen, Ipv6PrefixLenError>)
        ensures
            prefixlen <= 128 ==> (r matches Ok(l) && l@ == prefixlen),
            prefixlen > 128 ==> r == Err::<Ipv6PrefixLen, _>(
                Ipv6PrefixLenError::TooLong { prefixlen },
            ),
    {
        if prefixlen <= MAX_PREFIX_LEN {
            Ok(Ipv6PrefixLen(prefixlen))
        } else {
            Err(Ipv6PrefixLenError::TooLong { prefixlen })
        }
    }

    /// The length as a plain integer.
    pub fn value(&self) -> (r: u8)
        ensures
            r == self@,
            r <= 128,
    {
        proof {
            use_type_invariant(self);
        }
        self.0
    }

    /// The fixed length of a domain's prefix length, or `IsLan` for a domain that takes
    /// the client's LAN prefix.
    pub fn from_len_or_lan(prefixlen: Ipv6PrefixLenOrLan) -> (r: Result<
        Ipv6PrefixLen,
        Ipv6PrefixLenOrLanError,
    >)
        ensures
            match prefixlen {
                Ipv6PrefixLenOrLan::Len(l) => r == Ok::<_, Ipv6PrefixLenOrLanError>(l),
                Ipv6PrefixLenOrLan::Lan => r matches Err(Ipv6PrefixLenOrLanError::IsLan {  }),
            },
    {
        match prefixlen {
            Ipv6PrefixLenOrLan::Len(l) => Ok(l),
            Ipv6PrefixLenOrLan::Lan => Err(Ipv6PrefixLenOrLanError::IsLan {  }),
        }
    }
}

impl Ipv6PrefixLenOrLan {
    /// Wraps a validated length.
    pub fn from(prefixlen: Ipv6PrefixLen) -> (r: Ipv6PrefixLenOrLan)
        ensures
            r == Ipv6PrefixLenOrLan::Len(prefixlen),
    {
        Ipv6PrefixLenOrLan::Len(prefixlen)
    }

    /// Validates the prefix length of a domain as read from the configuration file:
    /// a number of at most 128, or the string `"lan"`.
    pub fn try_from(prefixlen: RawIpv6PrefixLenOrLan) -> (r: Result<
        Ipv6PrefixLenOrLan,
        Ipv6PrefixLenOrLanError,
    >)
        ensures
            match prefixlen {
                RawIpv6PrefixLenOrLan::Len(l) => if l <= 128 {
                    &&& r is Ok
                    &&& r->Ok_0 is Len
                    &&& r->Ok_0->Len_0@ == l
                } else {
                    &&& r is Err
                    &&& r->Err_0 is PrefixTooLong
                    &&& r->Err_0->PrefixTooLong_source == Ipv6PrefixLenError::TooLong {
                        prefixlen: l,
                    }
                },
                RawIpv6PrefixLenOrLan::Lan(s) => if s@ == "lan"@ {
                    r == Ok::<_, Ipv6PrefixLenOrLanError>(Ipv6PrefixLenOrLan::Lan)
                } else {
                    r matches Err(Ipv6PrefixLenOrLanError::UnexpectedString { string }) && string@
                        == s@
                },
            },
    {
        match prefixlen {
            RawIpv6PrefixLenOrLan::Len(l) => match Ipv6PrefixLen::try_from(l) {
                Ok(len) => Ok(Ipv6PrefixLenOrLan::from(len)),
                Err(source) => Err(Ipv6PrefixLenOrLanError::PrefixTooLong { source }),
            },
            RawIpv6PrefixLenOrLan::Lan(s) => {
                if s == "lan".to_owned() {
                    Ok(Ipv6PrefixLenOrLan::Lan)
                } else {
                    Err(Ipv6PrefixLenOrLanError::UnexpectedString { string: s })
                }
            },
        }
    }
}

/// The prefix length that a raw value validates to: a number of at most 128 gives that
/// length, the string `"lan"` gives `Lan`; nothing else validates.
pub open spec fn prefix_converts(raw: RawIpv6PrefixLenOrLan, p: Ipv6PrefixLenOrLan) -> bool {
    match raw {
        RawIpv6PrefixLenOrLan::Len(l) => l <= 128 && (p matches Ipv6PrefixLenOrLan::Len(v)
            && v@ == l),
        RawIpv6PrefixLenOrLan::Lan(s) => s@ == "lan"@ && p is Lan,
    }
}

/// The error that a raw prefix length that does not validate gives: a number above 128
/// is too long, any string but `"lan"` is unexpected.
pub open spec fn prefix_error_matches(raw: RawIpv6PrefixLenOrLan, e: Ipv6PrefixLenOrLanError) -> bool {
    match raw {
        RawIpv6PrefixLenOrLan::Len(l) => e == Ipv6PrefixLenOrLanError::PrefixTooLong {
            source: Ipv6PrefixLenError::TooLong { prefixlen: l },
        },
        RawIpv6PrefixLenOrLan::Lan(s) => e matches Ipv6PrefixLenOrLanError::UnexpectedString {
            string,
        } && string@ == s@,
    }
}

/// Whether a raw prefix length validates.
pub open spec fn raw_prefix_valid(raw: RawIpv6PrefixLenOrLan) -> bool {
    match raw {
        RawIpv6PrefixLenOrLan::Len(l) => l <= 128,
        RawIpv6PrefixLenOrLan::Lan(s) => s@ == "lan"@,
    }
}

/// The settings of one domain of a user.
#[derive(Clone, Copy, Debug)]
pub struct Domain {
    pub ttl: u32,
    pub ipv6prefixlen: Ipv6PrefixLenOrLan,
    pub ipv6suffix: u128,
}

/// The settings of one domain as read from the configuration file.
pub struct RawDomain {
    pub ttl: u32,
    pub ipv6prefixlen: RawIpv6PrefixLenOrLan,
    pub ipv6suffix: u128,
}

#[derive(Debug)]
pub enum DomainConvertError {
    InvalidIpv6PrefixLen { domain_name: String, source: Ipv6PrefixLenOrLanError },
}

/// A validated domain keeps the TTL and suffix of its raw settings.
pub open spec fn domain_converts(raw: RawDomain, d: Domain) -> bool {
    &&& d.ttl == raw.ttl
    &&& d.ipv6suffix == raw.ipv6suffix
    &&& prefix_converts(raw.ipv6prefixlen, d.ipv6prefixlen)
}

/// No two entries of a list of named values share a name.
pub open spec fn unique_names<T>(v: Seq<(String, T)>) -> bool {
    forall|i: int, j: int| 0 <= i < j < v.len() ==> v[i].0@ != v[j].0@
}

/// `i` is the first entry of `v` whose name is `name`.
pub open spec fn is_first_named<T>(v: Seq<(String, T)>, name: Seq<char>, i: int) -> bool {
    is_first(|j: int| j < v.len() && v[j].0@ == name, i)
}

/// Some entry of `v` is named `name`.
pub open spec fn has_name<T>(v: Seq<(String, T)>, name: Seq<char>) -> bool {
    exists|i: int| 0 <= i < v.len() && v[i].0@ == name
}

fn clone_raw_prefix(raw: &RawIpv6PrefixLenOrLan) -> (r: RawIpv6PrefixLenOrLan)
    ensures
        r == *raw,
{
    match raw {
        RawIpv6PrefixLenOrLan::Len(l) => RawIpv6PrefixLenOrLan::Len(*l),
        RawIpv6PrefixLenOrLan::Lan(s) => RawIpv6PrefixLenOrLan::Lan(s.clone()),
    }
}

impl RawDomain {
    /// Validates the settings of the domain `domain_name`.
    pub fn try_into(&self, domain_name: &String) -> (r: Result<Domain, DomainConvertError>)
        ensures
            raw_prefix_valid(self.ipv6prefixlen) <==> r is Ok,
            r matches Ok(d) ==> domain_converts(*self, d),
            r matches Err(DomainConvertError::InvalidIpv6PrefixLen { domain_name: n, source })
                ==> n@ == domain_name@ && prefix_error_matches(self.ipv6prefixlen, source),
    {
        match Ipv6PrefixLenOrLan::try_from(clone_raw_prefix(&self.ipv6prefixlen)) {
            Ok(ipv6prefixlen) => Ok(
                Domain { ttl: self.ttl, ipv6prefixlen, ipv6suffix: self.ipv6suffix },
            ),
            Err(source) => Err(
                DomainConvertError::InvalidIpv6PrefixLen { domain_name: domain_name.clone(), source },
            ),
        }
    }
}

/// A user: a password hash in the PHC string format, checked when the configuration is
/// read, and the user's domains by name.
pub struct User {
    pub hash: String,
    pub domains: Vec<(String, Domain)>,
}

/// A user as read from the configuration file.
pub struct RawUser {
    pub hash: String,
    pub domains: Vec<(String, RawDomain)>,
}

#[derive(Debug)]
pub enum UserConvertError {
    DomainConvert { username: String, source: DomainConvertError },
    InvalidPasswordHash {
        username: String,
        hash: String,
        source: argon2::password_hash::Error,
    },
}

/// `i` is the first domain of `raw` whose settings do not validate.
pub open spec fn is_first_invalid_domain(raw: Seq<(String, RawDomain)>, i: int) -> bool {
    is_first(|j: int| j < raw.len() && !raw_prefix_valid(raw[j].1.ipv6prefixlen), i)
}

/// The settings of every domain of `raw` validate.
pub open spec fn all_domains_valid(raw: Seq<(String, RawDomain)>) -> bool {
    forall|j: int| 0 <= j < raw.len() ==> raw_prefix_valid(#[trigger] raw[j].1.ipv6prefixlen)
}

/// `domains` are the validated `raw` domains, under the same names and in the same order.
pub open spec fn domains_convert(raw: Seq<(String, RawDomain)>, domains: Seq<(String, Domain)>) -> bool {
    &&& domains.len() == raw.len()
    &&& forall|j: int|
        0 <= j < raw.len() ==> (#[trigger] domains[j]).0@ == raw[j].0@ && domain_converts(
            raw[j].1,
            domains[j].1,
        )
}

/// The validated form of `raw`.
pub open spec fn user_converts(raw: RawUser, u: User) -> bool {
    &&& u.hash@ == raw.hash@
    &&& domains_convert(raw.domains@, u.domains@)
}

/// Whether `raw` validates: every domain does, and the hash is a PHC string.
pub open spec fn raw_user_valid(raw: RawUser) -> bool {
    all_domains_valid(raw.domains@) && is_password_hash(raw.hash@)
}

/// The error that a user that does not validate gives: a password hash that is no PHC
/// string, or else the first domain that does not validate.
pub open spec fn user_error_matches(raw: RawUser, username: Seq<char>, e: UserConvertError) -> bool {
    match e {
        UserConvertError::DomainConvert {
            username: n,
            source: DomainConvertError::InvalidIpv6PrefixLen { domain_name, source },
        } => n@ == username && is_password_hash(raw.hash@) && exists|i: int|
            is_first_invalid_domain(raw.domains@, i) && domain_name@ == raw.domains@[i].0@
                && prefix_error_matches(raw.domains@[i].1.ipv6prefixlen, source),
        UserConvertError::InvalidPasswordHash { username: n, hash, .. } => {
            &&& n@ == username
            &&& hash@ == raw.hash@
            &&& !is_password_hash(raw.hash@)
        },
    }
}

impl RawUser {
    /// Validates the user `username`: the password hash, then each domain in order.
    pub fn try_into(&self, username: &String) -> (r: Result<User, UserConvertError>)
        ensures
            r is Ok <==> raw_user_valid(*self),
            r matches Ok(u) ==> user_converts(*self, u),
            r matches Err(e) ==> user_error_matches(*self, username@, e),
    {
        if let Err(source) = check_password_hash(self.hash.as_str()) {
            return Err(
                UserConvertError::InvalidPasswordHash {
                    username: username.clone(),
                    hash: self.hash.clone(),
                    source,
                },
            );
        }
        let mut domains: Vec<(String, Domain)> = Vec::new();
        let mut i: usize = 0;
        while i < self.domains.len()
            invariant
                is_password_hash(self.hash@),
                i <= self.domains@.len(),
                domains@.len() == i,
                forall|j: int| 0 <= j < i ==> raw_prefix_valid(#[trigger] self.domains@[j].1.ipv6prefixlen),
                forall|j: int|
                    0 <= j < i ==> (#[trigger] domains@[j]).0@ == self.domains@[j].0@
                        && domain_converts(self.domains@[j].1, domains@[j].1),
            decreases self.domains@.len() - i,
        {
            let (name, raw_domain) = &self.domains[i];
            match raw_domain.try_into(name) {
                Ok(domain) => {
                    domains.push((name.clone(), domain));
                },
                Err(source) => {
                    assert forall|j: int| 0 <= j < i implies raw_prefix_valid(
                        #[trigger] self.domains@[j].1.ipv6prefixlen,
                    ) by {}
                    assert(is_first_invalid_domain(self.domains@, i as int));
                    return Err(UserConvertError::DomainConvert { username: username.clone(), source });
                },
            }
            i = i + 1;
        }
        Ok(User { hash: self.hash.clone(), domains })
    }
}

/// The text that the update program receives for one kind of address.
#[derive(Clone, Debug)]
pub struct SpecialUpdateProgram {
    pub stdin: String,
}

/// The program that updates the DNS records, and the text that it receives on its
/// standard input.
#[derive(Clone, Debug)]
pub struct UpdateProgram {
    pub bin: String,
    pub args: Vec<String>,
    pub initial_stdin: Option<String>,
    pub stdin_per_zone_update: String,
    pub final_stdin: String,
    pub ipv4: SpecialUpdateProgram,
    pub ipv6: SpecialUpdateProgram,
}

/// An IPv4 or IPv6 address.
#[derive(Clone, Copy, Debug, PartialEq, Eq)]
pub enum IpAddress {
    V4(u32),
    V6(u128),
}

/// The address and port to listen on.
#[derive(Clone, Copy, Debug, PartialEq, Eq)]
pub struct Listen {
    pub ip: IpAddress,
    pub port: u16,
}

/// The validated configuration.
pub struct Config {
    pub listen: Option<Listen>,
    pub update_program: UpdateProgram,
    pub users: Vec<(String, User)>,
}

/// The configuration as read from the configuration file.
pub struct RawConfig {
    pub listen: Option<Listen>,
    pub update_program: UpdateProgram,
    pub users: Vec<(String, RawUser)>,
}

#[derive(Debug)]
pub enum ConfigConvertError {
    UserConvert { source: UserConvertError },
}

/// `i` is the first user of `raw` that does not validate.
pub open spec fn is_first_invalid_user(raw: Seq<(String, RawUser)>, i: int) -> bool {
    is_first(|j: int| j < raw.len() && !raw_user_valid(raw[j].1), i)
}

impl Config {
    /// Validates a configuration: each user in order. Names stay unique.
    pub fn try_from(raw_config: RawConfig) -> (r: Result<Config, ConfigConvertError>)
        ensures
            r is Ok <==> forall|j: int|
                0 <= j < raw_config.users@.len() ==> raw_user_valid(
                    #[trigger] raw_config.users@[j].1,
                ),
            r matches Ok(c) ==> {
                &&& c.listen == raw_config.listen
                &&& c.update_program == raw_config.update_program
                &&& c.users@.len() == raw_config.users@.len()
                &&& forall|j: int|
                    0 <= j < c.users@.len() ==> (#[trigger] c.users@[j]).0@
                        == raw_config.users@[j].0@ && user_converts(
                        raw_config.users@[j].1,
                        c.users@[j].1,
                    )
            },
            unique_names(raw_config.users@) ==> (r matches Ok(c) ==> unique_names(c.users@)),
            forall|i: int|
                #![trigger is_first_invalid_user(raw_config.users@, i)]
                is_first_invalid_user(raw_config.users@, i) ==> (r matches Err(
                    ConfigConvertError::UserConvert { source },
                ) && user_error_matches(
                    raw_config.users@[i].1,
                    raw_config.users@[i].0@,
                    source,
                )),
    {
        let mut users: Vec<(String, User)> = Vec::new();
        let mut i: usize = 0;
        while i < raw_config.users.len()
            invariant
                i <= raw_config.users@.len(),
                users@.len() == i,
                forall|j: int| 0 <= j < i ==> raw_user_valid(#[trigger] raw_config.users@[j].1),
                forall|j: int|
                    0 <= j < i ==> (#[trigger] users@[j]).0@ == raw_config.users@[j].0@
                        && user_converts(raw_config.users@[j].1, users@[j].1),
            decreases raw_config.users@.len() - i,
        {
            let (name, raw_user) = &raw_config.users[i];
            match raw_user.try_into(name) {
                Ok(user) => {
                    users.push((name.clone(), user));
                },
                Err(source) => {
                    assert(is_first_invalid_user(raw_config.users@, i as int));
                    assert forall|k: int| is_first_invalid_user(raw_config.users@, k) implies k
                        == i by {
                        lemma_first_is_unique(
                            |j: int|
                                j < raw_config.users@.len() && !raw_user_valid(
                                    raw_config.users@[j].1,
                                ),
                            i as int,
                            k,
                        );
                    }
                    return Err(ConfigConvertError::UserConvert { source });
                },
            }
            i = i + 1;
        }
        assert forall|k: int| !is_first_invalid_user(raw_config.users@, k) by {
            if 0 <= k < raw_config.users@.len() {
                assert(raw_user_valid(raw_config.users@[k].1));
            }
        }
        Ok(Config { listen: raw_config.listen, update_program: raw_config.update_program, users })
    }
}

/// A configuration in which some domain of some user has a numeric prefix length above
/// 128 does not validate.
pub proof fn lemma_long_prefix_len_fails_to_load(raw_config: RawConfig, u: int, d: int)
    requires
        0 <= u < raw_config.users@.len(),
        0 <= d < raw_config.users@[u].1.domains@.len(),
        raw_config.users@[u].1.domains@[d].1.ipv6prefixlen matches RawIpv6PrefixLenOrLan::Len(l)
            && l > 128,
    ensures
        !(forall|j: int|
            0 <= j < raw_config.users@.len() ==> raw_user_valid(#[trigger] raw_config.users@[j].1)),
{
    assert(!raw_prefix_valid(raw_config.users@[u].1.domains@[d].1.ipv6prefixlen));
    assert(!all_domains_valid(raw_config.users@[u].1.domains@));
    assert(!raw_user_valid(raw_config.users@[u].1));
}

} // verus!
