use vstd::prelude::*;

use crate::address::{
    ipv4_string,
    ipv4_text,
    ipv6_string,
    ipv6_text,
    splice,
    splice_ipv6_addrs,
};
use crate::config::{
    has_name,
    is_first_named,
    Config,
    Domain,
    Ipv6PrefixLen,
    Ipv6PrefixLenOrLan,
    UpdateProgram,
    User,
};
use crate::credential::{password_verifies, verify_password};
use crate::ipv6lanprefix::{
    lan_prefix_error_matches,
    lan_prefix_length,
    lan_prefix_parses,
    Ipv6LanPrefix,
    Ipv6LanPrefixError,
};
use crate::search::lemma_first_is_unique;
use crate::text::{decimal_string, decimal_text, pattern_pairs, substitute, substitute_all};

verus! {

/// The parameters of an update request, as the client sends them. `domain` and
/// `dualstack` are accepted and not used: the user's configuration names the domains.
pub struct RawQueryParameters {
    pub domain: Option<String>,
    pub user: String,
    pub pass: String,
    pub ipv4: Option<u32>,
    pub ipv6: Option<u128>,
    pub dualstack: Option<String>,
    pub ipv6lanprefix: Option<String>,
}

/// The parameters of an update request, with the LAN prefix parsed.
pub struct QueryParameters {
    pub domain: Option<String>,
    pub user: String,
    pub pass: String,
    pub ipv4: Option<u32>,
    pub ipv6: Option<u128>,
    pub dualstack: Option<String>,
    pub ipv6lanprefix: Option<Ipv6LanPrefix>,
}

impl QueryParameters {
    /// The LAN prefix as its address and length.
    pub open spec fn lan(self) -> Option<(u128, u8)> {
        match self.ipv6lanprefix {
            Some(p) => Some((p.prefix, p.prefix_length@)),
            None => None,
        }
    }
}

/// Whether the parameters are well formed: a LAN prefix, if given, parses, where
/// `lan_address` is the IPv6 address that the text before its first `/` denotes.
pub open spec fn raw_query_valid(raw: RawQueryParameters, lan_address: Option<u128>) -> bool {
    match raw.ipv6lanprefix {
        Some(s) => lan_prefix_parses(s@, lan_address),
        None => true,
    }
}

/// The LAN prefix of well-formed parameters, as its address and length.
pub open spec fn raw_lan(raw: RawQueryParameters, lan_address: Option<u128>) -> Option<(u128, u8)> {
    match (raw.ipv6lanprefix, lan_address, ) {
        (Some(s), Some(a)) => match lan_prefix_length(s@) {
            Some(n) => Some((a, n)),
            None => None,
        },
        _ => None,
    }
}

fn clone_text(o: &Option<String>) -> (r: Option<String>)
    ensures
        r == *o,
{
    match o {
        Some(s) => Some(s.clone()),
        None => None,
    }
}

impl QueryParameters {
    /// Parses the LAN prefix of the parameters; `lan_address` is the IPv6 address that
    /// the text before its first `/` denotes, if any.
    pub fn try_from(raw_q: &RawQueryParameters, lan_address: Option<u128>) -> (r: Result<
        QueryParameters,
        Ipv6LanPrefixError,
    >)
        ensures
            r is Ok <==> raw_query_valid(*raw_q, lan_address),
            r matches Ok(q) ==> {
                &&& q.user == raw_q.user
                &&& q.pass == raw_q.pass
                &&& q.ipv4 == raw_q.ipv4
                &&& q.ipv6 == raw_q.ipv6
                &&& q.domain == raw_q.domain
                &&& q.dualstack == raw_q.dualstack
                &&& q.lan() == raw_lan(*raw_q, lan_address)
            },
            r matches Err(e) ==> (raw_q.ipv6lanprefix matches Some(s) && lan_prefix_error_matches(
                s@,
                lan_address,
                e,
            )),
    {
        let ipv6lanprefix = match &raw_q.ipv6lanprefix {
            None => None,
            Some(s) => match Ipv6LanPrefix::try_from(s.as_str(), lan_address) {
                Ok(p) => Some(p),
                Err(e) => {
                    return Err(e);
                },
            },
        };
        Ok(
            QueryParameters {
                domain: clone_text(&raw_q.domain),
                user: raw_q.user.clone(),
                pass: raw_q.pass.clone(),
                ipv4: raw_q.ipv4,
                ipv6: raw_q.ipv6,
                dualstack: clone_text(&raw_q.dualstack),
                ipv6lanprefix,
            },
        )
    }
}

/// A template with each `{domain}`, `{ttl}` and `placeholder` replaced by its value,
/// independently and in one scan: text that a value brings in is never replaced again.
pub open spec fn render(
    template: Seq<char>,
    domain: Seq<char>,
    ttl: Seq<char>,
    placeholder: Seq<char>,
    value: Seq<char>,
) -> Seq<char> {
    substitute(template, seq![("{domain}"@, domain), ("{ttl}"@, ttl), (placeholder, value)])
}

/// The IPv6 address to publish for a domain, if any. A prefix length of zero, fixed or
/// from the client's LAN prefix, publishes none; a fixed length takes the prefix from the
/// client's `ipv6` address; `Lan` takes the client's LAN prefix with its own length.
pub open spec fn resolved_ipv6(d: Domain, ipv6: Option<u128>, lan: Option<(u128, u8)>) -> Option<
    u128,
> {
    match d.ipv6prefixlen {
        Ipv6PrefixLenOrLan::Len(l) => if l@ == 0 {
            None
        } else {
            match ipv6 {
                Some(p) => Some(splice(l@ as nat, p, d.ipv6suffix)),
                None => None,
            }
        },
        Ipv6PrefixLenOrLan::Lan => match lan {
            Some((p, n)) => if n == 0 {
                None
            } else {
                Some(splice(n as nat, p, d.ipv6suffix))
            },
            None => None,
        },
    }
}

/// The IPv4 commands for one domain: the rendered IPv4 template where the client sent
/// an IPv4 address.
pub open spec fn ipv4_commands(
    prog: UpdateProgram,
    name: Seq<char>,
    d: Domain,
    ipv4: Option<u32>,
) -> Seq<char> {
    match ipv4 {
        Some(a) => render(
            prog.ipv4.stdin@,
            name,
            decimal_text(d.ttl as nat),
            "{ipv4}"@,
            ipv4_text(a),
        ),
        None => seq![],
    }
}

/// The IPv6 commands for one domain: the rendered IPv6 template where an address resolves.
pub open spec fn ipv6_commands(
    prog: UpdateProgram,
    name: Seq<char>,
    d: Domain,
    ipv6: Option<u128>,
    lan: Option<(u128, u8)>,
) -> Seq<char> {
    match resolved_ipv6(d, ipv6, lan) {
        Some(a) => render(
            prog.ipv6.stdin@,
            name,
            decimal_text(d.ttl as nat),
            "{ipv6}"@,
            ipv6_text(a),
        ),
        None => seq![],
    }
}

/// The commands for one domain, ending with the per-zone separator.
pub open spec fn domain_commands(
    prog: UpdateProgram,
    name: Seq<char>,
    d: Domain,
    ipv4: Option<u32>,
    ipv6: Option<u128>,
    lan: Option<(u128, u8)>,
) -> Seq<char> {
    ipv4_commands(prog, name, d, ipv4) + ipv6_commands(prog, name, d, ipv6, lan)
        + prog.stdin_per_zone_update@
}

/// The commands for a list of domains, in order.
pub open spec fn domains_commands(
    prog: UpdateProgram,
    domains: Seq<(String, Domain)>,
    ipv4: Option<u32>,
    ipv6: Option<u128>,
    lan: Option<(u128, u8)>,
) -> Seq<char>
    decreases domains.len(),
{
    if domains.len() == 0 {
        seq![]
    } else {
        domains_commands(prog, domains.drop_last(), ipv4, ipv6, lan) + domain_commands(
            prog,
            domains.last().0@,
            domains.last().1,
            ipv4,
            ipv6,
            lan,
        )
    }
}

/// The whole text for the update program: the initial text, the commands of each
/// domain, and the final text.
pub open spec fn command_text(
    prog: UpdateProgram,
    domains: Seq<(String, Domain)>,
    ipv4: Option<u32>,
    ipv6: Option<u128>,
    lan: Option<(u128, u8)>,
) -> Seq<char> {
    let initial = match prog.initial_stdin {
        Some(s) => s@,
        None => seq![],
    };
    initial + domains_commands(prog, domains, ipv4, ipv6, lan) + prog.final_stdin@
}

fn render_template(
    template: &str,
    domain: &str,
    ttl: &str,
    placeholder: &str,
    value: &str,
) -> (r: String)
    ensures
        r@ == render(template@, domain@, ttl@, placeholder@, value@),
{
    let pairs = vec![("{domain}", domain), ("{ttl}", ttl), (placeholder, value)];
    assert(pattern_pairs(pairs@) =~= seq![
        ("{domain}"@, domain@),
        ("{ttl}"@, ttl@),
        (placeholder@, value@),
    ]);
    substitute_all(template, &pairs)
}

fn build_domain_command_v4(
    command: String,
    update_program: &UpdateProgram,
    domain: &str,
    ttl: &str,
    ipv4: u32,
) -> (r: String)
    ensures
        r@ == command@ + render(update_program.ipv4.stdin@, domain@, ttl@, "{ipv4}"@, ipv4_text(ipv4)),
{
    let mut command = command;
    let ipv4 = ipv4_string(ipv4);
    proof {
        reveal_strlit("{ipv4}");
    }
    let rendered = render_template(
        update_program.ipv4.stdin.as_str(),
        domain,
        ttl,
        "{ipv4}",
        ipv4.as_str(),
    );
    command.append(rendered.as_str());
    command
}

fn build_domain_command_v6(
    command: String,
    update_program: &UpdateProgram,
    domain: &str,
    ttl: &str,
    prefix_length: &Ipv6PrefixLen,
    prefix: u128,
    ipv6suffix: u128,
) -> (r: String)
    ensures
        r@ == command@ + render(
            update_program.ipv6.stdin@,
            domain@,
            ttl@,
            "{ipv6}"@,
            ipv6_text(splice(prefix_length@ as nat, prefix, ipv6suffix)),
        ),
{
    let mut command = command;
    let assembled_addr = splice_ipv6_addrs(prefix_length, prefix, ipv6suffix);
    let ipv6 = ipv6_string(assembled_addr);
    proof {
        reveal_strlit("{ipv6}");
    }
    let rendered = render_template(
        update_program.ipv6.stdin.as_str(),
        domain,
        ttl,
        "{ipv6}",
        ipv6.as_str(),
    );
    command.append(rendered.as_str());
    command
}

/// Builds the text for the update program for `user` and the request `q`.
pub fn build_command_string(config: &Config, user: &User, q: &QueryParameters) -> (r: String)
    ensures
        r@ == command_text(config.update_program, user.domains@, q.ipv4, q.ipv6, q.lan()),
{
    let prog = &config.update_program;
    let mut command = String::new();
    if let Some(initial_stdin) = &prog.initial_stdin {
        command.append(initial_stdin.as_str());
    }
    let ghost initial = command@;
    let ghost lan = q.lan();
    let domains = &user.domains;
    let mut i: usize = 0;
    assert(domains@.subrange(0, 0) =~= Seq::<(String, Domain)>::empty());
    assert(command@ =~= initial + domains_commands(*prog, domains@.subrange(0, 0), q.ipv4, q.ipv6, lan));
    while i < domains.len()
        invariant
            i <= domains@.len(),
            lan == q.lan(),
            initial == match prog.initial_stdin {
                Some(s) => s@,
                None => seq![],
            },
            command@ == initial + domains_commands(
                *prog,
                domains@.subrange(0, i as int),
                q.ipv4,
                q.ipv6,
                lan,
            ),
        decreases domains@.len() - i,
    {
        let (domain, props) = &domains[i];
        let ghost before = command@;
        let ttl = decimal_string(props.ttl);
        if let Some(ipv4) = q.ipv4 {
            command = build_domain_command_v4(command, prog, domain.as_str(), ttl.as_str(), ipv4);
        }
        let ghost after_v4 = command@;
        match &props.ipv6prefixlen {
            Ipv6PrefixLenOrLan::Len(prefix_length) => {
                // A zero length would publish whatever address the client names: skip.
                if prefix_length.value() != 0 {
                    if let Some(prefix) = q.ipv6 {
                        command = build_domain_command_v6(
                            command,
                            prog,
                            domain.as_str(),
                            ttl.as_str(),
                            prefix_length,
                            prefix,
                            props.ipv6suffix,
                        );
                    }
                }
            },
            Ipv6PrefixLenOrLan::Lan => {
                if let Some(ipv6lanprefix) = &q.ipv6lanprefix {
                    // As for a fixed length: a zero length would publish the suffix alone.
                    if ipv6lanprefix.prefix_length.value() != 0 {
                        command = build_domain_command_v6(
                            command,
                            prog,
                            domain.as_str(),
                            ttl.as_str(),
                            &ipv6lanprefix.prefix_length,
                            ipv6lanprefix.prefix,
                            props.ipv6suffix,
                        );
                    }
                }
            },
        }
        command.append(prog.stdin_per_zone_update.as_str());
        assert(after_v4 == before + ipv4_commands(*prog, domain@, *props, q.ipv4));
        assert(command@ == after_v4 + ipv6_commands(*prog, domain@, *props, q.ipv6, lan)
            + prog.stdin_per_zone_update@);
        assert(domains@.subrange(0, i + 1).drop_last() =~= domains@.subrange(0, i as int));
        assert(command@ =~= initial + domains_commands(
            *prog,
            domains@.subrange(0, i + 1),
            q.ipv4,
            q.ipv6,
            lan,
        ));
        i = i + 1;
    }
    assert(domains@.subrange(0, domains@.len() as int) =~= domains@);
    command.append(prog.final_stdin.as_str());
    command
}

/// The position of the first user named `name`.
fn find_user(users: &Vec<(String, User)>, name: &String) -> (r: Option<usize>)
    ensures
        match r {
            Some(i) => is_first_named(users@, name@, i as int),
            None => !has_name(users@, name@),
        },
{
    let mut i: usize = 0;
    while i < users.len()
        invariant
            i <= users@.len(),
            forall|j: int| 0 <= j < i ==> users@[j].0@ != name@,
        decreases users@.len() - i,
    {
        if users[i].0 == *name {
            return Some(i);
        }
        i = i + 1;
    }
    None
}

/// Why a request is not authorized. Both causes give the client the same reply.
#[derive(Clone, Copy, Debug, PartialEq, Eq)]
pub enum AuthError {
    UnknownUser,
    WrongPassword,
}

/// Looks up the user `user` and checks the password.
pub fn authenticate<'a>(config: &'a Config, user: &String, pass: &String) -> (r: Result<
    &'a User,
    AuthError,
>)
    ensures
        !has_name(config.users@, user@) ==> r == Err::<&User, _>(AuthError::UnknownUser),
        forall|i: int|
            #![trigger is_first_named(config.users@, user@, i)]
            is_first_named(config.users@, user@, i) ==> if password_verifies(
                pass@,
                config.users@[i].1.hash@,
            ) {
                r matches Ok(u) && *u == config.users@[i].1
            } else {
                r == Err::<&User, _>(AuthError::WrongPassword)
            },
{
    let i = match find_user(&config.users, user) {
        Some(i) => i,
        None => {
            return Err(AuthError::UnknownUser);
        },
    };
    assert forall|k: int| is_first_named(config.users@, user@, k) implies k == i by {
        lemma_first_is_unique(
            |j: int| j < config.users@.len() && config.users@[j].0@ == user@,
            i as int,
            k,
        );
    }
    let u = &config.users[i].1;
    if verify_password(pass.as_str(), u.hash.as_str()) {
        Ok(u)
    } else {
        Err(AuthError::WrongPassword)
    }
}

pub const STATUS_OK: u16 = 200;

pub const STATUS_BAD_REQUEST: u16 = 400;

pub const STATUS_FORBIDDEN: u16 = 403;

pub const STATUS_INTERNAL_SERVER_ERROR: u16 = 500;

/// The HTTP status and body of the reply to a request.
pub struct Reply {
    pub status: u16,
    pub body: String,
}

/// Why a request stops before the update program runs.
#[derive(Debug)]
pub enum Rejection {
    /// The LAN prefix does not parse.
    InvalidQuery { source: Ipv6LanPrefixError },
    /// The user is unknown or the password is wrong.
    NotAuthorized { source: AuthError },
}

impl Rejection {
    /// The reply to a rejected request: 400 for malformed parameters, 403 for a failed
    /// authentication, with the same body whatever its cause.
    pub fn reply(&self) -> (r: Reply)
        ensures
            self is InvalidQuery ==> r.status == STATUS_BAD_REQUEST && r.body@
                == "Invalid query parameters"@,
            self is NotAuthorized ==> r.status == STATUS_FORBIDDEN && r.body@ == "Not authorized"@,
    {
        match self {
            Rejection::InvalidQuery { .. } => Reply {
                status: STATUS_BAD_REQUEST,
                body: "Invalid query parameters".to_owned(),
            },
            Rejection::NotAuthorized { .. } => Reply {
                status: STATUS_FORBIDDEN,
                body: "Not authorized".to_owned(),
            },
        }
    }
}

/// Handles an update request up to the point where the update program runs: parses the
/// parameters, authenticates the user and builds the text for the program.
/// `lan_address` is the IPv6 address that the text before the first `/` of the LAN
/// prefix denotes, if any.
pub fn update_command(config: &Config, raw_q: &RawQueryParameters, lan_address: Option<u128>) -> (r:
    Result<String, Rejection>)
    ensures
        !raw_query_valid(*raw_q, lan_address) ==> r matches Err(Rejection::InvalidQuery { .. }),
        raw_query_valid(*raw_q, lan_address) && !has_name(config.users@, raw_q.user@) ==> r
            matches Err(Rejection::NotAuthorized { source: AuthError::UnknownUser }),
        forall|i: int|
            #![trigger is_first_named(config.users@, raw_q.user@, i)]
            raw_query_valid(*raw_q, lan_address) && is_first_named(config.users@, raw_q.user@, i)
                ==> if password_verifies(raw_q.pass@, config.users@[i].1.hash@) {
                r matches Ok(cmd) && cmd@ == command_text(
                    config.update_program,
                    config.users@[i].1.domains@,
                    raw_q.ipv4,
                    raw_q.ipv6,
                    raw_lan(*raw_q, lan_address),
                )
            } else {
                r matches Err(Rejection::NotAuthorized { source: AuthError::WrongPassword })
            },
{
    let q = match QueryParameters::try_from(raw_q, lan_address) {
        Ok(q) => q,
        Err(source) => {
            return Err(Rejection::InvalidQuery { source });
        },
    };
    match authenticate(config, &q.user, &q.pass) {
        Ok(user) => Ok(build_command_string(config, user, &q)),
        Err(source) => Err(Rejection::NotAuthorized { source }),
    }
}

/// How a run of the update program ended.
pub enum ExecutionOutcome {
    /// The program could not be started.
    SpawnFailed { error: String },
    /// The text could not be written to its standard input.
    WriteFailed { error: String },
    /// Waiting for it to end failed.
    WaitFailed { error: String },
    /// It ended, with a zero exit status or not.
    Exited { success: bool },
}

/// The reply once the update program has run: 200 `ok` where it ended with a zero exit
/// status, 500 `ERROR` where it ended otherwise, and 500 with the error's text where it
/// could not be run. The text that the program received is never part of the reply.
pub fn execution_reply(outcome: ExecutionOutcome) -> (r: Reply)
    ensures
        match outcome {
            ExecutionOutcome::SpawnFailed { error } => r.status == STATUS_INTERNAL_SERVER_ERROR
                && r.body@ == error@,
            ExecutionOutcome::WriteFailed { error } => r.status == STATUS_INTERNAL_SERVER_ERROR
                && r.body@ == error@,
            ExecutionOutcome::WaitFailed { error } => r.status == STATUS_INTERNAL_SERVER_ERROR
                && r.body@ == error@,
            ExecutionOutcome::Exited { success } => if success {
                r.status == STATUS_OK && r.body@ == "ok"@
            } else {
                r.status == STATUS_INTERNAL_SERVER_ERROR && r.body@ == "ERROR"@
            },
        },
{
    match outcome {
        ExecutionOutcome::SpawnFailed { error } => Reply {
            status: STATUS_INTERNAL_SERVER_ERROR,
            body: error,
        },
        ExecutionOutcome::WriteFailed { error } => Reply {
            status: STATUS_INTERNAL_SERVER_ERROR,
            body: error,
        },
        ExecutionOutcome::WaitFailed { error } => Reply {
            status: STATUS_INTERNAL_SERVER_ERROR,
            body: error,
        },
        ExecutionOutcome::Exited { success } => {
            if success {
                Reply { status: STATUS_OK, body: "ok".to_owned() }
            } else {
                Reply { status: STATUS_INTERNAL_SERVER_ERROR, body: "ERROR".to_owned() }
            }
        },
    }
}

/// A domain whose fixed prefix length is zero gets no IPv6 commands, whatever addresses
/// the client sends, and neither does a `Lan` domain where the client's LAN prefix has
/// length zero: only its IPv4 commands and the separator.
pub proof fn lemma_zero_prefix_len_publishes_no_ipv6(
    prog: UpdateProgram,
    name: Seq<char>,
    d: Domain,
    ipv4: Option<u32>,
    ipv6: Option<u128>,
    lan: Option<(u128, u8)>,
)
    requires
        (d.ipv6prefixlen matches Ipv6PrefixLenOrLan::Len(l) && l@ == 0) || (d.ipv6prefixlen is Lan
            && (lan matches Some((p, n)) && n == 0)),
    ensures
        resolved_ipv6(d, ipv6, lan) is None,
        ipv6_commands(prog, name, d, ipv6, lan) == Seq::<char>::empty(),
        domain_commands(prog, name, d, ipv4, ipv6, lan) == ipv4_commands(prog, name, d, ipv4)
            + prog.stdin_per_zone_update@,
{
    assert(ipv4_commands(prog, name, d, ipv4) + Seq::<char>::empty() =~= ipv4_commands(
        prog,
        name,
        d,
        ipv4,
    ));
}

/// A request without an IPv6 address and without a LAN prefix gets no IPv6 commands for
/// any domain: each domain gets its IPv4 commands and the separator.
pub proof fn lemma_no_client_ipv6_publishes_no_ipv6(
    prog: UpdateProgram,
    name: Seq<char>,
    d: Domain,
    ipv4: Option<u32>,
)
    ensures
        resolved_ipv6(d, None, None) is None,
        domain_commands(prog, name, d, ipv4, None, None) == ipv4_commands(prog, name, d, ipv4)
            + prog.stdin_per_zone_update@,
{
    assert(ipv4_commands(prog, name, d, ipv4) + Seq::<char>::empty() =~= ipv4_commands(
        prog,
        name,
        d,
        ipv4,
    ));
}

} // verus!
