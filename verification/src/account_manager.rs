//! The account model: one connection's remaining validity and server
//! flag, the caller's own system status, and the aggregate status
//! snapshot, together with the session client's decision logic.
use vstd::prelude::*;

use crate::datetime::now_civil_secs;
use crate::ip::{parse_ip, spec_parse_ip, IpAddr};
use crate::status_page::{parse_connections, spec_parse_page, ParseError};

verus! {

/// One registered connection: the seconds it remains valid (floored at
/// zero) and the active flag shown by the server.
#[derive(Clone, Copy, Debug, PartialEq, Eq, Structural)]
pub struct Connection {
    pub time_left: u64,
    pub server_active: bool,
}

impl Default for Connection {
    /// An expired, inactive connection.
    fn default() -> (r: Self)
        ensures
            r.time_left == 0,
            !r.server_active,
    {
        Connection { time_left: 0, server_active: false }
    }
}

impl Connection {
    /// A connection counts as active when the server flags it active
    /// and it has validity left.
    pub open spec fn spec_is_active(&self) -> bool {
        self.server_active && self.time_left > 0
    }

    /// Whether the connection is active: flagged so by the server, with
    /// a non-zero remaining validity.
    pub fn is_active(&self) -> (r: bool)
        ensures
            r == self.spec_is_active(),
    {
        self.time_left != 0 && self.server_active
    }
}

/// The connection record of the machine this library runs on.
#[derive(Clone, Copy, Debug, PartialEq, Eq, Structural)]
pub struct SystemStatus {
    pub ip: IpAddr,
    pub connection: Connection,
}

/// Whether some entry of `s` carries the key `ip`.
pub open spec fn has_key(s: Seq<(IpAddr, Connection)>, ip: IpAddr) -> bool {
    exists|i: int| 0 <= i < s.len() && (#[trigger] s[i]).0 == ip
}

/// The connection an entry of `s` maps `ip` to.
pub open spec fn val_of(s: Seq<(IpAddr, Connection)>, ip: IpAddr) -> Connection {
    s[choose|i: int| 0 <= i < s.len() && (#[trigger] s[i]).0 == ip].1
}

/// Whether no two entries of `s` carry the same key.
pub open spec fn unique_keys(s: Seq<(IpAddr, Connection)>) -> bool {
    forall|i: int, j: int|
        0 <= i < j < s.len() ==> (#[trigger] s[i]).0 != (#[trigger] s[j]).0
}

/// `s` without its entries for `ip`, order kept.
pub open spec fn remove_key(s: Seq<(IpAddr, Connection)>, ip: IpAddr) -> Seq<(IpAddr, Connection)>
    decreases s.len(),
{
    if s.len() == 0 {
        Seq::empty()
    } else {
        remove_key(s.drop_last(), ip) + if s.last().0 == ip {
            Seq::empty()
        } else {
            seq![s.last()]
        }
    }
}

/// A status snapshot: the caller's own record, and every other
/// registered connection keyed by its address.
#[derive(Clone, Debug)]
pub struct Status {
    pub system_status: SystemStatus,
    pub connections: Vec<(IpAddr, Connection)>,
}

impl Status {
    /// The entries of the general connection table.
    pub open spec fn connections_seq(&self) -> Seq<(IpAddr, Connection)> {
        self.connections@
    }

    /// Keys are unique, and the caller's own address never appears in
    /// the general table.
    pub open spec fn wf(&self) -> bool {
        &&& unique_keys(self.connections_seq())
        &&& !has_key(self.connections_seq(), self.system_status.ip)
    }

    /// The connections other than the caller's own.
    pub fn connections(&self) -> (r: &Vec<(IpAddr, Connection)>)
        ensures
            r@ == self.connections_seq(),
    {
        &self.connections
    }

    /// Decides whether no two table entries carry the same address —
    /// what every snapshot this library builds guarantees, and what
    /// the planning calls ask of their callers.
    pub fn has_unique_keys(&self) -> (r: bool)
        ensures
            r == unique_keys(self.connections_seq()),
    {
        let n = self.connections.len();
        let mut i: usize = 0;
        while i < n
            invariant
                n == self.connections@.len(),
                i <= n,
                forall|a: int, b: int|
                    0 <= a < b < n && a < i ==> (#[trigger] self.connections@[a]).0 != (
                    #[trigger] self.connections@[b]).0,
            decreases n - i,
        {
            let (key, _) = self.connections[i];
            let mut j: usize = i + 1;
            while j < n
                invariant
                    i < j <= n,
                    n == self.connections@.len(),
                    key == (self.connections@[i as int]).0,
                    forall|b: int|
                        i < b < j ==> (#[trigger] self.connections@[b]).0 != (
                        self.connections@[i as int]).0,
                decreases n - j,
            {
                let (other, _) = self.connections[j];
                if key == other {
                    return false;
                }
                j = j + 1;
            }
            i = i + 1;
        }
        true
    }

    /// Whether the table holds an active connection for `ip`.
    pub fn is_connection_active(&self, ip: &IpAddr) -> (r: bool)
        requires
            unique_keys(self.connections_seq()),
        ensures
            r == (has_key(self.connections_seq(), *ip) && val_of(
                self.connections_seq(),
                *ip,
            ).spec_is_active()),
    {
        let n = self.connections.len();
        let mut i: usize = 0;
        while i < n
            invariant
                n == self.connections@.len(),
                i <= n,
                unique_keys(self.connections@),
                forall|k: int| 0 <= k < i ==> (#[trigger] self.connections@[k]).0 != *ip,
            decreases n - i,
        {
            let (key, conn) = self.connections[i];
            if key == *ip {
                proof {
                    let s = self.connections@;
                    assert((s[i as int]).0 == *ip);
                    assert(has_key(s, *ip));
                    let j = choose|j: int| 0 <= j < s.len() && (#[trigger] s[j]).0 == *ip;
                    assert(j == i);
                    assert(val_of(s, *ip) == conn);
                }
                return conn.is_active();
            }
            i = i + 1;
        }
        assert(!has_key(self.connections@, *ip));
        false
    }
}

/// Builds the status snapshot from the parsed connection table and the
/// caller's own address: the caller's entry, if any, moves into the
/// system status, and an absent entry counts as an expired, inactive
/// connection rather than an error.
pub fn build_status(connections: Vec<(IpAddr, Connection)>, own_ip: IpAddr) -> (r: Status)
    requires
        unique_keys(connections@),
    ensures
        r.system_status.ip == own_ip,
        r.system_status.connection == if has_key(connections@, own_ip) {
            val_of(connections@, own_ip)
        } else {
            Connection { time_left: 0, server_active: false }
        },
        r.connections_seq() == remove_key(connections@, own_ip),
        r.wf(),
{
    let n = connections.len();
    let mut rest: Vec<(IpAddr, Connection)> = Vec::new();
    let mut own: Option<Connection> = None;
    let mut i: usize = 0;
    while i < n
        invariant
            n == connections@.len(),
            i <= n,
            unique_keys(connections@),
            rest@ == remove_key(connections@.take(i as int), own_ip),
            match own {
                Some(c) => has_key(connections@.take(i as int), own_ip) && c == val_of(
                    connections@,
                    own_ip,
                ),
                None => !has_key(connections@.take(i as int), own_ip),
            },
        decreases n - i,
    {
        let (key, conn) = connections[i];
        proof {
            assert(connections@.take(i + 1).drop_last() =~= connections@.take(i as int));
            assert(connections@.take(i + 1).last() == connections@[i as int]);
        }
        if key == own_ip {
            proof {
                assert(connections@[i as int].0 == own_ip);
                assert(has_key(connections@, own_ip));
                let j = choose|j: int|
                    0 <= j < connections@.len() && (#[trigger] connections@[j]).0 == own_ip;
                assert(j == i);
            }
            own = Some(conn);
        } else {
            rest.push((key, conn));
        }
        i = i + 1;
        proof {
            if own is Some {
                assert(has_key(connections@.take(i as int), own_ip));
            }
        }
    }
    proof {
        assert(connections@.take(n as int) =~= connections@);
        lemma_remove_key_props(connections@, own_ip);
    }
    let connection = match own {
        Some(c) => c,
        None => Connection { time_left: 0, server_active: false },
    };
    Status { system_status: SystemStatus { ip: own_ip, connection }, connections: rest }
}

/// An operation's failure, by the taxonomy the portal forces: transport
/// faults, rejected credentials, unexpected response states, malformed
/// status pages, and local lookup failures.
#[derive(Debug, Clone)]
pub enum Error {
    /// A transport-level failure, carried as the text of its cause.
    Transport(String),
    /// The portal rejected the supplied credentials.
    InvalidCredentials,
    /// A response arrived with the given non-success HTTP status code.
    HttpStatus(u16),
    /// A response resolved to a path matching no expected outcome; the
    /// offending path is kept for diagnostics.
    UnexpectedPath(String),
    /// The status page could not be parsed.
    Parse(ParseError),
    /// The machine's own network address could not be determined.
    AddressLookup,
    /// A caller-supplied address text is not a dotted-quad IPv4
    /// address.
    MalformedIp(String),
}

/// The resolved path that marks an authenticated session.
pub open spec fn index_path() -> Seq<char> {
    "/account/index"@
}

/// The resolved path of the login form: landing there again means the
/// credentials were rejected.
pub open spec fn login_path() -> Seq<char> {
    "/account/login"@
}

/// Whether an HTTP status code counts as success.
pub open spec fn http_success(status: int) -> bool {
    200 <= status < 300
}

fn str_eq(a: &str, b: &str) -> (r: bool)
    ensures
        r == (a@ == b@),
{
    let sa = String::from_str(a);
    let sb = String::from_str(b);
    sa == sb
}

/// Classifies a probe of the index page: with a success code, the
/// session is authenticated exactly when the response resolved to the
/// index path; any other code is a failure.
pub fn is_logged_in_response(status: u16, path: &str) -> (r: Result<bool, Error>)
    ensures
        http_success(status as int) ==> r == Ok::<bool, Error>(path@ == index_path()),
        !http_success(status as int) ==> r == Err::<bool, Error>(Error::HttpStatus(status)),
{
    if !(200 <= status && status < 300) {
        return Err(Error::HttpStatus(status));
    }
    Ok(str_eq(path, "/account/index"))
}

/// Classifies a login submission by its resolved path: the index path
/// is success, the login path means rejected credentials, and any other
/// path is an unexpected state carrying that path.
pub fn login_outcome(status: u16, path: &str) -> (r: Result<(), Error>)
    ensures
        !http_success(status as int) ==> r == Err::<(), Error>(Error::HttpStatus(status)),
        http_success(status as int) && path@ == index_path() ==> r == Ok::<(), Error>(()),
        http_success(status as int) && path@ == login_path() && path@ != index_path() ==> r
            == Err::<(), Error>(Error::InvalidCredentials),
        http_success(status as int) && path@ != index_path() && path@ != login_path() ==> (
        r matches Err(Error::UnexpectedPath(p)) && p@ == path@),
{
    if !(200 <= status && status < 300) {
        return Err(Error::HttpStatus(status));
    }
    if str_eq(path, "/account/index") {
        return Ok(());
    }
    if str_eq(path, "/account/login") {
        return Err(Error::InvalidCredentials);
    }
    Err(Error::UnexpectedPath(String::from_str(path)))
}

/// Classifies an approve or revoke submission by its resolved path: the
/// index path is success and hands back the acted-on address; any other
/// path is an unexpected state carrying that path.
pub fn action_outcome(status: u16, path: &str, ip: IpAddr) -> (r: Result<IpAddr, Error>)
    ensures
        !http_success(status as int) ==> r == Err::<IpAddr, Error>(Error::HttpStatus(status)),
        http_success(status as int) && path@ == index_path() ==> r == Ok::<IpAddr, Error>(ip),
        http_success(status as int) && path@ != index_path() ==> (r matches Err(
            Error::UnexpectedPath(p),
        ) && p@ == path@),
{
    if !(200 <= status && status < 300) {
        return Err(Error::HttpStatus(status));
    }
    if str_eq(path, "/account/index") {
        return Ok(ip);
    }
    Err(Error::UnexpectedPath(String::from_str(path)))
}

/// Whether `ip`'s connection is active in the snapshot: the system
/// record for the caller's own address, the general table otherwise.
pub open spec fn spec_active_for(st: Status, ip: IpAddr) -> bool {
    if ip == st.system_status.ip {
        st.system_status.connection.spec_is_active()
    } else {
        has_key(st.connections_seq(), ip) && val_of(st.connections_seq(), ip).spec_is_active()
    }
}

impl Status {
    /// Whether `ip`'s connection is active in this snapshot.
    pub fn connection_active_for(&self, ip: &IpAddr) -> (r: bool)
        requires
            unique_keys(self.connections_seq()),
        ensures
            r == spec_active_for(*self, *ip),
    {
        if self.system_status.ip == *ip {
            self.system_status.connection.is_active()
        } else {
            self.is_connection_active(ip)
        }
    }
}

/// Whether an approve operation must submit the approve form: always
/// when forced, and otherwise exactly when the caller's own connection
/// is not active. Without force, an already active connection issues no
/// request at all.
pub fn approve_plan(status: &Status, force: bool) -> (r: bool)
    ensures
        r == (force || !status.system_status.connection.spec_is_active()),
{
    force || !status.system_status.connection.is_active()
}

/// What a revoke operation must do: the target address and whether the
/// revoke request must be submitted.
#[derive(Debug, Clone, Copy, PartialEq, Eq, Structural)]
pub struct RevokePlan {
    pub target: IpAddr,
    pub submit: bool,
}

/// Resolves a revoke operation's target and decides whether to submit:
/// an explicit argument names the target (and must be a well-formed
/// address), no argument targets the caller's own address; a target
/// whose connection is already inactive is handed back with nothing
/// submitted.
pub fn revoke_plan(status: &Status, ip_arg: Option<&str>) -> (r: Result<RevokePlan, Error>)
    requires
        unique_keys(status.connections_seq()),
    ensures
        match ip_arg {
            Some(s) => match spec_parse_ip(s@) {
                Some(target) => r == Ok::<RevokePlan, Error>(
                    RevokePlan { target, submit: spec_active_for(*status, target) },
                ),
                None => (r matches Err(Error::MalformedIp(m)) && m@ == s@),
            },
            None => r == Ok::<RevokePlan, Error>(
                RevokePlan {
                    target: status.system_status.ip,
                    submit: spec_active_for(*status, status.system_status.ip),
                },
            ),
        },
{
    let target = match ip_arg {
        Some(s) => match parse_ip(s) {
            Some(target) => target,
            None => { return Err(Error::MalformedIp(String::from_str(s))); },
        },
        None => status.system_status.ip,
    };
    let submit = status.connection_active_for(&target);
    Ok(RevokePlan { target, submit })
}

/// Whether `st` is the snapshot built from the parsed entries and the
/// caller's own address.
pub open spec fn spec_status_of(
    entries: Seq<(IpAddr, Connection)>,
    own: IpAddr,
    st: Status,
) -> bool {
    &&& st.system_status.ip == own
    &&& st.system_status.connection == if has_key(entries, own) {
        val_of(entries, own)
    } else {
        Connection { time_left: 0, server_active: false }
    }
    &&& st.connections_seq() == remove_key(entries, own)
}

/// Builds the status snapshot out of a fetched index page: parses the
/// connection table against `now` and partitions it around `own_ip`.
/// Fails exactly when the page fails to parse.
pub fn status_from_page(html: &str, now: i64, own_ip: IpAddr) -> (r: Result<Status, Error>)
    ensures
        match spec_parse_page(html@, now as int) {
            Err(e) => r == Err::<Status, Error>(Error::Parse(e)),
            Ok(entries) => (r matches Ok(st) && st.wf() && spec_status_of(entries, own_ip, st)),
        },
{
    match parse_connections(html, now) {
        Err(e) => Err(Error::Parse(e)),
        Ok(entries) => Ok(build_status(entries, own_ip)),
    }
}

/// Relies on local_ip_address::local_ip: the machine's local network
/// address, rendered as text. The result depends on the machine, so
/// nothing further is assumed of it.
#[verifier::external_body]
fn local_ip_text() -> (r: Option<String>) {
    local_ip_address::local_ip().ok().map(|ip| ip.to_string())
}

/// Determines the caller's own IPv4 address, or the lookup error when
/// the machine offers none.
pub fn resolve_own_ip() -> (r: Result<IpAddr, Error>)
    ensures
        r is Err ==> r == Err::<IpAddr, Error>(Error::AddressLookup),
{
    match local_ip_text() {
        None => Err(Error::AddressLookup),
        Some(s) => match parse_ip(s.as_str()) {
            None => Err(Error::AddressLookup),
            Some(ip) => Ok(ip),
        },
    }
}

/// Whether `st` can be the snapshot of `html` read at time `now` for
/// the machine address `own`.
pub open spec fn spec_snapshot_ok(html: Seq<char>, now: int, own: IpAddr, st: Status) -> bool {
    match spec_parse_page(html, now) {
        Ok(entries) => spec_status_of(entries, own, st),
        Err(_) => false,
    }
}

/// Builds the status snapshot of a fetched index page against the
/// machine's clock and its own address: every success is well formed
/// and stems from some clock reading and resolved address; a failure is
/// the address lookup's or the parser's.
pub fn status_snapshot(html: &str) -> (r: Result<Status, Error>)
    ensures
        r matches Ok(st) ==> st.wf() && (exists|now: int, own: IpAddr|
            spec_snapshot_ok(html@, now, own, st)),
        r matches Err(e) ==> (e is AddressLookup || (e matches Error::Parse(p) && exists|now: int|
            spec_parse_page(html@, now) == Err::<Seq<(IpAddr, Connection)>, ParseError>(p))),
{
    let now = now_civil_secs();
    let own_ip = match resolve_own_ip() {
        Err(e) => { return Err(e); },
        Ok(ip) => ip,
    };
    let r = status_from_page(html, now, own_ip);
    proof {
        match spec_parse_page(html@, now as int) {
            Err(p) => {
                assert(spec_parse_page(html@, now as int) == Err::<
                    Seq<(IpAddr, Connection)>,
                    ParseError,
                >(p));
            },
            Ok(entries) => {
                let st = r->Ok_0;
                assert(spec_snapshot_ok(html@, now as int, own_ip, st));
            },
        }
    }
    r
}

/// A named approval length, mapped to the numeric duration-tier index
/// the portal understands.
#[derive(Debug, Clone, Copy, PartialEq, Eq, Structural)]
pub enum ApproveDuration {
    Hour,
    Day,
    Month,
}

/// The numeric duration-tier index of each approval length.
pub open spec fn spec_duration_index(d: ApproveDuration) -> usize {
    match d {
        ApproveDuration::Hour => 1usize,
        ApproveDuration::Day => 2usize,
        ApproveDuration::Month => 3usize,
    }
}

impl From<ApproveDuration> for usize {
    /// An hour is tier 1, a day tier 2, a month tier 3.
    fn from(val: ApproveDuration) -> (r: usize) {
        match val {
            ApproveDuration::Hour => 1,
            ApproveDuration::Day => 2,
            ApproveDuration::Month => 3,
        }
    }
}

impl vstd::std_specs::convert::FromSpecImpl<ApproveDuration> for usize {
    open spec fn obeys_from_spec() -> bool {
        true
    }

    open spec fn from_spec(v: ApproveDuration) -> usize {
        spec_duration_index(v)
    }
}

/// Removing a key keeps the others, keeps uniqueness, and leaves no
/// entry for the removed key.
pub proof fn lemma_remove_key_props(s: Seq<(IpAddr, Connection)>, ip: IpAddr)
    requires
        unique_keys(s),
    ensures
        unique_keys(remove_key(s, ip)),
        !has_key(remove_key(s, ip), ip),
        forall|other: IpAddr|
            other != ip ==> #[trigger] has_key(remove_key(s, ip), other) == has_key(s, other),
    decreases s.len(),
{
    let r = remove_key(s, ip);
    if s.len() == 0 {
    } else {
        let front = s.drop_last();
        assert(unique_keys(front));
        lemma_remove_key_props(front, ip);
        lemma_remove_key_subset(front, ip);
        if s.last().0 == ip {
            assert(r =~= remove_key(front, ip));
            assert forall|other: IpAddr| other != ip implies #[trigger] has_key(r, other)
                == has_key(s, other) by {
                if has_key(s, other) {
                    let k = choose|k: int| 0 <= k < s.len() && (#[trigger] s[k]).0 == other;
                    assert(k < s.len() - 1);
                    assert(front[k].0 == other);
                    assert(has_key(front, other));
                }
                if has_key(r, other) {
                    let m = choose|m: int| 0 <= m < r.len() && (#[trigger] r[m]).0 == other;
                    let k = lemma_remove_key_origin(front, ip, m);
                    assert(s[k] == front[k]);
                    assert(has_key(s, other));
                }
            }
        } else {
            assert(r =~= remove_key(front, ip).push(s.last()));
            assert forall|i: int, j: int| 0 <= i < j < r.len() implies (#[trigger] r[i]).0 != (
            #[trigger] r[j]).0 by {
                if j == r.len() - 1 {
                    let k = lemma_remove_key_origin(front, ip, i);
                    assert(s[k] == r[i]);
                }
            }
            assert forall|other: IpAddr| other != ip implies #[trigger] has_key(r, other)
                == has_key(s, other) by {
                if has_key(s, other) {
                    let k = choose|k: int| 0 <= k < s.len() && (#[trigger] s[k]).0 == other;
                    if k == s.len() - 1 {
                        assert(r[r.len() - 1].0 == other);
                        assert(has_key(r, other));
                    } else {
                        assert(front[k].0 == other);
                        assert(has_key(front, other));
                        assert(has_key(remove_key(front, ip), other));
                        let m = choose|m: int|
                            0 <= m < remove_key(front, ip).len() && (#[trigger] remove_key(
                                front,
                                ip,
                            )[m]).0 == other;
                        assert(r[m].0 == other);
                        assert(has_key(r, other));
                    }
                }
                if has_key(r, other) {
                    let m = choose|m: int| 0 <= m < r.len() && (#[trigger] r[m]).0 == other;
                    if m == r.len() - 1 {
                        assert(s.last().0 == other);
                        assert(has_key(s, other));
                    } else {
                        let k = lemma_remove_key_origin(front, ip, m);
                        assert(s[k].0 == other);
                        assert(has_key(s, other));
                    }
                }
            }
        }
    }
}

/// Every entry left after removing a key stems from the original
/// sequence; returns its position there.
proof fn lemma_remove_key_origin(s: Seq<(IpAddr, Connection)>, ip: IpAddr, i: int) -> (k: int)
    requires
        0 <= i < remove_key(s, ip).len(),
    ensures
        0 <= k < s.len(),
        s[k] == remove_key(s, ip)[i],
        s[k].0 != ip,
    decreases s.len(),
{
    let r = remove_key(s, ip);
    let front = s.drop_last();
    if s.last().0 == ip {
        assert(r =~= remove_key(front, ip));
        let k = lemma_remove_key_origin(front, ip, i);
        assert(s[k] == front[k]);
        k
    } else {
        assert(r =~= remove_key(front, ip).push(s.last()));
        if i == r.len() - 1 {
            s.len() - 1
        } else {
            let k = lemma_remove_key_origin(front, ip, i);
            assert(s[k] == front[k]);
            k
        }
    }
}

/// Keys that survive removal were present before.
proof fn lemma_remove_key_subset(s: Seq<(IpAddr, Connection)>, ip: IpAddr)
    ensures
        forall|other: IpAddr|
            #[trigger] has_key(remove_key(s, ip), other) ==> has_key(s, other),
{
    assert forall|other: IpAddr| #[trigger] has_key(remove_key(s, ip), other) implies has_key(
        s,
        other,
    ) by {
        let m = choose|m: int|
            0 <= m < remove_key(s, ip).len() && (#[trigger] remove_key(s, ip)[m]).0 == other;
        let k = lemma_remove_key_origin(s, ip, m);
    }
}

} // verus!
