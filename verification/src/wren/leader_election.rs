//! Election of the one controller that acts, by means of a lease that all candidates
//! see.

use vstd::prelude::*;
use vstd::string::*;
use crate::model::time::Timestamp;
use crate::text::{chars_of, str_eq, trim, trimmed};

verus! {

/// Configuration for leader election.
#[derive(Clone, Debug)]
pub struct LeaderElectionConfig {
    /// Name of the lease.
    pub lease_name: String,
    /// Namespace of the lease.
    pub lease_namespace: String,
    /// Identity of this candidate (usually the name of its pod).
    pub identity: String,
    /// Seconds for which the lease is valid unless it is renewed.
    pub lease_duration: u64,
    /// Seconds after which the leader renews its lease.
    pub renew_interval: u64,
    /// Seconds after which a candidate tries again.
    pub retry_interval: u64,
}

impl LeaderElectionConfig {
    /// The usual lease and times, for a candidate in a namespace.
    pub fn new(identity: String, lease_namespace: String) -> (r: Self)
        ensures
            r.lease_name@ == "wren-controller-leader"@,
            r.lease_namespace == lease_namespace,
            r.identity == identity,
            r.lease_duration == 15,
            r.renew_interval == 10,
            r.retry_interval == 2,
    {
        LeaderElectionConfig {
            lease_name: "wren-controller-leader".to_owned(),
            lease_namespace,
            identity,
            lease_duration: 15,
            renew_interval: 10,
            retry_interval: 2,
        }
    }
}

/// `uuid::Uuid::new_v4` in its hyphenated form, which is 36 characters long. Which
/// one it is rests on chance.
#[verifier::external_body]
fn random_identity() -> (r: String)
    ensures
        r@.len() == 36,
{
    uuid::Uuid::new_v4().to_string()
}

/// The name that a candidate has been given: that of its pod, or else that of its host.
/// Empty names do not count.
pub open spec fn given_name(
    pod_name: Option<Seq<char>>,
    host_name: Option<Seq<char>>,
) -> Option<Seq<char>> {
    if pod_name is Some && pod_name->0.len() > 0 {
        pod_name
    } else if host_name is Some && host_name->0.len() > 0 {
        host_name
    } else {
        None
    }
}

/// Picks the name that a candidate has been given, if it has been given one.
pub fn pick_name(pod_name: Option<String>, host_name: Option<String>) -> (r: Option<String>)
    ensures
        r.deep_view() == given_name(pod_name.deep_view(), host_name.deep_view()),
{
    if let Some(name) = pod_name {
        if !is_blank(name.as_str()) {
            return Some(name);
        }
    }
    if let Some(name) = host_name {
        if !is_blank(name.as_str()) {
            return Some(name);
        }
    }
    None
}

fn is_blank(text: &str) -> (r: bool)
    ensures
        r == (text@.len() == 0),
{
    text.unicode_len() == 0
}

/// Resolves the identity of a candidate: the name of its pod, or else that of its
/// host, or else a random one. Names that are empty do not count.
pub fn resolve_identity(pod_name: Option<String>, host_name: Option<String>) -> (r: String)
    ensures
        r@.len() > 0,
        match given_name(pod_name.deep_view(), host_name.deep_view()) {
            Some(name) => r@ == name,
            None => r@.len() == 36,
        },
{
    match pick_name(pod_name, host_name) {
        Some(name) => name,
        None => random_identity(),
    }
}

/// Resolves the namespace: the one that is set, or else what the file of the service
/// account holds, without white space around it, or else "default". Empty ones do
/// not count.
pub fn resolve_namespace(set: Option<String>, file: Option<String>) -> (r: String)
    ensures
        r@ == (if set is Some && set->0@.len() > 0 {
            set->0@
        } else if file is Some && trimmed(file->0@).len() > 0 {
            trimmed(file->0@)
        } else {
            "default"@
        }),
{
    if let Some(name) = set {
        if !is_blank(name.as_str()) {
            return name;
        }
    }
    if let Some(text) = file {
        let name = trim(text.as_str());
        if !is_blank(name) {
            return name.to_owned();
        }
    }
    "default".to_owned()
}

/// A letter of the basic Latin alphabet in lower case; any other character as it is.
pub open spec fn lower(c: char) -> char {
    if 'A' <= c <= 'Z' {
        (c as u32 + 32) as char
    } else {
        c
    }
}

/// Whether a text says "false", in upper or lower case.
pub open spec fn says_false(text: Seq<char>) -> bool {
    text.len() == 5 && lower(text[0]) == 'f' && lower(text[1]) == 'a' && lower(text[2]) == 'l'
        && lower(text[3]) == 's' && lower(text[4]) == 'e'
}

fn is_letter(c: char, small: char, large: char) -> (r: bool)
    requires
        'a' <= small <= 'z',
        large as u32 + 32 == small as u32,
    ensures
        r == (lower(c) == small),
{
    c == small || c == large
}

/// Says whether leaders are elected: unless the setting says "false", with white space
/// around it or not.
pub fn election_enabled(setting: Option<&str>) -> (r: bool)
    ensures
        r == !(setting is Some && says_false(trimmed(setting->0@))),
{
    match setting {
        Some(text) => {
            let word = chars_of(trim(text));
            !(word.len() == 5 && is_letter(word[0], 'f', 'F') && is_letter(word[1], 'a', 'A')
                && is_letter(word[2], 'l', 'L') && is_letter(word[3], 's', 'S') && is_letter(
                word[4],
                'e',
                'E',
            ))
        },
        None => true,
    }
}

/// What a lease says.
#[derive(Clone, Debug, PartialEq, Eq)]
pub struct LeaseSpec {
    pub holder_identity: Option<String>,
    pub lease_duration_seconds: Option<i32>,
    pub acquire_time: Option<Timestamp>,
    pub renew_time: Option<Timestamp>,
    pub lease_transitions: Option<i32>,
}

impl Default for LeaseSpec {
    /// A lease that nobody has held.
    fn default() -> (r: Self)
        ensures
            r.holder_identity is None,
            r.lease_duration_seconds is None,
            r.acquire_time is None,
            r.renew_time is None,
            r.lease_transitions is None,
    {
        LeaseSpec {
            holder_identity: None,
            lease_duration_seconds: None,
            acquire_time: None,
            renew_time: None,
            lease_transitions: None,
        }
    }
}

/// Content of a [`LeaseSpec`].
pub ghost struct LeaseView {
    pub holder: Option<Seq<char>>,
    pub duration: Option<i32>,
    pub acquired: Option<Timestamp>,
    pub renewed: Option<Timestamp>,
    pub transitions: Option<i32>,
}

impl DeepView for LeaseSpec {
    type V = LeaseView;

    open spec fn deep_view(&self) -> LeaseView {
        LeaseView {
            holder: self.holder_identity.deep_view(),
            duration: self.lease_duration_seconds,
            acquired: self.acquire_time,
            renewed: self.renew_time,
            transitions: self.lease_transitions,
        }
    }
}

impl LeaseView {
    /// Whether somebody other than `identity` is its holder.
    pub open spec fn names_other(self, identity: Seq<char>) -> bool {
        self.holder is Some && self.holder->0.len() > 0 && self.holder->0 != identity
    }

    /// Seconds for which it is valid from its renewal.
    pub open spec fn seconds(self) -> int {
        match self.duration {
            Some(seconds) => seconds as int,
            None => 15,
        }
    }

    /// Whether it is valid at `now`.
    pub open spec fn valid(self, now: Timestamp) -> bool {
        self.renewed is Some && self.renewed->0.total_nanos() + self.seconds() * 1_000_000_000
            > now.total_nanos()
    }

    /// Whether somebody other than `identity` holds it at `now`.
    pub open spec fn held_by_other(self, identity: Seq<char>, now: Timestamp) -> bool {
        self.names_other(identity) && self.valid(now)
    }

    /// How often it has changed hands.
    pub open spec fn changes(self) -> int {
        match self.transitions {
            Some(n) => n as int,
            None => 0,
        }
    }

    /// Whether `identity` is its holder.
    pub open spec fn names(self, identity: Seq<char>) -> bool {
        self.holder == Some(identity)
    }

    /// Whether `identity` can tell at `now` what to do about it: one that somebody else
    /// has renewed is valid for no negative time, and one that can be taken over has a
    /// number of changes that can still be counted up.
    pub open spec fn readable(self, identity: Seq<char>, now: Timestamp) -> bool {
        &&& self.names_other(identity) && self.renewed is Some ==> self.seconds() >= 0
        &&& !self.names(identity) && !self.held_by_other(identity, now) ==> self.changes()
            < i32::MAX
    }
}

/// A number of seconds in 32 bits with sign, where larger ones wrap around.
pub open spec fn lease_seconds(seconds: u64) -> int {
    let low = seconds as int % 0x1_0000_0000;
    if low < 0x8000_0000 {
        low
    } else {
        low - 0x1_0000_0000
    }
}

fn to_lease_seconds(seconds: u64) -> (r: i32)
    ensures
        r == lease_seconds(seconds),
{
    let low: i64 = (seconds % 0x1_0000_0000) as i64;
    if low < 0x8000_0000 {
        low as i32
    } else {
        (low - 0x1_0000_0000) as i32
    }
}

/// A lease that `identity` has made at `now`.
pub open spec fn new_lease(identity: Seq<char>, seconds: u64, now: Timestamp) -> LeaseView {
    LeaseView {
        holder: Some(identity),
        duration: Some(lease_seconds(seconds) as i32),
        acquired: Some(now),
        renewed: Some(now),
        transitions: Some(0),
    }
}

/// `lease` as `identity` has renewed it or taken it over at `now`.
pub open spec fn taken(
    lease: LeaseView,
    identity: Seq<char>,
    seconds: u64,
    now: Timestamp,
) -> LeaseView {
    LeaseView {
        holder: Some(identity),
        duration: Some(lease_seconds(seconds) as i32),
        acquired: Some(
            if lease.names(identity) && lease.acquired is Some {
                lease.acquired->0
            } else {
                now
            },
        ),
        renewed: Some(now),
        transitions: Some(
            if lease.names(identity) {
                lease.changes() as i32
            } else {
                (lease.changes() + 1) as i32
            },
        ),
    }
}

/// Says whether somebody else holds a lease that has not expired at `now`. One
/// without a holder or without the time of its renewal is not held.
pub fn lease_is_held_by_other(spec: &LeaseSpec, identity: &str, now: Timestamp) -> (r: bool)
    requires
        spec.deep_view().names_other(identity@) && spec.renew_time is Some
            ==> spec.deep_view().seconds() >= 0,
    ensures
        r == spec.deep_view().held_by_other(identity@, now),
{
    match &spec.holder_identity {
        Some(holder) => {
            if is_blank(holder.as_str()) || str_eq(holder.as_str(), identity) {
                return false;
            }
        },
        None => {
            return false;
        },
    }
    match &spec.renew_time {
        Some(renewed) => {
            let seconds: i32 = match spec.lease_duration_seconds {
                Some(seconds) => seconds,
                None => 15,
            };
            let expiry: i128 = renewed.seconds as i128 * 1_000_000_000 + renewed.nanos as i128
                + seconds as i128 * 1_000_000_000;
            expiry > now.seconds as i128 * 1_000_000_000 + now.nanos as i128
        },
        None => false,
    }
}

/// Says whether `identity` can tell at `now` what to do about a lease.
pub fn is_readable(spec: &LeaseSpec, identity: &str, now: Timestamp) -> (r: bool)
    ensures
        r == spec.deep_view().readable(identity@, now),
{
    let (own, other) = match &spec.holder_identity {
        Some(holder) => {
            let own = str_eq(holder.as_str(), identity);
            (own, !own && !is_blank(holder.as_str()))
        },
        None => (false, false),
    };
    if other && spec.renew_time.is_some() {
        match spec.lease_duration_seconds {
            Some(seconds) => {
                if seconds < 0 {
                    return false;
                }
            },
            None => {},
        }
    }
    let changes: i32 = match spec.lease_transitions {
        Some(n) => n,
        None => 0,
    };
    own || changes < i32::MAX || lease_is_held_by_other(spec, identity, now)
}

/// What reading the lease gave.
pub enum LeaseRead {
    Failed,
    Missing,
    Found { lease: LeaseSpec },
}

/// What a candidate does about the lease.
pub enum Move {
    /// It waits. `lead` is whether it leads meanwhile.
    Wait { lead: bool },
    /// It makes the lease.
    Create { lease: LeaseSpec },
    /// It writes the lease over the one that it read.
    Write { lease: LeaseSpec },
}

/// Decides what a candidate does about the lease that it has read at `now`. It waits
/// while another holds the lease, and does not lead then; a lease that it holds or
/// that has expired it writes anew.
pub fn decide(
    read: &LeaseRead,
    leads: bool,
    config: &LeaderElectionConfig,
    now: Timestamp,
) -> (r: Move)
    requires
        match read {
            LeaseRead::Found { lease } => lease.deep_view().readable(config.identity@, now),
            _ => true,
        },
    ensures
        match (read, r) {
            (LeaseRead::Failed, Move::Wait { lead }) => lead == leads,
            (LeaseRead::Missing, Move::Create { lease }) => lease.deep_view() == new_lease(
                config.identity@,
                config.lease_duration,
                now,
            ),
            (LeaseRead::Found { lease: old_lease }, Move::Wait { lead }) => !lead
                && old_lease.deep_view().held_by_other(config.identity@, now),
            (LeaseRead::Found { lease: old_lease }, Move::Write { lease }) =>
                !old_lease.deep_view().held_by_other(config.identity@, now) && lease.deep_view()
                    == taken(
                old_lease.deep_view(),
                config.identity@,
                config.lease_duration,
                now,
            ),
            _ => false,
        },
{
    match read {
        LeaseRead::Failed => Move::Wait { lead: leads },
        LeaseRead::Missing => Move::Create {
            lease: LeaseSpec {
                holder_identity: Some(config.identity.clone()),
                lease_duration_seconds: Some(to_lease_seconds(config.lease_duration)),
                acquire_time: Some(now),
                renew_time: Some(now),
                lease_transitions: Some(0),
            },
        },
        LeaseRead::Found { lease } => {
            if lease_is_held_by_other(lease, config.identity.as_str(), now) {
                return Move::Wait { lead: false };
            }
            let renewal = match &lease.holder_identity {
                Some(holder) => str_eq(holder.as_str(), config.identity.as_str()),
                None => false,
            };
            let changes: i32 = match lease.lease_transitions {
                Some(n) => n,
                None => 0,
            };
            let acquired = match lease.acquire_time {
                Some(t) if renewal => t,
                _ => now,
            };
            Move::Write {
                lease: LeaseSpec {
                    holder_identity: Some(config.identity.clone()),
                    lease_duration_seconds: Some(to_lease_seconds(config.lease_duration)),
                    acquire_time: Some(acquired),
                    renew_time: Some(now),
                    lease_transitions: Some(
                        if renewal {
                            changes
                        } else {
                            changes + 1
                        },
                    ),
                },
            }
        },
    }
}

/// How a move ended.
#[derive(Clone, Copy, Debug, PartialEq, Eq, Structural)]
pub enum Outcome {
    Waited,
    Created,
    NotCreated,
    Written,
    NotWritten,
}

/// Says whether a candidate leads after its move, and after how many seconds it looks
/// at the lease again. It leads once the lease is written, and no longer when it
/// cannot be.
pub fn settle(outcome: Outcome, leads: bool, config: &LeaderElectionConfig) -> (r: (bool, u64))
    ensures
        r.0 == (match outcome {
            Outcome::Created | Outcome::Written => true,
            Outcome::NotWritten => false,
            Outcome::Waited | Outcome::NotCreated => leads,
        }),
        r.1 == (match outcome {
            Outcome::Created | Outcome::Written => config.renew_interval,
            _ => config.retry_interval,
        }),
{
    match outcome {
        Outcome::Created | Outcome::Written => (true, config.renew_interval),
        Outcome::NotWritten => (false, config.retry_interval),
        Outcome::Waited | Outcome::NotCreated => (leads, config.retry_interval),
    }
}

/// There is one leader at a time: after a candidate has made or taken the lease, no
/// other candidate may take it before it expires, and when it has expired any may.
pub proof fn law_lease_excludes_others(
    lease: LeaseView,
    identity: Seq<char>,
    other: Seq<char>,
    seconds: u64,
    now: Timestamp,
    later: Timestamp,
)
    requires
        identity.len() > 0,
        other != identity,
        seconds <= i32::MAX,
    ensures
        taken(lease, identity, seconds, now).held_by_other(other, later) <==> later.total_nanos()
            < now.total_nanos() + seconds * 1_000_000_000,
        new_lease(identity, seconds, now).held_by_other(other, later) <==> later.total_nanos()
            < now.total_nanos() + seconds * 1_000_000_000,
{
}

/// A holder is never kept from renewing its own lease; a renewal keeps the time at
/// which it was acquired, where that is known, and does not count as a change of
/// hands, whereas a takeover counts as one.
pub proof fn law_renewal_keeps_acquisition(
    lease: LeaseView,
    identity: Seq<char>,
    seconds: u64,
    now: Timestamp,
)
    requires
        lease.names(identity) || lease.changes() < i32::MAX,
    ensures
        lease.names(identity) ==> !lease.held_by_other(identity, now),
        lease.names(identity) && lease.acquired is Some ==> taken(
            lease,
            identity,
            seconds,
            now,
        ).acquired == lease.acquired,
        lease.names(identity) ==> taken(lease, identity, seconds, now).changes()
            == lease.changes(),
        !lease.names(identity) ==> taken(lease, identity, seconds, now).changes()
            == lease.changes() + 1,
        taken(lease, identity, seconds, now).names(identity),
{
}

/// A leader that renews its lease when it means to keeps it without a gap: at the time
/// of the renewal the lease is still valid, so that no other candidate has taken it.
pub proof fn law_renewal_comes_in_time(
    config: LeaderElectionConfig,
    lease: LeaseView,
    other: Seq<char>,
    now: Timestamp,
    renewal: Timestamp,
)
    requires
        config.identity@.len() > 0,
        config.renew_interval < config.lease_duration <= i32::MAX,
        renewal.total_nanos() <= now.total_nanos() + config.renew_interval * 1_000_000_000,
        other != config.identity@,
    ensures
        taken(lease, config.identity@, config.lease_duration, now).held_by_other(other, renewal),
        new_lease(config.identity@, config.lease_duration, now).held_by_other(other, renewal),
{
    law_lease_excludes_others(
        lease,
        config.identity@,
        other,
        config.lease_duration,
        now,
        renewal,
    );
}

} // verus!
