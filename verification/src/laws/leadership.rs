//! Who leads among the candidates, and for how long.

use vstd::prelude::*;
use crate::model::time::Timestamp;
use crate::text::{is_white_space, trimmed};
use crate::wren::leader_election::{
    decide, election_enabled, is_readable, lease_is_held_by_other, pick_name, resolve_identity,
    resolve_namespace, settle, LeaderElectionConfig, LeaseRead, LeaseSpec, Move, Outcome,
};

verus! {

/// Nanoseconds since 1970.
pub open spec fn nanos_of(t: Timestamp) -> int {
    t.seconds * 1_000_000_000 + t.nanos
}

/// Whether a lease names a holder other than `identity`.
pub open spec fn of_other(lease: LeaseSpec, identity: Seq<char>) -> bool {
    lease.holder_identity is Some && lease.holder_identity->0@.len() > 0
        && lease.holder_identity->0@ != identity
}

/// Whether a lease is still good at `now`: it was renewed, and no more time has passed than
/// it is good for, a quarter of a minute unless it says otherwise.
pub open spec fn still_good(lease: LeaseSpec, now: Timestamp) -> bool {
    lease.renew_time is Some && nanos_of(now) < nanos_of(lease.renew_time->0) + 1_000_000_000 * (
    if lease.lease_duration_seconds is Some {
        lease.lease_duration_seconds->0 as int
    } else {
        15
    })
}

/// A lease is held by another exactly where it names another and is still good.
pub proof fn law_good_leases_are_held(
    lease: &LeaseSpec,
    identity: &str,
    now: Timestamp,
    r: bool,
)
    requires
        call_ensures(lease_is_held_by_other, (lease, identity, now), r),
    ensures
        r <==> of_other(*lease, identity@) && still_good(*lease, now),
{
    assert(lease.deep_view().holder == lease.holder_identity.deep_view());
}

/// Whether a lease is written by a candidate at `now`, for as long as it is meant to last.
pub open spec fn is_written_by(lease: LeaseSpec, config: LeaderElectionConfig, now: Timestamp) -> bool {
    &&& lease.holder_identity is Some && lease.holder_identity->0@ == config.identity@
    &&& lease.renew_time == Some(now)
    &&& config.lease_duration <= i32::MAX ==> lease.lease_duration_seconds is Some
        && lease.lease_duration_seconds->0 == config.lease_duration
}

/// A candidate that cannot read the lease changes nothing; one that finds none makes it; one
/// that finds it held by another waits and does not lead; and one that finds its own, or one
/// that is no longer good, writes it. Its own lease keeps the time at which it was acquired
/// and the number of changes of hands; taking over another sets the time and counts one.
pub proof fn law_candidates_respect_the_lease(
    read: &LeaseRead,
    leads: bool,
    config: &LeaderElectionConfig,
    now: Timestamp,
    r: Move,
)
    requires
        call_ensures(decide, (read, leads, config, now), r),
    ensures
        read is Failed ==> r is Wait && r->lead == leads,
        read is Missing ==> r is Create && is_written_by(r->Create_lease, *config, now)
            && r->Create_lease.acquire_time == Some(now) && r->Create_lease.lease_transitions
            == Some(0i32),
        read is Found ==> {
            let found = read->lease;
            let held = of_other(found, config.identity@) && still_good(found, now);
            let own = found.holder_identity is Some && found.holder_identity->0@
                == config.identity@;
            let changes = if found.lease_transitions is Some {
                found.lease_transitions->0 as int
            } else {
                0
            };
            &&& r is Wait <==> held
            &&& held ==> !r->lead
            &&& !held ==> r is Write && is_written_by(r->Write_lease, *config, now)
            &&& !held && own && found.acquire_time is Some ==> r->Write_lease.acquire_time
                == found.acquire_time
            &&& !held && !own ==> r->Write_lease.acquire_time == Some(now)
            &&& !held && own ==> r->Write_lease.lease_transitions is Some
                && r->Write_lease.lease_transitions->0 == changes
            &&& !held && !own && changes < i32::MAX ==> r->Write_lease.lease_transitions is Some
                && r->Write_lease.lease_transitions->0 == changes + 1
        },
{
    match r {
        Move::Create { lease } => {
            assert(lease.deep_view().holder == lease.holder_identity.deep_view());
        },
        Move::Write { lease } => {
            assert(lease.deep_view().holder == lease.holder_identity.deep_view());
        },
        _ => {},
    }
    if read is Found {
        assert(read->lease.deep_view().holder == read->lease.holder_identity.deep_view());
    }
}

/// There is one leader at a time: once a candidate has written the lease, every other finds
/// it held exactly as long as it lasts.
pub proof fn law_written_leases_keep_others_off(
    read: &LeaseRead,
    leads: bool,
    config: &LeaderElectionConfig,
    now: Timestamp,
    r: Move,
    lease: &LeaseSpec,
    other: &str,
    later: Timestamp,
    held: bool,
)
    requires
        call_ensures(decide, (read, leads, config, now), r),
        r is Create || r is Write,
        *lease == (if r is Create {
            r->Create_lease
        } else {
            r->Write_lease
        }),
        call_ensures(lease_is_held_by_other, (lease, other, later), held),
        config.identity@.len() > 0,
        config.lease_duration <= i32::MAX,
        other@ != config.identity@,
    ensures
        held <==> nanos_of(later) < nanos_of(now) + config.lease_duration * 1_000_000_000,
{
    law_candidates_respect_the_lease(read, leads, config, now, r);
    law_good_leases_are_held(lease, other, later, held);
}

/// A candidate leads once the lease is written or made, and no longer once it cannot write
/// it; else nothing changes. It looks again when it has to renew as a leader, and else when
/// it has to retry.
pub proof fn law_outcome_decides_leadership(
    outcome: Outcome,
    leads: bool,
    config: &LeaderElectionConfig,
    r: (bool, u64),
)
    requires
        call_ensures(settle, (outcome, leads, config), r),
    ensures
        outcome == Outcome::Created || outcome == Outcome::Written ==> r == (
            true,
            config.renew_interval,
        ),
        outcome == Outcome::NotWritten ==> r == (false, config.retry_interval),
        outcome == Outcome::NotCreated || outcome == Outcome::Waited ==> r == (
            leads,
            config.retry_interval,
        ),
{
}

/// The usual times leave a leader time to renew its lease before it runs out.
pub proof fn law_usual_leader_renews_before_the_end(
    identity: String,
    namespace: String,
    config: LeaderElectionConfig,
)
    requires
        call_ensures(LeaderElectionConfig::new, (identity, namespace), config),
    ensures
        config.identity@ == identity@,
        config.lease_namespace@ == namespace@,
        config.renew_interval < config.lease_duration,
        config.retry_interval < config.lease_duration,
        config.lease_duration == 15 && config.renew_interval == 10 && config.retry_interval == 2,
{
}

/// A candidate goes by the name of its pod, or else by that of its host, or else by a name of
/// its own, never by none.
pub proof fn law_candidates_have_names(
    pod: Option<String>,
    host: Option<String>,
    picked: Option<String>,
    r: String,
)
    requires
        call_ensures(pick_name, (pod, host), picked),
        call_ensures(resolve_identity, (pod, host), r),
    ensures
        pod is Some && pod->0@.len() > 0 ==> r@ == pod->0@,
        (pod is None || pod->0@.len() == 0) && host is Some && host->0@.len() > 0 ==> r@
            == host->0@,
        r@.len() > 0,
        picked is Some ==> r@ == picked->0@,
        picked is None <==> (pod is None || pod->0@.len() == 0) && (host is None || host->0@.len()
            == 0),
{
    assert(picked.deep_view() is Some <==> picked is Some);
}

/// The namespace is the one that is set, or else the one in the file, or else the default
/// one.
pub proof fn law_namespace_is_set_or_read(set: Option<String>, file: Option<String>, r: String)
    requires
        call_ensures(resolve_namespace, (set, file), r),
    ensures
        set is Some && set->0@.len() > 0 ==> r@ == set->0@,
        (set is None || set->0@.len() == 0) && file is Some && file->0@.len() > 0
            && !is_white_space(file->0@[0]) && !is_white_space(file->0@.last()) ==> r@ == file->0@,
        (set is None || set->0@.len() == 0) && (file is None || file->0@.len() == 0) ==> r@
            == "default"@,
        r@.len() > 0,
{
    reveal_strlit("default");
    if file is Some && file->0@.len() == 0 {
        assert(trimmed(file->0@) == file->0@);
    }
}

/// Leaders are elected unless the setting says `false`, in whatever case.
pub proof fn law_election_is_on_unless_false(setting: Option<&str>, r: bool)
    requires
        call_ensures(election_enabled, (setting,), r),
    ensures
        setting is None ==> r,
        setting is Some && setting->0@ == "false"@ ==> !r,
        setting is Some && setting->0@ == "FALSE"@ ==> !r,
        setting is Some && setting->0@.len() > 0 && !is_white_space(setting->0@[0])
            && !is_white_space(setting->0@.last()) && setting->0@.len() != 5 ==> r,
        setting is Some && setting->0@.len() == 0 ==> r,
        setting is Some && setting->0@ == "true"@ ==> r,
{
    reveal_strlit("false");
    reveal_strlit("FALSE");
    reveal_strlit("true");
    if setting is Some {
        let s = setting->0@;
        if s.len() > 0 && !is_white_space(s[0]) && !is_white_space(s.last()) {
            assert(trimmed(s) == s);
        }
        if s.len() == 0 {
            assert(trimmed(s) == s);
        }
        if s == "FALSE"@ {
            assert(('F' as u32 + 32) as char == 'f');
            assert(('A' as u32 + 32) as char == 'a');
            assert(('L' as u32 + 32) as char == 'l');
            assert(('S' as u32 + 32) as char == 's');
            assert(('E' as u32 + 32) as char == 'e');
        }
    }
}

/// A candidate can always tell what to do about its own lease, and about one that another
/// holds for some time.
pub proof fn law_own_leases_can_be_read(
    lease: &LeaseSpec,
    identity: &str,
    now: Timestamp,
    r: bool,
)
    requires
        call_ensures(is_readable, (lease, identity, now), r),
    ensures
        lease.holder_identity is Some && lease.holder_identity->0@ == identity@ ==> r,
        of_other(*lease, identity@) && still_good(*lease, now) && (
        lease.lease_duration_seconds is None || lease.lease_duration_seconds->0 >= 0) ==> r,
        lease.holder_identity is None && (lease.lease_transitions is None
            || lease.lease_transitions->0 < i32::MAX) ==> r,
{
    assert(lease.deep_view().holder == lease.holder_identity.deep_view());
}

} // verus!
