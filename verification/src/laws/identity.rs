//! Whom jobs run as.

use vstd::prelude::*;
use crate::controller::manifest::Pod;
use crate::laws::containers::law_worker_runs_the_job;
use crate::string_map::StringMap;
use crate::wren::container::build_worker_pod;
use crate::wren::crd::{UserIdentity, WrenJobSpec, WrenUserSpec};
use crate::wren::user_identity::{extract_username, identify};

verus! {

/// The user of a job is the one that its annotation names; it has none where there is no
/// such annotation, or an empty one.
pub proof fn law_user_is_annotated(annotations: Option<&StringMap<String>>, r: Option<String>)
    requires
        call_ensures(extract_username, (annotations,), r),
    ensures
        ({
            let key = "wren.giar.dev/user"@;
            let named = annotations is Some && annotations->0@.dom().contains(key)
                && annotations->0@[key].len() > 0;
            &&& r is Some <==> named
            &&& r is Some ==> r->0@ == annotations->0@[key]
        }),
{
    assert(r.deep_view() is Some <==> r is Some);
}

/// A user has an identity exactly where the cluster knows them and they are not root. It is
/// theirs in every part.
pub proof fn law_root_has_no_identity(
    username: String,
    user: Option<&WrenUserSpec>,
    r: Option<UserIdentity>,
)
    requires
        call_ensures(identify, (username, user), r),
    ensures
        r is Some <==> user is Some && user->0.uid != 0,
        r is Some ==> {
            &&& r->0.username@ == username@
            &&& r->0.uid == user->0.uid
            &&& r->0.gid == user->0.gid
            &&& r->0.supplemental_groups@ == user->0.supplemental_groups@
            &&& r->0.home_dir is Some <==> user->0.home_dir is Some
            &&& r->0.home_dir is Some ==> r->0.home_dir->0@ == user->0.home_dir->0@
            &&& r->0.default_project is Some <==> user->0.default_project is Some
            &&& r->0.default_project is Some ==> r->0.default_project->0@
                == user->0.default_project->0@
        },
{
    if r is Some {
        assert(r.deep_view() == Some(r->0.deep_view()));
        assert(r->0.deep_view().home_dir == r->0.home_dir.deep_view());
        assert(r->0.deep_view().default_project == r->0.default_project.deep_view());
    }
}

/// What an identified user's job runs does not run as root.
pub proof fn law_workers_do_not_run_as_root(
    username: String,
    user: Option<&WrenUserSpec>,
    identity: UserIdentity,
    job_name: &str,
    namespace: &str,
    spec: &WrenJobSpec,
    node_name: &str,
    rank: u32,
    pod: Pod,
)
    requires
        call_ensures(identify, (username, user), Some(identity)),
        call_ensures(
            build_worker_pod,
            (job_name, namespace, spec, node_name, rank, Some(&identity)),
            Ok(pod),
        ),
    ensures
        pod.security_context is Some,
        pod.security_context->0.run_as_user > 0,
{
    law_root_has_no_identity(username, user, Some(identity));
    law_worker_runs_the_job(job_name, namespace, spec, node_name, rank, Some(&identity), Ok(pod));
}

} // verus!
