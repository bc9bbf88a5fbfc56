//! Whom a job runs as.

use vstd::prelude::*;
use vstd::string::*;
use crate::string_map::StringMap;
use crate::wren::crd::{UserIdentity, UserView, WrenUserSpec};

verus! {

/// The name that the annotation for the user gives, unless it is empty.
pub open spec fn annotated_user(annotations: Option<Map<Seq<char>, Seq<char>>>) -> Option<
    Seq<char>,
> {
    if annotations is Some && annotations->0.dom().contains("wren.giar.dev/user"@)
        && annotations->0["wren.giar.dev/user"@].len() > 0 {
        Some(annotations->0["wren.giar.dev/user"@])
    } else {
        None
    }
}

/// Content of the annotations, where there are any.
pub open spec fn entries(annotations: Option<&StringMap<String>>) -> Option<
    Map<Seq<char>, Seq<char>>,
> {
    match annotations {
        Some(m) => Some(m@),
        None => None,
    }
}

/// Extracts the name of the user from the annotation `wren.giar.dev/user`.
pub fn extract_username(annotations: Option<&StringMap<String>>) -> (r: Option<String>)
    ensures
        r.deep_view() == annotated_user(entries(annotations)),
{
    match annotations {
        Some(m) => match m.get("wren.giar.dev/user") {
            Some(user) => if user.as_str().unicode_len() > 0 {
                Some(user.clone())
            } else {
                None
            },
            None => None,
        },
        None => None,
    }
}

fn copy_groups(groups: &Vec<u32>) -> (r: Vec<u32>)
    ensures
        r@ == groups@,
{
    let mut r: Vec<u32> = Vec::new();
    let mut i: usize = 0;
    while i < groups.len()
        invariant
            i <= groups.len(),
            r@ == groups@.take(i as int),
        decreases groups.len() - i,
    {
        r.push(groups[i]);
        proof {
            assert(groups@.take(i + 1) =~= groups@.take(i as int).push(groups[i as int]));
        }
        i += 1;
    }
    proof {
        assert(groups@.take(groups.len() as int) =~= groups@);
    }
    r
}

/// The identity of a user as the cluster knows them.
pub open spec fn identity_of(username: Seq<char>, user: WrenUserSpec) -> UserView {
    UserView {
        username,
        uid: user.uid,
        gid: user.gid,
        supplemental_groups: user.supplemental_groups@,
        home_dir: user.home_dir.deep_view(),
        default_project: user.default_project.deep_view(),
    }
}

/// Turns what the cluster knows of a user into an identity. There is none for an
/// unknown user, nor for one with the identifier of the superuser: jobs never run as
/// root.
pub fn identify(username: String, user: Option<&WrenUserSpec>) -> (r: Option<UserIdentity>)
    ensures
        r.deep_view() == (match user {
            Some(user) => if user.uid == 0 {
                None
            } else {
                Some(identity_of(username@, *user))
            },
            None => None,
        }),
        r is Some ==> r->0.uid != 0,
{
    match user {
        Some(user) => {
            if user.uid == 0 {
                return None;
            }
            Some(
                UserIdentity {
                    username,
                    uid: user.uid,
                    gid: user.gid,
                    supplemental_groups: copy_groups(&user.supplemental_groups),
                    home_dir: user.home_dir.clone(),
                    default_project: user.default_project.clone(),
                },
            )
        },
        None => None,
    }
}

} // verus!
