//! Submission of jobs, and their cancellation.

use vstd::prelude::*;
use vstd::string::*;
use crate::model::crd::MPIJobSpec;
use crate::wren::crd::WrenJobSpec;

verus! {

/// Replaces the queue and the number of nodes of a Wren job where others are given.
pub fn override_wrenjob(spec: &mut WrenJobSpec, queue: Option<&str>, nodes: Option<u32>)
    ensures
        final(spec).queue@ == (match queue {
            Some(name) => name@,
            None => old(spec).queue@,
        }),
        final(spec).nodes == (match nodes {
            Some(n) => n,
            None => old(spec).nodes,
        }),
        *final(spec) == (WrenJobSpec {
            queue: final(spec).queue,
            nodes: final(spec).nodes,
            ..*old(spec)
        }),
{
    if let Some(name) = queue {
        spec.queue = name.to_owned();
    }
    if let Some(n) = nodes {
        spec.nodes = n;
    }
}

/// Replaces the queue and the number of nodes of an MPI job where others are given.
pub fn override_mpijob(spec: &mut MPIJobSpec, queue: Option<&str>, nodes: Option<u32>)
    ensures
        final(spec).queue@ == (match queue {
            Some(name) => name@,
            None => old(spec).queue@,
        }),
        final(spec).nodes == (match nodes {
            Some(n) => n,
            None => old(spec).nodes,
        }),
        *final(spec) == (MPIJobSpec {
            queue: final(spec).queue,
            nodes: final(spec).nodes,
            ..*old(spec)
        }),
{
    if let Some(name) = queue {
        spec.queue = name.to_owned();
    }
    if let Some(n) = nodes {
        spec.nodes = n;
    }
}

/// Namespace that a job is submitted to: its own, or else "default".
pub fn namespace_of(own: Option<&str>) -> (r: String)
    ensures
        r@ == (match own {
            Some(name) => name@,
            None => "default"@,
        }),
{
    match own {
        Some(name) => name.to_owned(),
        None => "default".to_owned(),
    }
}

/// What is said of a job that has been submitted.
pub fn submitted_message(name: Option<&str>, namespace: &str) -> (r: String)
    ensures
        r@ == "job/"@ + (match name {
            Some(name) => name@,
            None => "<unknown>"@,
        }) + " submitted to namespace "@ + namespace@,
{
    let mut message = "job/".to_owned();
    message.append(
        match name {
            Some(name) => name,
            None => "<unknown>",
        },
    );
    message.append(" submitted to namespace ");
    message.append(namespace);
    message
}

/// What is said of a job that has been cancelled.
pub fn cancelled_message(job: &str) -> (r: String)
    ensures
        r@ == "job/"@ + job@ + " cancelled"@,
{
    let mut message = "job/".to_owned();
    message.append(job);
    message.append(" cancelled");
    message
}

} // verus!
