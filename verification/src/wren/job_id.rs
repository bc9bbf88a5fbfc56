//! Sequential job identifiers, counted in a config map.

use vstd::prelude::*;
use vstd::string::*;
use crate::string_map::StringMap;
use crate::text::{bounded_value, dec, decimal, lemma_dec, parse_bounded};

verus! {

/// Name of the config map that holds the counter.
pub const CONFIGMAP_NAME: &'static str = "wren-job-id-counter";

/// Key of the counter in the config map.
pub const COUNTER_KEY: &'static str = "next_job_id";

/// Allocates sequential numeric job identifiers from the data of a config map.
///
/// Only the leading controller writes the config map, so reading it, counting on and
/// writing it back is safe.
#[derive(Clone, Debug)]
pub struct JobIdAllocator {
    /// Data of the config map, where there is one.
    pub data: Option<StringMap<String>>,
}

/// The next identifier: the number that the data hold, or 1 where they hold none.
pub open spec fn counter(data: Option<Map<Seq<char>, Seq<char>>>) -> nat {
    if data is Some && data->0.dom().contains(COUNTER_KEY@) {
        match bounded_value(data->0[COUNTER_KEY@], u64::MAX as nat) {
            Some(n) => n,
            None => 1,
        }
    } else {
        1
    }
}

/// The data with another counter in them; other entries stay.
pub open spec fn with_counter(
    data: Option<Map<Seq<char>, Seq<char>>>,
    next: nat,
) -> Map<Seq<char>, Seq<char>> {
    match data {
        Some(m) => m.insert(COUNTER_KEY@, dec(next)),
        None => Map::<Seq<char>, Seq<char>>::empty().insert(COUNTER_KEY@, dec(next)),
    }
}

impl JobIdAllocator {
    /// What the config map holds.
    pub open spec fn stored(&self) -> Option<Map<Seq<char>, Seq<char>>> {
        match self.data {
            Some(m) => Some(m@),
            None => None,
        }
    }

    /// An allocator on the data of the config map, if there is one.
    pub fn new(data: Option<StringMap<String>>) -> (r: Self)
        ensures
            r.data == data,
    {
        JobIdAllocator { data }
    }

    /// The next identifier: the number that the config map holds, or 1 where it holds
    /// none.
    pub fn read_counter(&self) -> (r: u64)
        ensures
            r == counter(self.stored()),
    {
        match &self.data {
            Some(data) => match data.get(COUNTER_KEY) {
                Some(text) => match parse_bounded(text.as_str(), u64::MAX) {
                    Some(n) => n,
                    None => 1,
                },
                None => 1,
            },
            None => 1,
        }
    }

    /// Sets the counter; the config map is made if there is none.
    pub fn write_counter(&mut self, next: u64)
        ensures
            final(self).stored() == Some(with_counter(old(self).stored(), next as nat)),
    {
        let mut data = match self.data.take() {
            Some(data) => data,
            None => StringMap::new(),
        };
        data.insert(COUNTER_KEY.to_owned(), decimal(next));
        self.data = Some(data);
    }

    /// Allocates the next identifier and counts on.
    pub fn allocate(&mut self) -> (r: u64)
        requires
            counter(old(self).stored()) < u64::MAX,
        ensures
            r == counter(old(self).stored()),
            final(self).stored() == Some(
                with_counter(old(self).stored(), counter(old(self).stored()) + 1),
            ),
            counter(final(self).stored()) == r + 1,
    {
        let job_id = self.read_counter();
        let ghost before = self.stored();
        self.write_counter(job_id + 1);
        proof {
            law_job_ids_are_sequential(before);
        }
        job_id
    }
}

/// Identifiers are sequential: after the counter has been written, it is read back as
/// the identifier after the one that was allocated.
pub proof fn law_job_ids_are_sequential(data: Option<Map<Seq<char>, Seq<char>>>)
    requires
        counter(data) < u64::MAX,
    ensures
        counter(Some(with_counter(data, counter(data) + 1))) == counter(data) + 1,
{
    let text = dec(counter(data) + 1);
    lemma_dec(counter(data) + 1);
    assert(crate::text::is_digit(text[0]));
}

} // verus!
