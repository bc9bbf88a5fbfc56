//! Job arrays and job identifiers.

use vstd::prelude::*;
use crate::laws::texts::lemma_read_back;
use crate::model::error::BuboError;
use crate::scheduler::job_array::{
    law_tasks_are_distinct, law_tasks_are_the_steps, ExpandedJob, JobArraySpec,
};
use crate::text::{dec, first_index, is_digit, split_first, trimmed};
use crate::wren::job_id::JobIdAllocator;

verus! {

proof fn lemma_no_such_char(s: Seq<char>, c: char)
    requires
        forall|i: int| 0 <= i < s.len() ==> #[trigger] s[i] != c,
    ensures
        first_index(s, c) is None,
    decreases s.len(),
{
    if s.len() > 0 {
        assert(s[0] != c);
        assert forall|i: int| 0 <= i < s.drop_first().len() implies #[trigger] s.drop_first()[i] != c by {
            assert(s[i + 1] != c);
        }
        lemma_no_such_char(s.drop_first(), c);
    }
}

proof fn lemma_split_at(a: Seq<char>, c: char, b: Seq<char>)
    requires
        forall|i: int| 0 <= i < a.len() ==> #[trigger] a[i] != c,
    ensures
        split_first(a + seq![c] + b, c) == (a, Some(b)),
    decreases a.len(),
{
    let s = a + seq![c] + b;
    lemma_first_index_at(a, c, b);
    assert(s.take(a.len() as int) =~= a);
    assert(s.skip(a.len() as int + 1) =~= b);
}

proof fn lemma_first_index_at(a: Seq<char>, c: char, b: Seq<char>)
    requires
        forall|i: int| 0 <= i < a.len() ==> #[trigger] a[i] != c,
    ensures
        first_index(a + seq![c] + b, c) == Some(a.len() as int),
    decreases a.len(),
{
    let s = a + seq![c] + b;
    if a.len() > 0 {
        assert(a[0] != c);
        assert(s[0] == a[0]);
        let rest = a.drop_first();
        assert forall|i: int| 0 <= i < rest.len() implies #[trigger] rest[i] != c by {
            assert(a[i + 1] != c);
        }
        lemma_first_index_at(rest, c, b);
        assert(s.drop_first() =~= rest + seq![c] + b);
    } else {
        assert(s[0] == c);
    }
}

proof fn lemma_trimmed_ends(s: Seq<char>)
    requires
        s.len() > 0,
        is_digit(s[0]),
        is_digit(s.last()),
    ensures
        trimmed(s) == s,
{
}

/// A job array is read as it is meant: from a start to an end, in steps of one unless others
/// are stated behind a colon, and with as many tasks at a time as are stated behind a
/// percent sign, if any. An end before the start, a step of zero and no task at a time are
/// refused.
pub proof fn law_arrays_are_read_as_meant(
    input: &str,
    start: u32,
    end: u32,
    step: u32,
    limit: u32,
    r: Result<JobArraySpec, BuboError>,
)
    requires
        call_ensures(JobArraySpec::parse, (input,), r),
    ensures
        ({
            let bounds = dec(start as nat) + seq!['-'] + dec(end as nat);
            let stepped = bounds + seq![':'] + dec(step as nat);
            let limited = bounds + seq!['%'] + dec(limit as nat);
            let both = stepped + seq!['%'] + dec(limit as nat);
            &&& input@ == bounds ==> (r is Ok <==> start <= end)
            &&& input@ == bounds && r is Ok ==> r->Ok_0.start == start && r->Ok_0.end == end
                && r->Ok_0.step == 1 && r->Ok_0.max_concurrent is None
            &&& input@ == stepped ==> (r is Ok <==> start <= end && step > 0)
            &&& input@ == stepped && r is Ok ==> r->Ok_0.start == start && r->Ok_0.end == end
                && r->Ok_0.step == step && r->Ok_0.max_concurrent is None
            &&& input@ == limited ==> (r is Ok <==> start <= end && limit > 0)
            &&& input@ == limited && r is Ok ==> r->Ok_0.start == start && r->Ok_0.end == end
                && r->Ok_0.step == 1 && r->Ok_0.max_concurrent == Some(limit)
            &&& input@ == both ==> (r is Ok <==> start <= end && step > 0 && limit > 0)
            &&& input@ == both && r is Ok ==> r->Ok_0.start == start && r->Ok_0.end == end
                && r->Ok_0.step == step && r->Ok_0.max_concurrent == Some(limit)
        }),
        r is Err ==> r->Err_0 is ValidationError,
{
    let a = dec(start as nat);
    let b = dec(end as nat);
    let c = dec(step as nat);
    let d = dec(limit as nat);
    lemma_read_back(start as nat, u32::MAX as nat);
    lemma_read_back(end as nat, u32::MAX as nat);
    lemma_read_back(step as nat, u32::MAX as nat);
    lemma_read_back(limit as nat, u32::MAX as nat);
    let bounds = a + seq!['-'] + b;
    let stepped = bounds + seq![':'] + c;
    let limited = bounds + seq!['%'] + d;
    let both = stepped + seq!['%'] + d;
    assert(bounds[0] == a[0] && stepped[0] == a[0] && limited[0] == a[0] && both[0] == a[0]);
    assert(bounds.last() == b.last() && stepped.last() == c.last());
    assert(limited.last() == d.last() && both.last() == d.last());
    assert(is_digit(a[0]));
    assert(is_digit(b[b.len() - 1]) && is_digit(c[c.len() - 1]) && is_digit(d[d.len() - 1]));
    lemma_trimmed_ends(bounds);
    lemma_trimmed_ends(stepped);
    lemma_trimmed_ends(limited);
    lemma_trimmed_ends(both);
    assert forall|i: int| 0 <= i < bounds.len() implies #[trigger] bounds[i] != '%' && bounds[i]
        != ':' by {
        if i < a.len() {
            assert(bounds[i] == a[i]);
        } else if i > a.len() {
            assert(bounds[i] == b[i - a.len() - 1]);
        }
    }
    assert forall|i: int| 0 <= i < stepped.len() implies #[trigger] stepped[i] != '%' by {
        if i < bounds.len() {
            assert(stepped[i] == bounds[i]);
        } else if i > bounds.len() {
            assert(stepped[i] == c[i - bounds.len() - 1]);
        }
    }
    lemma_no_such_char(bounds, '%');
    lemma_no_such_char(bounds, ':');
    lemma_no_such_char(stepped, '%');
    lemma_split_at(a, '-', b);
    lemma_split_at(bounds, ':', c);
    lemma_split_at(bounds, '%', d);
    lemma_split_at(stepped, '%', d);
}

/// The tasks of an array are its indices in steps from the start up to the end, each once
/// and in order, and each bears the name of its array and its own index. There are as many
/// as are counted.
pub proof fn law_arrays_expand_to_their_steps(
    array: &JobArraySpec,
    parent: &str,
    tasks: Vec<ExpandedJob>,
    count: u32,
    index: u32,
    i: int,
    j: int,
)
    requires
        call_ensures(JobArraySpec::expand, (array, parent), tasks),
        call_ensures(JobArraySpec::task_count, (array,), count),
        array.start <= array.end,
        array.step > 0,
    ensures
        tasks@.len() == count,
        tasks@.len() > 0,
        tasks@[0].array_index == array.start,
        (exists|k: int| 0 <= k < tasks@.len() && (#[trigger] tasks@[k]).array_index == index) <==> (
        array.start <= index <= array.end && (index - array.start) as int % (array.step as int)
            == 0),
        0 <= i < tasks@.len() ==> tasks@[i].name@ == parent@ + "_"@ + dec(
            tasks@[i].array_index as nat,
        ) && tasks@[i].parent_name@ == parent@,
        0 <= i < j < tasks@.len() ==> tasks@[i].array_index < tasks@[j].array_index
            && tasks@[i].name@ != tasks@[j].name@,
        0 <= i && i + 1 < tasks@.len() ==> tasks@[i + 1].array_index == tasks@[i].array_index
            + array.step,
{
    let views = tasks.deep_view();
    assert(views.len() == tasks@.len());
    assert forall|k: int| 0 <= k < views.len() implies #[trigger] views[k]
        == tasks@[k].deep_view() by {}
    assert(array.count() > 0) by (nonlinear_arith)
        requires
            array.start <= array.end,
            array.step > 0,
            array.count() == ((array.end - array.start) / array.step as int + 1) as nat,
    ;
    assert(views[0] == tasks@[0].deep_view());
    assert(0 * array.step == 0);
    law_tasks_are_the_steps(*array, parent@, index as int);
    if exists|k: int| 0 <= k < tasks@.len() && (#[trigger] tasks@[k]).array_index == index {
        let k = choose|k: int| 0 <= k < tasks@.len() && (#[trigger] tasks@[k]).array_index == index;
        assert(views[k].array_index == index);
        assert(array.tasks(parent@)[k].array_index == index);
    }
    if exists|k: int|
        0 <= k < array.tasks(parent@).len() && (#[trigger] array.tasks(parent@)[k]).array_index
            == index {
        let k = choose|k: int|
            0 <= k < array.tasks(parent@).len() && (#[trigger] array.tasks(parent@)[k]).array_index
                == index;
        assert(views[k] == tasks@[k].deep_view());
        assert(tasks@[k].array_index == index);
    }
    if 0 <= i < tasks@.len() {
        assert(views[i] == tasks@[i].deep_view());
    }
    if 0 <= i < j < tasks@.len() {
        law_tasks_are_distinct(*array, parent@, i, j);
        assert(views[j] == tasks@[j].deep_view());
    }
    if 0 <= i && i + 1 < tasks@.len() {
        assert(views[i + 1] == tasks@[i + 1].deep_view());
        assert((i + 1) * array.step == i * array.step + array.step) by (nonlinear_arith);
    }
}

/// Identifiers of jobs start at one, and each is one more than the last, whatever else stands
/// beside the counter, which stays.
pub proof fn law_identifiers_count_up(
    fresh: &JobIdAllocator,
    n: u64,
    first: u64,
    allocator: &mut JobIdAllocator,
    a: u64,
    later: &mut JobIdAllocator,
    b: u64,
    key: Seq<char>,
)
    requires
        call_ensures(JobIdAllocator::read_counter, (fresh,), first),
        call_ensures(JobIdAllocator::allocate, (allocator,), a),
        *old(later) == *final(allocator),
        call_ensures(JobIdAllocator::allocate, (later,), b),
    ensures
        fresh.data is None ==> first == 1,
        fresh.data is Some && !fresh.data->0@.dom().contains("next_job_id"@) ==> first == 1,
        fresh.data is Some && fresh.data->0@.dom().contains("next_job_id"@)
            && fresh.data->0@["next_job_id"@] == dec(n as nat) ==> first == n,
        b == a + 1,
        final(later).data is Some,
        old(allocator).data is Some && old(allocator).data->0@.dom().contains(key) && key
            != "next_job_id"@ ==> final(later).data->0@.dom().contains(key) && final(later).data->0@[key] == old(allocator).data->0@[key],
{
    lemma_read_back(n as nat, u64::MAX as nat);
    assert(crate::wren::job_id::COUNTER_KEY@ == "next_job_id"@);
}

/// White space before a job array does not matter.
pub proof fn law_spaces_before_arrays_do_not_matter(
    input: &str,
    spaced: &str,
    r: Result<JobArraySpec, BuboError>,
    s: Result<JobArraySpec, BuboError>,
)
    requires
        call_ensures(JobArraySpec::parse, (input,), r),
        call_ensures(JobArraySpec::parse, (spaced,), s),
        spaced@ == seq![' '] + input@,
    ensures
        r is Ok <==> s is Ok,
        r is Ok ==> r->Ok_0.start == s->Ok_0.start && r->Ok_0.end == s->Ok_0.end && r->Ok_0.step
            == s->Ok_0.step && r->Ok_0.max_concurrent == s->Ok_0.max_concurrent,
{
    assert(spaced@.drop_first() =~= input@);
    assert(crate::text::is_white_space(spaced@[0]));
    assert(trimmed(spaced@) == trimmed(input@));
}

/// A text without a range is no job array.
pub proof fn law_arrays_need_a_range(
    input: &str,
    n: u32,
    r: Result<JobArraySpec, BuboError>,
)
    requires
        call_ensures(JobArraySpec::parse, (input,), r),
        input@ == dec(n as nat) || input@.len() == 0,
    ensures
        r is Err,
{
    let s = dec(n as nat);
    lemma_read_back(n as nat, u32::MAX as nat);
    assert(is_digit(s[0]) && is_digit(s[s.len() - 1]));
    lemma_trimmed_ends(s);
    lemma_no_such_char(s, '%');
    lemma_no_such_char(s, ':');
    lemma_no_such_char(s, '-');
    if input@.len() == 0 {
        assert(trimmed(input@) == input@);
        lemma_no_such_char(input@, '%');
        lemma_no_such_char(input@, ':');
        lemma_no_such_char(input@, '-');
    }
}

} // verus!
