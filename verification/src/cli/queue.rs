//! The table of jobs.

use vstd::prelude::*;
use vstd::string::*;
use crate::model::time::{elapsed_seconds, seconds_between, utc_now, whole_seconds, Timestamp};
use crate::model::types::JobState;
use crate::text::{dec, decimal, str_eq};

verus! {

/// How long ago something was, in the largest unit of which there is one.
pub open spec fn age_text(seconds: nat) -> Seq<char> {
    if seconds < 60 {
        dec(seconds) + "s"@
    } else if seconds < 3600 {
        dec(seconds / 60) + "m"@
    } else if seconds < 86400 {
        dec(seconds / 3600) + "h"@
    } else {
        dec(seconds / 86400) + "d"@
    }
}

/// How long ago something was that is `elapsed` seconds away; what lies in the future
/// counts as now.
pub fn age_of_seconds(elapsed: i64) -> (r: String)
    ensures
        r@ == age_text(
            if elapsed < 0 {
                0
            } else {
                elapsed as nat
            },
        ),
{
    let seconds: u64 = if elapsed < 0 {
        0
    } else {
        elapsed as u64
    };
    let mut text = String::new();
    if seconds < 60 {
        text = decimal(seconds);
        text.append("s");
    } else if seconds < 3600 {
        text = decimal(seconds / 60);
        text.append("m");
    } else if seconds < 86400 {
        text = decimal(seconds / 3600);
        text.append("h");
    } else {
        text = decimal(seconds / 86400);
        text.append("d");
    }
    text
}

/// How long before `now` a point in time was; unknown where the two cannot be compared.
pub open spec fn age_at(then: Timestamp, now: Timestamp) -> Seq<char> {
    match seconds_between(now.seconds, now.nanos, then.seconds, then.nanos) {
        Some(elapsed) => age_text(
            if elapsed < 0 {
                0
            } else {
                elapsed as nat
            },
        ),
        None => "<unknown>"@,
    }
}

/// How long before `now` a point in time was.
pub fn format_age_at(ts: &Timestamp, now: Timestamp) -> (r: String)
    ensures
        r@ == age_at(*ts, now),
        ts.regular() && ts.four_digit_year() && now.regular() && now.four_digit_year() ==> r@
            == age_text(
            if now.total_nanos() < ts.total_nanos() {
                0
            } else {
                whole_seconds(now.total_nanos() - ts.total_nanos()) as nat
            },
        ),
{
    match elapsed_seconds(now, *ts) {
        Some(elapsed) => age_of_seconds(elapsed),
        None => "<unknown>".to_owned(),
    }
}

/// Formats a point in time as an age, such as "5m", "2h" or "3d".
pub fn format_age(ts: &Timestamp) -> (r: String)
    ensures
        exists|now: Timestamp| #[trigger] age_at(*ts, now) == r@ && now.regular(),
{
    let now = utc_now();
    format_age_at(ts, now)
}

/// What the table shows of a job.
#[derive(Clone, Debug)]
pub struct JobRow {
    pub job_id: Option<u64>,
    pub name: Option<String>,
    pub state: Option<JobState>,
    pub nodes: u32,
    pub queue: String,
    pub created: Option<Timestamp>,
}

/// Content of a [`JobRow`].
pub ghost struct RowView {
    pub job_id: Option<u64>,
    pub name: Option<Seq<char>>,
    pub state: Option<JobState>,
    pub nodes: u32,
    pub queue: Seq<char>,
    pub created: Option<Timestamp>,
}

impl DeepView for JobRow {
    type V = RowView;

    open spec fn deep_view(&self) -> RowView {
        RowView {
            job_id: self.job_id,
            name: self.name.deep_view(),
            state: self.state,
            nodes: self.nodes,
            queue: self.queue@,
            created: self.created,
        }
    }
}

/// `n` times the character `c`.
pub open spec fn repeated(c: char, n: nat) -> Seq<char> {
    Seq::new(n, |i: int| c)
}

/// A text with spaces after it up to a width.
pub open spec fn padded(text: Seq<char>, width: nat) -> Seq<char> {
    if text.len() >= width {
        text
    } else {
        text + repeated(' ', (width - text.len()) as nat)
    }
}

/// A line of the table.
pub open spec fn table_line(
    id: Seq<char>,
    name: Seq<char>,
    state: Seq<char>,
    nodes: Seq<char>,
    queue: Seq<char>,
    age: Seq<char>,
) -> Seq<char> {
    padded(id, 8) + " "@ + padded(name, 32) + " "@ + padded(state, 16) + " "@ + padded(nodes, 8)
        + " "@ + padded(queue, 16) + " "@ + padded(age, 12) + "\n"@
}

/// The line of a job.
pub open spec fn row_line(row: RowView, now: Timestamp) -> Seq<char> {
    table_line(
        match row.job_id {
            Some(id) => dec(id as nat),
            None => "-"@,
        },
        match row.name {
            Some(name) => name,
            None => "<unknown>"@,
        },
        match row.state {
            Some(state) => state.name(),
            None => "Unknown"@,
        },
        dec(row.nodes as nat),
        row.queue,
        match row.created {
            Some(created) => age_at(created, now),
            None => "<unknown>"@,
        },
    )
}

/// Whether a job is in the queue that is asked for, if one is.
pub open spec fn wanted(row: RowView, queue: Option<Seq<char>>) -> bool {
    match queue {
        Some(name) => row.queue == name,
        None => true,
    }
}

/// The lines of the jobs in the queue that is asked for.
pub open spec fn row_lines(rows: Seq<RowView>, queue: Option<Seq<char>>, now: Timestamp) -> Seq<
    char,
>
    decreases rows.len(),
{
    if rows.len() == 0 {
        Seq::empty()
    } else {
        let before = row_lines(rows.drop_last(), queue, now);
        if wanted(rows.last(), queue) {
            before + row_line(rows.last(), now)
        } else {
            before
        }
    }
}

/// The table of the jobs in the queue that is asked for, or what is said where there
/// are none.
pub open spec fn table_text(rows: Seq<RowView>, queue: Option<Seq<char>>, now: Timestamp) -> Seq<
    char,
> {
    if exists|i: int| 0 <= i < rows.len() && wanted(#[trigger] rows[i], queue) {
        table_line("JOBID"@, "NAME"@, "STATE"@, "NODES"@, "QUEUE"@, "AGE"@) + repeated('-', 96)
            + "\n"@ + row_lines(rows, queue, now)
    } else {
        "No jobs found.\n"@
    }
}

fn push_repeated(out: &mut String, piece: &str, n: usize, Ghost(c): Ghost<char>)
    requires
        piece@ == seq![c],
    ensures
        final(out)@ == old(out)@ + repeated(c, n as nat),
{
    let ghost before = out@;
    let mut i: usize = 0;
    proof {
        assert(before + repeated(c, 0) =~= before);
    }
    while i < n
        invariant
            i <= n,
            piece@ == seq![c],
            out@ == before + repeated(c, i as nat),
        decreases n - i,
    {
        out.append(piece);
        i += 1;
        proof {
            assert(out@ =~= before + repeated(c, i as nat));
        }
    }
}

fn push_padded(out: &mut String, text: &str, width: usize)
    ensures
        final(out)@ == old(out)@ + padded(text@, width as nat),
{
    let ghost before = out@;
    out.append(text);
    let n = text.unicode_len();
    if n < width {
        proof {
            reveal_strlit(" ");
            assert(" "@ =~= seq![' ']);
        }
        push_repeated(out, " ", width - n, Ghost(' '));
        proof {
            assert(out@ =~= before + padded(text@, width as nat));
        }
    }
}

fn push_table_line(
    out: &mut String,
    id: &str,
    name: &str,
    state: &str,
    nodes: &str,
    queue: &str,
    age: &str,
)
    ensures
        final(out)@ == old(out)@ + table_line(id@, name@, state@, nodes@, queue@, age@),
{
    let ghost before = out@;
    push_padded(out, id, 8);
    out.append(" ");
    push_padded(out, name, 32);
    out.append(" ");
    push_padded(out, state, 16);
    out.append(" ");
    push_padded(out, nodes, 8);
    out.append(" ");
    push_padded(out, queue, 16);
    out.append(" ");
    push_padded(out, age, 12);
    out.append("\n");
    proof {
        assert(out@ =~= before + table_line(id@, name@, state@, nodes@, queue@, age@));
    }
}

fn push_row(out: &mut String, row: &JobRow, now: Timestamp)
    ensures
        final(out)@ == old(out)@ + row_line(row.deep_view(), now),
{
    let id = match row.job_id {
        Some(id) => decimal(id),
        None => "-".to_owned(),
    };
    let name = match &row.name {
        Some(name) => name.as_str(),
        None => "<unknown>",
    };
    let state = match row.state {
        Some(state) => state.as_str(),
        None => "Unknown",
    };
    let age = match &row.created {
        Some(created) => format_age_at(created, now),
        None => "<unknown>".to_owned(),
    };
    push_table_line(
        out,
        id.as_str(),
        name,
        state,
        decimal(row.nodes as u64).as_str(),
        row.queue.as_str(),
        age.as_str(),
    );
}

/// Formats the table of the jobs in the queue that is asked for, or of all jobs.
pub fn format_queue(rows: &Vec<JobRow>, queue: Option<&str>, now: Timestamp) -> (r: String)
    ensures
        r@ == table_text(rows.deep_view(), queue.deep_view(), now),
{
    let ghost all = rows.deep_view();
    let ghost asked = queue.deep_view();
    let mut lines = String::new();
    let mut found = false;
    let mut i: usize = 0;
    proof {
        assert(all.take(0) =~= Seq::empty());
        assert(lines@ =~= row_lines(all.take(0), asked, now));
    }
    while i < rows.len()
        invariant
            i <= rows.len(),
            all == rows.deep_view(),
            asked == queue.deep_view(),
            lines@ == row_lines(all.take(i as int), asked, now),
            found <==> exists|k: int| 0 <= k < i && wanted(#[trigger] all[k], asked),
        decreases rows.len() - i,
    {
        proof {
            assert(all.take(i + 1).drop_last() =~= all.take(i as int));
            assert(all[i as int] == rows[i as int].deep_view());
        }
        let is_wanted = match queue {
            Some(name) => str_eq(rows[i].queue.as_str(), name),
            None => true,
        };
        assert(is_wanted == wanted(all[i as int], asked));
        if is_wanted {
            found = true;
            push_row(&mut lines, &rows[i], now);
        }
        i += 1;
    }
    proof {
        assert(all.take(all.len() as int) =~= all);
    }
    if !found {
        return "No jobs found.\n".to_owned();
    }
    let mut out = String::new();
    push_table_line(&mut out, "JOBID", "NAME", "STATE", "NODES", "QUEUE", "AGE");
    proof {
        reveal_strlit("-");
        assert("-"@ =~= seq!['-']);
    }
    push_repeated(&mut out, "-", 96, Ghost('-'));
    out.append("\n");
    out.append(lines.as_str());
    proof {
        assert(out@ =~= table_text(all, asked, now));
    }
    out
}

} // verus!
