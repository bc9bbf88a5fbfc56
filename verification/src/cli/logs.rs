//! Logs of a job's pods.

use vstd::prelude::*;
use vstd::string::*;
use crate::text::{chars_of, dec, decimal, first_index};

verus! {

/// Selects the pods of a job, or the one with a rank.
pub open spec fn selector(job: Seq<char>, rank: Option<u32>) -> Seq<char> {
    match rank {
        Some(r) => "wren.giar.dev/job-name="@ + job + ",wren.giar.dev/rank="@ + dec(r as nat),
        None => "wren.giar.dev/job-name="@ + job,
    }
}

/// Builds the label selector for the pods of a job, or for the one with a rank.
pub fn build_label_selector(job: &str, rank: Option<u32>) -> (r: String)
    ensures
        r@ == selector(job@, rank),
{
    let mut text = "wren.giar.dev/job-name=".to_owned();
    text.append(job);
    if let Some(n) = rank {
        text.append(",wren.giar.dev/rank=");
        text.append(decimal(n as u64).as_str());
    }
    text
}

/// What is said where a job has no pods.
pub fn no_pods_message(job: &str, rank: Option<u32>, namespace: &str) -> (r: String)
    ensures
        r@ == "No pods found for job "@ + job@ + (match rank {
            Some(n) => " rank "@ + dec(n as nat),
            None => Seq::empty(),
        }) + " in namespace "@ + namespace@,
{
    let mut text = "No pods found for job ".to_owned();
    text.append(job);
    let ghost before = text@;
    if let Some(n) = rank {
        text.append(" rank ");
        text.append(decimal(n as u64).as_str());
        proof {
            assert(text@ =~= before + (" rank "@ + dec(n as nat)));
        }
    } else {
        proof {
            assert(before =~= before + Seq::<char>::empty());
        }
    }
    text.append(" in namespace ");
    text.append(namespace);
    text
}

/// A line without the carriage return that ends it, if one does.
pub open spec fn without_return(line: Seq<char>) -> Seq<char> {
    if line.len() > 0 && line.last() == '\r' {
        line.drop_last()
    } else {
        line
    }
}

/// A line of a log with the name of its pod before it.
pub open spec fn entry(pod: Seq<char>, line: Seq<char>) -> Seq<char> {
    "["@ + pod + "] "@ + line + "\n"@
}

/// The log of a pod with the name of the pod before each line. A line ends with a line
/// feed, or with a carriage return and a line feed; the last may end with neither.
pub open spec fn labelled(pod: Seq<char>, log: Seq<char>) -> Seq<char>
    decreases log.len(),
{
    if log.len() == 0 {
        Seq::empty()
    } else {
        match first_index(log, '\n') {
            Some(i) => if 0 <= i < log.len() {
                entry(pod, without_return(log.take(i))) + labelled(pod, log.skip(i + 1))
            } else {
                Seq::empty()
            },
            None => entry(pod, log),
        }
    }
}

/// Where a character first occurs.
pub proof fn lemma_first_index(s: Seq<char>, c: char, i: int)
    requires
        0 <= i <= s.len(),
        forall|k: int| 0 <= k < i ==> s[k] != c,
    ensures
        i == s.len() ==> first_index(s, c) is None,
        i < s.len() && s[i] == c ==> first_index(s, c) == Some(i),
    decreases s.len(),
{
    if s.len() > 0 && i > 0 {
        assert(s[0] != c);
        assert forall|k: int| 0 <= k < i - 1 implies s.drop_first()[k] != c by {
            assert(s[k + 1] != c);
        }
        lemma_first_index(s.drop_first(), c, i - 1);
    }
}

/// What the line from `start` to `end`, printed up to `stop`, adds to a log.
proof fn lemma_line(pod: Seq<char>, all: Seq<char>, start: int, end: int, stop: int)
    requires
        0 <= start <= end <= all.len(),
        start < all.len(),
        forall|k: int| start <= k < end ==> all[k] != '\n',
        end < all.len() ==> all[end] == '\n',
        stop == (if end < all.len() && end > start && all[end - 1] == '\r' {
            end - 1
        } else {
            end
        }),
    ensures
        labelled(pod, all.skip(start)) == entry(pod, all.subrange(start, stop)) + labelled(
            pod,
            all.skip(
                if end < all.len() {
                    end + 1
                } else {
                    end
                },
            ),
        ),
{
    let rest = all.skip(start);
    assert forall|k: int| 0 <= k < end - start implies rest[k] != '\n' by {
        assert(all[start + k] != '\n');
    }
    lemma_first_index(rest, '\n', end - start);
    if end < all.len() {
        assert(rest.take(end - start) =~= all.subrange(start, end));
        assert(without_return(rest.take(end - start)) =~= all.subrange(start, stop));
        assert(rest.skip(end - start + 1) =~= all.skip(end + 1));
    } else {
        assert(rest =~= all.subrange(start, stop));
        assert(all.skip(end) =~= Seq::<char>::empty());
        assert(entry(pod, rest) + Seq::<char>::empty() =~= entry(pod, rest));
    }
}

fn push_entry(out: &mut String, pod: &str, line: &str)
    ensures
        final(out)@ == old(out)@ + entry(pod@, line@),
{
    let ghost before = out@;
    out.append("[");
    out.append(pod);
    out.append("] ");
    out.append(line);
    out.append("\n");
    proof {
        assert(out@ =~= before + entry(pod@, line@));
    }
}

fn find_line_end(chars: &Vec<char>, start: usize) -> (r: usize)
    requires
        start <= chars.len(),
    ensures
        start <= r <= chars.len(),
        forall|k: int| start <= k < r ==> chars[k] != '\n',
        r < chars.len() ==> chars[r as int] == '\n',
{
    let mut end: usize = start;
    while end < chars.len() && chars[end] != '\n'
        invariant
            start <= end <= chars.len(),
            forall|k: int| start <= k < end ==> chars[k] != '\n',
        decreases chars.len() - end,
    {
        end += 1;
    }
    end
}

/// What is printed of the log of a pod. Where several pods are shown, each line bears
/// the name of its pod.
pub fn format_log(pod: &str, log: &str, several: bool) -> (r: String)
    ensures
        r@ == (if several {
            labelled(pod@, log@)
        } else {
            log@
        }),
{
    if !several {
        return log.to_owned();
    }
    let chars = chars_of(log);
    let n = chars.len();
    let ghost all = log@;
    let mut out = String::new();
    let mut start: usize = 0;
    proof {
        assert(all.skip(0) =~= all);
        assert(out@ + labelled(pod@, all.skip(0)) =~= labelled(pod@, all));
    }
    while start < n
        invariant
            start <= n,
            n == chars.len(),
            chars@ == all,
            all == log@,
            labelled(pod@, all) == out@ + labelled(pod@, all.skip(start as int)),
        decreases n - start,
    {
        let ghost before = out@;
        let end = find_line_end(&chars, start);
        let mut stop: usize = end;
        if end < n && end > start && chars[end - 1] == '\r' {
            stop = end - 1;
        }
        push_entry(&mut out, pod, log.substring_char(start, stop));
        let next = if end < n {
            end + 1
        } else {
            end
        };
        proof {
            lemma_line(pod@, all, start as int, end as int, stop as int);
            let text = all.subrange(start as int, stop as int);
            assert(before + (entry(pod@, text) + labelled(pod@, all.skip(next as int))) =~= before
                + entry(pod@, text) + labelled(pod@, all.skip(next as int)));
        }
        start = next;
    }
    proof {
        assert(all.skip(n as int) =~= Seq::empty());
        assert(out@ + Seq::<char>::empty() =~= out@);
    }
    out
}

} // verus!
