//! Numbers and lists as texts.

use vstd::prelude::*;
use crate::text::{
    bounded_value, dec, decimal, is_digit, is_white_space, join, lemma_dec, parse_bounded,
    signed_decimal, sort_strings, str_le, text_le, trim, trimmed,
};

verus! {

/// Decimals are positional: a digit stands for itself, and a further digit behind a number
/// counts ten times the number and the digit.
pub proof fn law_decimals_are_positional(n: u64, d: u64, m: u64, r: String, s: String)
    requires
        call_ensures(decimal, (n,), r),
        call_ensures(decimal, (m,), s),
        d < 10,
        m == 10 * n + d,
    ensures
        n < 10 ==> r@.len() == 1 && r@[0] as nat == 48 + n,
        n > 0 ==> s@.len() == r@.len() + 1 && s@.last() as nat == 48 + d && s@.drop_last() == r@,
{
    reveal_with_fuel(dec, 2);
    if n > 0 {
        assert(m as nat / 10 == n as nat);
        assert(m as nat % 10 == d as nat);
        assert(s@.drop_last() =~= r@);
    }
}

/// A number is read back from its decimals, where it is within the bound, and nothing is
/// read that has other characters than digits behind an optional sign.
pub proof fn law_decimals_are_read_back(
    n: u64,
    max: u64,
    written: String,
    text: &str,
    r: Option<u64>,
    i: int,
)
    requires
        call_ensures(decimal, (n,), written),
        call_ensures(parse_bounded, (text, max), r),
    ensures
        text@ == written@ && n <= max ==> r == Some(n),
        text@ == written@ && n > max ==> r is None,
        r is Some && 0 <= i < text@.len() ==> ('0' <= text@[i] && text@[i] <= '9') || (i == 0
            && text@[0] == '+' && text@.len() > 1),
        r is Some ==> text@.len() > 0 && r->0 <= max,
{
    lemma_read_back(n as nat, max as nat);
    if r is Some && 0 <= i < text@.len() {
        if text@[0] == '+' {
            if i > 0 {
                assert(text@.drop_first()[i - 1] == text@[i]);
            }
        } else {
            assert(is_digit(text@[i]));
        }
    }
}

/// The decimals of a number denote it.
pub proof fn lemma_read_back(n: nat, max: nat)
    ensures
        bounded_value(dec(n), max) == (if n <= max {
            Some(n)
        } else {
            None
        }),
        forall|i: int| 0 <= i < dec(n).len() ==> '0' <= #[trigger] dec(n)[i] <= '9',
        dec(n).len() > 0,
{
    lemma_dec(n);
    assert(is_digit(dec(n)[0]));
}

/// A negative number is written as its opposite behind a sign, and another as it is.
pub proof fn law_signs_are_written(n: i64, opposite: u64, r: String, s: String)
    requires
        call_ensures(signed_decimal, (n,), r),
        call_ensures(decimal, (opposite,), s),
        opposite == n || opposite == -n,
    ensures
        n < 0 ==> r@ == "-"@ + s@,
        n >= 0 ==> r@ == s@,
{
    if n == 0 {
        assert(opposite == 0);
    }
}

/// Parts are joined in order with the separator between them, and nowhere else.
pub proof fn law_parts_are_joined_in_order(
    parts: &Vec<String>,
    longer: &Vec<String>,
    sep: &str,
    r: String,
    s: String,
)
    requires
        call_ensures(join, (parts, sep), r),
        call_ensures(join, (longer, sep), s),
        longer@.len() == parts@.len() + 1,
        forall|i: int| 0 <= i < parts@.len() ==> (#[trigger] longer@[i])@ == parts@[i]@,
    ensures
        parts@.len() == 0 ==> r@ == Seq::<char>::empty() && s@ == longer@[0]@,
        parts@.len() > 0 ==> s@ == r@ + sep@ + longer@.last()@,
{
    let a = parts.deep_view();
    let b = longer.deep_view();
    assert(b.drop_last() =~= a) by {
        assert forall|i: int| 0 <= i < a.len() implies b.drop_last()[i] == a[i] by {
            assert(longer@[i]@ == parts@[i]@);
        }
    }
    assert(b.last() == longer@.last()@);
    assert(b[0] == longer@[0]@);
}

/// Texts are ordered by their first characters that differ, and a text comes before any longer
/// one that begins with it.
pub proof fn law_texts_are_ordered_by_character(
    a: &str,
    b: &str,
    stem: Seq<char>,
    x: Seq<char>,
    y: Seq<char>,
    r: bool,
)
    requires
        call_ensures(str_le, (a, b), r),
        a@ == stem + x,
        b@ == stem + y,
    ensures
        x.len() == 0 ==> r,
        x.len() > 0 && y.len() == 0 ==> !r,
        x.len() > 0 && y.len() > 0 && x[0] < y[0] ==> r,
        x.len() > 0 && y.len() > 0 && x[0] > y[0] ==> !r,
{
    lemma_same_stem(stem, x, y);
}

proof fn lemma_same_stem(stem: Seq<char>, x: Seq<char>, y: Seq<char>)
    ensures
        text_le(stem + x, stem + y) == text_le(x, y),
    decreases stem.len(),
{
    if stem.len() == 0 {
        assert(stem + x =~= x);
        assert(stem + y =~= y);
    } else {
        assert((stem + x).drop_first() =~= stem.drop_first() + x);
        assert((stem + y).drop_first() =~= stem.drop_first() + y);
        lemma_same_stem(stem.drop_first(), x, y);
    }
}

/// Sorting keeps every text as often as it occurs, and puts none before one that it has to
/// follow.
pub proof fn law_sorting_keeps_all_in_order(
    list: Vec<String>,
    r: Vec<String>,
    a: &str,
    b: &str,
    i: int,
    j: int,
    le: bool,
)
    requires
        call_ensures(sort_strings, (list,), r),
        call_ensures(str_le, (a, b), le),
        0 <= i < j < r@.len(),
        r@[i]@ == a@,
        r@[j]@ == b@,
    ensures
        le,
        r.deep_view().to_multiset() == list.deep_view().to_multiset(),
{
    assert(r.deep_view()[i] == a@);
    assert(r.deep_view()[j] == b@);
}

/// Trimming takes white space from both ends and nothing else.
pub proof fn law_trimming_takes_white_space(s: &str, longer: &str, r: &str, t: &str, c: char)
    requires
        call_ensures(trim, (s,), r),
        call_ensures(trim, (longer,), t),
        c == ' ' || c == '\t' || c == '\n',
    ensures
        longer@ == seq![c] + s@ ==> t@ == r@,
        s@.len() > 0 && longer@ == s@ + seq![c] && '!' <= s@.last() && s@.last() <= '~' ==> t@ == r@,
        s@.len() > 0 && '!' <= s@[0] && s@[0] <= '~' && '!' <= s@.last() && s@.last() <= '~' ==> r@
            == s@,
{
    assert(is_white_space(c));
    if longer@ == seq![c] + s@ {
        assert(longer@.drop_first() =~= s@);
    }
    if s@.len() > 0 && '!' <= s@.last() && s@.last() <= '~' && longer@ == s@ + seq![c] {
        lemma_trim_end(s@, c);
    }
}

proof fn lemma_trim_end(s: Seq<char>, c: char)
    requires
        s.len() > 0,
        is_white_space(c),
        !is_white_space(s.last()),
    ensures
        trimmed(s + seq![c]) == trimmed(s),
    decreases s.len(),
{
    let longer = s + seq![c];
    assert(longer[0] == s[0]);
    if is_white_space(s[0]) {
        assert(s.len() > 1);
        assert(longer.drop_first() =~= s.drop_first() + seq![c]);
        assert(s.drop_first().last() == s.last());
        lemma_trim_end(s.drop_first(), c);
    } else {
        assert(longer.drop_last() =~= s);
        assert(longer.last() == c);
    }
}

} // verus!
