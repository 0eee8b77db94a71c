//! What the admin pages compute: the breakdowns of the analytics page, new
//! short codes, and the checks on the form that creates a link.

use crate::cache::LinkCache;
use crate::models::{Click, Link};
use crate::redirect::StorageLookup;
use crate::text::{
    chars_of, contains_chars, copy_opt, has_part, has_prefix, opt_text, same_text,
    starts_with_chars, string_of, trim_chars, trimmed,
};
use vstd::string::StringExecFns;
use rand::Rng;
use vstd::prelude::*;

verus! {

/// How often `name` occurs among the values.
pub open spec fn occurrences(values: Seq<Option<Seq<char>>>, name: Seq<char>) -> nat
    decreases values.len(),
{
    if values.len() == 0 {
        0
    } else {
        occurrences(values.drop_last(), name) + if values.last() == Some(name) {
            1nat
        } else {
            0nat
        }
    }
}

/// The values of a column, each as its characters.
pub open spec fn column(values: Seq<Option<String>>) -> Seq<Option<Seq<char>>> {
    values.map_values(|v: Option<String>| opt_text(v))
}

/// Whether `name` is one of the names of the rows.
pub open spec fn listed(rows: Seq<(String, i64)>, name: Seq<char>) -> bool {
    exists|i: int| 0 <= i < rows.len() && (#[trigger] rows[i]).0@ == name
}

/// Whether `rows` is a breakdown of the values: at most `limit` rows, each a
/// non-empty value with the number of its occurrences, no value twice, the
/// counts in descending order, and no value left out that occurs more often
/// than one that is listed. Among values that occur equally often, any may
/// come first, and any may be the ones left out.
pub open spec fn is_breakdown(
    rows: Seq<(String, i64)>,
    values: Seq<Option<Seq<char>>>,
    limit: nat,
) -> bool {
    &&& rows.len() <= limit
    &&& forall|i: int|
        0 <= i < rows.len() ==> (#[trigger] rows[i]).0@.len() > 0 && rows[i].1 > 0 && rows[i].1
            == occurrences(values, rows[i].0@)
    &&& forall|i: int, j: int|
        0 <= i < j < rows.len() ==> (#[trigger] rows[i]).0@ != (#[trigger] rows[j]).0@
    &&& forall|i: int, j: int|
        0 <= i < j < rows.len() ==> (#[trigger] rows[i]).1 >= (#[trigger] rows[j]).1
    &&& forall|name: Seq<char>|
        name.len() > 0 && #[trigger] occurrences(values, name) > 0 && !listed(rows, name) ==> {
            &&& rows.len() == limit
            &&& forall|i: int| 0 <= i < rows.len() ==> (#[trigger] rows[i]).1 >= occurrences(values, name)
        }
}

proof fn lemma_occurrences_bound(values: Seq<Option<Seq<char>>>, name: Seq<char>)
    ensures
        occurrences(values, name) <= values.len(),
    decreases values.len(),
{
    if values.len() > 0 {
        lemma_occurrences_bound(values.drop_last(), name);
    }
}

/// The index of the row with the given name.
fn find_row(rows: &Vec<(String, i64)>, name: &str) -> (r: Option<usize>)
    ensures
        match r {
            Some(i) => i < rows@.len() && rows@[i as int].0@ == name@,
            None => !listed(rows@, name@),
        },
{
    let mut i: usize = 0;
    while i < rows.len()
        invariant
            i <= rows@.len(),
            forall|j: int| 0 <= j < i ==> (#[trigger] rows@[j]).0@ != name@,
        decreases rows.len() - i,
    {
        if same_text(rows[i].0.as_str(), name) {
            return Some(i);
        }
        i += 1;
    }
    None
}

/// Whether `rows` counts the values exactly: each non-empty value that occurs
/// has one row, with the number of its occurrences.
spec fn is_tally(rows: Seq<(String, i64)>, values: Seq<Option<Seq<char>>>) -> bool {
    &&& forall|i: int|
        0 <= i < rows.len() ==> (#[trigger] rows[i]).0@.len() > 0 && rows[i].1 > 0 && rows[i].1
            == occurrences(values, rows[i].0@)
    &&& forall|i: int, j: int|
        0 <= i < j < rows.len() ==> (#[trigger] rows[i]).0@ != (#[trigger] rows[j]).0@
    &&& forall|name: Seq<char>|
        name.len() > 0 && #[trigger] occurrences(values, name) > 0 ==> listed(rows, name)
}

/// Counts the occurrences of each non-empty value, in the order in which the
/// values first occur.
fn tally(values: &Vec<Option<String>>) -> (rows: Vec<(String, i64)>)
    requires
        values@.len() <= i64::MAX,
    ensures
        is_tally(rows@, column(values@)),
{
    let ghost all = column(values@);
    let mut rows: Vec<(String, i64)> = Vec::new();
    let mut i: usize = 0;
    assert(all.take(0) =~= Seq::empty());
    while i < values.len()
        invariant
            i <= values@.len() <= i64::MAX,
            all == column(values@),
            is_tally(rows@, all.take(i as int)),
        decreases values.len() - i,
    {
        let ghost seen = all.take(i as int);
        let ghost next = all.take(i + 1);
        assert(next.drop_last() =~= seen);
        assert(next.last() == opt_text(values@[i as int]));
        let ghost old_rows = rows@;
        let mut counted: bool = false;
        if let Some(s) = &values[i] {
            if !s.as_str().is_empty() {
                counted = true;
                match find_row(&rows, s.as_str()) {
                    Some(k) => {
                        proof {
                            lemma_occurrences_bound(seen, s@);
                        }
                        let n: i64 = rows[k].1 + 1;
                        let name: String = rows[k].0.clone();
                        rows.set(k, (name, n));
                        proof {
                            assert forall|a: int| 0 <= a < rows@.len() implies (
                            #[trigger] rows@[a]).0@ == old_rows[a].0@ by {}
                            assert forall|name: Seq<char>|
                                name.len() > 0 && #[trigger] occurrences(next, name)
                                    > 0 implies listed(rows@, name) by {
                                if name == s@ {
                                    assert(rows@[k as int].0@ == name);
                                } else {
                                    assert(occurrences(next, name) == occurrences(seen, name));
                                    assert(listed(old_rows, name));
                                    let a = choose|a: int|
                                        0 <= a < old_rows.len() && (#[trigger] old_rows[a]).0@
                                            == name;
                                    assert(rows@[a].0@ == name);
                                }
                            }
                        }
                    },
                    None => {
                        assert(occurrences(seen, s@) == 0);
                        rows.push((s.clone(), 1));
                        proof {
                            assert forall|name: Seq<char>|
                                name.len() > 0 && #[trigger] occurrences(next, name)
                                    > 0 implies listed(rows@, name) by {
                                if name == s@ {
                                    assert(rows@[rows@.len() - 1].0@ == name);
                                } else {
                                    assert(occurrences(next, name) == occurrences(seen, name));
                                    assert(listed(old_rows, name));
                                    let a = choose|a: int|
                                        0 <= a < old_rows.len() && (#[trigger] old_rows[a]).0@
                                            == name;
                                    assert(rows@[a].0@ == name);
                                }
                            }
                        }
                    },
                }
            }
        }
        proof {
            if !counted {
                assert forall|name: Seq<char>| name.len() > 0 implies occurrences(next, name)
                    == occurrences(seen, name) by {}
            }
        }
        i += 1;
    }
    assert(all.take(all.len() as int) =~= all);
    rows
}

/// The row with the highest count among those not taken yet, the first of
/// them where several have it.
fn best_row(rows: &Vec<(String, i64)>, taken: &Vec<bool>) -> (r: Option<usize>)
    requires
        taken@.len() == rows@.len(),
    ensures
        match r {
            Some(m) => m < rows@.len() && !taken@[m as int] && forall|i: int|
                0 <= i < rows@.len() && !taken@[i] ==> (#[trigger] rows@[i]).1 <= rows@[m as int].1,
            None => forall|i: int| 0 <= i < rows@.len() ==> taken@[i],
        },
{
    let mut best: Option<usize> = None;
    let mut i: usize = 0;
    while i < rows.len()
        invariant
            i <= rows@.len(),
            taken@.len() == rows@.len(),
            match best {
                Some(m) => m < i && !taken@[m as int] && forall|j: int|
                    0 <= j < i && !taken@[j] ==> (#[trigger] rows@[j]).1 <= rows@[m as int].1,
                None => forall|j: int| 0 <= j < i ==> taken@[j],
            },
        decreases rows.len() - i,
    {
        if !taken[i] {
            match best {
                Some(m) => {
                    if rows[i].1 > rows[m].1 {
                        best = Some(i);
                    }
                },
                None => {
                    best = Some(i);
                },
            }
        }
        i += 1;
    }
    best
}

/// Whether one of the rows has the given name and count.
spec fn has_row(rows: Seq<(String, i64)>, name: Seq<char>, count: i64) -> bool {
    exists|i: int| 0 <= i < rows.len() && (#[trigger] rows[i]).0@ == name && rows[i].1 == count
}

/// The `limit` rows with the highest counts, in descending order of count.
fn top_rows(rows: &Vec<(String, i64)>, limit: usize) -> (top: Vec<(String, i64)>)
    requires
        forall|i: int, j: int|
            0 <= i < j < rows@.len() ==> (#[trigger] rows@[i]).0@ != (#[trigger] rows@[j]).0@,
    ensures
        top@.len() <= limit,
        forall|k: int| 0 <= k < top@.len() ==> has_row(rows@, (#[trigger] top@[k]).0@, top@[k].1),
        forall|a: int, b: int|
            0 <= a < b < top@.len() ==> (#[trigger] top@[a]).0@ != (#[trigger] top@[b]).0@,
        forall|a: int, b: int|
            0 <= a < b < top@.len() ==> (#[trigger] top@[a]).1 >= (#[trigger] top@[b]).1,
        forall|i: int|
            0 <= i < rows@.len() && !listed(top@, (#[trigger] rows@[i]).0@) ==> top@.len() == limit
                && forall|k: int| 0 <= k < top@.len() ==> (#[trigger] top@[k]).1 >= rows@[i].1,
{
    let mut taken: Vec<bool> = Vec::new();
    let mut n: usize = 0;
    while n < rows.len()
        invariant
            n <= rows@.len(),
            taken@.len() == n,
            forall|i: int| 0 <= i < n ==> !taken@[i],
        decreases rows.len() - n,
    {
        taken.push(false);
        n += 1;
    }
    let mut top: Vec<(String, i64)> = Vec::new();
    let ghost mut picked: Seq<int> = Seq::empty();
    let mut exhausted: bool = false;
    while top.len() < limit && !exhausted
        invariant
            taken@.len() == rows@.len(),
            top@.len() <= limit,
            picked.len() == top@.len(),
            forall|i: int, j: int|
                0 <= i < j < rows@.len() ==> (#[trigger] rows@[i]).0@ != (#[trigger] rows@[j]).0@,
            forall|k: int|
                0 <= k < picked.len() ==> 0 <= (#[trigger] picked[k]) < rows@.len()
                    && taken@[picked[k]] && rows@[picked[k]].0@ == top@[k].0@
                    && rows@[picked[k]].1 == top@[k].1,
            forall|i: int|
                0 <= i < rows@.len() && #[trigger] taken@[i] ==> exists|k: int|
                    0 <= k < picked.len() && #[trigger] picked[k] == i,
            forall|i: int, k: int|
                0 <= i < rows@.len() && !taken@[i] && 0 <= k < top@.len() ==> (#[trigger] top@[k]).1
                    >= (#[trigger] rows@[i]).1,
            forall|a: int, b: int|
                0 <= a < b < top@.len() ==> (#[trigger] top@[a]).0@ != (#[trigger] top@[b]).0@,
            forall|a: int, b: int|
                0 <= a < b < top@.len() ==> (#[trigger] top@[a]).1 >= (#[trigger] top@[b]).1,
            exhausted ==> forall|i: int| 0 <= i < rows@.len() ==> taken@[i],
        decreases limit - top@.len() + if exhausted { 0int } else { 1int },
    {
        match best_row(rows, &taken) {
            Some(m) => {
                let ghost old_top = top@;
                let ghost old_taken = taken@;
                let ghost old_picked = picked;
                top.push((rows[m].0.clone(), rows[m].1));
                taken.set(m, true);
                proof {
                    picked = picked.push(m as int);
                    assert forall|k: int| 0 <= k < old_picked.len() implies old_picked[k]
                        != m by {
                        assert(old_taken[old_picked[k]]);
                    }
                    assert forall|i: int|
                        0 <= i < rows@.len() && #[trigger] taken@[i] implies exists|k: int|
                        0 <= k < picked.len() && #[trigger] picked[k] == i by {
                        if i == m {
                            assert(picked[picked.len() - 1] == i);
                        } else {
                            assert(old_taken[i]);
                            let k = choose|k: int|
                                0 <= k < old_picked.len() && #[trigger] old_picked[k] == i;
                            assert(picked[k] == i);
                        }
                    }
                    assert forall|a: int, b: int| 0 <= a < b < top@.len() implies (
                    #[trigger] top@[a]).0@ != (#[trigger] top@[b]).0@ by {
                        if b == top@.len() - 1 {
                            let i = old_picked[a];
                            assert(picked[a] == i);
                            assert(i != m);
                            if i < m {
                                assert(rows@[i].0@ != rows@[m as int].0@);
                            } else {
                                assert(rows@[m as int].0@ != rows@[i].0@);
                            }
                        } else {
                            assert(old_top[a].0@ != old_top[b].0@);
                        }
                    }
                    assert forall|a: int, b: int| 0 <= a < b < top@.len() implies (
                    #[trigger] top@[a]).1 >= (#[trigger] top@[b]).1 by {
                        if b == top@.len() - 1 {
                            assert(old_top[a].1 >= rows@[m as int].1);
                        } else {
                            assert(old_top[a].1 >= old_top[b].1);
                        }
                    }
                    assert forall|i: int, k: int|
                        0 <= i < rows@.len() && !taken@[i] && 0 <= k < top@.len() implies (
                    #[trigger] top@[k]).1 >= (#[trigger] rows@[i]).1 by {
                        assert(!old_taken[i]);
                        if k < old_top.len() {
                            assert(old_top[k].1 >= rows@[i].1);
                        }
                    }
                }
            },
            None => {
                exhausted = true;
            },
        }
    }
    proof {
        assert forall|k: int| 0 <= k < top@.len() implies has_row(
            rows@,
            (#[trigger] top@[k]).0@,
            top@[k].1,
        ) by {
            let i = picked[k];
            assert(rows@[i].0@ == top@[k].0@);
        }
        assert forall|i: int|
            0 <= i < rows@.len() && !listed(top@, (#[trigger] rows@[i]).0@) implies top@.len()
            == limit && forall|k: int| 0 <= k < top@.len() ==> (#[trigger] top@[k]).1
            >= rows@[i].1 by {
            if taken@[i] {
                let k = choose|k: int| 0 <= k < picked.len() && #[trigger] picked[k] == i;
                assert(top@[k].0@ == rows@[i].0@);
                assert(listed(top@, rows@[i].0@));
            }
        }
    }
    top
}

/// How many rows a breakdown shows.
pub const BREAKDOWN_ROWS: usize = 10;

/// Counts the occurrences of each value that is present and not empty, and
/// returns the ten most frequent with their counts, the most frequent first.
pub fn count_field(values: &Vec<Option<String>>) -> (rows: Vec<(String, i64)>)
    requires
        values@.len() <= i64::MAX,
    ensures
        is_breakdown(rows@, column(values@), BREAKDOWN_ROWS as nat),
{
    let all: Vec<(String, i64)> = tally(values);
    let rows: Vec<(String, i64)> = top_rows(&all, BREAKDOWN_ROWS);
    proof {
        let vals = column(values@);
        assert forall|k: int| 0 <= k < rows@.len() implies (#[trigger] rows@[k]).0@.len() > 0
            && rows@[k].1 > 0 && rows@[k].1 == occurrences(vals, rows@[k].0@) by {
            assert(has_row(all@, rows@[k].0@, rows@[k].1));
            let i = choose|i: int|
                0 <= i < all@.len() && (#[trigger] all@[i]).0@ == rows@[k].0@ && all@[i].1
                    == rows@[k].1;
            assert(all@[i].1 == occurrences(vals, all@[i].0@));
        }
        assert forall|name: Seq<char>|
            name.len() > 0 && #[trigger] occurrences(vals, name) > 0 && !listed(
                rows@,
                name,
            ) implies rows@.len() == BREAKDOWN_ROWS as nat && forall|k: int|
            0 <= k < rows@.len() ==> (#[trigger] rows@[k]).1 >= occurrences(vals, name) by {
            assert(listed(all@, name));
            let i = choose|i: int| 0 <= i < all@.len() && (#[trigger] all@[i]).0@ == name;
            assert(!listed(rows@, all@[i].0@));
            assert(all@[i].1 == occurrences(vals, name));
        }
    }
    rows
}

/// The share of `count` in `total`, in whole percent, rounded towards zero;
/// zero where the total is not positive.
pub open spec fn percent(count: int, total: int) -> int {
    if total <= 0 {
        0
    } else if count >= 0 {
        count * 100 / total
    } else {
        -((-count * 100) / total)
    }
}

/// Adds to each row of a breakdown its share of the total, in percent.
pub fn with_pct(items: Vec<(String, i64)>, total: i64) -> (rows: Vec<(String, i64, i64)>)
    requires
        forall|i: int|
            0 <= i < items@.len() ==> i64::MIN <= (#[trigger] items@[i]).1 * 100 <= i64::MAX,
    ensures
        rows@.len() == items@.len(),
        forall|i: int|
            0 <= i < rows@.len() ==> (#[trigger] rows@[i]).0@ == items@[i].0@ && rows@[i].1
                == items@[i].1 && rows@[i].2 == percent(items@[i].1 as int, total as int),
{
    let mut rows: Vec<(String, i64, i64)> = Vec::new();
    let mut i: usize = 0;
    while i < items.len()
        invariant
            i <= items@.len(),
            rows@.len() == i,
            forall|k: int|
                0 <= k < items@.len() ==> i64::MIN <= (#[trigger] items@[k]).1 * 100 <= i64::MAX,
            forall|k: int|
                0 <= k < i ==> (#[trigger] rows@[k]).0@ == items@[k].0@ && rows@[k].1
                    == items@[k].1 && rows@[k].2 == percent(items@[k].1 as int, total as int),
        decreases items.len() - i,
    {
        let count: i64 = items[i].1;
        assert(i64::MIN <= items@[i as int].1 * 100 <= i64::MAX);
        let pct: i64 = if total > 0 {
            count * 100 / total
        } else {
            0
        };
        rows.push((items[i].0.clone(), count, pct));
        i += 1;
    }
    rows
}

/// The columns of the clicks that the analytics page breaks down.
#[derive(Debug, Clone, Copy, PartialEq, Eq, Structural)]
pub enum ClickField {
    Browser,
    Os,
    DeviceType,
    Referer,
    Country,
}

/// The value that a click has in a column.
pub open spec fn field_of(click: Click, field: ClickField) -> Option<Seq<char>> {
    match field {
        ClickField::Browser => opt_text(click.browser),
        ClickField::Os => opt_text(click.os),
        ClickField::DeviceType => opt_text(click.device_type),
        ClickField::Referer => opt_text(click.referer),
        ClickField::Country => opt_text(click.country),
    }
}

/// The values that the clicks have in a column, in their order.
pub open spec fn column_of(clicks: Seq<Click>, field: ClickField) -> Seq<Option<Seq<char>>> {
    clicks.map_values(|c: Click| field_of(c, field))
}

/// Whether `rows` is the table of a column: a breakdown of its values, each
/// row with its share of `total` in percent.
pub open spec fn is_table(
    rows: Seq<(String, i64, i64)>,
    values: Seq<Option<Seq<char>>>,
    total: i64,
) -> bool {
    &&& is_breakdown(rows.map_values(|r: (String, i64, i64)| (r.0, r.1)), values, BREAKDOWN_ROWS as nat)
    &&& forall|i: int|
        0 <= i < rows.len() ==> (#[trigger] rows[i]).2 == percent(rows[i].1 as int, total as int)
}

fn pick(click: &Click, field: ClickField) -> (r: Option<String>)
    ensures
        opt_text(r) == field_of(*click, field),
{
    match field {
        ClickField::Browser => copy_opt(&click.browser),
        ClickField::Os => copy_opt(&click.os),
        ClickField::DeviceType => copy_opt(&click.device_type),
        ClickField::Referer => copy_opt(&click.referer),
        ClickField::Country => copy_opt(&click.country),
    }
}

/// The table of one column of the clicks: its ten most frequent values, each
/// with its count and with its share of `total` in percent.
pub fn breakdown(clicks: &Vec<Click>, field: ClickField, total: i64) -> (rows: Vec<
    (String, i64, i64),
>)
    requires
        clicks@.len() * 100 <= i64::MAX,
    ensures
        is_table(rows@, column_of(clicks@, field), total),
{
    let mut values: Vec<Option<String>> = Vec::new();
    let mut i: usize = 0;
    while i < clicks.len()
        invariant
            i <= clicks@.len(),
            values@.len() == i,
            forall|k: int| 0 <= k < i ==> opt_text(#[trigger] values@[k]) == field_of(clicks@[k], field),
        decreases clicks.len() - i,
    {
        values.push(pick(&clicks[i], field));
        i += 1;
    }
    assert(column(values@) =~= column_of(clicks@, field));
    let counted: Vec<(String, i64)> = count_field(&values);
    proof {
        assert forall|k: int| 0 <= k < counted@.len() implies i64::MIN <= (
        #[trigger] counted@[k]).1 * 100 <= i64::MAX by {
            lemma_occurrences_bound(column(values@), counted@[k].0@);
        }
    }
    let ghost before = counted@;
    let rows: Vec<(String, i64, i64)> = with_pct(counted, total);
    proof {
        let pairs = rows@.map_values(|r: (String, i64, i64)| (r.0, r.1));
        assert(pairs.len() == before.len());
        assert forall|k: int| 0 <= k < pairs.len() implies (#[trigger] pairs[k]).0@ == before[k].0@
            && pairs[k].1 == before[k].1 by {
            assert(rows@[k].0@ == before[k].0@);
        }
        let vals = column_of(clicks@, field);
        assert forall|name: Seq<char>| listed(pairs, name) == listed(before, name) by {
            if listed(pairs, name) {
                let a = choose|a: int| 0 <= a < pairs.len() && (#[trigger] pairs[a]).0@ == name;
                assert(before[a].0@ == name);
            }
            if listed(before, name) {
                let a = choose|a: int| 0 <= a < before.len() && (#[trigger] before[a]).0@ == name;
                assert(pairs[a].0@ == name);
            }
        }
        assert(is_breakdown(pairs, vals, BREAKDOWN_ROWS as nat)) by {
            assert forall|a: int, b: int| 0 <= a < b < pairs.len() implies (#[trigger] pairs[a]).0@
                != (#[trigger] pairs[b]).0@ by {
                assert(before[a].0@ != before[b].0@);
            }
            assert forall|a: int, b: int| 0 <= a < b < pairs.len() implies (#[trigger] pairs[a]).1
                >= (#[trigger] pairs[b]).1 by {
                assert(before[a].1 >= before[b].1);
            }
            assert forall|name: Seq<char>|
                name.len() > 0 && #[trigger] occurrences(vals, name) > 0 && !listed(
                    pairs,
                    name,
                ) implies pairs.len() == BREAKDOWN_ROWS as nat && forall|k: int|
                0 <= k < pairs.len() ==> (#[trigger] pairs[k]).1 >= occurrences(vals, name) by {
                assert(!listed(before, name));
                assert forall|k: int| 0 <= k < pairs.len() implies (#[trigger] pairs[k]).1
                    >= occurrences(vals, name) by {
                    assert(before[k].1 >= occurrences(vals, name));
                }
            }
        }
    }
    rows
}

/// The characters that a generated short code is made of: the letters of
/// both cases and the digits.
pub open spec fn is_code_char(c: char) -> bool {
    ('a' <= c <= 'z') || ('A' <= c <= 'Z') || ('0' <= c <= '9')
}

/// How many characters a generated short code is made from.
pub const ALPHABET_LEN: usize = 62;

/// `rand::Rng::gen_range` on the generator of the thread: a number from zero
/// up to, not including, `bound`.
#[verifier::external_body]
fn random_below(bound: usize) -> (n: usize)
    requires
        bound > 0,
    ensures
        n < bound,
{
    rand::thread_rng().gen_range(0..bound)
}

/// The character of the alphabet at an index.
fn alphabet_char(i: usize) -> (c: char)
    requires
        i < ALPHABET_LEN,
    ensures
        is_code_char(c),
{
    let alphabet: &str = "abcdefghijklmnopqrstuvwxyzABCDEFGHIJKLMNOPQRSTUVWXYZ0123456789";
    proof {
        reveal_strlit("abcdefghijklmnopqrstuvwxyzABCDEFGHIJKLMNOPQRSTUVWXYZ0123456789");
    }
    alphabet.get_char(i)
}

/// Whether the text is a generated code of the given length.
pub open spec fn is_code(s: Seq<char>, len: nat) -> bool {
    s.len() == len && forall|i: int| 0 <= i < s.len() ==> is_code_char(#[trigger] s[i])
}

/// A random string of letters and digits, of the given length.
pub fn random_code(len: usize) -> (code: String)
    ensures
        is_code(code@, len as nat),
{
    let mut code: String = String::new();
    let mut i: usize = 0;
    while i < len
        invariant
            i <= len,
            is_code(code@, i as nat),
        decreases len - i,
    {
        let c: char = alphabet_char(random_below(ALPHABET_LEN));
        code.push(c);
        i += 1;
    }
    code
}

/// How often a short code of the usual length is tried before a longer one
/// is taken untested.
pub const CODE_ATTEMPTS: usize = 10;

/// The length of a generated short code.
pub const CODE_LEN: usize = 7;

/// The length of the code that is taken when every attempt was in use.
pub const FALLBACK_CODE_LEN: usize = 9;

/// A short code to use for a new link.
pub struct CodeProposal {
    /// The code.
    pub code: String,
    /// Whether storage has to be asked first if the code is in use.
    pub check: bool,
}

/// Proposes a short code after `failed` codes were found in use, or could
/// not be checked: a code of seven characters, to be checked, up to the tenth
/// attempt, and after that one of nine characters, to be used as it is.
pub fn propose_code(failed: usize) -> (p: CodeProposal)
    ensures
        p.check == (failed < CODE_ATTEMPTS),
        is_code(
            p.code@,
            if failed < CODE_ATTEMPTS {
                CODE_LEN as nat
            } else {
                FALLBACK_CODE_LEN as nat
            },
        ),
{
    if failed < CODE_ATTEMPTS {
        CodeProposal { code: random_code(CODE_LEN), check: true }
    } else {
        CodeProposal { code: random_code(FALLBACK_CODE_LEN), check: false }
    }
}

/// Whether a proposed code can be used, by what storage answered when it was
/// asked for a link with that code: only if it has none. A code that could
/// not be checked is not used.
pub fn code_is_free(answer: &StorageLookup) -> (free: bool)
    ensures
        free == (*answer is Missing),
{
    match answer {
        StorageLookup::Missing => true,
        _ => false,
    }
}

/// Whether `char::is_alphanumeric` holds of a character: it is a letter or a
/// number by the Unicode character database.
pub uninterp spec fn alphanumeric(c: char) -> bool;

/// `char::is_alphanumeric`.
pub assume_specification[ char::is_alphanumeric ](c: char) -> (r: bool)
    ensures
        r == alphanumeric(c),
;

/// The form that logs an admin in.
#[derive(Debug, Clone)]
pub struct LoginForm {
    pub password: String,
}

impl LoginForm {
    /// Whether the password of the form is the admin's.
    pub fn matches(&self, admin_password: &str) -> (r: bool)
        ensures
            r == (self.password@ == admin_password@),
    {
        same_text(self.password.as_str(), admin_password)
    }
}

/// The form that creates a link.
#[derive(Debug, Clone)]
pub struct CreateLinkForm {
    pub url: String,
    pub title: Option<String>,
    pub description: Option<String>,
    pub custom_code: Option<String>,
}

/// Why a form that creates a link is refused.
#[derive(Debug, Clone, Copy, PartialEq, Eq, Structural)]
pub enum FormError {
    /// The URL is blank.
    EmptyUrl,
    /// The URL begins with neither `http://` nor `https://`.
    BadScheme,
    /// The custom code holds a character that is not a letter, a number or
    /// a hyphen.
    BadCode,
}

/// A link to create, as a form asked for it.
#[derive(Debug, Clone)]
pub struct NewLink {
    pub url: String,
    /// The code that the form asks for; `None` where one is to be generated.
    pub custom_code: Option<String>,
    pub title: Option<String>,
    pub description: Option<String>,
}

/// `NewLink` over character sequences.
pub struct NewLinkFacts {
    pub url: Seq<char>,
    pub custom_code: Option<Seq<char>>,
    pub title: Option<Seq<char>>,
    pub description: Option<Seq<char>>,
}

impl View for NewLink {
    type V = NewLinkFacts;

    open spec fn view(&self) -> NewLinkFacts {
        NewLinkFacts {
            url: self.url@,
            custom_code: opt_text(self.custom_code),
            title: opt_text(self.title),
            description: opt_text(self.description),
        }
    }
}

/// An optional field without the white space around it; a blank field counts
/// as missing.
pub open spec fn filled(field: Option<Seq<char>>) -> Option<Seq<char>> {
    match field {
        Some(s) => if trimmed(s).len() > 0 {
            Some(trimmed(s))
        } else {
            None
        },
        None => None,
    }
}

/// Whether the text begins with `http://` or `https://`.
pub open spec fn is_web_url(url: Seq<char>) -> bool {
    has_prefix(url, "http://"@) || has_prefix(url, "https://"@)
}

/// Whether the text is made of letters, numbers and hyphens alone.
pub open spec fn is_custom_code(code: Seq<char>) -> bool {
    forall|i: int| 0 <= i < code.len() ==> alphanumeric(#[trigger] code[i]) || code[i] == '-'
}

/// What a form that creates a link asks for, or why it is refused. The URL
/// is taken without the white space around it: it must not be blank, and
/// must begin with `http://` or `https://`. A custom code, a title and a
/// description that are blank count as missing; a custom code may hold
/// letters, numbers and hyphens only. The first of these that fails is the
/// error.
pub open spec fn checked_form(form: CreateLinkForm) -> Result<NewLinkFacts, FormError> {
    let url = trimmed(form.url@);
    let code = filled(opt_text(form.custom_code));
    if url.len() == 0 {
        Err(FormError::EmptyUrl)
    } else if !is_web_url(url) {
        Err(FormError::BadScheme)
    } else if code is Some && !is_custom_code(code.unwrap()) {
        Err(FormError::BadCode)
    } else {
        Ok(
            NewLinkFacts {
                url,
                custom_code: code,
                title: filled(opt_text(form.title)),
                description: filled(opt_text(form.description)),
            },
        )
    }
}

fn fill(field: &Option<String>) -> (r: Option<Vec<char>>)
    ensures
        match r {
            Some(v) => filled(opt_text(*field)) == Some(v@),
            None => filled(opt_text(*field)) is None,
        },
{
    match field {
        Some(s) => {
            let t: Vec<char> = trim_chars(&chars_of(s.as_str()));
            if t.len() > 0 {
                Some(t)
            } else {
                None
            }
        },
        None => None,
    }
}

fn fill_text(field: &Option<String>) -> (r: Option<String>)
    ensures
        opt_text(r) == filled(opt_text(*field)),
{
    match fill(field) {
        Some(v) => Some(string_of(&v)),
        None => None,
    }
}

fn custom_code_ok(code: &Vec<char>) -> (r: bool)
    ensures
        r == is_custom_code(code@),
{
    let mut i: usize = 0;
    while i < code.len()
        invariant
            i <= code@.len(),
            forall|j: int| 0 <= j < i ==> alphanumeric(#[trigger] code@[j]) || code@[j] == '-',
        decreases code.len() - i,
    {
        let c: char = code[i];
        if !(c.is_alphanumeric() || c == '-') {
            return false;
        }
        i += 1;
    }
    true
}

impl CreateLinkForm {
    /// Checks the form.
    pub fn validate(&self) -> (r: Result<NewLink, FormError>)
        ensures
            match r {
                Ok(link) => checked_form(*self) == Ok::<NewLinkFacts, FormError>(link@),
                Err(e) => checked_form(*self) == Err::<NewLinkFacts, FormError>(e),
            },
    {
        let url: Vec<char> = trim_chars(&chars_of(self.url.as_str()));
        if url.len() == 0 {
            return Err(FormError::EmptyUrl);
        }
        if !starts_with_chars(&url, &chars_of("http://")) && !starts_with_chars(
            &url,
            &chars_of("https://"),
        ) {
            return Err(FormError::BadScheme);
        }
        let custom_code: Option<String> = match fill(&self.custom_code) {
            Some(code) => {
                if !custom_code_ok(&code) {
                    return Err(FormError::BadCode);
                }
                Some(string_of(&code))
            },
            None => None,
        };
        Ok(
            NewLink {
                url: string_of(&url),
                custom_code,
                title: fill_text(&self.title),
                description: fill_text(&self.description),
            },
        )
    }
}

impl FormError {
    /// The message shown for the error.
    pub fn message(&self) -> (m: String)
        ensures
            m@ == match *self {
                FormError::EmptyUrl => "URL must not be empty."@,
                FormError::BadScheme => "URL must start with http:// or https://"@,
                FormError::BadCode => "Custom code may only contain letters, numbers, and hyphens."@,
            },
    {
        match self {
            FormError::EmptyUrl => "URL must not be empty.".to_owned(),
            FormError::BadScheme => "URL must start with http:// or https://".to_owned(),
            FormError::BadCode => "Custom code may only contain letters, numbers, and hyphens.".to_owned(),
        }
    }
}

/// A message for the next page that the admin sees.
#[derive(Debug, Clone)]
pub enum Flash {
    Success(String),
    Error(String),
}

/// `Flash` over character sequences.
pub enum FlashFacts {
    Success(Seq<char>),
    Error(Seq<char>),
}

impl View for Flash {
    type V = FlashFacts;

    open spec fn view(&self) -> FlashFacts {
        match self {
            Flash::Success(m) => FlashFacts::Success(m@),
            Flash::Error(m) => FlashFacts::Error(m@),
        }
    }
}

/// How storage answered when it was asked to create a link.
#[derive(Debug, Clone)]
pub enum CreateOutcome {
    /// The link as it was stored.
    Created(Link),
    /// The text of the error.
    Failed(String),
}

/// How storage answered when it was asked to delete a link.
#[derive(Debug, Clone, Copy, PartialEq, Eq, Structural)]
pub enum DeleteOutcome {
    /// The link is gone.
    Deleted,
    /// There was no such link.
    NotFound,
    /// Storage failed.
    Failed,
}

/// The message after a link was to be created: where it was, its short URL;
/// where the error names a `UNIQUE` rule, that the code is taken; else the
/// error.
pub open spec fn created_flash(outcome: CreateOutcome, base_url: Seq<char>) -> FlashFacts {
    match outcome {
        CreateOutcome::Created(link) => FlashFacts::Success(
            "Link created: "@ + base_url + "/"@ + link.short_code@,
        ),
        CreateOutcome::Failed(error) => if has_part(error@, "UNIQUE"@) {
            FlashFacts::Error("That short code is already taken. Try another."@)
        } else {
            FlashFacts::Error("Database error: "@ + error@)
        },
    }
}

/// The cache after a link was to be created: the link is entered under its
/// code where it was created, and nothing changes where it was not.
pub open spec fn cache_after_create(cache: Map<Seq<char>, Seq<char>>, outcome: CreateOutcome) -> Map<
    Seq<char>,
    Seq<char>,
> {
    match outcome {
        CreateOutcome::Created(link) => cache.insert(link.short_code@, link.original_url@),
        CreateOutcome::Failed(_) => cache,
    }
}

/// Ends the creation of a link: a link that was stored is entered into the
/// cache at once, and the message for the admin is made.
pub fn after_create(outcome: &CreateOutcome, base_url: &str, cache: &mut LinkCache) -> (flash: Flash)
    ensures
        flash@ == created_flash(*outcome, base_url@),
        final(cache)@ == cache_after_create(old(cache)@, *outcome),
{
    match outcome {
        CreateOutcome::Created(link) => {
            cache.set(link.short_code.as_str(), link.original_url.as_str());
            let mut m: String = String::from_str("Link created: ");
            m.append(base_url);
            m.append("/");
            m.append(link.short_code.as_str());
            Flash::Success(m)
        },
        CreateOutcome::Failed(error) => {
            if contains_chars(&chars_of(error.as_str()), &chars_of("UNIQUE")) {
                Flash::Error(String::from_str("That short code is already taken. Try another."))
            } else {
                let mut m: String = String::from_str("Database error: ");
                m.append(error.as_str());
                Flash::Error(m)
            }
        },
    }
}

/// The message after a link was to be deleted.
pub open spec fn deleted_flash(link: Link, outcome: DeleteOutcome) -> FlashFacts {
    match outcome {
        DeleteOutcome::Deleted => FlashFacts::Success("Link '"@ + link.short_code@ + "' deleted."@),
        DeleteOutcome::NotFound => FlashFacts::Error("Link not found."@),
        DeleteOutcome::Failed => FlashFacts::Error("Failed to delete link."@),
    }
}

/// The cache after a link was to be deleted: the code of a link that was
/// deleted has no entry, and nothing changes where none was.
pub open spec fn cache_after_delete(
    cache: Map<Seq<char>, Seq<char>>,
    link: Link,
    outcome: DeleteOutcome,
) -> Map<Seq<char>, Seq<char>> {
    match outcome {
        DeleteOutcome::Deleted => cache.remove(link.short_code@),
        _ => cache,
    }
}

/// The message where the link to delete could not be looked up, if it could
/// not: that there is none, or that storage failed.
pub fn before_delete(found: &StorageLookup) -> (flash: Option<Flash>)
    ensures
        match *found {
            StorageLookup::Found(_) => flash is None,
            StorageLookup::Missing => flash is Some && flash.unwrap()@ == FlashFacts::Error(
                "Link not found."@,
            ),
            StorageLookup::Failed => flash is Some && flash.unwrap()@ == FlashFacts::Error(
                "Database error while looking up link."@,
            ),
        },
{
    match found {
        StorageLookup::Found(_) => None,
        StorageLookup::Missing => Some(Flash::Error(String::from_str("Link not found."))),
        StorageLookup::Failed => Some(
            Flash::Error(String::from_str("Database error while looking up link.")),
        ),
    }
}

/// Ends the deletion of a link: the code of a link that was deleted is
/// taken out of the cache, and the message for the admin is made.
pub fn after_delete(link: &Link, outcome: DeleteOutcome, cache: &mut LinkCache) -> (flash: Flash)
    ensures
        flash@ == deleted_flash(*link, outcome),
        final(cache)@ == cache_after_delete(old(cache)@, *link, outcome),
{
    match outcome {
        DeleteOutcome::Deleted => {
            cache.remove(link.short_code.as_str());
            let mut m: String = String::from_str("Link '");
            m.append(link.short_code.as_str());
            m.append("' deleted.");
            Flash::Success(m)
        },
        DeleteOutcome::NotFound => Flash::Error(String::from_str("Link not found.")),
        DeleteOutcome::Failed => Flash::Error(String::from_str("Failed to delete link.")),
    }
}

} // verus!
