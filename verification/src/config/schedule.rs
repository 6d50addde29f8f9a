//! Cron expressions: the five-field form that jobs are written in, its
//! rewriting into the six-field form with day names that the `cron` crate
//! reads, and the calls into that crate.

use crate::text::{
    blank, is_ws,
    append_chars, chars_of, join, join_parts, lemma_prefix_before_exact, prefix_before, split_words,
    string_of, views, words,
};
use crate::config::settings::Zone;
use chrono::TimeZone;
use vstd::prelude::*;

verus! {

/// Separators inside a day-of-week list: `,` between items, `-` in ranges.
pub open spec fn day_separator() -> spec_fn(char) -> bool {
    |c: char| c == ',' || c == '-'
}

/// The step separator of a cron field.
pub open spec fn step_separator() -> spec_fn(char) -> bool {
    |c: char| c == '/'
}

/// The name that a numeric day of week stands for: `0` and `7` are Sunday,
/// `1` to `6` are Monday to Saturday; any other token is left as it is.
pub open spec fn day_name(t: Seq<char>) -> Seq<char> {
    if t == seq!['0'] || t == seq!['7'] {
        seq!['S', 'u', 'n']
    } else if t == seq!['1'] {
        seq!['M', 'o', 'n']
    } else if t == seq!['2'] {
        seq!['T', 'u', 'e']
    } else if t == seq!['3'] {
        seq!['W', 'e', 'd']
    } else if t == seq!['4'] {
        seq!['T', 'h', 'u']
    } else if t == seq!['5'] {
        seq!['F', 'r', 'i']
    } else if t == seq!['6'] {
        seq!['S', 'a', 't']
    } else {
        t
    }
}

/// `s` with every token between separators (`,` and `-`) replaced by its day
/// name; the separators stay where they are.
pub open spec fn rename_days(s: Seq<char>) -> Seq<char>
    decreases s.len(),
{
    let t = prefix_before(s, day_separator());
    if t.len() >= s.len() {
        day_name(s)
    } else {
        day_name(t) + seq![s[t.len() as int]] + rename_days(s.skip(t.len() + 1 as int))
    }
}

/// A day-of-week field with its days renamed: the part before the first `/`
/// has its days renamed, and the step after it is kept as written.
pub open spec fn normalized_day_field(field: Seq<char>) -> Seq<char> {
    let p = prefix_before(field, step_separator());
    if p.len() < field.len() {
        rename_days(p) + field.skip(p.len() as int)
    } else {
        rename_days(field)
    }
}

/// The expression handed to the `cron` crate for a job's schedule: a
/// five-field schedule gets a leading seconds field `0`; when there are at
/// least six fields, they are joined by single spaces with the sixth (day of
/// week) field normalized.
pub open spec fn cron_expression(schedule: Seq<char>) -> Seq<char> {
    let expr = if words(schedule).len() == 5 {
        seq!['0', ' '] + schedule
    } else {
        schedule
    };
    let f = words(expr);
    if f.len() >= 6 {
        join(f.update(5, normalized_day_field(f[5])), seq![' '])
    } else {
        expr
    }
}

/// A five-field schedule and the same schedule with a leading seconds
/// field `0` reach the `cron` crate as the same expression.
pub proof fn law_seconds_field_implied(schedule: Seq<char>)
    requires
        words(schedule).len() == 5,
    ensures
        cron_expression(schedule) == cron_expression(seq!['0', ' '] + schedule),
{
    lemma_leading_zero_words(schedule);
}

/// Two five-field schedules that differ only in how their day-of-week
/// fields are written, where those fields name the same days, reach the
/// `cron` crate as the same expression.
pub proof fn law_same_days_same_expression(a: Seq<char>, b: Seq<char>)
    requires
        words(a).len() == 5,
        words(b).len() == 5,
        forall|i: int| 0 <= i < 4 ==> #[trigger] words(a)[i] == words(b)[i],
        normalized_day_field(words(a)[4]) == normalized_day_field(words(b)[4]),
    ensures
        cron_expression(a) == cron_expression(b),
{
    law_seconds_field_implied(a);
    law_seconds_field_implied(b);
    lemma_leading_zero_words(a);
    lemma_leading_zero_words(b);
    let fa = words(seq!['0', ' '] + a);
    let fb = words(seq!['0', ' '] + b);
    assert(fa.update(5, normalized_day_field(fa[5])) =~= fb.update(5, normalized_day_field(fb[5]))) by {
        assert forall|i: int| 0 <= i < 6 implies #[trigger] fa.update(5, normalized_day_field(fa[5]))[i]
            == fb.update(5, normalized_day_field(fb[5]))[i] by {
            if 1 <= i < 5 {
                assert(fa[i] == words(a)[i - 1]);
                assert(fb[i] == words(b)[i - 1]);
            }
        }
    }
}

/// The words of a schedule with a leading `0` field: that field, then the
/// schedule's words.
pub proof fn lemma_leading_zero_words(schedule: Seq<char>)
    ensures
        words(seq!['0', ' '] + schedule) == seq![seq!['0']] + words(schedule),
{
    let x = seq!['0', ' '] + schedule;
    lemma_prefix_before_exact(x, blank(), 0, 1);
    assert(x.skip(0) == x);
    assert(x.subrange(0, 1) == seq!['0']);
    assert(prefix_before(x, blank()) == seq!['0']);
    assert(x.skip(1).drop_first() =~= schedule);
    assert(is_ws(x.skip(1)[0]));
    assert(words(x.skip(1)) == words(schedule));
    assert(words(x) == seq![seq!['0']] + words(schedule));
}

/// `0` and `7` both name Sunday, as does `Sun` itself; numbered and named
/// weekday ranges agree.
pub proof fn law_day_numbers_name_days()
    ensures
        normalized_day_field(seq!['0']) == seq!['S', 'u', 'n'],
        normalized_day_field(seq!['7']) == seq!['S', 'u', 'n'],
        normalized_day_field(seq!['S', 'u', 'n']) == seq!['S', 'u', 'n'],
        normalized_day_field(seq!['1', '-', '5']) == normalized_day_field(
            seq!['M', 'o', 'n', '-', 'F', 'r', 'i'],
        ),
{
    reveal_with_fuel(prefix_before, 8);
    reveal_with_fuel(rename_days, 3);
    let r = seq!['1', '-', '5'];
    assert(prefix_before(r, day_separator()) == seq!['1']);
    assert(r.skip(2) =~= seq!['5']);
    assert(prefix_before(seq!['5'], day_separator()) == seq!['5']);
    let n = seq!['M', 'o', 'n', '-', 'F', 'r', 'i'];
    assert(prefix_before(n, day_separator()) =~= seq!['M', 'o', 'n']);
    assert(n.skip(4) =~= seq!['F', 'r', 'i']);
    assert(prefix_before(seq!['F', 'r', 'i'], day_separator()) =~= seq!['F', 'r', 'i']);
    assert(prefix_before(r, step_separator()) =~= r);
    assert(prefix_before(n, step_separator()) =~= n);
}

/// The weekdays in the order cron numbers them: Sunday, then Monday to
/// Saturday.
pub open spec fn weekday_names() -> Seq<Seq<char>> {
    seq![
        seq!['S', 'u', 'n'],
        seq!['M', 'o', 'n'],
        seq!['T', 'u', 'e'],
        seq!['W', 'e', 'd'],
        seq!['T', 'h', 'u'],
        seq!['F', 'r', 'i'],
        seq!['S', 'a', 't'],
    ]
}

/// Each numeric day of week names its own weekday: the digit `d` in `0..=7`
/// becomes weekday `d` (counted modulo 7), so `1` to `6` are Monday to
/// Saturday in order, and `0` and `7` are both Sunday.
pub proof fn law_each_day_number_names_its_day(c: char)
    requires
        '0' <= c <= '7',
    ensures
        normalized_day_field(seq![c]) == weekday_names()[(c as int - '0' as int) % 7],
{
    reveal_with_fuel(prefix_before, 2);
    let f = seq![c];
    assert(f.drop_first() =~= Seq::<char>::empty());
    assert(prefix_before(f, step_separator()) =~= f);
    assert(prefix_before(f, day_separator()) =~= f);
    assert(normalized_day_field(f) == day_name(f));
    if c == '0' {} else if c == '1' {} else if c == '2' {} else if c == '3' {}
    else if c == '4' {} else if c == '5' {} else if c == '6' {} else {
        assert(c == '7');
    }
}

/// A day field with a step names the same days as its part before the
/// `/`: only that part is renamed, and the step is kept as written.
pub proof fn law_step_kept(days: Seq<char>, step: Seq<char>)
    requires
        forall|k: int| 0 <= k < days.len() ==> #[trigger] days[k] != '/',
    ensures
        normalized_day_field(days + seq!['/'] + step) == normalized_day_field(days) + seq!['/']
            + step,
{
    let f = days + seq!['/'] + step;
    lemma_prefix_before_exact(f, step_separator(), 0, days.len() as int);
    assert(f.skip(0) == f);
    assert(f.subrange(0, days.len() as int) =~= days);
    assert(f.skip(days.len() as int) =~= seq!['/'] + step);
    lemma_prefix_before_exact(days, step_separator(), 0, days.len() as int);
    assert(days.skip(0) == days);
    assert(days.subrange(0, days.len() as int) =~= days);
}

/// In a day list or range, each item is renamed on its own: a field made
/// of an item, a `,` or `-`, and the rest reads as the item's days, the
/// separator, and the rest's days.
pub proof fn law_items_renamed_one_by_one(item: Seq<char>, sep: char, rest: Seq<char>)
    requires
        sep == ',' || sep == '-',
        forall|k: int|
            0 <= k < item.len() ==> #[trigger] item[k] != ',' && item[k] != '-' && item[k] != '/',
        forall|k: int| 0 <= k < rest.len() ==> #[trigger] rest[k] != '/',
    ensures
        normalized_day_field(item + seq![sep] + rest) == normalized_day_field(item) + seq![sep]
            + normalized_day_field(rest),
{
    let f = item + seq![sep] + rest;
    let n = item.len() as int;
    assert(f.skip(0) == f);
    assert(item.skip(0) == item);
    assert(rest.skip(0) == rest);
    assert forall|k: int| 0 <= k < f.len() implies #[trigger] f[k] != '/' by {
        if k < n {
            assert(f[k] == item[k]);
        } else if k > n {
            assert(f[k] == rest[k - n - 1]);
        }
    }
    lemma_prefix_before_exact(f, step_separator(), 0, f.len() as int);
    assert(f.subrange(0, f.len() as int) =~= f);
    lemma_prefix_before_exact(item, step_separator(), 0, n);
    assert(item.subrange(0, n) =~= item);
    lemma_prefix_before_exact(rest, step_separator(), 0, rest.len() as int);
    assert(rest.subrange(0, rest.len() as int) =~= rest);
    lemma_prefix_before_exact(f, day_separator(), 0, n);
    assert(f.subrange(0, n) =~= item);
    assert(f[n] == sep);
    assert(f.skip(n + 1) =~= rest);
    lemma_prefix_before_exact(item, day_separator(), 0, n);
}

/// The day name of one token.
fn day_name_of(t: &[char]) -> (r: Vec<char>)
    ensures
        r@ == day_name(t@),
{
    if t.len() == 1 {
        let c = t[0];
        assert(t@ == seq![c]);
        if c == '0' || c == '7' {
            return vec!['S', 'u', 'n'];
        } else if c == '1' {
            return vec!['M', 'o', 'n'];
        } else if c == '2' {
            return vec!['T', 'u', 'e'];
        } else if c == '3' {
            return vec!['W', 'e', 'd'];
        } else if c == '4' {
            return vec!['T', 'h', 'u'];
        } else if c == '5' {
            return vec!['F', 'r', 'i'];
        } else if c == '6' {
            return vec!['S', 'a', 't'];
        }
    }
    let mut r: Vec<char> = Vec::new();
    append_chars(&mut r, t);
    r
}

/// `s` with its day tokens renamed.
fn rename_days_of(s: &[char]) -> (r: Vec<char>)
    ensures
        r@ == rename_days(s@),
{
    let mut out: Vec<char> = Vec::new();
    let mut tok: Vec<char> = Vec::new();
    let ghost mut start: int = 0;
    let mut i: usize = 0;
    assert(s@.skip(0) == s@);
    while i < s.len()
        invariant
            0 <= start <= i <= s@.len(),
            tok@ == s@.subrange(start, i as int),
            forall|k: int| start <= k < i ==> !(#[trigger] s@[k] == ',' || s@[k] == '-'),
            rename_days(s@) == out@ + rename_days(s@.skip(start)),
        decreases s@.len() - i,
    {
        let c = s[i];
        if c == ',' || c == '-' {
            proof {
                lemma_prefix_before_exact(s@, day_separator(), start, i as int);
                let rest = s@.skip(start);
                assert(rest.skip(i - start + 1) == s@.skip(i + 1));
                assert(rest[i - start] == c);
            }
            let name = day_name_of(tok.as_slice());
            append_chars(&mut out, name.as_slice());
            out.push(c);
            tok = Vec::new();
            proof {
                start = i + 1;
            }
            assert(tok@ == s@.subrange(start, i + 1));
        } else {
            tok.push(c);
        }
        i = i + 1;
    }
    proof {
        lemma_prefix_before_exact(s@, day_separator(), start, s@.len() as int);
        assert(s@.subrange(start, s@.len() as int) == s@.skip(start));
    }
    let name = day_name_of(tok.as_slice());
    append_chars(&mut out, name.as_slice());
    out
}

/// A day-of-week field with its days renamed (see `normalized_day_field`).
pub fn normalize_day_field(field: &[char]) -> (r: Vec<char>)
    ensures
        r@ == normalized_day_field(field@),
{
    let mut p: usize = 0;
    let mut prefix: Vec<char> = Vec::new();
    while p < field.len() && field[p] != '/'
        invariant
            p <= field@.len(),
            prefix@ == field@.subrange(0, p as int),
            forall|k: int| 0 <= k < p ==> #[trigger] field@[k] != '/',
        decreases field@.len() - p,
    {
        prefix.push(field[p]);
        p = p + 1;
    }
    proof {
        lemma_prefix_before_exact(field@, step_separator(), 0, p as int);
        assert(field@.skip(0) == field@);
    }
    let mut out = rename_days_of(prefix.as_slice());
    if p < field.len() {
        let mut j: usize = p;
        while j < field.len()
            invariant
                p <= j <= field@.len(),
                out@ == rename_days(prefix@) + field@.subrange(p as int, j as int),
            decreases field@.len() - j,
        {
            out.push(field[j]);
            j = j + 1;
            assert(out@ == rename_days(prefix@) + field@.subrange(p as int, j as int));
        }
        assert(field@.subrange(p as int, field@.len() as int) == field@.skip(p as int));
    } else {
        assert(prefix@ == field@);
    }
    out
}

/// The expression handed to the `cron` crate for `schedule`.
pub fn cron_expression_of(schedule: &str) -> (r: String)
    ensures
        r@ == cron_expression(schedule@),
{
    let sc = chars_of(schedule);
    let parts = split_words(sc.as_slice());
    assert(parts@.len() == views(parts@).len());
    let expr: Vec<char> = if parts.len() == 5 {
        let mut e: Vec<char> = vec!['0', ' '];
        append_chars(&mut e, sc.as_slice());
        e
    } else {
        sc
    };
    let ghost sexpr = if words(schedule@).len() == 5 {
        seq!['0', ' '] + schedule@
    } else {
        schedule@
    };
    assert(expr@ == sexpr);
    let mut fields = split_words(expr.as_slice());
    assert(fields@.len() == views(fields@).len());
    if fields.len() >= 6 {
        let fixed = normalize_day_field(fields[5].as_slice());
        let ghost before = views(fields@);
        assert(before[5] == fields@[5]@);
        fields.set(5, fixed);
        assert(views(fields@) == before.update(5, fixed@));
        let sep: Vec<char> = vec![' '];
        assert(sep@ == seq![' ']);
        let joined = join_parts(&fields, sep.as_slice());
        assert(joined@ == cron_expression(schedule@));
        string_of(joined.as_slice())
    } else {
        string_of(expr.as_slice())
    }
}

/// The schedule type of `cron`, carried through opaque.
#[verifier::external_type_specification]
#[verifier::external_body]
pub struct ExSchedule(cron::Schedule);

/// A schedule parsed by the `cron` crate together with the expression it
/// was parsed from; its view is that expression. Only `parse_cron` makes
/// one.
pub struct CronSchedule {
    expression: String,
    schedule: cron::Schedule,
}

impl View for CronSchedule {
    type V = Seq<char>;

    closed spec fn view(&self) -> Seq<char> {
        self.expression@
    }
}

/// What the `cron` crate makes of `expression`: a schedule, or the text of
/// its error.
pub uninterp spec fn cron_parse(expression: Seq<char>) -> Result<(), Seq<char>>;

/// Whether the `cron` crate accepts `expression` as a schedule.
pub open spec fn cron_accepts(expression: Seq<char>) -> bool {
    cron_parse(expression) is Ok
}

/// The first instant (milliseconds since the Unix epoch) after `after_ms` at
/// which the `cron` crate fires the schedule parsed from `expression`,
/// reading its fields in the zone named `zone`; `None` when there is none.
pub uninterp spec fn cron_next(expression: Seq<char>, zone: Seq<char>, after_ms: i64) -> Option<i64>;

/// `cron::Schedule::from_str`: parses a cron expression; the error is the
/// crate's message. Claimed: whether it succeeds, and the message when it
/// does not, are a function of the expression alone.
#[verifier::external_body]
pub fn parse_cron(expression: &str) -> (r: Result<CronSchedule, String>)
    ensures
        match r {
            Ok(s) => cron_parse(expression@) is Ok && s@ == expression@,
            Err(m) => cron_parse(expression@) == Err::<(), Seq<char>>(m@),
        },
{
    match expression.parse::<cron::Schedule>() {
        Ok(schedule) => Ok(CronSchedule { expression: expression.to_string(), schedule }),
        Err(e) => Err(e.to_string()),
    }
}

/// `cron::Schedule::after(..).next()`: the first instant at which the
/// schedule fires after the instant `after_ms`, reading the schedule's
/// fields in the zone; `None` when there is none, when `after_ms` is not a
/// representable instant, or when one second after it is not (the crate
/// starts its search there and would panic). The crate's years end at 2100,
/// so no later step can overflow. Claimed: the result is a function of the
/// expression, the zone's name and the instant. Not claimed: that it is
/// later than `after_ms` (around a daylight-saving change the crate can
/// return the earlier of two readings of a local time).
#[verifier::external_body]
pub fn cron_next_after(schedule: &CronSchedule, zone: &Zone, after_ms: i64) -> (r: Option<i64>)
    ensures
        r == cron_next(schedule@, zone@, after_ms),
{
    let start = zone.tz.timestamp_millis_opt(after_ms).single()?;
    start.checked_add_signed(chrono::TimeDelta::seconds(1))?;
    schedule.schedule.after(&start).next().map(|t| t.timestamp_millis())
}

/// The first `count` instants (milliseconds since the Unix epoch) after
/// `after_ms` at which the `cron` crate fires the schedule parsed from
/// `expression`, in the zone named `zone`.
pub uninterp spec fn cron_runs(expression: Seq<char>, zone: Seq<char>, after_ms: i64, count: nat) -> Seq<i64>;

/// `cron::Schedule::after(..).take(count)`: the first `count` instants at
/// which the schedule fires after the instant `after_ms`, in the zone; none
/// when `after_ms`, or one second after it, is not a representable instant
/// (the crate starts its search there and would panic; its years end at
/// 2100, so no later step can overflow). Claimed: the result is a
/// function of the expression, the zone's name, the instant and the count,
/// and holds at most `count` instants (the source takes that many).
#[verifier::external_body]
pub fn cron_runs_after(schedule: &CronSchedule, zone: &Zone, after_ms: i64, count: usize) -> (r: Vec<i64>)
    ensures
        r@ == cron_runs(schedule@, zone@, after_ms, count as nat),
        r@.len() <= count,
{
    let start = match zone.tz.timestamp_millis_opt(after_ms).single() {
        Some(start) => start,
        None => return Vec::new(),
    };
    if start.checked_add_signed(chrono::TimeDelta::seconds(1)).is_none() {
        return Vec::new();
    }
    schedule.schedule.after(&start).take(count).map(|t| t.timestamp_millis()).collect()
}

} // verus!
