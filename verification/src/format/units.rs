//! Human-readable durations (uptime).
use vstd::prelude::*;
use vstd::string::*;

use crate::text::{decimal, join, lemma_join_push, push_decimal};

verus! {

const SECS_PER_MIN: u64 = 60;
const SECS_PER_HOUR: u64 = 3600;
const SECS_PER_DAY: u64 = 86400;

/// The `(value, unit)` parts considered for a duration: the most significant
/// non-zero unit and the one or two below it, with seconds dropped once the
/// duration reaches an hour.
pub open spec fn uptime_parts(secs: nat) -> Seq<(nat, char)> {
    let days = secs / 86400;
    let hours = (secs % 86400) / 3600;
    let mins = (secs % 3600) / 60;
    let seconds = secs % 60;
    if days > 0 {
        seq![(days, 'd'), (hours, 'h'), (mins, 'm')]
    } else if hours > 0 {
        seq![(hours, 'h'), (mins, 'm')]
    } else if mins > 0 {
        seq![(mins, 'm'), (seconds, 's')]
    } else {
        seq![(seconds, 's')]
    }
}

/// The non-zero parts, each rendered as its value followed by its unit.
pub open spec fn nonzero_words(parts: Seq<(nat, char)>) -> Seq<Seq<char>>
    decreases parts.len(),
{
    if parts.len() == 0 {
        Seq::empty()
    } else {
        let rest = nonzero_words(parts.drop_last());
        let (v, u) = parts.last();
        if v > 0 { rest.push(decimal(v).push(u)) } else { rest }
    }
}

/// The compact uptime text for `secs` seconds: the non-zero parts joined by
/// single spaces, or `"0s"` when every part is zero.
pub open spec fn uptime_text(secs: nat) -> Seq<char> {
    let words = nonzero_words(uptime_parts(secs));
    if words.len() == 0 { seq!['0', 's'] } else { join(words, seq![' ']) }
}

/// Append the word for `(value, unit)` to `out`, which holds the words of
/// `prefix` joined by spaces.
fn push_part(out: &mut String, value: u64, unit: &str, Ghost(prefix): Ghost<Seq<(nat, char)>>)
    requires
        unit@.len() == 1,
        nonzero_words(prefix).len() == 0 ==> old(out)@.len() == 0,
        nonzero_words(prefix).len() > 0 ==> old(out)@ == join(nonzero_words(prefix), seq![' ']),
        nonzero_words(prefix).len() > 0 ==> old(out)@.len() > 0,
    ensures
        ({
            let words = nonzero_words(prefix.push((value as nat, unit@[0])));
            &&& words.len() == 0 ==> final(out)@.len() == 0
            &&& words.len() > 0 ==> final(out)@ == join(words, seq![' '])
            &&& words.len() > 0 ==> final(out)@.len() > 0
        }),
{
    let ghost words = nonzero_words(prefix);
    let ghost pushed = prefix.push((value as nat, unit@[0]));
    assert(pushed.drop_last() =~= prefix);
    if value == 0 {
        return;
    }
    let ghost word = decimal(value as nat).push(unit@[0]);
    proof {
        reveal_strlit(" ");
        lemma_join_push(words, seq![' '], word);
    }
    if out.as_str().unicode_len() > 0 {
        out.append(" ");
    }
    push_decimal(out, value);
    out.append(unit);
    assert(unit@ =~= seq![unit@[0]]);
}

/// Format a duration in seconds as a compact uptime string.
///
/// Shows the most significant units only: seconds are dropped once the
/// duration reaches an hour (`"1h 1m"`), and zero-valued trailing units are
/// omitted (`3600` gives `"1h"`, `90` gives `"1m 30s"`).
pub fn humanize_uptime(secs: u64) -> (text: String)
    ensures
        text@ == uptime_text(secs as nat),
{
    let days = secs / SECS_PER_DAY;
    let hours = (secs % SECS_PER_DAY) / SECS_PER_HOUR;
    let mins = (secs % SECS_PER_HOUR) / SECS_PER_MIN;
    let seconds = secs % SECS_PER_MIN;
    proof {
        reveal_strlit("d");
        reveal_strlit("h");
        reveal_strlit("m");
        reveal_strlit("s");
        reveal_strlit("0s");
    }
    let ghost parts = uptime_parts(secs as nat);
    let ghost e = Seq::<(nat, char)>::empty();
    let mut out = String::new();
    if days > 0 {
        push_part(&mut out, days, "d", Ghost(e));
        push_part(&mut out, hours, "h", Ghost(e.push((days as nat, 'd'))));
        push_part(&mut out, mins, "m", Ghost(e.push((days as nat, 'd')).push((hours as nat, 'h'))));
        assert(parts =~= e.push((days as nat, 'd')).push((hours as nat, 'h')).push((mins as nat, 'm')));
    } else if hours > 0 {
        push_part(&mut out, hours, "h", Ghost(e));
        push_part(&mut out, mins, "m", Ghost(e.push((hours as nat, 'h'))));
        assert(parts =~= e.push((hours as nat, 'h')).push((mins as nat, 'm')));
    } else if mins > 0 {
        push_part(&mut out, mins, "m", Ghost(e));
        push_part(&mut out, seconds, "s", Ghost(e.push((mins as nat, 'm'))));
        assert(parts =~= e.push((mins as nat, 'm')).push((seconds as nat, 's')));
    } else {
        push_part(&mut out, seconds, "s", Ghost(e));
        assert(parts =~= e.push((seconds as nat, 's')));
    }
    if out.as_str().unicode_len() == 0 {
        return String::from_str("0s");
    }
    out
}

/// Seconds in one of the units `d`, `h`, `m`, `s`.
pub open spec fn unit_secs(u: char) -> nat {
    if u == 'd' { 86400 } else if u == 'h' { 3600 } else if u == 'm' { 60 } else { 1 }
}

/// The duration the parts add up to.
pub open spec fn parts_total(parts: Seq<(nat, char)>) -> nat
    decreases parts.len(),
{
    if parts.len() == 0 {
        0
    } else {
        parts_total(parts.drop_last()) + parts.last().0 * unit_secs(parts.last().1)
    }
}

/// The parts of a duration account for all of it, except that the seconds
/// are dropped once it reaches an hour; and no seconds part is shown then.
pub proof fn law_uptime_parts_add_up(secs: nat)
    ensures
        parts_total(uptime_parts(secs)) == if secs >= 3600 { secs - secs % 60 } else { secs as int },
        secs >= 3600 ==> forall|i: int| 0 <= i < uptime_parts(secs).len() ==> (#[trigger] uptime_parts(secs)[i]).1 != 's',
{
    let parts = uptime_parts(secs);
    let days = secs / 86400;
    let hours = (secs % 86400) / 3600;
    let mins = (secs % 3600) / 60;
    let seconds = secs % 60;
    assert(secs == 86400 * days + 3600 * hours + 60 * mins + seconds) by (nonlinear_arith)
        requires
            days == secs / 86400,
            hours == (secs % 86400) / 3600,
            mins == (secs % 3600) / 60,
            seconds == secs % 60;
    assert(hours < 24 && mins < 60 && seconds < 60);
    let e = Seq::<(nat, char)>::empty();
    assert(parts_total(e) == 0);
    if days > 0 {
        let p1 = e.push((days, 'd'));
        let p2 = p1.push((hours, 'h'));
        assert(parts =~= p2.push((mins, 'm')));
        assert(p1.drop_last() =~= e);
        assert(p2.drop_last() =~= p1);
        assert(parts.drop_last() =~= p2);
        assert(parts_total(p1) == days * 86400);
        assert(parts_total(p2) == days * 86400 + hours * 3600);
        assert(secs >= 3600);
    } else if hours > 0 {
        let p1 = e.push((hours, 'h'));
        assert(parts =~= p1.push((mins, 'm')));
        assert(p1.drop_last() =~= e);
        assert(parts.drop_last() =~= p1);
        assert(parts_total(p1) == hours * 3600);
        assert(secs >= 3600);
    } else if mins > 0 {
        let p1 = e.push((mins, 'm'));
        assert(parts =~= p1.push((seconds, 's')));
        assert(p1.drop_last() =~= e);
        assert(parts.drop_last() =~= p1);
        assert(parts_total(p1) == mins * 60);
        assert(secs < 3600);
    } else {
        assert(parts =~= e.push((seconds, 's')));
        assert(parts.drop_last() =~= e);
        assert(secs < 3600);
    }
}

/// The word shown for one part: its value in decimal followed by its unit letter.
pub open spec fn part_word(p: (nat, char)) -> Seq<char> {
    decimal(p.0).push(p.1)
}

/// The place of a unit counted from the smallest: seconds, minutes, hours, days.
pub open spec fn unit_rank(u: char) -> int {
    if u == 'd' { 3 } else if u == 'h' { 2 } else if u == 'm' { 1 } else if u == 's' { 0 } else { -1 }
}

/// A value in range for its unit: any number of days, under 24 hours, under
/// 60 minutes or seconds.
pub open spec fn part_in_range(p: (nat, char)) -> bool {
    if p.1 == 'd' {
        true
    } else if p.1 == 'h' {
        p.0 < 24
    } else if p.1 == 'm' || p.1 == 's' {
        p.0 < 60
    } else {
        false
    }
}

/// Parts that write a duration in days, hours, minutes and seconds: every
/// value non-zero and in range for its unit, larger units first, no unit twice.
/// A duration has at most one such writing.
pub open spec fn is_mixed_radix(parts: Seq<(nat, char)>) -> bool {
    &&& forall|i: int| 0 <= i < parts.len() ==> (#[trigger] parts[i]).0 > 0 && part_in_range(parts[i])
    &&& forall|i: int, j: int|
        0 <= i < j < parts.len() ==> unit_rank((#[trigger] parts[i]).1) > unit_rank((#[trigger] parts[j]).1)
}

/// The duration an uptime text shows: all of it below an hour, whole minutes
/// from an hour on.
pub open spec fn shown_secs(secs: nat) -> nat {
    if secs >= 3600 { (secs - secs % 60) as nat } else { secs }
}

/// The parts with a non-zero value, in order.
spec fn positive_parts(parts: Seq<(nat, char)>) -> Seq<(nat, char)>
    decreases parts.len(),
{
    if parts.len() == 0 {
        Seq::empty()
    } else {
        let rest = positive_parts(parts.drop_last());
        if parts.last().0 > 0 { rest.push(parts.last()) } else { rest }
    }
}

proof fn lemma_positive_parts(parts: Seq<(nat, char)>)
    requires
        forall|i: int| 0 <= i < parts.len() ==> part_in_range(#[trigger] parts[i]),
        forall|i: int, j: int|
            0 <= i < j < parts.len() ==> unit_rank((#[trigger] parts[i]).1) > unit_rank((#[trigger] parts[j]).1),
    ensures
        is_mixed_radix(positive_parts(parts)),
        parts.len() > 0 ==> forall|i: int|
            0 <= i < positive_parts(parts).len() ==> unit_rank((#[trigger] positive_parts(parts)[i]).1)
                >= unit_rank(parts.last().1),
        nonzero_words(parts) == positive_parts(parts).map_values(|p: (nat, char)| part_word(p)),
        parts_total(positive_parts(parts)) == parts_total(parts),
    decreases parts.len(),
{
    if parts.len() > 0 {
        let init = parts.drop_last();
        let last = parts.last();
        lemma_positive_parts(init);
        let rest = positive_parts(init);
        if init.len() > 0 {
            assert(init.last() == parts[parts.len() - 2]);
            assert(unit_rank(parts[parts.len() - 2].1) > unit_rank(parts[parts.len() - 1].1));
        }
        assert forall|i: int| 0 <= i < rest.len() implies unit_rank((#[trigger] rest[i]).1) > unit_rank(last.1) by {
            assert(init.len() > 0);
        }
        assert(part_in_range(parts[parts.len() - 1]));
        if last.0 > 0 {
            let pp = rest.push(last);
            assert forall|i: int, j: int| 0 <= i < j < pp.len() implies unit_rank((#[trigger] pp[i]).1) > unit_rank(
                (#[trigger] pp[j]).1,
            ) by {
                if j == pp.len() - 1 {
                    assert(pp[i] == rest[i]);
                } else {
                    assert(pp[i] == rest[i] && pp[j] == rest[j]);
                }
            }
            assert forall|i: int| 0 <= i < pp.len() implies (#[trigger] pp[i]).0 > 0 && part_in_range(pp[i]) by {
                if i < rest.len() {
                    assert(pp[i] == rest[i]);
                }
            }
            assert(pp.map_values(|p: (nat, char)| part_word(p)) =~= rest.map_values(|p: (nat, char)| part_word(p)).push(
                part_word(last),
            ));
            assert(pp.drop_last() =~= rest);
        } else {
            assert(last.0 == 0);
            assert(last.0 * unit_secs(last.1) == 0) by (nonlinear_arith)
                requires
                    last.0 == 0;
        }
    }
}

/// What the uptime text says adds up to the duration: it is `"0s"` for zero,
/// and otherwise the words of the one writing of the shown duration (all of
/// it below an hour, whole minutes from an hour on) in days, hours, minutes
/// and seconds, larger units first, joined by single spaces.
pub proof fn law_uptime_text_reads_back(secs: nat)
    ensures
        secs == 0 ==> uptime_text(secs) == seq!['0', 's'],
        secs > 0 ==> exists|parts: Seq<(nat, char)>|
            {
                &&& #[trigger] is_mixed_radix(parts)
                &&& parts.len() > 0
                &&& parts_total(parts) == shown_secs(secs)
                &&& uptime_text(secs) == join(parts.map_values(|p: (nat, char)| part_word(p)), seq![' '])
            },
{
    let parts = uptime_parts(secs);
    law_uptime_parts_add_up(secs);
    let days = secs / 86400;
    let hours = (secs % 86400) / 3600;
    let mins = (secs % 3600) / 60;
    assert(hours < 24 && mins < 60 && secs % 60 < 60);
    assert forall|i: int| 0 <= i < parts.len() implies part_in_range(#[trigger] parts[i]) by {}
    assert forall|i: int, j: int| 0 <= i < j < parts.len() implies unit_rank((#[trigger] parts[i]).1) > unit_rank(
        (#[trigger] parts[j]).1,
    ) by {}
    lemma_positive_parts(parts);
    let w = positive_parts(parts);
    if secs == 0 {
        reveal_with_fuel(nonzero_words, 2);
        assert(nonzero_words(parts).len() == 0);
    } else {
        assert(shown_secs(secs) > 0);
        assert(w.len() > 0);
        assert(is_mixed_radix(w));
    }
}

} // verus!
