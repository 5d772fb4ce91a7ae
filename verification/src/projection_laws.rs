//! What holds of every projection.
use crate::adapter::{Arch, ArchAdapter, Engine, MockAdapter};
use crate::projection::{
    bullets, chosen, dropped_lines, earlier, essential, first_line, fits, joined, kept_text,
    line_end, lines_of, marker_text, projects_to, rank, remainder, rendered, reserved, total_lines,
    unit_size, units, units_hold_every_line, up_to, UnitView,
};
use crate::text::{begins, decimal};
use vstd::prelude::*;
use vstd::utf8::*;

verus! {

proof fn same_choice_at<A: ArchAdapter>(
    adapter: A,
    us: Seq<UnitView>,
    a: Seq<bool>,
    b: Seq<bool>,
    budget: nat,
    i: int,
)
    requires
        chosen(adapter, us, a, budget),
        chosen(adapter, us, b, budget),
        0 <= i < us.len(),
    ensures
        a[i] == b[i],
    decreases us[i].rank, i,
{
    assert forall|j: int| 0 <= j < us.len() && earlier(us, j, i) implies a[j] == b[j] by {
        same_choice_at(adapter, us, a, b, budget, j);
    }
    assert(up_to(us, a, i) =~= up_to(us, b, i));
}

/// A prompt has one projection to a budget: which units are kept is settled by
/// the prompt, the budget and the count alone.
pub proof fn projection_is_unique<A: ArchAdapter>(
    adapter: A,
    prompt: Seq<char>,
    budget: nat,
    r: Option<Seq<char>>,
    q: Option<Seq<char>>,
)
    requires
        projects_to(adapter, prompt, budget, r),
        projects_to(adapter, prompt, budget, q),
    ensures
        r == q,
{
    let us = units(lines_of(prompt));
    if adapter.tokens(prompt) > budget && fits(adapter, us, essential(us), budget) {
        let a = choose|keep: Seq<bool>| #[trigger]
            chosen(adapter, us, keep, budget) && r == Some(remainder(us, keep));
        let b = choose|keep: Seq<bool>| #[trigger]
            chosen(adapter, us, keep, budget) && q == Some(remainder(us, keep));
        assert forall|i: int| 0 <= i < us.len() implies a[i] == b[i] by {
            same_choice_at(adapter, us, a, b, budget, i);
        }
        assert(a =~= b);
    }
}

proof fn utf8_concat(a: Seq<char>, b: Seq<char>)
    ensures
        encode_utf8(a + b) == encode_utf8(a) + encode_utf8(b),
    decreases a.len(),
{
    if a.len() == 0 {
        assert(a + b =~= b);
        assert(encode_utf8(a) =~= Seq::<u8>::empty());
        assert(encode_utf8(a) + encode_utf8(b) =~= encode_utf8(b));
    } else {
        assert((a + b).drop_first() =~= a.drop_first() + b);
        utf8_concat(a.drop_first(), b);
        assert(encode_utf8(a + b) =~= encode_utf8(a) + encode_utf8(b));
    }
}

proof fn decimal_is_ascii(n: nat)
    ensures
        is_ascii_chars(decimal(n)),
    decreases n,
{
    if n >= 10 {
        decimal_is_ascii(n / 10);
    }
}

proof fn decimal_grows(m: nat, n: nat)
    requires
        m <= n,
    ensures
        decimal(m).len() <= decimal(n).len(),
    decreases n,
{
    if m >= 10 {
        assert(m / 10 <= n / 10) by (nonlinear_arith)
            requires
                m <= n,
        ;
        decimal_grows(m / 10, n / 10);
    }
}

proof fn marker_grows(m: nat, n: nat)
    requires
        m <= n,
    ensures
        encode_utf8(marker_text(m)).len() <= encode_utf8(marker_text(n)).len(),
{
    decimal_grows(m, n);
    decimal_is_ascii(m);
    decimal_is_ascii(n);
    is_ascii_chars_encode_utf8(decimal(m));
    is_ascii_chars_encode_utf8(decimal(n));
    utf8_concat("[PROJECTED: "@, decimal(m));
    utf8_concat("[PROJECTED: "@, decimal(n));
    utf8_concat("[PROJECTED: "@ + decimal(m), " lines dropped]"@);
    utf8_concat("[PROJECTED: "@ + decimal(n), " lines dropped]"@);
}

proof fn keeping_more_drops_less(us: Seq<UnitView>, a: Seq<bool>, b: Seq<bool>)
    requires
        a.len() == us.len(),
        b.len() == us.len(),
        forall|i: int| 0 <= i < us.len() && a[i] ==> #[trigger] b[i],
    ensures
        dropped_lines(us, b) <= dropped_lines(us, a),
    decreases us.len(),
{
    if us.len() > 0 {
        assert forall|i: int| 0 <= i < us.drop_last().len() && a.drop_last()[i] implies #[trigger]
            b.drop_last()[i] by {
            assert(b[i]);
        }
        assert(a.last() ==> b[us.len() - 1]);
        keeping_more_drops_less(us.drop_last(), a.drop_last(), b.drop_last());
    }
}

/// Whether a count never grows while a text gets no longer in bytes.
pub open spec fn counts_by_length<A: ArchAdapter>(adapter: A) -> bool {
    forall|s: Seq<char>, t: Seq<char>|
        encode_utf8(s).len() <= encode_utf8(t).len() ==> #[trigger] adapter.tokens(s)
            <= #[trigger] adapter.tokens(t)
}

/// The last unit in the order of consideration that is kept and not essential,
/// if there is one.
proof fn last_kept(us: Seq<UnitView>, keep: Seq<bool>, n: int) -> (r: Option<int>)
    requires
        keep.len() == us.len(),
        0 <= n <= us.len(),
    ensures
        r is Some ==> 0 <= r->0 < n && keep[r->0] && us[r->0].rank != 0,
        r is Some ==> forall|j: int|
            0 <= j < n && keep[j] && j != r->0 ==> #[trigger] us[j].rank == 0 || earlier(
                us,
                j,
                r->0,
            ),
        r is None ==> forall|j: int| 0 <= j < n && keep[j] ==> #[trigger] us[j].rank == 0,
    decreases n,
{
    if n == 0 {
        None
    } else {
        let before = last_kept(us, keep, n - 1);
        let i = n - 1;
        if !keep[i] || us[i].rank == 0 {
            before
        } else {
            match before {
                None => Some(i),
                Some(j) => {
                    if earlier(us, j, i) {
                        Some(i)
                    } else {
                        Some(j)
                    }
                },
            }
        }
    }
}

proof fn chosen_fits<A: ArchAdapter>(adapter: A, us: Seq<UnitView>, keep: Seq<bool>, budget: nat)
    requires
        chosen(adapter, us, keep, budget),
        fits(adapter, us, essential(us), budget),
    ensures
        fits(adapter, us, keep, budget),
{
    match last_kept(us, keep, us.len() as int) {
        None => {
            assert forall|j: int| 0 <= j < us.len() implies keep[j] == essential(us)[j] by {
                assert(us[j].rank == 0 || us[j].rank != 0);
            }
            assert(keep =~= essential(us));
        },
        Some(i) => {
            assert(keep[i]);
            assert forall|j: int| 0 <= j < us.len() implies up_to(us, keep, i)[j] == keep[j] by {
                if keep[j] && j != i {
                    assert(us[j].rank == 0 || earlier(us, j, i));
                }
            }
            assert(up_to(us, keep, i) =~= keep);
        },
    }
}

/// A projection never exceeds the budget it was made for, under a count that
/// goes by the length of the text.
pub proof fn projection_stays_within_budget<A: ArchAdapter>(
    adapter: A,
    prompt: Seq<char>,
    budget: nat,
    r: Option<Seq<char>>,
)
    requires
        counts_by_length(adapter),
        projects_to(adapter, prompt, budget, r),
    ensures
        r is Some ==> adapter.tokens(r->0) <= budget,
{
    let us = units(lines_of(prompt));
    if r is Some && adapter.tokens(prompt) > budget {
        let keep = choose|keep: Seq<bool>| #[trigger]
            chosen(adapter, us, keep, budget) && r == Some(remainder(us, keep));
        chosen_fits(adapter, us, keep, budget);
        assert forall|i: int| 0 <= i < us.len() && essential(us)[i] implies #[trigger] keep[i] by {}
        keeping_more_drops_less(us, essential(us), keep);
        let text = kept_text(us, keep);
        let most = dropped_lines(us, essential(us));
        let dropped = dropped_lines(us, keep);
        marker_grows(dropped, most);
        utf8_concat(text, reserved(us));
        utf8_concat(text + reserved(us), "\n"@);
        utf8_concat(text, marker_text(dropped));
        utf8_concat(text + marker_text(dropped), "\n"@);
        assert(encode_utf8(r->0).len() <= encode_utf8(
            rendered(us, keep, Some(reserved(us))),
        ).len());
    }
}

/// Every line of rank 0, the role and the goal among them, survives every
/// projection.
pub proof fn projection_keeps_the_essential<A: ArchAdapter>(
    adapter: A,
    us: Seq<UnitView>,
    keep: Seq<bool>,
    budget: nat,
    i: int,
)
    requires
        chosen(adapter, us, keep, budget),
        0 <= i < us.len(),
        us[i].rank == 0,
    ensures
        keep[i],
{
}

/// A prompt whose units are not all kept says in its last line how many lines
/// are missing.
pub proof fn projection_declares_what_it_drops<A: ArchAdapter>(
    adapter: A,
    prompt: Seq<char>,
    budget: nat,
    r: Option<Seq<char>>,
)
    requires
        projects_to(adapter, prompt, budget, r),
        r is Some,
        adapter.tokens(prompt) > budget,
    ensures
        exists|keep: Seq<bool>|
            {
                &&& #[trigger] chosen(adapter, units(lines_of(prompt)), keep, budget)
                &&& dropped_lines(units(lines_of(prompt)), keep) > 0 ==> r->0 == kept_text(
                    units(lines_of(prompt)),
                    keep,
                ) + marker_text(dropped_lines(units(lines_of(prompt)), keep)) + "\n"@
            },
{
}

/// The mock counts by length.
pub proof fn mock_counts_by_length(mock: MockAdapter)
    ensures
        counts_by_length(mock),
{
    assert forall|s: Seq<char>, t: Seq<char>|
        encode_utf8(s).len() <= encode_utf8(t).len() implies #[trigger] mock.tokens(s)
        <= #[trigger] mock.tokens(t) by {
        assert(encode_utf8(s).len() / 4 <= encode_utf8(t).len() / 4);
    }
}

/// So is what a node mounts.
pub proof fn arch_counts_by_length<E: Engine>(arch: Arch<E>)
    ensures
        counts_by_length(arch),
{
    assert forall|s: Seq<char>, t: Seq<char>|
        encode_utf8(s).len() <= encode_utf8(t).len() implies #[trigger] arch.tokens(s)
        <= #[trigger] arch.tokens(t) by {
        assert(encode_utf8(s).len() / 4 <= encode_utf8(t).len() / 4);
    }
}

/// The lines of a prompt matter in this order: the role and the goal, decisions, constraints,
/// open questions, evidence, and whatever else there is.
pub proof fn lines_matter_in_order(
    goal: Seq<char>,
    decision: Seq<char>,
    constraint: Seq<char>,
    question: Seq<char>,
    evidence: Seq<char>,
)
    ensures
        rank("ROLE:"@ + goal) == 0,
        rank("GOAL:"@ + goal) == 0,
        rank("GOAL:"@ + goal) < rank("DECISION:"@ + decision),
        rank("DECISION:"@ + decision) < rank("CONSTRAINTS:"@ + constraint),
        rank("CONSTRAINTS:"@ + constraint) < rank("OPEN:"@ + question),
        rank("OPEN:"@ + question) < rank("EVIDENCE"@ + evidence),
        forall|line: Seq<char>|
            {
                &&& !begins(line, "ROLE:"@) && !begins(line, "GOAL:"@)
                &&& !begins(line, "DECISION:"@) && !begins(line, "CONSTRAINTS:"@)
                &&& !begins(line, "OPEN:"@) && !begins(line, "EVIDENCE"@)
            } ==> rank("EVIDENCE"@ + evidence) < #[trigger] rank(line),
{
    reveal_strlit("ROLE:");
    reveal_strlit("GOAL:");
    reveal_strlit("DECISION:");
    reveal_strlit("CONSTRAINTS:");
    reveal_strlit("OPEN:");
    reveal_strlit("EVIDENCE");
    let (a, b, c) = ("ROLE:"@ + goal, "GOAL:"@ + goal, "DECISION:"@ + decision);
    let (d, e, f) = (
        "CONSTRAINTS:"@ + constraint,
        "OPEN:"@ + question,
        "EVIDENCE"@ + evidence,
    );
    assert(a.subrange(0, 5) =~= "ROLE:"@);
    assert(b.subrange(0, 5) =~= "GOAL:"@);
    assert(c.subrange(0, 9) =~= "DECISION:"@);
    assert(d.subrange(0, 12) =~= "CONSTRAINTS:"@);
    assert(e.subrange(0, 5) =~= "OPEN:"@);
    assert(f.subrange(0, 8) =~= "EVIDENCE"@);
    first_letter_tells(c, 'D');
    first_letter_tells(d, 'C');
    first_letter_tells(e, 'O');
    first_letter_tells(f, 'E');
}

proof fn first_letter_tells(line: Seq<char>, c: char)
    requires
        line.len() > 0,
        line[0] == c,
    ensures
        c != 'R' ==> !begins(line, "ROLE:"@),
        c != 'G' ==> !begins(line, "GOAL:"@),
        c != 'D' ==> !begins(line, "DECISION:"@),
        c != 'C' ==> !begins(line, "CONSTRAINTS:"@),
        c != 'O' ==> !begins(line, "OPEN:"@),
        c != 'E' ==> !begins(line, "EVIDENCE"@),
{
    reveal_strlit("ROLE:");
    reveal_strlit("GOAL:");
    reveal_strlit("DECISION:");
    reveal_strlit("CONSTRAINTS:");
    reveal_strlit("OPEN:");
    reveal_strlit("EVIDENCE");
    if begins(line, "ROLE:"@) {
        assert(line.subrange(0, 5)[0] == line[0]);
    }
    if begins(line, "GOAL:"@) {
        assert(line.subrange(0, 5)[0] == line[0]);
    }
    if begins(line, "DECISION:"@) {
        assert(line.subrange(0, 9)[0] == line[0]);
    }
    if begins(line, "CONSTRAINTS:"@) {
        assert(line.subrange(0, 12)[0] == line[0]);
    }
    if begins(line, "OPEN:"@) {
        assert(line.subrange(0, 5)[0] == line[0]);
    }
    if begins(line, "EVIDENCE"@) {
        assert(line.subrange(0, 8)[0] == line[0]);
    }
}

/// A line and its break in front of a text are one line more in front of its lines.
pub proof fn line_in_front_is_the_first(line: Seq<char>, rest: Seq<char>)
    requires
        forall|i: int| 0 <= i < line.len() ==> #[trigger] line[i] != '\n',
        line.len() > 0 ==> line.last() != '\r',
    ensures
        lines_of(line + "\n"@ + rest) == seq![line] + lines_of(rest),
        first_line(line + "\n"@ + rest) == line,
        line.len() > 0 ==> lines_of(line) == seq![line],
        lines_of(Seq::empty()) == Seq::<Seq<char>>::empty(),
{
    reveal_strlit("\n");
    let s = line + "\n"@ + rest;
    line_ends_at_its_break(line, rest);
    assert(s.take(line.len() as int) =~= line);
    assert(s.skip((line.len() + 1) as int) =~= rest);
    line_without_a_break_ends_with_it(line);
}

proof fn line_ends_at_its_break(line: Seq<char>, rest: Seq<char>)
    requires
        forall|i: int| 0 <= i < line.len() ==> #[trigger] line[i] != '\n',
    ensures
        line_end(line + "\n"@ + rest) == line.len(),
    decreases line.len(),
{
    reveal_strlit("\n");
    let s = line + "\n"@ + rest;
    if line.len() == 0 {
        assert(s[0] == '\n');
    } else {
        let tail = line.drop_first();
        assert forall|i: int| 0 <= i < tail.len() implies #[trigger] tail[i] != '\n' by {
            assert(tail[i] == line[i + 1]);
        }
        line_ends_at_its_break(tail, rest);
        assert(s[0] == line[0]);
        assert(s.drop_first() =~= tail + "\n"@ + rest);
    }
}

proof fn line_without_a_break_ends_with_it(line: Seq<char>)
    requires
        forall|i: int| 0 <= i < line.len() ==> #[trigger] line[i] != '\n',
    ensures
        line_end(line) == line.len(),
    decreases line.len(),
{
    if line.len() > 0 {
        let tail = line.drop_first();
        assert forall|i: int| 0 <= i < tail.len() implies #[trigger] tail[i] != '\n' by {
            assert(tail[i] == line[i + 1]);
        }
        line_without_a_break_ends_with_it(tail);
    }
}

/// A heading of constraints goes with the bullets under it, all of them and no more; every other
/// line is kept or left out alone.
pub proof fn constraints_go_together(ls: Seq<Seq<char>>, n: int)
    requires
        ls.len() > 0,
        0 <= n < ls.len(),
        forall|i: int| 1 <= i <= n ==> begins(#[trigger] ls[i], "- "@),
        n + 1 < ls.len() ==> !begins(ls[n + 1], "- "@),
    ensures
        units(ls).len() > 0,
        begins(ls[0], "CONSTRAINTS:"@) ==> {
            &&& units(ls)[0].lines == n + 1
            &&& units(ls)[0].text == joined(ls.take(n + 1))
            &&& units(ls).skip(1) == units(ls.skip(n + 1))
        },
        !begins(ls[0], "CONSTRAINTS:"@) ==> {
            &&& units(ls)[0].lines == 1
            &&& units(ls)[0].text == ls[0]
            &&& units(ls).skip(1) == units(ls.skip(1))
        },
        units(ls)[0].rank == rank(ls[0]),
{
    bullets_are_counted(ls.drop_first(), n);
    let size = unit_size(ls);
    if begins(ls[0], "CONSTRAINTS:"@) {
        reveal_strlit("CONSTRAINTS:");
        assert(ls[0].subrange(0, 12)[0] == ls[0][0]);
        first_letter_tells(ls[0], 'C');
        assert(size == n + 1);
    } else {
        assert(ls.take(1) =~= seq![ls[0]]);
    }
    assert(units(ls).skip(1) =~= units(ls.skip(size as int)));
}

proof fn bullets_are_counted(ls: Seq<Seq<char>>, n: int)
    requires
        0 <= n <= ls.len(),
        forall|i: int| 0 <= i < n ==> begins(#[trigger] ls[i], "- "@),
        n < ls.len() ==> !begins(ls[n], "- "@),
    ensures
        bullets(ls) == n,
    decreases n,
{
    if n > 0 {
        let rest = ls.drop_first();
        assert forall|i: int| 0 <= i < n - 1 implies begins(#[trigger] rest[i], "- "@) by {
            assert(rest[i] == ls[i + 1]);
        }
        assert(begins(ls[0], "- "@));
        bullets_are_counted(rest, n - 1);
    }
}

/// How many lines of the units are kept.
pub open spec fn lines_kept(us: Seq<UnitView>, keep: Seq<bool>) -> nat
    decreases us.len(),
{
    if us.len() == 0 {
        0
    } else if keep.last() {
        lines_kept(us.drop_last(), keep.drop_last()) + us.last().lines
    } else {
        lines_kept(us.drop_last(), keep.drop_last())
    }
}

/// The lines that are said to be left out and those that are kept are all the lines of the
/// prompt.
pub proof fn every_line_is_kept_or_counted(ls: Seq<Seq<char>>, keep: Seq<bool>)
    requires
        keep.len() == units(ls).len(),
    ensures
        dropped_lines(units(ls), keep) + lines_kept(units(ls), keep) == ls.len(),
{
    kept_and_dropped_are_all(units(ls), keep);
    units_hold_every_line(ls);
}

proof fn kept_and_dropped_are_all(us: Seq<UnitView>, keep: Seq<bool>)
    requires
        keep.len() == us.len(),
    ensures
        dropped_lines(us, keep) + lines_kept(us, keep) == total_lines(us),
    decreases us.len(),
{
    if us.len() > 0 {
        kept_and_dropped_are_all(us.drop_last(), keep.drop_last());
    }
}

/// What is left of a prompt holds every unit that is kept, whole and in order, and where a line
/// is missing it ends with how many are; where none is, it is the units and no more.
pub proof fn remainder_holds_what_is_kept(us: Seq<UnitView>, keep: Seq<bool>, i: int)
    requires
        keep.len() == us.len(),
        0 <= i < us.len(),
    ensures
        ({
            let head = kept_text(us.take(i), keep.take(i));
            let n = dropped_lines(us, keep);
            let with = kept_text(us.take(i + 1), keep.take(i + 1));
            &&& keep[i] ==> with == head + us[i].text + "\n"@
            &&& !keep[i] ==> with == head
            &&& kept_text(us, keep).take(with.len() as int) == with
            &&& kept_text(us, keep).len() >= with.len()
            &&& n > 0 ==> remainder(us, keep) == kept_text(us, keep) + "[PROJECTED: "@ + decimal(n)
                + " lines dropped]"@ + "\n"@
            &&& n == 0 ==> remainder(us, keep) == kept_text(us, keep)
        }),
{
    assert(us.take(i + 1).drop_last() =~= us.take(i));
    assert(keep.take(i + 1).drop_last() =~= keep.take(i));
    kept_text_grows(us, keep, i + 1);
    let n = dropped_lines(us, keep);
    if n > 0 {
        assert(remainder(us, keep) =~= kept_text(us, keep) + "[PROJECTED: "@ + decimal(n)
            + " lines dropped]"@ + "\n"@);
    }
}

proof fn kept_text_grows(us: Seq<UnitView>, keep: Seq<bool>, i: int)
    requires
        keep.len() == us.len(),
        0 <= i <= us.len(),
    ensures
        kept_text(us, keep).len() >= kept_text(us.take(i), keep.take(i)).len(),
        kept_text(us, keep).take(kept_text(us.take(i), keep.take(i)).len() as int) == kept_text(
            us.take(i),
            keep.take(i),
        ),
    decreases us.len() - i,
{
    if i == us.len() {
        assert(us.take(i) =~= us);
        assert(keep.take(i) =~= keep);
        assert(kept_text(us, keep).take(kept_text(us, keep).len() as int) =~= kept_text(us, keep));
    } else {
        kept_text_grows(us, keep, i + 1);
        assert(us.take(i + 1).drop_last() =~= us.take(i));
        assert(keep.take(i + 1).drop_last() =~= keep.take(i));
        let whole = kept_text(us, keep);
        let with = kept_text(us.take(i + 1), keep.take(i + 1));
        let head = kept_text(us.take(i), keep.take(i));
        assert(with.take(head.len() as int) =~= head);
        assert(whole.take(head.len() as int) =~= whole.take(with.len() as int).take(
            head.len() as int,
        ));
    }
}

/// A prompt that fits is sent as it is; and one whose role and goal do not is not sent.
pub proof fn prompt_that_fits_is_sent_as_it_is<A: ArchAdapter>(
    adapter: A,
    prompt: Seq<char>,
    budget: nat,
    r: Option<Seq<char>>,
)
    requires
        projects_to(adapter, prompt, budget, r),
    ensures
        adapter.tokens(prompt) <= budget ==> r == Some(prompt),
        r is None ==> adapter.tokens(prompt) > budget,
{
}

proof fn keeping_more_is_no_shorter(us: Seq<UnitView>, a: Seq<bool>, b: Seq<bool>)
    requires
        a.len() == us.len(),
        b.len() == us.len(),
        forall|i: int| 0 <= i < us.len() && a[i] ==> #[trigger] b[i],
    ensures
        encode_utf8(kept_text(us, a)).len() <= encode_utf8(kept_text(us, b)).len(),
    decreases us.len(),
{
    if us.len() > 0 {
        let (front, fa, fb) = (us.drop_last(), a.drop_last(), b.drop_last());
        assert forall|i: int| 0 <= i < front.len() && fa[i] implies #[trigger] fb[i] by {
            assert(b[i]);
        }
        assert(a.last() ==> b[us.len() - 1]);
        keeping_more_is_no_shorter(front, fa, fb);
        let text = us.last().text;
        utf8_concat(kept_text(front, fa), text);
        utf8_concat(kept_text(front, fa) + text, "\n"@);
        utf8_concat(kept_text(front, fb), text);
        utf8_concat(kept_text(front, fb) + text, "\n"@);
    }
}

/// A unit is left out only where there is no room for it: no prompt that has it, and has besides
/// the kept units that matter more or as much and stand before it, fits with the line that says
/// how many lines are left out. Nothing that matters less can take its place.
pub proof fn nothing_less_takes_the_place_of_more<A: ArchAdapter>(
    adapter: A,
    us: Seq<UnitView>,
    keep: Seq<bool>,
    budget: nat,
    i: int,
    other: Seq<bool>,
)
    requires
        counts_by_length(adapter),
        chosen(adapter, us, keep, budget),
        0 <= i < us.len(),
        !keep[i],
        other.len() == us.len(),
        other[i],
        forall|j: int|
            0 <= j < us.len() && keep[j] && (us[j].rank < us[i].rank || us[j].rank == us[i].rank
                && j < i) ==> #[trigger] other[j],
    ensures
        us[i].rank > 0,
        adapter.tokens(
            kept_text(us, other) + marker_text(dropped_lines(us, essential(us))) + "\n"@,
        ) > budget,
{
    let least = up_to(us, keep, i);
    assert forall|j: int| 0 <= j < us.len() && least[j] implies #[trigger] other[j] by {}
    keeping_more_is_no_shorter(us, least, other);
    let m = reserved(us);
    utf8_concat(kept_text(us, least), m);
    utf8_concat(kept_text(us, least) + m, "\n"@);
    utf8_concat(kept_text(us, other), m);
    utf8_concat(kept_text(us, other) + m, "\n"@);
    let (a, b) = (
        rendered(us, least, Some(m)),
        kept_text(us, other) + m + "\n"@,
    );
    assert(encode_utf8(a).len() <= encode_utf8(b).len());
    assert(adapter.tokens(a) <= adapter.tokens(b));
    assert(!keep[i]);
}

} // verus!
