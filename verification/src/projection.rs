//! Projection: a prompt that exceeds a budget is rebuilt from whole lines, the
//! least important left out, and says how many were.
use crate::adapter::ArchAdapter;
use crate::model::{all, Duplicate};
use crate::text::{begins, begins_with, cat3, chars_of, decimal, decimal_text, text_of};
use vstd::prelude::*;
use vstd::string::*;

verus! {

/// Where the first line of `s` ends.
pub open spec fn line_end(s: Seq<char>) -> nat
    decreases s.len(),
{
    if s.len() == 0 || s[0] == '\n' {
        0
    } else {
        1 + line_end(s.drop_first())
    }
}

/// `s` without a carriage return at its end.
pub open spec fn without_return(s: Seq<char>) -> Seq<char> {
    if s.len() > 0 && s.last() == '\r' {
        s.drop_last()
    } else {
        s
    }
}

/// The lines of `s`, each without its line break.
pub open spec fn lines_of(s: Seq<char>) -> Seq<Seq<char>>
    decreases s.len(),
{
    let i = line_end(s);
    if s.len() == 0 {
        Seq::empty()
    } else if i < s.len() {
        seq![without_return(s.take(i as int))] + lines_of(s.skip((i + 1) as int))
    } else {
        seq![s]
    }
}

/// The first line of `s`; nothing when there is none.
pub open spec fn first_line(s: Seq<char>) -> Seq<char> {
    if lines_of(s).len() == 0 {
        Seq::empty()
    } else {
        lines_of(s)[0]
    }
}

proof fn line_end_bounded(s: Seq<char>)
    ensures
        line_end(s) <= s.len(),
    decreases s.len(),
{
    if s.len() > 0 && s[0] != '\n' {
        line_end_bounded(s.drop_first());
    }
}

/// The lines of `s`, each without its line break.
pub fn split_lines(s: &str) -> (r: Vec<String>)
    ensures
        all(r@) == lines_of(s@),
{
    let v = chars_of(s);
    let n: usize = v.len();
    let mut r: Vec<String> = Vec::new();
    let mut start: usize = 0;
    assert(v@.skip(0) =~= v@);
    assert(all(r@) + lines_of(v@.skip(0)) =~= lines_of(s@));
    while start < n
        invariant
            start <= n,
            n == v@.len(),
            all(r@) + lines_of(v@.skip(start as int)) == lines_of(s@),
        decreases n - start,
    {
        let ghost rest = v@.skip(start as int);
        let mut e: usize = start;
        while e < n && v[e] != '\n'
            invariant
                start <= e <= n,
                n == v@.len(),
                line_end(v@.skip(start as int)) == (e - start) + line_end(v@.skip(e as int)),
            decreases n - e,
        {
            assert(v@.skip(e as int).drop_first() =~= v@.skip(e + 1));
            e += 1;
        }
        assert(line_end(rest) == e - start);
        let ghost before = all(r@);
        if e < n {
            assert(rest.take(e - start) =~= v@.subrange(start as int, e as int));
            assert(rest.skip(e - start + 1) =~= v@.skip(e + 1));
            let end: usize = if e > start && v[e - 1] == '\r' {
                e - 1
            } else {
                e
            };
            let line = text_of(&v, start, end);
            assert(line@ =~= without_return(v@.subrange(start as int, e as int)));
            r.push(line);
            assert(all(r@) =~= before.push(line@));
            start = e + 1;
            assert(before + (seq![line@] + lines_of(v@.skip(start as int))) =~= before.push(line@)
                + lines_of(v@.skip(start as int)));
        } else {
            let line = text_of(&v, start, n);
            assert(line@ =~= rest);
            r.push(line);
            assert(all(r@) =~= before.push(line@));
            start = n;
            assert(v@.skip(n as int).len() == 0);
            assert(before + seq![line@] =~= before.push(line@) + lines_of(v@.skip(n as int)));
        }
    }
    assert(lines_of(v@.skip(start as int)) =~= Seq::<Seq<char>>::empty());
    assert(all(r@) + lines_of(v@.skip(start as int)) =~= all(r@));
    r
}

/// The first line of `s`; nothing when there is none.
pub fn first_line_of(s: &str) -> (r: String)
    ensures
        r@ == first_line(s@),
{
    let lines = split_lines(s);
    assert(all(lines@).len() == lines@.len());
    if lines.len() == 0 {
        let r = String::new();
        assert(r@ =~= Seq::<char>::empty());
        r
    } else {
        assert(all(lines@)[0] == lines@[0]@);
        lines[0].dup()
    }
}

/// The rank of a prompt line: the lower, the sooner it is kept. The role and the
/// goal say what the call is and stand first; evidence is the first to go.
pub open spec fn rank(line: Seq<char>) -> u8 {
    if begins(line, "ROLE:"@) || begins(line, "GOAL:"@) {
        0
    } else if begins(line, "DECISION:"@) {
        1
    } else if begins(line, "CONSTRAINTS:"@) {
        2
    } else if begins(line, "OPEN:"@) {
        3
    } else if begins(line, "EVIDENCE"@) {
        4
    } else {
        5
    }
}

/// The rank of a prompt line.
pub fn rank_of(line: &str) -> (r: u8)
    ensures
        r == rank(line@),
        r <= 5,
{
    if begins_with(line, "ROLE:") || begins_with(line, "GOAL:") {
        0
    } else if begins_with(line, "DECISION:") {
        1
    } else if begins_with(line, "CONSTRAINTS:") {
        2
    } else if begins_with(line, "OPEN:") {
        3
    } else if begins_with(line, "EVIDENCE") {
        4
    } else {
        5
    }
}

/// A piece of a prompt that is kept or left out as a whole.
#[derive(Debug)]
pub struct Unit {
    pub text: String,
    pub lines: usize,
    pub rank: u8,
}

/// What a [`Unit`] says.
pub struct UnitView {
    pub text: Seq<char>,
    pub lines: nat,
    pub rank: u8,
}

impl View for Unit {
    type V = UnitView;

    open spec fn view(&self) -> UnitView {
        UnitView { text: self.text@, lines: self.lines as nat, rank: self.rank }
    }
}

/// How many of the lines, from the first on, are bullets.
pub open spec fn bullets(ls: Seq<Seq<char>>) -> nat
    decreases ls.len(),
{
    if ls.len() > 0 && begins(ls[0], "- "@) {
        1 + bullets(ls.drop_first())
    } else {
        0
    }
}

/// There are no more bullets than lines.
pub proof fn bullets_bounded(ls: Seq<Seq<char>>)
    ensures
        bullets(ls) <= ls.len(),
    decreases ls.len(),
{
    if ls.len() > 0 && begins(ls[0], "- "@) {
        bullets_bounded(ls.drop_first());
    }
}

/// How many lines the first unit takes: a heading of constraints owns the
/// bullets under it, and any other line stands alone.
pub open spec fn unit_size(ls: Seq<Seq<char>>) -> nat {
    if rank(ls[0]) == 2 {
        1 + bullets(ls.drop_first())
    } else {
        1
    }
}

/// Lines put together, with line breaks between them.
pub open spec fn joined(ls: Seq<Seq<char>>) -> Seq<char>
    decreases ls.len(),
{
    if ls.len() == 0 {
        Seq::empty()
    } else if ls.len() == 1 {
        ls[0]
    } else {
        joined(ls.drop_last()) + "\n"@ + ls.last()
    }
}

/// The first unit of the lines.
pub open spec fn first_unit(ls: Seq<Seq<char>>) -> UnitView {
    UnitView {
        text: joined(ls.take(unit_size(ls) as int)),
        lines: unit_size(ls),
        rank: rank(ls[0]),
    }
}

/// The units that lines fall into.
pub open spec fn units(ls: Seq<Seq<char>>) -> Seq<UnitView>
    decreases ls.len(),
{
    if ls.len() == 0 {
        Seq::empty()
    } else {
        proof {
            bullets_bounded(ls.drop_first());
        }
        seq![first_unit(ls)] + units(ls.skip(unit_size(ls) as int))
    }
}

/// How many lines a sequence of units has.
pub open spec fn total_lines(us: Seq<UnitView>) -> nat
    decreases us.len(),
{
    if us.len() == 0 {
        0
    } else {
        total_lines(us.drop_last()) + us.last().lines
    }
}

proof fn total_lines_concat(a: Seq<UnitView>, b: Seq<UnitView>)
    ensures
        total_lines(a + b) == total_lines(a) + total_lines(b),
    decreases b.len(),
{
    if b.len() == 0 {
        assert(a + b =~= a);
    } else {
        assert((a + b).drop_last() =~= a + b.drop_last());
        total_lines_concat(a, b.drop_last());
    }
}

/// No line of a prompt is lost when it is taken apart into units.
pub proof fn units_hold_every_line(ls: Seq<Seq<char>>)
    ensures
        total_lines(units(ls)) == ls.len(),
        forall|i: int| 0 <= i < units(ls).len() ==> (#[trigger] units(ls)[i]).rank <= 5,
    decreases ls.len(),
{
    if ls.len() > 0 {
        bullets_bounded(ls.drop_first());
        let rest = ls.skip(unit_size(ls) as int);
        units_hold_every_line(rest);
        let head = seq![first_unit(ls)];
        total_lines_concat(head, units(rest));
        assert(head.drop_last() =~= Seq::<UnitView>::empty());
        assert(total_lines(Seq::<UnitView>::empty()) == 0);
        assert(total_lines(head) == unit_size(ls));
        assert forall|i: int| 0 <= i < units(ls).len() implies (#[trigger] units(ls)[i]).rank
            <= 5 by {
            if i > 0 {
                assert(units(ls)[i] == units(rest)[i - 1]);
            }
        }
    }
}

/// The units of a prompt.
pub fn units_of(prompt: &str) -> (r: Vec<Unit>)
    ensures
        all(r@) == units(lines_of(prompt@)),
        total_lines(all(r@)) <= usize::MAX,
{
    let lines = split_lines(prompt);
    let ghost ls = lines_of(prompt@);
    let n: usize = lines.len();
    let mut r: Vec<Unit> = Vec::new();
    let mut i: usize = 0;
    assert(ls.skip(0) =~= ls);
    assert(all(r@) + units(ls) =~= units(ls));
    while i < n
        invariant
            i <= n,
            n == lines@.len(),
            all(lines@) == ls,
            ls.len() == lines@.len(),
            all(r@) + units(ls.skip(i as int)) == units(ls),
        decreases lines@.len() - i,
    {
        let ghost rest = ls.skip(i as int);
        assert(rest[0] == ls[i as int] && ls[i as int] == lines@[i as int]@);
        let rank = rank_of(lines[i].as_str());
        let mut text = lines[i].dup();
        let mut count: usize = 1;
        assert(rest.take(1) =~= seq![rest[0]]);
        proof {
            bullets_bounded(rest.drop_first());
        }
        if rank == 2 {
            assert(rest.drop_first() =~= rest.skip(1));
            while i + count < n && begins_with(lines[i + count].as_str(), "- ")
                invariant
                    1 <= count,
                    i + count <= n,
                    n == lines@.len(),
                    all(lines@) == ls,
                    ls.len() == lines@.len(),
                    rest == ls.skip(i as int),
                    text@ == joined(rest.take(count as int)),
                    bullets(rest.drop_first()) == (count - 1) + bullets(rest.skip(count as int)),
                decreases lines@.len() - (i + count),
            {
                let ghost next = rest.skip(count as int);
                assert(next[0] == ls[i + count] && ls[i + count] == lines@[i + count]@);
                assert(next.drop_first() =~= rest.skip(count + 1));
                assert(rest.take(count + 1).drop_last() =~= rest.take(count as int));
                assert(rest.take(count + 1).last() == lines@[i + count]@);
                text = cat3(text.as_str(), "\n", lines[i + count].as_str());
                count += 1;
            }
            assert(i + count < lines@.len() ==> rest.skip(count as int)[0] == lines@[i + count]@);
            assert(bullets(rest.skip(count as int)) == 0);
        }
        assert(count == unit_size(rest));
        let ghost before = all(r@);
        let unit = Unit { text, lines: count, rank };
        assert(unit@ == first_unit(rest));
        r.push(unit);
        assert(all(r@) =~= before.push(unit@));
        assert(rest.skip(count as int) =~= ls.skip(i + count));
        i += count;
        assert(before + (seq![unit@] + units(ls.skip(i as int))) =~= before.push(unit@) + units(
            ls.skip(i as int),
        ));
    }
    assert(units(ls.skip(i as int)) =~= Seq::<UnitView>::empty());
    assert(all(r@) + units(ls.skip(i as int)) =~= all(r@));
    proof {
        units_hold_every_line(ls);
    }
    r
}

/// The line that says how many lines were left out.
pub open spec fn marker_text(dropped: nat) -> Seq<char> {
    "[PROJECTED: "@ + decimal(dropped) + " lines dropped]"@
}

/// The line that says how many lines were left out.
pub fn marker(dropped_lines: usize) -> (r: String)
    ensures
        r@ == marker_text(dropped_lines as nat),
{
    let n = decimal_text(dropped_lines as u64);
    cat3("[PROJECTED: ", n.as_str(), " lines dropped]")
}

/// The units that are kept, each with a line break after it.
pub open spec fn kept_text(us: Seq<UnitView>, keep: Seq<bool>) -> Seq<char>
    decreases us.len(),
{
    if us.len() == 0 {
        Seq::empty()
    } else {
        let rest = kept_text(us.drop_last(), keep.drop_last());
        if keep.last() {
            rest + us.last().text + "\n"@
        } else {
            rest
        }
    }
}

/// The kept units, and after them the marker where there is one.
pub open spec fn rendered(
    us: Seq<UnitView>,
    keep: Seq<bool>,
    marker_line: Option<Seq<char>>,
) -> Seq<char> {
    match marker_line {
        Some(m) => kept_text(us, keep) + m + "\n"@,
        None => kept_text(us, keep),
    }
}

/// The kept units, and after them the marker where there is one.
pub fn render(us: &Vec<Unit>, keep: &Vec<bool>, marker_line: Option<&str>) -> (r: String)
    requires
        us@.len() == keep@.len(),
    ensures
        r@ == rendered(
            all(us@),
            keep@,
            match marker_line {
                Some(m) => Some(m@),
                None => None,
            },
        ),
{
    let ghost views = all(us@);
    let mut s = String::new();
    let mut i: usize = 0;
    assert(s@ =~= kept_text(views.take(0), keep@.take(0)));
    while i < us.len()
        invariant
            i <= us@.len(),
            us@.len() == keep@.len(),
            views == all(us@),
            s@ == kept_text(views.take(i as int), keep@.take(i as int)),
        decreases us@.len() - i,
    {
        let ghost now = views.take(i + 1);
        assert(now.drop_last() =~= views.take(i as int));
        assert(keep@.take(i + 1).drop_last() =~= keep@.take(i as int));
        assert(now.last() == us@[i as int]@);
        if keep[i] {
            s.append(us[i].text.as_str());
            s.append("\n");
        }
        i += 1;
    }
    assert(views.take(i as int) =~= views);
    assert(keep@.take(i as int) =~= keep@);
    if let Some(m) = marker_line {
        s.append(m);
        s.append("\n");
    }
    s
}

/// How many lines are left out.
pub open spec fn dropped_lines(us: Seq<UnitView>, keep: Seq<bool>) -> nat
    decreases us.len(),
{
    if us.len() == 0 {
        0
    } else {
        let rest = dropped_lines(us.drop_last(), keep.drop_last());
        if keep.last() {
            rest
        } else {
            rest + us.last().lines
        }
    }
}

proof fn dropped_bounded(us: Seq<UnitView>, keep: Seq<bool>)
    ensures
        dropped_lines(us, keep) <= total_lines(us),
    decreases us.len(),
{
    if us.len() > 0 {
        dropped_bounded(us.drop_last(), keep.drop_last());
    }
}

proof fn total_lines_prefix(us: Seq<UnitView>, i: int)
    requires
        0 <= i <= us.len(),
    ensures
        total_lines(us.take(i)) <= total_lines(us),
    decreases us.len() - i,
{
    if i < us.len() {
        total_lines_prefix(us, i + 1);
        assert(us.take(i + 1).drop_last() =~= us.take(i));
    } else {
        assert(us.take(i) =~= us);
    }
}

fn count_dropped(us: &Vec<Unit>, keep: &Vec<bool>) -> (n: usize)
    requires
        us@.len() == keep@.len(),
        total_lines(all(us@)) <= usize::MAX,
    ensures
        n == dropped_lines(all(us@), keep@),
{
    let ghost views = all(us@);
    let mut n: usize = 0;
    let mut i: usize = 0;
    while i < us.len()
        invariant
            i <= us@.len(),
            us@.len() == keep@.len(),
            views == all(us@),
            total_lines(views) <= usize::MAX,
            n == dropped_lines(views.take(i as int), keep@.take(i as int)),
        decreases us@.len() - i,
    {
        let ghost now = views.take(i + 1);
        assert(now.drop_last() =~= views.take(i as int));
        assert(keep@.take(i + 1).drop_last() =~= keep@.take(i as int));
        assert(now.last() == us@[i as int]@);
        proof {
            dropped_bounded(now, keep@.take(i + 1));
            total_lines_prefix(views, i + 1);
        }
        if !keep[i] {
            n += us[i].lines;
        }
        i += 1;
    }
    assert(views.take(i as int) =~= views);
    assert(keep@.take(i as int) =~= keep@);
    n
}

/// The units that are never left out: the role and the goal.
pub open spec fn essential(us: Seq<UnitView>) -> Seq<bool> {
    Seq::new(us.len(), |i: int| us[i].rank == 0)
}

/// The widest marker that a projection of these units can end with.
pub open spec fn reserved(us: Seq<UnitView>) -> Seq<char> {
    marker_text(dropped_lines(us, essential(us)))
}

/// Whether unit `j` is considered before unit `i`.
pub open spec fn earlier(us: Seq<UnitView>, j: int, i: int) -> bool {
    us[j].rank < us[i].rank || us[j].rank == us[i].rank && j < i
}

/// Unit `i`, with what is kept of the units considered before it.
pub open spec fn up_to(us: Seq<UnitView>, keep: Seq<bool>, i: int) -> Seq<bool> {
    Seq::new(us.len(), |j: int| j == i || keep[j] && earlier(us, j, i))
}

/// Whether the kept units, with the widest marker, stay within the budget.
pub open spec fn fits<A: ArchAdapter>(
    adapter: A,
    us: Seq<UnitView>,
    keep: Seq<bool>,
    budget: nat,
) -> bool {
    adapter.tokens(rendered(us, keep, Some(reserved(us)))) <= budget
}

/// Whether `keep` is what a projection keeps: a unit is kept exactly when it is
/// essential, or when it still fits beside the kept units that come before it.
pub open spec fn chosen<A: ArchAdapter>(
    adapter: A,
    us: Seq<UnitView>,
    keep: Seq<bool>,
    budget: nat,
) -> bool {
    &&& keep.len() == us.len()
    &&& forall|i: int|
        0 <= i < us.len() ==> #[trigger] keep[i] == (us[i].rank == 0 || fits(
            adapter,
            us,
            up_to(us, keep, i),
            budget,
        ))
}

/// The prompt that is left when `keep` of the units are kept: whole units, and
/// a marker unless nothing was left out.
pub open spec fn remainder(us: Seq<UnitView>, keep: Seq<bool>) -> Seq<char> {
    if dropped_lines(us, keep) == 0 {
        rendered(us, keep, None)
    } else {
        rendered(us, keep, Some(marker_text(dropped_lines(us, keep))))
    }
}

/// What projecting a prompt to a budget gives: the prompt itself when it fits,
/// nothing when not even the role and the goal do, and otherwise what is left
/// of it.
pub open spec fn projects_to<A: ArchAdapter>(
    adapter: A,
    prompt: Seq<char>,
    budget: nat,
    r: Option<Seq<char>>,
) -> bool {
    let us = units(lines_of(prompt));
    if adapter.tokens(prompt) <= budget {
        r == Some(prompt)
    } else if !fits(adapter, us, essential(us), budget) {
        r is None
    } else {
        exists|keep: Seq<bool>| #[trigger]
            chosen(adapter, us, keep, budget) && r == Some(remainder(us, keep))
    }
}

/// Project a prompt to a budget of tokens, as `adapter` counts them.
///
/// The prompt is rebuilt from whole units in order of rank: the role and the
/// goal always, then decisions, constraints, open questions and last of all
/// evidence, each kept only while the result stays within the budget. What is
/// left out is declared in a last line. `None` when the role, the goal and that
/// line are already too much: there is no honest prompt to send then.
pub fn project<A: ArchAdapter>(prompt: &str, budget_tokens: u32, adapter: &A) -> (r: Option<String>)
    ensures
        projects_to(
            *adapter,
            prompt@,
            budget_tokens as nat,
            match r {
                Some(s) => Some(s@),
                None => None,
            },
        ),
{
    if adapter.count_tokens(prompt) <= budget_tokens {
        return Some(prompt.to_owned());
    }
    let us = units_of(prompt);
    let ghost views = all(us@);
    let ghost budget = budget_tokens as nat;
    proof {
        units_hold_every_line(lines_of(prompt@));
    }
    let n: usize = us.len();
    let mut keep: Vec<bool> = Vec::new();
    let mut k: usize = 0;
    while k < n
        invariant
            k <= n,
            n == us@.len(),
            views == all(us@),
            keep@.len() == k,
            forall|j: int| 0 <= j < k ==> #[trigger] keep@[j] == (views[j].rank == 0),
        decreases n - k,
    {
        assert(views[k as int] == us@[k as int]@);
        keep.push(us[k].rank == 0);
        k += 1;
    }
    assert(keep@ =~= essential(views));
    let droppable: usize = count_dropped(&us, &keep);
    let reserved_line = marker(droppable);
    if adapter.count_tokens(render(&us, &keep, Some(reserved_line.as_str())).as_str())
        > budget_tokens {
        return None;
    }
    let mut r: u8 = 1;
    while r <= 5
        invariant
            1 <= r <= 6,
            n == us@.len(),
            views == all(us@),
            views.len() == n,
            keep@.len() == n,
            budget == budget_tokens,
            reserved_line@ == reserved(views),
            forall|j: int|
                0 <= j < n && views[j].rank >= r ==> !(#[trigger] keep@[j]),
            forall|j: int|
                0 <= j < n && views[j].rank < r ==> #[trigger] keep@[j] == (views[j].rank == 0
                    || fits(*adapter, views, up_to(views, keep@, j), budget)),
        decreases 6 - r,
    {
        let mut i: usize = 0;
        while i < n
            invariant
                1 <= r <= 5,
                i <= n,
                n == us@.len(),
                views == all(us@),
                views.len() == n,
                keep@.len() == n,
                budget == budget_tokens,
                reserved_line@ == reserved(views),
                forall|j: int|
                    0 <= j < n && (views[j].rank > r || views[j].rank == r && j >= i)
                        ==> !(#[trigger] keep@[j]),
                forall|j: int|
                    0 <= j < n && (views[j].rank < r || views[j].rank == r && j < i)
                        ==> #[trigger] keep@[j] == (views[j].rank == 0 || fits(
                        *adapter,
                        views,
                        up_to(views, keep@, j),
                        budget,
                    )),
            decreases n - i,
        {
            assert(views[i as int] == us@[i as int]@);
            if us[i].rank == r {
                let ghost before = keep@;
                keep.set(i, true);
                assert(keep@ =~= up_to(views, before, i as int));
                let too_much = adapter.count_tokens(
                    render(&us, &keep, Some(reserved_line.as_str())).as_str(),
                ) > budget_tokens;
                if too_much {
                    keep.set(i, false);
                    assert(keep@ =~= before);
                } else {
                    assert(up_to(views, keep@, i as int) =~= up_to(views, before, i as int));
                    assert forall|j: int|
                        0 <= j < n && (views[j].rank < r || views[j].rank == r && j
                            < i) implies up_to(views, #[trigger] keep@, j) == up_to(
                        views,
                        before,
                        j,
                    ) && keep@[j] == before[j] by {
                        assert(up_to(views, keep@, j) =~= up_to(views, before, j));
                    }
                }
            }
            i += 1;
        }
        r += 1;
    }
    assert(chosen(*adapter, views, keep@, budget));
    let dropped: usize = count_dropped(&us, &keep);
    if dropped == 0 {
        Some(render(&us, &keep, None))
    } else {
        let line = marker(dropped);
        Some(render(&us, &keep, Some(line.as_str())))
    }
}

} // verus!
