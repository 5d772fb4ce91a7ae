//! The text of a value tells it apart from every other value.
use crate::json::{fields_text, items_text, json_text, JsonView};
use crate::keeping::number_of_decimal;
use crate::manifest::{identity_text, ArchIdentityView};
use crate::outside::{hex_digit, json_escaped, json_inner, json_quoted};
use crate::pretty::{fields_lines, items_lines, pretty_text};
use crate::text::{decimal, decimal_injective};
use crate::wire::identity_json;
use vstd::prelude::*;

verus! {

/// What a number is written with.
pub open spec fn in_number(c: char) -> bool {
    '0' <= c <= '9' || c == '-' || c == '+' || c == '.' || c == 'e' || c == 'E'
}

/// What only a number that is not whole is written with.
pub open spec fn in_fraction(c: char) -> bool {
    c == '.' || c == 'e' || c == 'E'
}

/// Whether a text is that of a number that is not written as a whole one.
pub open spec fn is_real(s: Seq<char>) -> bool {
    &&& forall|i: int| 0 <= i < s.len() ==> in_number(#[trigger] s[i])
    &&& exists|i: int| 0 <= i < s.len() && in_fraction(#[trigger] s[i])
}

/// Whether the numbers of a value are written as numbers.
pub open spec fn tidy(v: JsonView) -> bool
    decreases v,
{
    match v {
        JsonView::Negative(n) => n < 0,
        JsonView::Real(digits) => is_real(digits),
        JsonView::Array(items) => forall|i: int|
            0 <= i < items.len() ==> tidy(#[trigger] items[i]),
        JsonView::Object(fields) => forall|i: int|
            0 <= i < fields.len() ==> tidy((#[trigger] fields[i]).1),
        _ => true,
    }
}

/// What can follow a value: nothing, or what goes on with or ends the list it is in.
pub open spec fn ends(x: Seq<char>) -> bool {
    x.len() == 0 || x[0] == ',' || x[0] == ']' || x[0] == '}'
}

proof fn digits_are_digits(n: nat)
    ensures
        decimal(n).len() > 0,
        forall|i: int| 0 <= i < decimal(n).len() ==> '0' <= #[trigger] decimal(n)[i] <= '9',
{
    number_of_decimal(n);
}

spec fn is_number(v: JsonView) -> bool {
    v is Unsigned || v is Negative || v is Real
}

proof fn number_is_written(v: JsonView)
    requires
        is_number(v),
        tidy(v),
    ensures
        json_text(v).len() > 0,
        forall|i: int| 0 <= i < json_text(v).len() ==> in_number(#[trigger] json_text(v)[i]),
        v is Real <==> exists|i: int|
            0 <= i < json_text(v).len() && in_fraction(#[trigger] json_text(v)[i]),
        v is Negative ==> json_text(v)[0] == '-',
        v is Unsigned ==> json_text(v)[0] != '-',
{
    match v {
        JsonView::Unsigned(n) => {
            digits_are_digits(n);
        },
        JsonView::Negative(n) => {
            let d = decimal((-n) as nat);
            digits_are_digits((-n) as nat);
            let t = json_text(v);
            assert(t == seq!['-'] + d);
            assert forall|i: int| 0 <= i < t.len() implies in_number(#[trigger] t[i])
                && !in_fraction(t[i]) by {
                if i > 0 {
                    assert(t[i] == d[i - 1]);
                }
            }
        },
        _ => {},
    }
}

proof fn numbers_differ(a: JsonView, b: JsonView, x: Seq<char>, y: Seq<char>)
    requires
        is_number(a),
        is_number(b),
        tidy(a),
        tidy(b),
        ends(x),
        ends(y),
        json_text(a) + x == json_text(b) + y,
    ensures
        a == b,
        x == y,
{
    let (p, q) = (json_text(a), json_text(b));
    number_is_written(a);
    number_is_written(b);
    let whole = p + x;
    if p.len() < q.len() {
        assert(whole[p.len() as int] == q[p.len() as int]);
        assert(whole[p.len() as int] == x[0]);
        assert(false);
    }
    if q.len() < p.len() {
        assert(whole[q.len() as int] == p[q.len() as int]);
        assert((q + y)[q.len() as int] == y[0]);
        assert(false);
    }
    assert(p =~= whole.take(p.len() as int));
    assert(q =~= (q + y).take(p.len() as int));
    assert(x =~= whole.skip(p.len() as int));
    assert(y =~= (q + y).skip(p.len() as int));
    match (a, b) {
        (JsonView::Unsigned(m), JsonView::Unsigned(n)) => {
            decimal_injective(m, n);
        },
        (JsonView::Negative(m), JsonView::Negative(n)) => {
            assert(decimal((-m) as nat) =~= p.skip(1));
            assert(decimal((-n) as nat) =~= q.skip(1));
            decimal_injective((-m) as nat, (-n) as nat);
        },
        _ => {},
    }
}

proof fn escapes_differ(c: char, d: char, x: Seq<char>, y: Seq<char>)
    requires
        json_escaped(c) + x == json_escaped(d) + y,
    ensures
        c == d,
        x == y,
{
    let (p, q) = (json_escaped(c), json_escaped(d));
    let whole = p + x;
    assert(whole == q + y);
    assert(whole[0] == p[0] && whole[0] == q[0]);
    if whole[0] == '\\' {
        assert(whole[1] == p[1] && whole[1] == q[1]);
        if whole[1] == 'u' {
            assert(p.len() == 6 && q.len() == 6);
            assert(whole[4] == p[4] && whole[4] == q[4]);
            assert(whole[5] == p[5] && whole[5] == q[5]);
            assert(hex_digit(c as int / 16) == hex_digit(d as int / 16));
            assert(hex_digit(c as int % 16) == hex_digit(d as int % 16));
            assert((c as int) < 32 && (d as int) < 32);
            assert(c as int / 16 == d as int / 16);
            assert(c as int % 16 == d as int % 16);
            assert(c as int == d as int);
        }
    }
    assert(c == d);
    assert(x =~= whole.skip(p.len() as int));
    assert(y =~= (q + y).skip(q.len() as int));
}

proof fn inner_from_the_front(s: Seq<char>)
    requires
        s.len() > 0,
    ensures
        json_inner(s) == json_escaped(s[0]) + json_inner(s.drop_first()),
    decreases s.len(),
{
    if s.len() == 1 {
        assert(s.drop_last() =~= Seq::<char>::empty());
        assert(s.drop_first() =~= Seq::<char>::empty());
        assert(json_inner(Seq::<char>::empty()) =~= Seq::<char>::empty());
        assert(json_inner(s) =~= json_escaped(s[0]) + json_inner(s.drop_first()));
    } else {
        let front = s.drop_last();
        inner_from_the_front(front);
        assert(front.drop_first() =~= s.drop_first().drop_last());
        assert(s.drop_first().last() == s.last());
        assert(json_inner(s) =~= json_escaped(s[0]) + json_inner(s.drop_first()));
    }
}

proof fn inners_differ(s: Seq<char>, t: Seq<char>, x: Seq<char>, y: Seq<char>)
    requires
        json_inner(s) + (seq!['"'] + x) == json_inner(t) + (seq!['"'] + y),
    ensures
        s == t,
        x == y,
    decreases s.len(),
{
    let whole = json_inner(s) + (seq!['"'] + x);
    let other = json_inner(t) + (seq!['"'] + y);
    if s.len() > 0 {
        inner_from_the_front(s);
        assert(whole[0] == json_escaped(s[0])[0]);
    }
    if t.len() > 0 {
        inner_from_the_front(t);
        assert(other[0] == json_escaped(t[0])[0]);
    }
    if s.len() == 0 && t.len() == 0 {
        assert(s =~= t);
        assert(x =~= whole.skip(1));
        assert(y =~= other.skip(1));
    } else if s.len() == 0 {
        assert(whole[0] == '"');
        assert(false);
    } else if t.len() == 0 {
        assert(other[0] == '"');
        assert(false);
    } else {
        let more = json_inner(s.drop_first()) + (seq!['"'] + x);
        let rest = json_inner(t.drop_first()) + (seq!['"'] + y);
        assert(whole =~= json_escaped(s[0]) + more);
        assert(other =~= json_escaped(t[0]) + rest);
        escapes_differ(s[0], t[0], more, rest);
        inners_differ(s.drop_first(), t.drop_first(), x, y);
        assert(s =~= seq![s[0]] + s.drop_first());
        assert(t =~= seq![t[0]] + t.drop_first());
    }
}

/// Where a quoted text ends is told by the text alone.
pub proof fn quotes_differ(s: Seq<char>, t: Seq<char>, x: Seq<char>, y: Seq<char>)
    requires
        json_quoted(s) + x == json_quoted(t) + y,
    ensures
        s == t,
        x == y,
{
    let whole = json_quoted(s) + x;
    let other = json_quoted(t) + y;
    assert(whole.skip(1) =~= json_inner(s) + (seq!['"'] + x));
    assert(other.skip(1) =~= json_inner(t) + (seq!['"'] + y));
    inners_differ(s, t, x, y);
}

proof fn first_character(v: JsonView)
    requires
        tidy(v),
    ensures
        json_text(v).len() > 0,
        match v {
            JsonView::Null => json_text(v)[0] == 'n',
            JsonView::Bool(b) => json_text(v)[0] == if b {
                't'
            } else {
                'f'
            },
            JsonView::Text(_) => json_text(v)[0] == '"',
            JsonView::Array(_) => json_text(v)[0] == '[',
            JsonView::Object(_) => json_text(v)[0] == '{',
            _ => in_number(json_text(v)[0]),
        },
{
    reveal_strlit("null");
    reveal_strlit("true");
    reveal_strlit("false");
    reveal_strlit("[");
    reveal_strlit("{");
    if is_number(v) {
        number_is_written(v);
    }
}

spec fn after_item(s: Seq<JsonView>) -> Seq<char> {
    if s.len() <= 1 {
        Seq::empty()
    } else {
        seq![','] + items_text(s.drop_first())
    }
}

proof fn items_from_the_front(s: Seq<JsonView>)
    requires
        s.len() > 0,
    ensures
        items_text(s) == json_text(s[0]) + after_item(s),
    decreases s.len(),
{
    reveal_strlit(",");
    assert(","@ =~= seq![',']);
    if s.len() > 1 {
        let front = s.drop_last();
        let rest = s.drop_first();
        items_from_the_front(front);
        assert(rest.last() == s.last());
        if s.len() > 2 {
            assert(front.drop_first() =~= rest.drop_last());
        }
        assert(items_text(s) =~= json_text(s[0]) + after_item(s));
    } else {
        assert(items_text(s) =~= json_text(s[0]) + after_item(s));
    }
}

spec fn field_text(f: (Seq<char>, JsonView)) -> Seq<char> {
    json_quoted(f.0) + seq![':'] + json_text(f.1)
}

spec fn after_field(s: Seq<(Seq<char>, JsonView)>) -> Seq<char> {
    if s.len() <= 1 {
        Seq::empty()
    } else {
        seq![','] + fields_text(s.drop_first())
    }
}

proof fn fields_from_the_front(s: Seq<(Seq<char>, JsonView)>)
    requires
        s.len() > 0,
    ensures
        fields_text(s) == field_text(s[0]) + after_field(s),
    decreases s.len(),
{
    reveal_strlit(",");
    reveal_strlit(":");
    assert(","@ =~= seq![',']);
    assert(":"@ =~= seq![':']);
    if s.len() > 1 {
        let front = s.drop_last();
        let rest = s.drop_first();
        fields_from_the_front(front);
        assert(rest.last() == s.last());
        if s.len() > 2 {
            assert(front.drop_first() =~= rest.drop_last());
        }
        assert(fields_text(s) =~= field_text(s[0]) + after_field(s));
    } else {
        assert(fields_text(s) =~= field_text(s[0]) + after_field(s));
    }
}

proof fn items_differ(
    a: JsonView,
    b: JsonView,
    i: int,
    x: Seq<char>,
    y: Seq<char>,
)
    requires
        a is Array,
        b is Array,
        tidy(a),
        tidy(b),
        0 <= i <= a->Array_0.len(),
        i <= b->Array_0.len(),
        items_text(a->Array_0.skip(i)) + (seq![']'] + x) == items_text(b->Array_0.skip(i)) + (
        seq![']'] + y),
    ensures
        a->Array_0.skip(i) == b->Array_0.skip(i),
        x == y,
    decreases a, 0nat, a->Array_0.len() - i,
{
    let (s, t) = (a->Array_0.skip(i), b->Array_0.skip(i));
    let whole = items_text(s) + (seq![']'] + x);
    let other = items_text(t) + (seq![']'] + y);
    if s.len() > 0 {
        assert(s[0] == a->Array_0[i]);
        items_from_the_front(s);
        first_character(s[0]);
        assert(whole[0] == json_text(s[0])[0]);
    }
    if t.len() > 0 {
        assert(t[0] == b->Array_0[i]);
        items_from_the_front(t);
        first_character(t[0]);
        assert(other[0] == json_text(t[0])[0]);
    }
    if s.len() == 0 && t.len() == 0 {
        assert(s =~= t);
        assert(x =~= whole.skip(1));
        assert(y =~= other.skip(1));
    } else if s.len() == 0 {
        assert(whole[0] == ']');
        assert(false);
    } else if t.len() == 0 {
        assert(other[0] == ']');
        assert(false);
    } else {
        let more = after_item(s) + (seq![']'] + x);
        let rest = after_item(t) + (seq![']'] + y);
        assert(whole =~= json_text(s[0]) + more);
        assert(other =~= json_text(t[0]) + rest);
        assert(decreases_to!(a => a->Array_0));
        assert(decreases_to!(a->Array_0 => a->Array_0[i]));
        values_differ(s[0], t[0], more, rest);
        assert(s.len() > 1 <==> more[0] == ',');
        assert(t.len() > 1 <==> rest[0] == ',');
        assert(s.drop_first() =~= a->Array_0.skip(i + 1));
        assert(t.drop_first() =~= b->Array_0.skip(i + 1));
        if s.len() > 1 {
            assert(more.skip(1) =~= items_text(s.drop_first()) + (seq![']'] + x));
            assert(rest.skip(1) =~= items_text(t.drop_first()) + (seq![']'] + y));
            items_differ(a, b, i + 1, x, y);
        } else {
            assert(more.skip(1) =~= x);
            assert(rest.skip(1) =~= y);
            assert(s.drop_first() =~= t.drop_first());
        }
        assert(s =~= seq![s[0]] + s.drop_first());
        assert(t =~= seq![t[0]] + t.drop_first());
    }
}

proof fn members_differ(
    f: (Seq<char>, JsonView),
    g: (Seq<char>, JsonView),
    x: Seq<char>,
    y: Seq<char>,
)
    requires
        field_text(f) + x == field_text(g) + y,
    ensures
        f.0 == g.0,
        json_text(f.1) + x == json_text(g.1) + y,
{
    let valued = seq![':'] + json_text(f.1) + x;
    let worth = seq![':'] + json_text(g.1) + y;
    assert(field_text(f) + x =~= json_quoted(f.0) + valued);
    assert(field_text(g) + y =~= json_quoted(g.0) + worth);
    quotes_differ(f.0, g.0, valued, worth);
    assert(valued.skip(1) =~= json_text(f.1) + x);
    assert(worth.skip(1) =~= json_text(g.1) + y);
}

#[verifier::rlimit(40)]
proof fn fields_differ(
    a: JsonView,
    b: JsonView,
    i: int,
    x: Seq<char>,
    y: Seq<char>,
)
    requires
        a is Object,
        b is Object,
        tidy(a),
        tidy(b),
        0 <= i <= a->Object_0.len(),
        i <= b->Object_0.len(),
        fields_text(a->Object_0.skip(i)) + (seq!['}'] + x) == fields_text(b->Object_0.skip(i)) + (
        seq!['}'] + y),
    ensures
        a->Object_0.skip(i) == b->Object_0.skip(i),
        x == y,
    decreases a, 0nat, a->Object_0.len() - i,
{
    let (s, t) = (a->Object_0.skip(i), b->Object_0.skip(i));
    let whole = fields_text(s) + (seq!['}'] + x);
    let other = fields_text(t) + (seq!['}'] + y);
    if s.len() > 0 {
        assert(s[0] == a->Object_0[i]);
        fields_from_the_front(s);
        assert(whole[0] == '"');
    }
    if t.len() > 0 {
        assert(t[0] == b->Object_0[i]);
        fields_from_the_front(t);
        assert(other[0] == '"');
    }
    if s.len() == 0 && t.len() == 0 {
        assert(s =~= t);
        assert(x =~= whole.skip(1));
        assert(y =~= other.skip(1));
    } else if s.len() == 0 {
        assert(whole[0] == '}');
        assert(false);
    } else if t.len() == 0 {
        assert(other[0] == '}');
        assert(false);
    } else {
        let more = after_field(s) + (seq!['}'] + x);
        let rest = after_field(t) + (seq!['}'] + y);
        assert(whole =~= field_text(s[0]) + more);
        assert(other =~= field_text(t[0]) + rest);
        members_differ(s[0], t[0], more, rest);
        assert(decreases_to!(a => a->Object_0));
        assert(decreases_to!(a->Object_0 => a->Object_0[i]));
        assert(decreases_to!(a->Object_0[i] => a->Object_0[i].1));
        values_differ(s[0].1, t[0].1, more, rest);
        assert(s.len() > 1 <==> more[0] == ',');
        assert(t.len() > 1 <==> rest[0] == ',');
        assert(s.drop_first() =~= a->Object_0.skip(i + 1));
        assert(t.drop_first() =~= b->Object_0.skip(i + 1));
        if s.len() > 1 {
            assert(more.skip(1) =~= fields_text(s.drop_first()) + (seq!['}'] + x));
            assert(rest.skip(1) =~= fields_text(t.drop_first()) + (seq!['}'] + y));
            fields_differ(a, b, i + 1, x, y);
        } else {
            assert(more.skip(1) =~= x);
            assert(rest.skip(1) =~= y);
            assert(s.drop_first() =~= t.drop_first());
        }
        assert(s[0] == t[0]);
        assert(s =~= seq![s[0]] + s.drop_first());
        assert(t =~= seq![t[0]] + t.drop_first());
    }
}

/// Where the text of a value ends is told by the text alone, and no other value has it.
pub proof fn values_differ(a: JsonView, b: JsonView, x: Seq<char>, y: Seq<char>)
    requires
        tidy(a),
        tidy(b),
        ends(x),
        ends(y),
        json_text(a) + x == json_text(b) + y,
    ensures
        a == b,
        x == y,
    decreases a, 1nat, 0int,
{
    reveal_strlit("null");
    reveal_strlit("true");
    reveal_strlit("false");
    reveal_strlit("[");
    reveal_strlit("]");
    reveal_strlit("{");
    reveal_strlit("}");
    let (p, q) = (json_text(a), json_text(b));
    let whole = p + x;
    let other = q + y;
    first_character(a);
    first_character(b);
    assert(whole[0] == p[0] && other[0] == q[0]);
    match (a, b) {
        (JsonView::Text(s), JsonView::Text(t)) => {
            quotes_differ(s, t, x, y);
        },
        (JsonView::Array(s), JsonView::Array(t)) => {
            assert(s.skip(0) =~= s && t.skip(0) =~= t);
            assert(whole.skip(1) =~= items_text(s) + (seq![']'] + x));
            assert(other.skip(1) =~= items_text(t) + (seq![']'] + y));
            items_differ(a, b, 0, x, y);
        },
        (JsonView::Object(s), JsonView::Object(t)) => {
            assert(s.skip(0) =~= s && t.skip(0) =~= t);
            assert(whole.skip(1) =~= fields_text(s) + (seq!['}'] + x));
            assert(other.skip(1) =~= fields_text(t) + (seq!['}'] + y));
            fields_differ(a, b, 0, x, y);
        },
        _ => {
            if is_number(a) && is_number(b) {
                numbers_differ(a, b, x, y);
            } else {
                assert(a == b);
                assert(x =~= whole.skip(p.len() as int));
                assert(y =~= other.skip(q.len() as int));
            }
        },
    }
}

/// Two values with one text are one value: what the record commits to by a text, it
/// commits to alone.
pub proof fn text_is_of_one_value(a: JsonView, b: JsonView)
    requires
        tidy(a),
        tidy(b),
        json_text(a) == json_text(b),
    ensures
        a == b,
{
    let none = Seq::<char>::empty();
    assert(json_text(a) + none =~= json_text(a));
    assert(json_text(b) + none =~= json_text(b));
    values_differ(a, b, none, none);
}

proof fn identity_is_tidy(i: ArchIdentityView)
    requires
        tidy(JsonView::Object(i.sampling)),
    ensures
        tidy(identity_json(i)),
{
    let s = identity_json(i)->Object_0;
    assert forall|k: int| 0 <= k < s.len() implies tidy((#[trigger] s[k]).1) by {
        if k == 8 {
            assert(s[k].1 == JsonView::Object(i.sampling));
        } else {
            assert(s[k].1 is Text || s[k].1 is Unsigned || s[k].1 is Null);
        }
    }
}

/// An arch's id is the hash of a text that no other identity has: it is never one of
/// other weights, another engine or other settings.
pub proof fn id_text_is_of_one_identity(a: ArchIdentityView, b: ArchIdentityView)
    requires
        tidy(JsonView::Object(a.sampling)),
        tidy(JsonView::Object(b.sampling)),
        identity_text(a) == identity_text(b),
    ensures
        a == b,
{
    let (v, w) = (identity_json(a), identity_json(b));
    let (s, t) = (v->Object_0, w->Object_0);
    identity_is_tidy(a);
    identity_is_tidy(b);
    text_is_of_one_value(v, w);
    assert(s == t);
    assert(s[0].1 == t[0].1);
    assert(s[1].1 == t[1].1);
    assert(s[2].1 == t[2].1);
    assert(s[3].1 == t[3].1);
    assert(s[4].1 == t[4].1);
    assert(s[5].1 == t[5].1);
    assert(s[6].1 == t[6].1);
    assert(s[7].1 == t[7].1);
    assert(s[8].1 == t[8].1);
    assert(s[9].1 == t[9].1);
    assert(a =~= b);
}

/// Words and numbers are written as they are, and a text between quotes.
pub proof fn plain_value_is_written_as_it_is(name: Seq<char>, n: nat)
    ensures
        json_text(JsonView::Null) == "null"@,
        json_text(JsonView::Bool(true)) == "true"@,
        json_text(JsonView::Bool(false)) == "false"@,
        json_text(JsonView::Unsigned(n)) == decimal(n),
        json_text(JsonView::Text(name)) == json_quoted(name),
        json_text(JsonView::Real(name)) == name,
{
}

/// A list is written element by element, each behind the ones before it and after a comma.
pub proof fn list_is_written_part_by_part(items: Seq<JsonView>, x: JsonView)
    ensures
        json_text(JsonView::Array(seq![x])) == "["@ + json_text(x) + "]"@,
        items.len() > 0 ==> json_text(JsonView::Array(items.push(x))) == json_text(
            JsonView::Array(items),
        ).drop_last() + ","@ + json_text(x) + "]"@,
{
    reveal_strlit("]");
    assert(seq![x].last() == x);
    if items.len() > 0 {
        let more = items.push(x);
        assert(more.drop_last() =~= items);
        assert(items_text(more) == items_text(items) + ","@ + json_text(x));
        let whole = json_text(JsonView::Array(items));
        assert(whole == "["@ + items_text(items) + "]"@);
        assert(whole.drop_last() =~= "["@ + items_text(items));
        let long = json_text(JsonView::Array(more));
        assert(long == "["@ + items_text(more) + "]"@);
        assert("["@ + (items_text(items) + ","@ + json_text(x)) + "]"@ =~= "["@ + items_text(items)
            + ","@ + json_text(x) + "]"@);
    }
}

/// An object is written member by member, each behind the ones before it and after a comma.
pub proof fn object_is_written_part_by_part(
    fields: Seq<(Seq<char>, JsonView)>,
    name: Seq<char>,
    x: JsonView,
)
    ensures
        json_text(JsonView::Object(seq![(name, x)])) == "{"@ + (json_quoted(name) + ":"@ + json_text(
            x,
        )) + "}"@,
        fields.len() > 0 ==> json_text(JsonView::Object(fields.push((name, x)))) == json_text(
            JsonView::Object(fields),
        ).drop_last() + ","@ + (json_quoted(name) + ":"@ + json_text(x)) + "}"@,
{
    reveal_strlit("}");
    assert(seq![(name, x)].last() == (name, x));
    if fields.len() > 0 {
        let more = fields.push((name, x));
        let one = json_quoted(name) + ":"@ + json_text(x);
        assert(more.drop_last() =~= fields);
        assert(more.last() == (name, x));
        assert(fields_text(more) == fields_text(fields) + ","@ + one);
        let whole = json_text(JsonView::Object(fields));
        assert(whole == "{"@ + fields_text(fields) + "}"@);
        assert(whole.drop_last() =~= "{"@ + fields_text(fields));
        let long = json_text(JsonView::Object(more));
        assert(long == "{"@ + fields_text(more) + "}"@);
        assert("{"@ + (fields_text(fields) + ","@ + one) + "}"@ =~= "{"@ + fields_text(fields)
            + ","@ + one + "}"@);
    }
}

/// How values are laid out: every element and every member on a line of its own, two blanks
/// further in, behind the ones before it; and what has no parts as it is written anywhere.
pub proof fn value_is_laid_out_line_by_line(
    items: Seq<JsonView>,
    fields: Seq<(Seq<char>, JsonView)>,
    x: JsonView,
    name: Seq<char>,
    pad: Seq<char>,
)
    ensures
        x !is Array && x !is Object ==> pretty_text(x, pad) == json_text(x),
        pretty_text(JsonView::Array(Seq::empty()), pad) == "[]"@,
        pretty_text(JsonView::Object(Seq::empty()), pad) == "{}"@,
        pretty_text(JsonView::Array(seq![x]), pad) == "[\n"@ + pad + "  "@ + pretty_text(
            x,
            pad + "  "@,
        ) + "\n"@ + pad + "]"@,
        pretty_text(JsonView::Object(seq![(name, x)]), pad) == "{\n"@ + pad + "  "@ + json_quoted(
            name,
        ) + ": "@ + pretty_text(x, pad + "  "@) + "\n"@ + pad + "}"@,
        items.len() > 0 ==> items_lines(items.push(x), pad) == items_lines(items, pad) + ",\n"@ + (
        pad + pretty_text(x, pad)),
        fields.len() > 0 ==> fields_lines(fields.push((name, x)), pad) == fields_lines(fields, pad)
            + ",\n"@ + (pad + json_quoted(name) + ": "@ + pretty_text(x, pad)),
{
    assert(seq![x].last() == x);
    assert(seq![(name, x)].last() == (name, x));
    assert(pretty_text(JsonView::Array(seq![x]), pad) =~= "[\n"@ + pad + "  "@ + pretty_text(
        x,
        pad + "  "@,
    ) + "\n"@ + pad + "]"@);
    assert(pretty_text(JsonView::Object(seq![(name, x)]), pad) =~= "{\n"@ + pad + "  "@
        + json_quoted(name) + ": "@ + pretty_text(x, pad + "  "@) + "\n"@ + pad + "}"@);
    if items.len() > 0 {
        assert(items.push(x).drop_last() =~= items);
    }
    if fields.len() > 0 {
        assert(fields.push((name, x)).drop_last() =~= fields);
    }
}

} // verus!
