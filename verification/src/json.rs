//! JSON values: what crosses the wire, and what the ledger commits to.
use crate::hash::{hash_text, text_hash};
use crate::model::{all, opt, Duplicate};
use crate::outside::{json_quote, json_quoted};
use crate::text::{
    cat3, decimal, decimal_text, own, same, signed_decimal, signed_decimal_text,
};
use vstd::prelude::*;

verus! {

/// A member of an object.
#[derive(Debug)]
pub struct Member {
    pub name: String,
    pub value: Json,
}

/// A JSON value. A number that is not a whole number that fits is kept as it is
/// written: nothing here computes with one.
#[derive(Debug)]
pub enum Json {
    Null,
    Bool(bool),
    Unsigned(u64),
    Negative(i64),
    Real(String),
    Text(String),
    Array(Vec<Json>),
    Object(Vec<Member>),
}

/// What a JSON value says.
pub enum JsonView {
    Null,
    Bool(bool),
    Unsigned(nat),
    Negative(int),
    Real(Seq<char>),
    Text(Seq<char>),
    Array(Seq<JsonView>),
    Object(Seq<(Seq<char>, JsonView)>),
}

/// What `j` says.
pub open spec fn json_view(j: Json) -> JsonView
    decreases j,
{
    match j {
        Json::Null => JsonView::Null,
        Json::Bool(b) => JsonView::Bool(b),
        Json::Unsigned(n) => JsonView::Unsigned(n as nat),
        Json::Negative(n) => JsonView::Negative(n as int),
        Json::Real(digits) => JsonView::Real(digits@),
        Json::Text(s) => JsonView::Text(s@),
        Json::Array(v) => JsonView::Array(
            Seq::new(
                v@.len(),
                |i: int|
                    if 0 <= i < v@.len() {
                        json_view(v@[i])
                    } else {
                        JsonView::Null
                    },
            ),
        ),
        Json::Object(v) => JsonView::Object(
            Seq::new(
                v@.len(),
                |i: int|
                    if 0 <= i < v@.len() {
                        (v@[i].name@, json_view(v@[i].value))
                    } else {
                        (Seq::empty(), JsonView::Null)
                    },
            ),
        ),
    }
}

impl View for Json {
    type V = JsonView;

    open spec fn view(&self) -> JsonView {
        json_view(*self)
    }
}

/// What a list of values says.
pub open spec fn views(s: Seq<Json>) -> Seq<JsonView> {
    Seq::new(s.len(), |i: int| s[i]@)
}

/// What the members of an object say.
pub open spec fn members(s: Seq<Member>) -> Seq<(Seq<char>, JsonView)> {
    Seq::new(s.len(), |i: int| (s[i].name@, s[i].value@))
}

/// The value under `name`, if there is one.
pub open spec fn member(s: Seq<(Seq<char>, JsonView)>, name: Seq<char>) -> Option<JsonView>
    decreases s.len(),
{
    if s.len() == 0 {
        None
    } else if s[0].0 == name {
        Some(s[0].1)
    } else {
        member(s.drop_first(), name)
    }
}

/// The value an object has under `name`; nothing else has members.
pub open spec fn field(v: JsonView, name: Seq<char>) -> Option<JsonView> {
    match v {
        JsonView::Object(s) => member(s, name),
        _ => None,
    }
}

/// The text under `name`, if there is a text there.
pub open spec fn text_field(v: JsonView, name: Seq<char>) -> Option<Seq<char>> {
    match field(v, name) {
        Some(JsonView::Text(s)) => Some(s),
        _ => None,
    }
}

/// The whole number under `name`, if there is one there.
pub open spec fn number_field(v: JsonView, name: Seq<char>) -> Option<nat> {
    match field(v, name) {
        Some(JsonView::Unsigned(n)) => Some(n),
        _ => None,
    }
}

/// The truth value under `name`, if there is one there.
pub open spec fn bool_field(v: JsonView, name: Seq<char>) -> Option<bool> {
    match field(v, name) {
        Some(JsonView::Bool(b)) => Some(b),
        _ => None,
    }
}

impl Json {
    /// The value an object has under `name`.
    pub fn get(&self, name: &str) -> (r: Option<&Json>)
        ensures
            r is Some <==> field(self@, name@) is Some,
            r is Some ==> r->0@ == field(self@, name@)->0,
    {
        match self {
            Json::Object(v) => {
                let mut i: usize = 0;
                let ghost all = self@->Object_0;
                assert(all.len() == v@.len());
                assert(all.skip(0) =~= all);
                while i < v.len()
                    invariant
                        i <= v@.len(),
                        self@ == JsonView::Object(all),
                        all.len() == v@.len(),
                        forall|k: int|
                            0 <= k < v@.len() ==> #[trigger] all[k] == (v@[k].name@, v@[k].value@),
                        member(all, name@) == member(all.skip(i as int), name@),
                    decreases v@.len() - i,
                {
                    let ghost rest = all.skip(i as int);
                    assert(rest[0] == all[i as int]);
                    assert(rest.drop_first() =~= all.skip(i + 1));
                    if same(v[i].name.as_str(), name) {
                        return Some(&v[i].value);
                    }
                    i += 1;
                }
                None
            },
            _ => None,
        }
    }

    /// The text this value is, if it is one.
    pub fn as_text(&self) -> (r: Option<&String>)
        ensures
            r is Some <==> self@ is Text,
            r is Some ==> r->0@ == self@->Text_0,
    {
        match self {
            Json::Text(s) => Some(s),
            _ => None,
        }
    }

    /// The whole number this value is, if it is one and not negative.
    pub fn as_number(&self) -> (r: Option<u64>)
        ensures
            r is Some <==> self@ is Unsigned,
            r is Some ==> r->0 == self@->Unsigned_0,
    {
        match self {
            Json::Unsigned(n) => Some(*n),
            _ => None,
        }
    }

    /// The truth value this value is, if it is one.
    pub fn as_bool(&self) -> (r: Option<bool>)
        ensures
            r is Some <==> self@ is Bool,
            r is Some ==> r->0 == self@->Bool_0,
    {
        match self {
            Json::Bool(b) => Some(*b),
            _ => None,
        }
    }

    /// The text under `name`, if there is a text there.
    pub fn text_at(&self, name: &str) -> (r: Option<&String>)
        ensures
            r is Some <==> text_field(self@, name@) is Some,
            r is Some ==> r->0@ == text_field(self@, name@)->0,
    {
        match self.get(name) {
            Some(v) => v.as_text(),
            None => None,
        }
    }

    /// The whole number under `name`, if there is one there.
    pub fn number_at(&self, name: &str) -> (r: Option<u64>)
        ensures
            r is Some <==> number_field(self@, name@) is Some,
            r is Some ==> r->0 == number_field(self@, name@)->0,
    {
        match self.get(name) {
            Some(v) => v.as_number(),
            None => None,
        }
    }

    /// The truth value under `name`, if there is one there.
    pub fn bool_at(&self, name: &str) -> (r: Option<bool>)
        ensures
            r is Some <==> bool_field(self@, name@) is Some,
            r is Some ==> r->0 == bool_field(self@, name@)->0,
    {
        match self.get(name) {
            Some(v) => v.as_bool(),
            None => None,
        }
    }

    /// A value that says the same.
    pub fn copy(&self) -> (r: Json)
        ensures
            r@ == self@,
        decreases self,
    {
        match self {
            Json::Null => Json::Null,
            Json::Bool(b) => Json::Bool(*b),
            Json::Unsigned(n) => Json::Unsigned(*n),
            Json::Negative(n) => Json::Negative(*n),
            Json::Real(digits) => Json::Real(digits.clone()),
            Json::Text(s) => Json::Text(s.clone()),
            Json::Array(v) => {
                let mut w: Vec<Json> = Vec::new();
                let mut i: usize = 0;
                while i < v.len()
                    invariant
                        i <= v@.len(),
                        *self == Json::Array(*v),
                        w@.len() == i,
                        forall|k: int| 0 <= k < i ==> #[trigger] w@[k]@ == v@[k]@,
                    decreases v@.len() - i,
                {
                    assert(decreases_to!(*self => self->Array_0));
                    assert(decreases_to!(self->Array_0 => self->Array_0@));
                    assert(decreases_to!(self->Array_0@ => v@[i as int]));
                    w.push(v[i].copy());
                    i += 1;
                }
                let r = Json::Array(w);
                assert(views(w@) =~= views(v@));
                assert(r@->Array_0 =~= views(w@));
                assert(self@->Array_0 =~= views(v@));
                r
            },
            Json::Object(v) => {
                let mut w: Vec<Member> = Vec::new();
                let mut i: usize = 0;
                while i < v.len()
                    invariant
                        i <= v@.len(),
                        *self == Json::Object(*v),
                        w@.len() == i,
                        forall|k: int|
                            0 <= k < i ==> (#[trigger] w@[k]).name@ == v@[k].name@ && w@[k].value@
                                == v@[k].value@,
                    decreases v@.len() - i,
                {
                    assert(decreases_to!(*self => self->Object_0));
                    assert(decreases_to!(self->Object_0 => self->Object_0@));
                    assert(decreases_to!(self->Object_0@ => v@[i as int]));
                    assert(decreases_to!(v@[i as int] => v@[i as int].value));
                    w.push(Member { name: v[i].name.clone(), value: v[i].value.copy() });
                    i += 1;
                }
                let r = Json::Object(w);
                assert(r@->Object_0 =~= self@->Object_0);
                r
            },
        }
    }
}

impl Duplicate for Json {
    fn dup(&self) -> (r: Self) {
        self.copy()
    }
}

/// Members that say the same.
pub fn copy_members(v: &Vec<Member>) -> (r: Vec<Member>)
    ensures
        members(r@) == members(v@),
{
    let mut w: Vec<Member> = Vec::new();
    let mut i: usize = 0;
    while i < v.len()
        invariant
            i <= v@.len(),
            w@.len() == i,
            forall|k: int|
                0 <= k < i ==> (#[trigger] w@[k]).name@ == v@[k].name@ && w@[k].value@
                    == v@[k].value@,
        decreases v@.len() - i,
    {
        w.push(Member { name: v[i].name.clone(), value: v[i].value.copy() });
        i += 1;
    }
    assert(members(w@) =~= members(v@));
    w
}

/// An object with these members.
pub fn members_to_json(v: &Vec<Member>) -> (r: Json)
    ensures
        r@ == JsonView::Object(members(v@)),
{
    let r = Json::Object(copy_members(v));
    assert(r@->Object_0 =~= members(v@));
    r
}

/// Whether two values say the same.
pub fn same_json(a: &Json, b: &Json) -> (r: bool)
    ensures
        r == (a@ == b@),
    decreases a, 1nat,
{
    match (a, b) {
        (Json::Null, Json::Null) => true,
        (Json::Bool(x), Json::Bool(y)) => *x == *y,
        (Json::Unsigned(x), Json::Unsigned(y)) => *x == *y,
        (Json::Negative(x), Json::Negative(y)) => *x == *y,
        (Json::Real(x), Json::Real(y)) => same(x.as_str(), y.as_str()),
        (Json::Text(x), Json::Text(y)) => same(x.as_str(), y.as_str()),
        (Json::Array(v), Json::Array(w)) => {
            assert(a@->Array_0 =~= views(v@));
            assert(b@->Array_0 =~= views(w@));
            if v.len() != w.len() {
                assert(views(v@).len() != views(w@).len());
                return false;
            }
            let mut i: usize = 0;
            while i < v.len()
                invariant
                    i <= v@.len(),
                    v@.len() == w@.len(),
                    *a == Json::Array(*v),
                    a@ == JsonView::Array(views(v@)),
                    b@ == JsonView::Array(views(w@)),
                    forall|k: int| 0 <= k < i ==> #[trigger] v@[k]@ == w@[k]@,
                decreases v@.len() - i,
            {
                assert(decreases_to!(*a => a->Array_0));
                assert(decreases_to!(a->Array_0 => a->Array_0@));
                assert(decreases_to!(a->Array_0@ => v@[i as int]));
                if !same_json(&v[i], &w[i]) {
                    assert(views(v@)[i as int] != views(w@)[i as int]);
                    return false;
                }
                i += 1;
            }
            assert(views(v@) =~= views(w@));
            true
        },
        (Json::Object(v), Json::Object(w)) => {
            assert(a@->Object_0 =~= members(v@));
            assert(b@->Object_0 =~= members(w@));
            assert(decreases_to!(*a => a->Object_0));
            same_members(v, w)
        },
        _ => false,
    }
}

/// Whether the members of two objects say the same, in the same order.
pub fn same_members(v: &Vec<Member>, w: &Vec<Member>) -> (r: bool)
    ensures
        r == (members(v@) == members(w@)),
    decreases v, 0nat,
{
    if v.len() != w.len() {
        assert(members(v@).len() != members(w@).len());
        return false;
    }
    let mut i: usize = 0;
    while i < v.len()
        invariant
            i <= v@.len(),
            v@.len() == w@.len(),
            forall|k: int| 0 <= k < i ==> #[trigger] members(v@)[k] == members(w@)[k],
        decreases v@.len() - i,
    {
        assert(decreases_to!(*v => v@));
        assert(decreases_to!(v@ => v@[i as int]));
        assert(decreases_to!(v@[i as int] => v@[i as int].value));
        if !same(v[i].name.as_str(), w[i].name.as_str()) || !same_json(&v[i].value, &w[i].value) {
            assert(members(v@)[i as int] != members(w@)[i as int]);
            return false;
        }
        i += 1;
    }
    assert(members(v@) =~= members(w@));
    true
}

/// A value that stands for named parts: an object has them under their names, and an
/// array has them in this order, where the last ones may be left out down to `least`.
pub open spec fn named(v: JsonView, names: Seq<Seq<char>>, least: nat) -> JsonView {
    match v {
        JsonView::Array(items) => if least <= items.len() <= names.len() {
            JsonView::Object(Seq::new(items.len(), |i: int| (names[i], items[i])))
        } else {
            JsonView::Null
        },
        _ => v,
    }
}

/// A value that stands for named parts, as an object.
pub fn with_names(v: &Json, names: &Vec<&str>, least: usize) -> (r: Json)
    ensures
        r@ == named(v@, all(names@), least as nat),
{
    match v {
        Json::Array(items) => {
            let ghost said = v@->Array_0;
            assert(said =~= views(items@));
            if items.len() < least || items.len() > names.len() {
                return Json::Null;
            }
            let mut w: Vec<Member> = Vec::new();
            let mut i: usize = 0;
            while i < items.len()
                invariant
                    i <= items@.len(),
                    items@.len() <= names@.len(),
                    w@.len() == i,
                    forall|k: int|
                        0 <= k < i ==> (#[trigger] w@[k]).name@ == names@[k]@ && w@[k].value@
                            == items@[k]@,
                decreases items@.len() - i,
            {
                w.push(Member { name: own(names[i]), value: items[i].copy() });
                i += 1;
            }
            let r = Json::Object(w);
            assert(r@->Object_0 =~= Seq::new(said.len(), |i: int| (all(names@)[i], said[i])));
            r
        },
        _ => v.copy(),
    }
}

/// A text value.
pub fn text(s: &str) -> (r: Json)
    ensures
        r@ == JsonView::Text(s@),
{
    Json::Text(own(s))
}

/// A text, or nothing.
pub open spec fn optional_text(s: Option<Seq<char>>) -> JsonView {
    match s {
        Some(t) => JsonView::Text(t),
        None => JsonView::Null,
    }
}

/// The members of an object under construction.
pub struct Fields {
    members: Vec<Member>,
}

impl View for Fields {
    type V = Seq<(Seq<char>, JsonView)>;

    closed spec fn view(&self) -> Seq<(Seq<char>, JsonView)> {
        members(self.members@)
    }
}

impl Fields {
    /// No members yet.
    pub fn new() -> (r: Fields)
        ensures
            r@ == Seq::<(Seq<char>, JsonView)>::empty(),
    {
        let r = Fields { members: Vec::new() };
        assert(r@ =~= Seq::<(Seq<char>, JsonView)>::empty());
        r
    }

    /// One more member, after those that are there.
    pub fn put(&mut self, name: &str, value: Json)
        ensures
            final(self)@ == old(self)@.push((name@, value@)),
    {
        let ghost v = value@;
        self.members.push(Member { name: own(name), value });
        assert(self@ =~= old(self)@.push((name@, v)));
    }

    /// One more text member, after those that are there.
    pub fn put_text(&mut self, name: &str, value: &str)
        ensures
            final(self)@ == old(self)@.push((name@, JsonView::Text(value@))),
    {
        self.put(name, text(value));
    }

    /// The object.
    pub fn object(self) -> (r: Json)
        ensures
            r@ == JsonView::Object(self@),
    {
        let r = Json::Object(self.members);
        assert(r@->Object_0 =~= self@);
        r
    }
}

/// The members of an object, after those that are there.
pub fn put_members(f: &mut Fields, v: &Json)
    requires
        v@ is Object,
    ensures
        final(f)@ == old(f)@ + v@->Object_0,
{
    if let Json::Object(ms) = v {
        let ghost start = f@;
        let ghost views = v@->Object_0;
        assert(views.len() == ms@.len());
        let mut i: usize = 0;
        assert(start + views.take(0) =~= start);
        while i < ms.len()
            invariant
                i <= ms@.len(),
                views.len() == ms@.len(),
                forall|k: int|
                    0 <= k < ms@.len() ==> #[trigger] views[k] == (ms@[k].name@, ms@[k].value@),
                f@ == start + views.take(i as int),
            decreases ms@.len() - i,
        {
            assert(views[i as int] == (ms@[i as int].name@, ms@[i as int].value@));
            f.put(ms[i].name.as_str(), ms[i].value.copy());
            i += 1;
            assert(f@ =~= start + views.take(i as int));
        }
        assert(views.take(i as int) =~= views);
    }
}

/// The elements of an array under construction.
pub struct Items {
    items: Vec<Json>,
}

impl View for Items {
    type V = Seq<JsonView>;

    closed spec fn view(&self) -> Seq<JsonView> {
        views(self.items@)
    }
}

impl Items {
    /// No elements yet.
    pub fn new() -> (r: Items)
        ensures
            r@ == Seq::<JsonView>::empty(),
    {
        let r = Items { items: Vec::new() };
        assert(r@ =~= Seq::<JsonView>::empty());
        r
    }

    /// One more element at the end.
    pub fn add(&mut self, value: Json)
        ensures
            final(self)@ == old(self)@.push(value@),
    {
        let ghost v = value@;
        self.items.push(value);
        assert(self@ =~= old(self)@.push(v));
    }

    /// The array.
    pub fn array(self) -> (r: Json)
        ensures
            r@ == JsonView::Array(self@),
    {
        let r = Json::Array(self.items);
        assert(r@->Array_0 =~= self@);
        r
    }
}

/// A value as compact JSON text, its members in their order.
pub open spec fn json_text(v: JsonView) -> Seq<char>
    decreases v, 0nat,
{
    match v {
        JsonView::Null => "null"@,
        JsonView::Bool(b) => if b {
            "true"@
        } else {
            "false"@
        },
        JsonView::Unsigned(n) => decimal(n),
        JsonView::Negative(n) => signed_decimal(n),
        JsonView::Real(digits) => digits,
        JsonView::Text(s) => json_quoted(s),
        JsonView::Array(items) => "["@ + items_text(items) + "]"@,
        JsonView::Object(fields) => "{"@ + fields_text(fields) + "}"@,
    }
}

/// The elements of an array, with commas between them.
pub open spec fn items_text(items: Seq<JsonView>) -> Seq<char>
    decreases items, items.len(),
{
    if items.len() == 0 {
        Seq::empty()
    } else if items.len() == 1 {
        json_text(items.last())
    } else {
        items_text(items.drop_last()) + ","@ + json_text(items.last())
    }
}

/// The members of an object, with commas between them.
pub open spec fn fields_text(fields: Seq<(Seq<char>, JsonView)>) -> Seq<char>
    decreases fields, fields.len(),
{
    if fields.len() == 0 {
        Seq::empty()
    } else {
        let last = json_quoted(fields.last().0) + ":"@ + json_text(fields.last().1);
        if fields.len() == 1 {
            last
        } else {
            fields_text(fields.drop_last()) + ","@ + last
        }
    }
}

impl Json {
    /// This value as compact JSON text.
    pub fn render(&self) -> (r: String)
        ensures
            r@ == json_text(self@),
        decreases self,
    {
        match self {
            Json::Null => own("null"),
            Json::Bool(b) => if *b {
                own("true")
            } else {
                own("false")
            },
            Json::Unsigned(n) => decimal_text(*n),
            Json::Negative(n) => signed_decimal_text(*n),
            Json::Real(digits) => digits.clone(),
            Json::Text(s) => json_quote(s.as_str()),
            Json::Array(v) => {
                let ghost items = self@->Array_0;
                let mut inner = String::new();
                let mut i: usize = 0;
                assert(inner@ =~= items_text(items.take(0)));
                while i < v.len()
                    invariant
                        i <= v@.len(),
                        *self == Json::Array(*v),
                        items.len() == v@.len(),
                        forall|k: int| 0 <= k < v@.len() ==> #[trigger] items[k] == v@[k]@,
                        inner@ == items_text(items.take(i as int)),
                    decreases v@.len() - i,
                {
                    assert(decreases_to!(*self => self->Array_0));
                    assert(decreases_to!(self->Array_0 => self->Array_0@));
                    assert(decreases_to!(self->Array_0@ => v@[i as int]));
                    assert(items.take(i + 1).drop_last() =~= items.take(i as int));
                    assert(items.take(i + 1).last() == v@[i as int]@);
                    let one = v[i].render();
                    if i == 0 {
                        inner = one;
                    } else {
                        inner = cat3(inner.as_str(), ",", one.as_str());
                    }
                    i += 1;
                }
                assert(items.take(i as int) =~= items);
                cat3("[", inner.as_str(), "]")
            },
            Json::Object(v) => {
                let ghost fields = self@->Object_0;
                let mut inner = String::new();
                let mut i: usize = 0;
                assert(inner@ =~= fields_text(fields.take(0)));
                while i < v.len()
                    invariant
                        i <= v@.len(),
                        *self == Json::Object(*v),
                        fields.len() == v@.len(),
                        forall|k: int|
                            0 <= k < v@.len() ==> #[trigger] fields[k] == (
                                v@[k].name@,
                                v@[k].value@,
                            ),
                        inner@ == fields_text(fields.take(i as int)),
                    decreases v@.len() - i,
                {
                    assert(decreases_to!(*self => self->Object_0));
                    assert(decreases_to!(self->Object_0 => self->Object_0@));
                    assert(decreases_to!(self->Object_0@ => v@[i as int]));
                    assert(decreases_to!(v@[i as int] => v@[i as int].value));
                    assert(fields.take(i + 1).drop_last() =~= fields.take(i as int));
                    assert(fields.take(i + 1).last() == (v@[i as int].name@, v@[i as int].value@));
                    let name = json_quote(v[i].name.as_str());
                    let value = v[i].value.render();
                    let one = cat3(name.as_str(), ":", value.as_str());
                    if i == 0 {
                        inner = one;
                    } else {
                        inner = cat3(inner.as_str(), ",", one.as_str());
                    }
                    i += 1;
                }
                assert(fields.take(i as int) =~= fields);
                cat3("{", inner.as_str(), "}")
            },
        }
    }
}

/// The content hash of a value: of its compact JSON text.
pub open spec fn canonical_hash(v: JsonView) -> Seq<char> {
    text_hash(json_text(v))
}

/// The content hash of a value.
pub fn hash_canonical(j: &Json) -> (r: String)
    ensures
        r@ == canonical_hash(j@),
{
    hash_text(j.render().as_str())
}

/// A list of texts as a JSON array.
pub open spec fn texts_json(s: Seq<Seq<char>>) -> JsonView {
    JsonView::Array(s.map_values(|t: Seq<char>| JsonView::Text(t)))
}

/// A list of texts as a JSON array.
pub fn texts_to_json(v: &Vec<String>) -> (r: Json)
    ensures
        r@ == texts_json(all(v@)),
{
    let mut items = Items::new();
    let mut i: usize = 0;
    while i < v.len()
        invariant
            i <= v@.len(),
            items@.len() == i,
            forall|k: int| 0 <= k < i ==> #[trigger] items@[k] == JsonView::Text(v@[k]@),
        decreases v@.len() - i,
    {
        items.add(text(v[i].as_str()));
        i += 1;
    }
    assert(items@ =~= all(v@).map_values(|t: Seq<char>| JsonView::Text(t)));
    items.array()
}

/// A text, or null.
pub fn optional_text_to_json(s: &Option<String>) -> (r: Json)
    ensures
        r@ == optional_text(opt(*s)),
{
    match s {
        Some(t) => text(t.as_str()),
        None => Json::Null,
    }
}

/// A number, or null.
pub open spec fn optional_number(n: Option<u64>) -> JsonView {
    match n {
        Some(m) => JsonView::Unsigned(m as nat),
        None => JsonView::Null,
    }
}

/// A number, or null.
pub fn optional_number_to_json(n: Option<u64>) -> (r: Json)
    ensures
        r@ == optional_number(n),
{
    match n {
        Some(m) => Json::Unsigned(m),
        None => Json::Null,
    }
}

/// A whole number, below zero or not.
pub open spec fn number_json(n: int) -> JsonView {
    if n < 0 {
        JsonView::Negative(n)
    } else {
        JsonView::Unsigned(n as nat)
    }
}

/// A whole number, below zero or not.
pub fn number_to_json(n: i64) -> (r: Json)
    ensures
        r@ == number_json(n as int),
{
    if n < 0 {
        Json::Negative(n)
    } else {
        Json::Unsigned(n as u64)
    }
}

} // verus!
