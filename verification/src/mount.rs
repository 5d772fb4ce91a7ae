//! What a mount records, so that the arch can be made again.
use crate::json::{Json, JsonView};
use crate::model::{opt, Duplicate};
use crate::text::{cat3, chars_of, own};
use vstd::prelude::*;

verus! {

/// How to make an arch again: its kind, and that kind's configuration.
#[derive(Debug)]
pub struct MountSpec {
    pub kind: String,
    pub config: Json,
}

/// What a [`MountSpec`] says.
pub struct MountSpecView {
    pub kind: Seq<char>,
    pub config: JsonView,
}

impl View for MountSpec {
    type V = MountSpecView;

    open spec fn view(&self) -> MountSpecView {
        MountSpecView { kind: self.kind@, config: self.config@ }
    }
}

impl Duplicate for MountSpec {
    fn dup(&self) -> (r: Self) {
        MountSpec { kind: self.kind.dup(), config: self.config.dup() }
    }
}

/// An ASCII capital in lower case, and any other character as it is.
pub open spec fn lower(c: char) -> char {
    if 'A' <= c <= 'Z' {
        (c as u8 + 32) as char
    } else {
        c
    }
}

/// Whether `word` stands at place `i` of `name`, whatever the case.
pub open spec fn stands_at(name: Seq<char>, word: Seq<char>, i: int) -> bool {
    &&& 0 <= i <= name.len() - word.len()
    &&& forall|j: int| 0 <= j < word.len() ==> lower(#[trigger] name[i + j]) == word[j]
}

/// Whether `word` stands anywhere in `name`, whatever the case.
pub open spec fn mentions(name: Seq<char>, word: Seq<char>) -> bool {
    exists|i: int| stands_at(name, word, i)
}

/// Whether a name is that of a credential.
pub open spec fn names_secret(name: Seq<char>) -> bool {
    mentions(name, "key"@) || mentions(name, "token"@) || mentions(name, "secret"@) || mentions(
        name,
        "password"@,
    ) || mentions(name, "credential"@)
}

fn lower_char(c: char) -> (r: char)
    ensures
        r == lower(c),
{
    if 'A' <= c && c <= 'Z' {
        (c as u8 + 32u8) as char
    } else {
        c
    }
}

fn has_word(name: &Vec<char>, word: &str) -> (r: bool)
    ensures
        r == mentions(name@, word@),
{
    let w = chars_of(word);
    if w.len() > name.len() {
        assert forall|k: int| !stands_at(name@, word@, k) by {}
        return false;
    }
    let n: usize = name.len();
    let last: usize = n - w.len();
    let mut i: usize = 0;
    loop
        invariant
            i <= last,
            n == name@.len(),
            last == n - w@.len(),
            w@ == word@,
            forall|k: int| 0 <= k < i ==> !stands_at(name@, word@, k),
        decreases last - i,
    {
        let mut j: usize = 0;
        let mut here = true;
        while j < w.len() && here
            invariant
                i <= last,
                n == name@.len(),
                last == n - w@.len(),
                j <= w@.len(),
                w@ == word@,
                here ==> forall|k: int| 0 <= k < j ==> lower(#[trigger] name@[i + k]) == w@[k],
                !here ==> !stands_at(name@, word@, i as int),
            decreases w@.len() - j, here as int,
        {
            if lower_char(name[i + j]) != w[j] {
                here = false;
                assert(lower(name@[i + j]) != w@[j as int]);
            } else {
                j += 1;
            }
        }
        if here {
            assert(stands_at(name@, word@, i as int));
            return true;
        }
        if i == last {
            assert forall|k: int| !stands_at(name@, word@, k) by {}
            return false;
        }
        i += 1;
    }
}

/// Whether a name is that of a credential.
pub fn secret_name(name: &str) -> (r: bool)
    ensures
        r == names_secret(name@),
{
    let v = chars_of(name);
    has_word(&v, "key") || has_word(&v, "token") || has_word(&v, "secret") || has_word(
        &v,
        "password",
    ) || has_word(&v, "credential")
}

/// The name of the first credential in a configuration: a text under a name that
/// is a credential's, however deep, through lists and objects. A number or a
/// truth value is none.
pub open spec fn first_secret(v: JsonView, under: Option<Seq<char>>) -> Option<Seq<char>>
    decreases v, 0nat,
{
    match v {
        JsonView::Text(_) => under,
        JsonView::Array(items) => first_of_items(items, under),
        JsonView::Object(members) => first_of_members(members, under),
        _ => None,
    }
}

/// The name of the first credential among the elements of a list.
pub open spec fn first_of_items(items: Seq<JsonView>, under: Option<Seq<char>>) -> Option<Seq<char>>
    decreases items, items.len(),
{
    if items.len() == 0 {
        None
    } else {
        match first_of_items(items.drop_last(), under) {
            Some(name) => Some(name),
            None => first_secret(items.last(), under),
        }
    }
}

/// The name of the first credential among the members of an object.
pub open spec fn first_of_members(
    members: Seq<(Seq<char>, JsonView)>,
    under: Option<Seq<char>>,
) -> Option<Seq<char>>
    decreases members, members.len(),
{
    if members.len() == 0 {
        None
    } else {
        match first_of_members(members.drop_last(), under) {
            Some(name) => Some(name),
            None => {
                let m = members.last();
                first_secret(m.1, if names_secret(m.0) { Some(m.0) } else { under })
            },
        }
    }
}

fn find_secret(j: &Json, under: Option<&str>) -> (r: Option<String>)
    ensures
        opt(r) == first_secret(
            j@,
            match under {
                Some(name) => Some(name@),
                None => None,
            },
        ),
    decreases j,
{
    let ghost above = match under {
        Some(name) => Some(name@),
        None => None,
    };
    match j {
        Json::Text(_) => match under {
            Some(name) => Some(own(name)),
            None => None,
        },
        Json::Array(v) => {
            let ghost items = j@->Array_0;
            let mut found: Option<String> = None;
            let mut i: usize = 0;
            while i < v.len()
                invariant
                    i <= v@.len(),
                    *j == Json::Array(*v),
                    items.len() == v@.len(),
                    forall|k: int| 0 <= k < v@.len() ==> #[trigger] items[k] == v@[k]@,
                    above == match under {
                        Some(name) => Some(name@),
                        None => None,
                    },
                    opt(found) == first_of_items(items.take(i as int), above),
                decreases v@.len() - i,
            {
                assert(decreases_to!(*j => j->Array_0));
                assert(decreases_to!(j->Array_0 => j->Array_0@));
                assert(decreases_to!(j->Array_0@ => v@[i as int]));
                assert(items.take(i + 1).drop_last() =~= items.take(i as int));
                assert(items.take(i + 1).last() == v@[i as int]@);
                if found.is_none() {
                    found = find_secret(&v[i], under);
                }
                i += 1;
            }
            assert(items.take(i as int) =~= items);
            found
        },
        Json::Object(v) => {
            let ghost members = j@->Object_0;
            let mut found: Option<String> = None;
            let mut i: usize = 0;
            while i < v.len()
                invariant
                    i <= v@.len(),
                    *j == Json::Object(*v),
                    members.len() == v@.len(),
                    forall|k: int|
                        0 <= k < v@.len() ==> #[trigger] members[k] == (v@[k].name@, v@[k].value@),
                    above == match under {
                        Some(name) => Some(name@),
                        None => None,
                    },
                    opt(found) == first_of_members(members.take(i as int), above),
                decreases v@.len() - i,
            {
                assert(decreases_to!(*j => j->Object_0));
                assert(decreases_to!(j->Object_0 => j->Object_0@));
                assert(decreases_to!(j->Object_0@ => v@[i as int]));
                assert(decreases_to!(v@[i as int] => v@[i as int].value));
                assert(members.take(i + 1).drop_last() =~= members.take(i as int));
                assert(members.take(i + 1).last() == (v@[i as int].name@, v@[i as int].value@));
                if found.is_none() {
                    let name = v[i].name.as_str();
                    if secret_name(name) {
                        found = find_secret(&v[i].value, Some(name));
                    } else {
                        found = find_secret(&v[i].value, under);
                    }
                }
                i += 1;
            }
            assert(members.take(i as int) =~= members);
            found
        },
        _ => None,
    }
}

/// The name of the credential a spec carries, if it carries one.
pub open spec fn carried_secret(spec: MountSpecView) -> Option<Seq<char>> {
    first_secret(spec.config, None)
}

/// What is said of a spec that carries a credential.
pub open spec fn secret_refusal(name: Seq<char>) -> Seq<char> {
    "a mount spec carries no credential: `"@ + name + "`"@
}

impl MountSpec {
    /// A spec is refused when it carries a credential: it is kept for good, and
    /// that is the last place one belongs.
    pub fn validate(&self) -> (r: Result<(), String>)
        ensures
            r is Ok <==> carried_secret(self@) is None,
            r matches Err(why) ==> why@ == secret_refusal(carried_secret(self@)->0),
    {
        match find_secret(&self.config, None) {
            None => Ok(()),
            Some(name) => Err(cat3("a mount spec carries no credential: `", name.as_str(), "`")),
        }
    }

    /// A spec of this kind and configuration, unless it carries a credential.
    pub fn new(kind: &str, config: Json) -> (r: Result<MountSpec, String>)
        ensures
            r is Ok <==> first_secret(config@, None) is None,
            r matches Ok(spec) ==> spec@ == (MountSpecView { kind: kind@, config: config@ }),
            r matches Err(why) ==> why@ == secret_refusal(first_secret(config@, None)->0),
    {
        let spec = MountSpec { kind: own(kind), config };
        match spec.validate() {
            Ok(()) => Ok(spec),
            Err(why) => Err(why),
        }
    }
}

} // verus!
