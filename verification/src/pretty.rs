//! JSON laid out over lines.
use crate::json::{json_text, Json, JsonView};
use crate::outside::{json_quote, json_quoted};
use crate::text::{cat, cat3, cat4};
use vstd::prelude::*;

verus! {

/// A value laid out over lines, each element and each member on its own and two blanks
/// further in; `pad` stands before the line that the value ends on.
pub open spec fn pretty_text(v: JsonView, pad: Seq<char>) -> Seq<char>
    decreases v, 0nat,
{
    match v {
        JsonView::Array(items) => if items.len() == 0 {
            "[]"@
        } else {
            "[\n"@ + items_lines(items, pad + "  "@) + "\n"@ + pad + "]"@
        },
        JsonView::Object(fields) => if fields.len() == 0 {
            "{}"@
        } else {
            "{\n"@ + fields_lines(fields, pad + "  "@) + "\n"@ + pad + "}"@
        },
        _ => json_text(v),
    }
}

/// The elements of an array, each on its own line.
pub open spec fn items_lines(items: Seq<JsonView>, pad: Seq<char>) -> Seq<char>
    decreases items, items.len(),
{
    if items.len() == 0 {
        Seq::empty()
    } else {
        let last = pad + pretty_text(items.last(), pad);
        if items.len() == 1 {
            last
        } else {
            items_lines(items.drop_last(), pad) + ",\n"@ + last
        }
    }
}

/// The members of an object, each on its own line.
pub open spec fn fields_lines(fields: Seq<(Seq<char>, JsonView)>, pad: Seq<char>) -> Seq<char>
    decreases fields, fields.len(),
{
    if fields.len() == 0 {
        Seq::empty()
    } else {
        let last = pad + json_quoted(fields.last().0) + ": "@ + pretty_text(fields.last().1, pad);
        if fields.len() == 1 {
            last
        } else {
            fields_lines(fields.drop_last(), pad) + ",\n"@ + last
        }
    }
}

/// A value laid out over lines.
pub fn pretty(v: &Json, pad: &str) -> (r: String)
    ensures
        r@ == pretty_text(v@, pad@),
    decreases v,
{
    match v {
        Json::Array(items) => {
            let ghost said = v@->Array_0;
            assert(said.len() == items@.len());
            if items.len() == 0 {
                return "[]".to_owned();
            }
            let inner = cat(pad, "  ");
            let mut lines = String::new();
            let mut i: usize = 0;
            assert(lines@ =~= items_lines(said.take(0), inner@));
            while i < items.len()
                invariant
                    i <= items@.len(),
                    *v == Json::Array(*items),
                    said.len() == items@.len(),
                    forall|k: int| 0 <= k < items@.len() ==> #[trigger] said[k] == items@[k]@,
                    lines@ == items_lines(said.take(i as int), inner@),
                decreases items@.len() - i,
            {
                assert(decreases_to!(*v => v->Array_0));
                assert(decreases_to!(v->Array_0 => v->Array_0@));
                assert(decreases_to!(v->Array_0@ => items@[i as int]));
                assert(said.take(i + 1).drop_last() =~= said.take(i as int));
                assert(said.take(i + 1).last() == items@[i as int]@);
                let one = pretty(&items[i], inner.as_str());
                let line = cat(inner.as_str(), one.as_str());
                if i == 0 {
                    lines = line;
                } else {
                    lines = cat3(lines.as_str(), ",\n", line.as_str());
                }
                i += 1;
            }
            assert(said.take(i as int) =~= said);
            let head = cat3("[\n", lines.as_str(), "\n");
            cat3(head.as_str(), pad, "]")
        },
        Json::Object(ms) => {
            let ghost said = v@->Object_0;
            assert(said.len() == ms@.len());
            if ms.len() == 0 {
                return "{}".to_owned();
            }
            let inner = cat(pad, "  ");
            let mut lines = String::new();
            let mut i: usize = 0;
            assert(lines@ =~= fields_lines(said.take(0), inner@));
            while i < ms.len()
                invariant
                    i <= ms@.len(),
                    *v == Json::Object(*ms),
                    said.len() == ms@.len(),
                    forall|k: int|
                        0 <= k < ms@.len() ==> #[trigger] said[k] == (
                            ms@[k].name@,
                            ms@[k].value@,
                        ),
                    lines@ == fields_lines(said.take(i as int), inner@),
                decreases ms@.len() - i,
            {
                assert(decreases_to!(*v => v->Object_0));
                assert(decreases_to!(v->Object_0 => v->Object_0@));
                assert(decreases_to!(v->Object_0@ => ms@[i as int]));
                assert(decreases_to!(ms@[i as int] => ms@[i as int].value));
                assert(said.take(i + 1).drop_last() =~= said.take(i as int));
                assert(said.take(i + 1).last() == (ms@[i as int].name@, ms@[i as int].value@));
                let name = json_quote(ms[i].name.as_str());
                let one = pretty(&ms[i].value, inner.as_str());
                let line = cat4(inner.as_str(), name.as_str(), ": ", one.as_str());
                if i == 0 {
                    lines = line;
                } else {
                    lines = cat3(lines.as_str(), ",\n", line.as_str());
                }
                i += 1;
            }
            assert(said.take(i as int) =~= said);
            let head = cat3("{\n", lines.as_str(), "\n");
            cat3(head.as_str(), pad, "}")
        },
        _ => v.render(),
    }
}

} // verus!
