//! Paths as texts: their parts, and where they lead.
use crate::ir::separated;
use crate::model::all;
use crate::text::{cat, cat3, chars_of, same};
use vstd::prelude::*;
use vstd::string::*;

verus! {

/// The pieces between the places where `sep` stands; one piece where it stands
/// nowhere.
pub open spec fn pieces(s: Seq<char>, sep: char) -> Seq<Seq<char>>
    decreases s.len(),
{
    if s.len() == 0 {
        seq![Seq::empty()]
    } else {
        let head = pieces(s.drop_last(), sep);
        if s.last() == sep {
            head.push(Seq::empty())
        } else {
            head.drop_last().push(head.last().push(s.last()))
        }
    }
}

/// There is always a piece, and no piece holds the separator.
pub proof fn pieces_are_plain(s: Seq<char>, sep: char)
    ensures
        pieces(s, sep).len() > 0,
        forall|i: int, j: int|
            0 <= i < pieces(s, sep).len() && 0 <= j < pieces(s, sep)[i].len()
                ==> #[trigger] pieces(s, sep)[i][j] != sep,
    decreases s.len(),
{
    if s.len() > 0 {
        pieces_are_plain(s.drop_last(), sep);
        let head = pieces(s.drop_last(), sep);
        assert forall|i: int, j: int|
            0 <= i < pieces(s, sep).len() && 0 <= j < pieces(s, sep)[i].len() implies #[trigger] pieces(
            s,
            sep,
        )[i][j] != sep by {
            if i < head.len() && i < pieces(s, sep).len() - 1 {
                assert(pieces(s, sep)[i] == head[i]);
            } else if s.last() != sep {
                let last = head.last();
                assert(pieces(s, sep)[i] == last.push(s.last()));
                if j < last.len() {
                    assert(last == head[head.len() - 1]);
                    assert(head[head.len() - 1][j] != sep);
                }
            }
        }
    }
}

/// The pieces with the separator between them are the text again.
pub proof fn pieces_make_the_text(s: Seq<char>, sep: char)
    ensures
        separated(pieces(s, sep), seq![sep]) == s,
    decreases s.len(),
{
    pieces_are_plain(s, sep);
    if s.len() > 0 {
        let head = pieces(s.drop_last(), sep);
        pieces_are_plain(s.drop_last(), sep);
        pieces_make_the_text(s.drop_last(), sep);
        let whole = pieces(s, sep);
        if s.last() == sep {
            assert(whole.drop_last() =~= head);
            assert(separated(whole, seq![sep]) =~= s.drop_last() + seq![sep]);
        } else if head.len() == 1 {
            assert(whole.len() == 1);
            assert(head[0] == s.drop_last());
            assert(whole[0] =~= s);
        } else {
            assert(whole.drop_last() =~= head.drop_last());
            assert(separated(head, seq![sep]) == separated(head.drop_last(), seq![sep]) + seq![sep]
                + head.last());
            assert(separated(whole, seq![sep]) =~= s.drop_last().push(s.last()));
        }
        assert(s.drop_last().push(s.last()) =~= s);
    } else {
        assert(separated(pieces(s, sep), seq![sep]) =~= s);
    }
}

/// The pieces between the places where `sep` stands.
pub fn split_on(s: &str, sep: char) -> (r: Vec<String>)
    ensures
        all(r@) == pieces(s@, sep),
        r@.len() > 0,
{
    let v = chars_of(s);
    let mut r: Vec<String> = Vec::new();
    let mut piece = String::new();
    let mut i: usize = 0;
    assert(all(r@).push(piece@) =~= pieces(v@.take(0), sep));
    while i < v.len()
        invariant
            i <= v@.len(),
            all(r@).push(piece@) == pieces(v@.take(i as int), sep),
        decreases v@.len() - i,
    {
        let ghost so_far = all(r@).push(piece@);
        assert(v@.take(i + 1).drop_last() =~= v@.take(i as int));
        assert(so_far.drop_last() =~= all(r@));
        if v[i] == sep {
            r.push(piece);
            assert(all(r@) =~= so_far);
            piece = String::new();
            assert(piece@ =~= Seq::<char>::empty());
        } else {
            piece.push(v[i]);
        }
        i += 1;
    }
    assert(v@.take(i as int) =~= s@);
    let ghost said = all(r@).push(piece@);
    r.push(piece);
    assert(all(r@) =~= said);
    r
}

/// Whether a character stands between the parts of a path. On Windows two do.
pub open spec fn is_separator(c: char, windows: bool) -> bool {
    c == '/' || windows && c == '\\'
}

/// A path with the one separator that every platform has.
pub open spec fn unified(s: Seq<char>, windows: bool) -> Seq<char> {
    if windows {
        s.map_values(
            |c: char|
                if c == '\\' {
                    '/'
                } else {
                    c
                },
        )
    } else {
        s
    }
}

/// The parts of a path.
pub open spec fn parts(s: Seq<char>, windows: bool) -> Seq<Seq<char>> {
    pieces(unified(s, windows), '/')
}

/// Whether a path begins with the name of a drive, as it may on Windows.
pub open spec fn names_a_drive(s: Seq<char>, windows: bool) -> bool {
    &&& windows
    &&& s.len() >= 2
    &&& s[1] == ':'
    &&& ('a' <= s[0] <= 'z' || 'A' <= s[0] <= 'Z')
}

fn split_path(s: &str, windows: bool) -> (r: Vec<String>)
    ensures
        all(r@) == parts(s@, windows),
        r@.len() > 0,
{
    if !windows {
        return split_on(s, '/');
    }
    let v = chars_of(s);
    let mut one = String::new();
    let mut i: usize = 0;
    let ghost whole = unified(s@, windows);
    assert(one@ =~= whole.take(0));
    while i < v.len()
        invariant
            i <= v@.len(),
            v@ == s@,
            windows,
            whole == unified(s@, windows),
            one@ == whole.take(i as int),
        decreases v@.len() - i,
    {
        let c = if v[i] == '\\' {
            '/'
        } else {
            v[i]
        };
        one.push(c);
        i += 1;
        assert(one@ =~= whole.take(i as int));
    }
    assert(whole.take(i as int) =~= whole);
    split_on(one.as_str(), '/')
}

fn has_drive(v: &Vec<char>, windows: bool) -> (r: bool)
    ensures
        r == names_a_drive(v@, windows),
{
    windows && v.len() >= 2 && v[1] == ':' && (('a' <= v[0] && v[0] <= 'z') || ('A' <= v[0] && v[0]
        <= 'Z'))
}

/// `rel` under `base`. Nothing stands between them where the base ends in a separator,
/// or is a drive and no more.
pub open spec fn joined(base: Seq<char>, rel: Seq<char>, windows: bool) -> Seq<char> {
    if base.len() == 0 || is_separator(base.last(), windows) || (base.len() == 2 && names_a_drive(
        base,
        windows,
    )) {
        base + rel
    } else if windows {
        base + "\\"@ + rel
    } else {
        base + "/"@ + rel
    }
}

/// `rel` under `base`.
pub fn join_path(base: &str, rel: &str, windows: bool) -> (r: String)
    ensures
        r@ == joined(base@, rel@, windows),
{
    let v = chars_of(base);
    if v.len() == 0 || v[v.len() - 1] == '/' || (windows && v[v.len() - 1] == '\\') || (v.len()
        == 2 && has_drive(&v, windows)) {
        cat(base, rel)
    } else if windows {
        cat3(base, "\\", rel)
    } else {
        cat3(base, "/", rel)
    }
}

/// Whether a path leads down from where it starts: it is not empty, does not start
/// at a root or a drive, and never goes up.
pub open spec fn leads_down(s: Seq<char>, windows: bool) -> bool {
    let ps = parts(s, windows);
    &&& s.len() > 0
    &&& !is_separator(s[0], windows)
    &&& !names_a_drive(s, windows)
    &&& forall|i: int| 0 <= i < ps.len() ==> #[trigger] ps[i] != ".."@
}

/// Whether a path leads down from where it starts.
pub fn is_below(s: &str, windows: bool) -> (r: bool)
    ensures
        r == leads_down(s@, windows),
{
    let v = chars_of(s);
    if v.len() == 0 || v[0] == '/' || (windows && v[0] == '\\') || has_drive(&v, windows) {
        return false;
    }
    let found = split_path(s, windows);
    let ghost ps = parts(s@, windows);
    let mut i: usize = 0;
    while i < found.len()
        invariant
            i <= found@.len(),
            all(found@) == ps,
            ps == parts(s@, windows),
            forall|j: int| 0 <= j < i ==> #[trigger] ps[j] != ".."@,
        decreases found@.len() - i,
    {
        assert(ps[i as int] == found@[i as int]@);
        if same(found[i].as_str(), "..") {
            return false;
        }
        i += 1;
    }
    true
}

/// Whether a path is the name of one file: one plain part, with no drive before it and
/// nothing after it that says more.
pub open spec fn is_one_name(s: Seq<char>, windows: bool) -> bool {
    let ps = parts(s, windows);
    &&& !names_a_drive(s, windows)
    &&& ps[0].len() > 0
    &&& ps[0] != "."@
    &&& ps[0] != ".."@
    &&& forall|i: int| 1 <= i < ps.len() ==> (#[trigger] ps[i]).len() == 0 || ps[i] == "."@
}

/// Whether a path is the name of one file.
pub fn one_name(s: &str, windows: bool) -> (r: bool)
    ensures
        r == is_one_name(s@, windows),
{
    let v = chars_of(s);
    if has_drive(&v, windows) {
        return false;
    }
    let found = split_path(s, windows);
    let ghost ps = parts(s@, windows);
    assert(ps[0] == found@[0]@);
    let first = found[0].as_str();
    if first.unicode_len() == 0 || same(first, ".") || same(first, "..") {
        return false;
    }
    let mut i: usize = 1;
    while i < found.len()
        invariant
            1 <= i <= found@.len(),
            all(found@) == ps,
            ps == parts(s@, windows),
            forall|j: int| 1 <= j < i ==> (#[trigger] ps[j]).len() == 0 || ps[j] == "."@,
        decreases found@.len() - i,
    {
        assert(ps[i as int] == found@[i as int]@);
        if found[i].as_str().unicode_len() != 0 && !same(found[i].as_str(), ".") {
            return false;
        }
        i += 1;
    }
    true
}

} // verus!
