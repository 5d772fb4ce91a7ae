//! What texts, numbers and paths are: how they are trimmed, ordered, written and put together,
//! and what is signed of them.
use crate::path::{is_one_name, joined, leads_down, parts, pieces, pieces_are_plain};
use crate::presence::challenge_preimage;
use crate::principal::ChallengeView;
use crate::text::{
    before, decimal, decimal_injective, is_white, signed_decimal, trim_back, trim_front, trimmed,
};
use vstd::prelude::*;

verus! {

proof fn front_is_white(s: Seq<char>) -> (i: int)
    ensures
        0 <= i <= s.len(),
        trim_front(s) == s.skip(i),
        forall|j: int| 0 <= j < i ==> is_white(#[trigger] s[j]),
        i < s.len() ==> !is_white(s[i]),
    decreases s.len(),
{
    if s.len() > 0 && is_white(s[0]) {
        let rest = s.drop_first();
        let i = front_is_white(rest);
        assert forall|j: int| 0 <= j < i + 1 implies is_white(#[trigger] s[j]) by {
            if j > 0 {
                assert(rest[j - 1] == s[j]);
            }
        }
        if i < rest.len() {
            assert(rest[i] == s[i + 1]);
        }
        assert(rest.skip(i) =~= s.skip(i + 1));
        i + 1
    } else {
        assert(s.skip(0) =~= s);
        0
    }
}

proof fn back_is_white(s: Seq<char>) -> (n: int)
    ensures
        0 <= n <= s.len(),
        trim_back(s) == s.take(n),
        forall|j: int| n <= j < s.len() ==> is_white(#[trigger] s[j]),
        n > 0 ==> !is_white(s[n - 1]),
    decreases s.len(),
{
    if s.len() > 0 && is_white(s.last()) {
        let rest = s.drop_last();
        let n = back_is_white(rest);
        assert forall|j: int| n <= j < s.len() implies is_white(#[trigger] s[j]) by {
            if j < rest.len() {
                assert(rest[j] == s[j]);
            }
        }
        assert(rest.take(n) =~= s.take(n));
        n
    } else {
        assert(s.take(s.len() as int) =~= s);
        s.len() as int
    }
}

/// A trimmed text is the middle of the text: what stands before it and after it is white, and
/// it neither begins nor ends with white space.
pub proof fn trimmed_is_the_middle(s: Seq<char>) -> (places: (int, int))
    ensures
        0 <= places.0 <= places.1 <= s.len(),
        trimmed(s) == s.subrange(places.0, places.1),
        forall|j: int| 0 <= j < places.0 ==> is_white(#[trigger] s[j]),
        forall|j: int| places.1 <= j < s.len() ==> is_white(#[trigger] s[j]),
        trimmed(s).len() > 0 ==> !is_white(trimmed(s)[0]) && !is_white(trimmed(s).last()),
{
    let i = front_is_white(s);
    let rest = s.skip(i);
    let n = back_is_white(rest);
    assert(rest.take(n) =~= s.subrange(i, i + n));
    assert forall|j: int| i + n <= j < s.len() implies is_white(#[trigger] s[j]) by {
        assert(rest[j - i] == s[j]);
    }
    if n > 0 {
        assert(rest[0] == s[i]);
        assert(trimmed(s)[0] == s[i]);
        assert(trimmed(s).last() == rest[n - 1]);
    }
    (i, i + n)
}

/// The number that decimal digits say.
pub open spec fn digits_say(s: Seq<char>) -> int
    decreases s.len(),
{
    if s.len() == 0 {
        0
    } else {
        digits_say(s.drop_last()) * 10 + (s.last() as int - 48)
    }
}

/// A number in decimal says that number, in digits alone and without a zero in front.
pub proof fn decimal_says_the_number(n: nat)
    ensures
        digits_say(decimal(n)) == n,
        decimal(n).len() > 0,
        forall|i: int| 0 <= i < decimal(n).len() ==> '0' <= #[trigger] decimal(n)[i] <= '9',
        n > 0 ==> decimal(n)[0] != '0',
        n == 0 ==> decimal(n) == seq!['0'],
    decreases n,
{
    if n < 10 {
        let d = decimal(n);
        assert(d.drop_last() =~= Seq::<char>::empty());
        assert(digits_say(d.drop_last()) == 0);
    } else {
        decimal_says_the_number(n / 10);
        let d = decimal(n);
        let head = decimal(n / 10);
        assert(d.drop_last() =~= head);
        assert forall|i: int| 0 <= i < d.len() implies '0' <= #[trigger] d[i] <= '9' by {
            if i < head.len() {
                assert(d[i] == head[i]);
            }
        }
        assert(d[0] == head[0]);
    }
}

/// A number below zero is written as its opposite after a minus sign, and no other number has
/// one.
pub proof fn sign_stands_in_front(n: int)
    ensures
        n < 0 ==> signed_decimal(n) == seq!['-'] + decimal((-n) as nat),
        n >= 0 ==> signed_decimal(n) == decimal(n as nat),
        signed_decimal(n)[0] == '-' <==> n < 0,
{
    if n >= 0 {
        decimal_says_the_number(n as nat);
        assert('0' <= decimal(n as nat)[0]);
    }
}

/// The order of text goes by the first character that differs, and a text comes before every
/// longer one that begins with it.
pub proof fn first_difference_decides(
    common: Seq<char>,
    c: char,
    d: char,
    a: Seq<char>,
    b: Seq<char>,
)
    ensures
        c != d ==> (before(common + seq![c] + a, common + seq![d] + b) <==> (c as int) < (d as int)),
        before(common, common + seq![c] + a),
        !before(common + seq![c] + a, common),
    decreases common.len(),
{
    let x = common + seq![c] + a;
    let y = common + seq![d] + b;
    if common.len() > 0 {
        first_difference_decides(common.drop_first(), c, d, a, b);
        assert(x.drop_first() =~= common.drop_first() + seq![c] + a);
        assert(y.drop_first() =~= common.drop_first() + seq![d] + b);
        assert(x[0] == common[0] && y[0] == common[0]);
    } else {
        assert(x[0] == c && y[0] == d);
    }
}

/// The pieces of two texts with the separator between them are the pieces of the one and then
/// those of the other.
pub proof fn pieces_of_two(a: Seq<char>, b: Seq<char>, sep: char)
    ensures
        pieces(a + seq![sep] + b, sep) == pieces(a, sep) + pieces(b, sep),
    decreases b.len(),
{
    let whole = a + seq![sep] + b;
    pieces_are_plain(a, sep);
    pieces_are_plain(b, sep);
    if b.len() == 0 {
        assert(whole =~= a.push(sep));
        assert(whole.drop_last() =~= a);
        assert(pieces(a, sep).push(Seq::empty()) =~= pieces(a, sep) + pieces(b, sep));
    } else {
        let front = b.drop_last();
        pieces_of_two(a, front, sep);
        pieces_are_plain(front, sep);
        assert(whole.drop_last() =~= a + seq![sep] + front);
        let head = pieces(a, sep) + pieces(front, sep);
        assert(head.last() == pieces(front, sep).last());
        if b.last() == sep {
            assert(head.push(Seq::empty()) =~= pieces(a, sep) + pieces(b, sep));
        } else {
            assert(head.drop_last() =~= pieces(a, sep) + pieces(front, sep).drop_last());
            assert(head.drop_last().push(head.last().push(b.last())) =~= pieces(a, sep) + pieces(
                b,
                sep,
            ));
        }
    }
}

/// A text without the separator is one piece.
pub proof fn plain_text_is_one_piece(s: Seq<char>, sep: char)
    requires
        forall|i: int| 0 <= i < s.len() ==> #[trigger] s[i] != sep,
    ensures
        pieces(s, sep) == seq![s],
    decreases s.len(),
{
    if s.len() > 0 {
        let front = s.drop_last();
        assert forall|i: int| 0 <= i < front.len() implies #[trigger] front[i] != sep by {
            assert(front[i] == s[i]);
        }
        plain_text_is_one_piece(front, sep);
        assert(seq![front].last() == front);
        assert(front.push(s.last()) =~= s);
        assert(pieces(s, sep) =~= seq![s]);
    } else {
        assert(s =~= Seq::<char>::empty());
    }
}

/// A path put under another has the parts of that one and then its own.
pub proof fn joined_path_has_both_parts(base: Seq<char>, rel: Seq<char>)
    requires
        base.len() > 0,
        base.last() != '/',
    ensures
        parts(joined(base, rel, false), false) == parts(base, false) + parts(rel, false),
        joined(base, rel, false).take(base.len() as int) == base,
{
    reveal_strlit("/");
    assert("/"@ =~= seq!['/']);
    pieces_of_two(base, rel, '/');
    assert(joined(base, rel, false) =~= base + seq!['/'] + rel);
    assert((base + seq!['/'] + rel).take(base.len() as int) =~= base);
}

/// A path leads down exactly when it starts at no root and none of its parts goes up: one part
/// more, and it still does unless that part goes up.
pub proof fn path_leads_down_by_its_parts(head: Seq<char>, part: Seq<char>)
    requires
        head.len() > 0,
        part.len() > 0,
        forall|i: int| 0 <= i < part.len() ==> #[trigger] part[i] != '/',
    ensures
        leads_down(part, false) <==> part != ".."@,
        !leads_down("/"@ + head, false),
        !leads_down(Seq::empty(), false),
        leads_down(head + "/"@ + part, false) <==> leads_down(head, false) && part != ".."@,
{
    reveal_strlit("/");
    assert("/"@ =~= seq!['/']);
    plain_text_is_one_piece(part, '/');
    assert(parts(part, false)[0] == part);
    assert(("/"@ + head)[0] == '/');
    pieces_of_two(head, part, '/');
    let whole = head + "/"@ + part;
    assert(whole =~= head + seq!['/'] + part);
    let (hs, ps) = (parts(head, false), parts(whole, false));
    assert(ps =~= hs.push(part));
    assert(whole[0] == head[0]);
    assert(ps[hs.len() as int] == part);
    if leads_down(whole, false) {
        assert forall|i: int| 0 <= i < hs.len() implies #[trigger] hs[i] != ".."@ by {
            assert(ps[i] == hs[i]);
        }
    }
    if leads_down(head, false) && part != ".."@ {
        assert forall|i: int| 0 <= i < ps.len() implies #[trigger] ps[i] != ".."@ by {
            if i < hs.len() {
                assert(ps[i] == hs[i]);
            }
        }
    }
}

/// The name of one file is a part that is neither where it stands nor the way up; what has
/// another part behind it is none.
pub proof fn name_is_one_part(part: Seq<char>, other: Seq<char>)
    requires
        forall|i: int| 0 <= i < part.len() ==> #[trigger] part[i] != '/',
        other.len() > 0,
        other != "."@,
        forall|i: int| 0 <= i < other.len() ==> #[trigger] other[i] != '/',
    ensures
        is_one_name(part, false) <==> part.len() > 0 && part != "."@ && part != ".."@,
        !is_one_name(part + "/"@ + other, false),
{
    reveal_strlit("/");
    assert("/"@ =~= seq!['/']);
    plain_text_is_one_piece(part, '/');
    plain_text_is_one_piece(other, '/');
    pieces_of_two(part, other, '/');
    let whole = part + "/"@ + other;
    assert(whole =~= part + seq!['/'] + other);
    assert(parts(whole, false) =~= seq![part, other]);
    assert(parts(whole, false)[1] == other);
}

/// What a person signs for one challenge is signed for that challenge alone: for what it is
/// for, what it asks for, its nonce and its end.
pub proof fn signature_is_for_one_challenge(a: ChallengeView, b: ChallengeView)
    requires
        challenge_preimage(a) == challenge_preimage(b),
        forall|i: int| 0 <= i < a.resource.len() ==> #[trigger] a.resource[i] != '|',
        forall|i: int| 0 <= i < b.resource.len() ==> #[trigger] b.resource[i] != '|',
        forall|i: int| 0 <= i < a.action_digest.len() ==> #[trigger] a.action_digest[i] != '|',
        forall|i: int| 0 <= i < b.action_digest.len() ==> #[trigger] b.action_digest[i] != '|',
        forall|i: int| 0 <= i < a.nonce.len() ==> #[trigger] a.nonce[i] != '|',
        forall|i: int| 0 <= i < b.nonce.len() ==> #[trigger] b.nonce[i] != '|',
    ensures
        a.resource == b.resource,
        a.action_digest == b.action_digest,
        a.nonce == b.nonce,
        a.expires_at_ms == b.expires_at_ms,
{
    preimage_has_its_parts(a);
    preimage_has_its_parts(b);
    let (p, q) = (pieces(challenge_preimage(a), '|'), pieces(challenge_preimage(b), '|'));
    assert(p[1] == q[1] && p[2] == q[2] && p[3] == q[3] && p[4] == q[4]);
    decimal_injective(a.expires_at_ms as nat, b.expires_at_ms as nat);
}

proof fn preimage_has_its_parts(c: ChallengeView)
    requires
        forall|i: int| 0 <= i < c.resource.len() ==> #[trigger] c.resource[i] != '|',
        forall|i: int| 0 <= i < c.action_digest.len() ==> #[trigger] c.action_digest[i] != '|',
        forall|i: int| 0 <= i < c.nonce.len() ==> #[trigger] c.nonce[i] != '|',
    ensures
        pieces(challenge_preimage(c), '|') == seq![
            "approval"@,
            c.resource,
            c.action_digest,
            c.nonce,
            decimal(c.expires_at_ms as nat),
        ],
{
    reveal_strlit("approval|");
    reveal_strlit("approval");
    reveal_strlit("|");
    let bar = seq!['|'];
    let end = decimal(c.expires_at_ms as nat);
    decimal_says_the_number(c.expires_at_ms as nat);
    assert forall|i: int| 0 <= i < end.len() implies #[trigger] end[i] != '|' by {
        assert('0' <= end[i] <= '9');
    }
    plain_text_is_one_piece("approval"@, '|');
    plain_text_is_one_piece(c.resource, '|');
    plain_text_is_one_piece(c.action_digest, '|');
    plain_text_is_one_piece(c.nonce, '|');
    plain_text_is_one_piece(end, '|');
    let one = "approval"@ + bar + c.resource;
    let two = one + bar + c.action_digest;
    let three = two + bar + c.nonce;
    pieces_of_two("approval"@, c.resource, '|');
    pieces_of_two(one, c.action_digest, '|');
    pieces_of_two(two, c.nonce, '|');
    pieces_of_two(three, end, '|');
    assert("approval|"@ =~= "approval"@ + bar);
    assert("|"@ =~= bar);
    assert(challenge_preimage(c) =~= three + bar + end);
    assert(pieces(three + bar + end, '|') =~= seq![
        "approval"@,
        c.resource,
        c.action_digest,
        c.nonce,
        end,
    ]);
}

} // verus!
