//! The local endpoint: where it is, who may serve on it, and what a failed accept means.
use crate::model::all;
use crate::mount::lower;
use crate::path::{pieces, split_on};
use crate::text::{cat, cat3, cat5, chars_of, decimal, decimal_text, same};
use vstd::prelude::*;
use vstd::string::*;

verus! {

/// Where a node listens.
#[derive(Debug)]
pub struct Endpoint(pub String);

/// Why a connection was not accepted: this one could not be taken, or the listener
/// itself is gone.
#[derive(Debug)]
pub enum AcceptError {
    Connection(String),
    Listener(String),
}

/// The endpoint that belongs to one account.
pub fn user_endpoint(name: &str) -> (r: Endpoint)
    ensures
        r.0@ == "/tmp/vk-"@ + name@ + "/vk.sock"@,
{
    Endpoint(cat3("/tmp/vk-", name, "/vk.sock"))
}

/// The endpoint that belongs to one account, where endpoints are named pipes.
pub fn user_pipe(name: &str) -> (r: Endpoint)
    ensures
        r.0@ == "\\\\.\\pipe\\vk-"@ + name@,
{
    Endpoint(cat("\\\\.\\pipe\\vk-", name))
}

/// The endpoint of whoever runs: in the runtime directory where there is one.
pub fn endpoint_of(runtime_dir: Option<String>, name: &str) -> (r: Endpoint)
    ensures
        r.0@ == (match runtime_dir {
            Some(d) => d@ + "/vk.sock"@,
            None => "/tmp/vk-"@ + name@ + "/vk.sock"@,
        }),
{
    match runtime_dir {
        Some(d) => Endpoint(cat(d.as_str(), "/vk.sock")),
        None => user_endpoint(name),
    }
}

/// The account that the service runs as.
pub const VKD_SERVICE_SID: &'static str =
    "S-1-5-80-2321736676-1855261038-2536180385-746309522-2788627728";

/// Whether a text is digits and nothing else, and not empty.
pub open spec fn is_digits(s: Seq<char>) -> bool {
    s.len() > 0 && forall|i: int| 0 <= i < s.len() ==> '0' <= #[trigger] s[i] <= '9'
}

/// Whether a text is the identifier of an account: `S`, `1`, and then at least one
/// number, with hyphens between.
pub open spec fn is_string_sid(s: Seq<char>) -> bool {
    let ps = pieces(s, '-');
    &&& ps.len() >= 3
    &&& ps[0] == "S"@
    &&& ps[1] == "1"@
    &&& forall|i: int| 2 <= i < ps.len() ==> is_digits(#[trigger] ps[i])
}

fn digits(s: &str) -> (r: bool)
    ensures
        r == is_digits(s@),
{
    let v = chars_of(s);
    let mut i: usize = 0;
    while i < v.len()
        invariant
            i <= v@.len(),
            v@ == s@,
            forall|j: int| 0 <= j < i ==> '0' <= #[trigger] v@[j] <= '9',
        decreases v@.len() - i,
    {
        let c = v[i];
        if !('0' <= c && c <= '9') {
            return false;
        }
        i += 1;
    }
    v.len() > 0
}

/// What is said of a text that is no account.
pub open spec fn not_a_sid(s: Seq<char>) -> Seq<char> {
    "`"@ + s + "` is not a string SID"@
}

/// Refuse a text that is not the identifier of an account.
pub fn ensure_string_sid(sid: &str) -> (r: Result<(), String>)
    ensures
        r is Ok <==> is_string_sid(sid@),
        r matches Err(why) ==> why@ == not_a_sid(sid@),
{
    let parts = split_on(sid, '-');
    let ghost ps = pieces(sid@, '-');
    let mut ok = parts.len() >= 3;
    if ok {
        assert(ps[0] == parts@[0]@);
        assert(ps[1] == parts@[1]@);
        ok = same(parts[0].as_str(), "S") && same(
            parts[1].as_str(),
            "1",
        );
    }
    let mut i: usize = 2;
    while ok && i < parts.len()
        invariant
            all(parts@) == ps,
            ps == pieces(sid@, '-'),
            ok ==> 2 <= i <= parts@.len() && parts@.len() >= 3 && ps[0] == "S"@ && ps[1] == "1"@,
            ok ==> forall|j: int| 2 <= j < i ==> is_digits(#[trigger] ps[j]),
            !ok ==> !is_string_sid(sid@),
        decreases parts@.len() - i, ok as int,
    {
        assert(ps[i as int] == parts@[i as int]@);
        if digits(parts[i].as_str()) {
            i += 1;
        } else {
            ok = false;
        }
    }
    if ok {
        Ok(())
    } else {
        Err(cat3("`", sid, "` is not a string SID"))
    }
}

/// The entries of an access list: everything, for each account.
pub open spec fn aces(sids: Seq<Seq<char>>) -> Seq<char>
    decreases sids.len(),
{
    if sids.len() == 0 {
        Seq::empty()
    } else {
        aces(sids.drop_last()) + ("(A;;GA;;;"@ + sids.last() + ")"@)
    }
}

/// The access list that admits these accounts and nobody else, or why there is none.
pub open spec fn dacl_of(sids: Seq<Seq<char>>) -> Result<Seq<char>, Seq<char>>
    decreases sids.len(),
{
    if sids.len() == 0 {
        Err("a pipe DACL naming nobody would admit nobody; name at least one SID"@)
    } else {
        match first_bad_sid(sids) {
            Some(bad) => Err(not_a_sid(bad)),
            None => Ok("D:"@ + aces(sids)),
        }
    }
}

/// The first of these that is no account.
pub open spec fn first_bad_sid(sids: Seq<Seq<char>>) -> Option<Seq<char>>
    decreases sids.len(),
{
    if sids.len() == 0 {
        None
    } else {
        match first_bad_sid(sids.drop_last()) {
            Some(bad) => Some(bad),
            None => if is_string_sid(sids.last()) {
                None
            } else {
                Some(sids.last())
            },
        }
    }
}

proof fn bad_sid_stays(sids: Seq<Seq<char>>, n: int)
    requires
        0 <= n <= sids.len(),
        first_bad_sid(sids.take(n)) is Some,
    ensures
        first_bad_sid(sids) == first_bad_sid(sids.take(n)),
    decreases sids.len() - n,
{
    if n < sids.len() {
        assert(sids.take(n + 1).drop_last() =~= sids.take(n));
        bad_sid_stays(sids, n + 1);
    } else {
        assert(sids.take(n) =~= sids);
    }
}

/// The access list that admits these accounts and nobody else.
pub fn pipe_dacl(sids: &Vec<String>) -> (r: Result<String, String>)
    ensures
        match r {
            Ok(s) => dacl_of(all(sids@)) == Ok::<Seq<char>, Seq<char>>(s@),
            Err(why) => dacl_of(all(sids@)) == Err::<Seq<char>, Seq<char>>(why@),
        },
{
    let ghost views = all(sids@);
    assert(views.len() == sids@.len());
    if sids.len() == 0 {
        return Err(
            "a pipe DACL naming nobody would admit nobody; name at least one SID".to_owned(),
        );
    }
    let mut sddl = "D:".to_owned();
    let mut i: usize = 0;
    assert(sddl@ =~= "D:"@ + aces(views.take(0)));
    while i < sids.len()
        invariant
            i <= sids@.len(),
            views == all(sids@),
            views.len() > 0,
            first_bad_sid(views.take(i as int)) is None,
            sddl@ == "D:"@ + aces(views.take(i as int)),
        decreases sids@.len() - i,
    {
        assert(views.take(i + 1).drop_last() =~= views.take(i as int));
        assert(views.take(i + 1).last() == sids@[i as int]@);
        if let Err(why) = ensure_string_sid(sids[i].as_str()) {
            proof {
                bad_sid_stays(views, i + 1);
            }
            return Err(why);
        }
        let ace = cat3("(A;;GA;;;", sids[i].as_str(), ")");
        sddl.append(ace.as_str());
        i += 1;
        assert(sddl@ =~= "D:"@ + aces(views.take(i as int)));
    }
    assert(views.take(i as int) =~= views);
    Ok(sddl)
}

/// Whether a failed accept leaves nothing to serve with: the descriptor is bad, or the
/// socket does not listen.
pub open spec fn is_fatal(raw_os_error: Option<i32>) -> bool {
    raw_os_error == Some(9i32) || raw_os_error == Some(22i32)
}

/// What a failed accept means.
pub fn classify(raw_os_error: Option<i32>, message: &str) -> (r: AcceptError)
    ensures
        r is Listener <==> is_fatal(raw_os_error),
        match r {
            AcceptError::Listener(why) => why@ == message@,
            AcceptError::Connection(why) => why@ == message@,
        },
{
    match raw_os_error {
        Some(9) | Some(22) => AcceptError::Listener(message.to_owned()),
        _ => AcceptError::Connection(message.to_owned()),
    }
}

/// Whether two texts are the same but for the case of ASCII letters.
pub open spec fn same_but_case(a: Seq<char>, b: Seq<char>) -> bool {
    a.len() == b.len() && forall|i: int|
        0 <= i < a.len() ==> lower(#[trigger] a[i]) == lower(b[i])
}

fn lower_of(c: char) -> (r: char)
    ensures
        r == lower(c),
{
    if 'A' <= c && c <= 'Z' {
        (c as u8 + 32u8) as char
    } else {
        c
    }
}

/// Whether two texts are the same but for the case of ASCII letters.
pub fn eq_ignoring_case(a: &str, b: &str) -> (r: bool)
    ensures
        r == same_but_case(a@, b@),
{
    let x = chars_of(a);
    let y = chars_of(b);
    if x.len() != y.len() {
        return false;
    }
    let mut i: usize = 0;
    while i < x.len()
        invariant
            x@ == a@,
            y@ == b@,
            x@.len() == y@.len(),
            i <= x@.len(),
            forall|j: int| 0 <= j < i ==> lower(#[trigger] x@[j]) == lower(y@[j]),
        decreases x@.len() - i,
    {
        if lower_of(x[i]) != lower_of(y[i]) {
            assert(lower(a@[i as int]) != lower(b@[i as int]));
            return false;
        }
        i += 1;
    }
    true
}

/// Whether a pipe may be spoken to: its owner is this account, or the service.
pub open spec fn is_expected(owner: Seq<char>, mine: Seq<char>) -> bool {
    same_but_case(owner, mine) || same_but_case(owner, VKD_SERVICE_SID@)
}

/// Whether a pipe may be spoken to.
pub fn owner_is_expected(owner: &str, mine: &str) -> (r: bool)
    ensures
        r == is_expected(owner@, mine@),
{
    eq_ignoring_case(owner, mine) || eq_ignoring_case(owner, VKD_SERVICE_SID)
}

/// What is said of a pipe that is not spoken to.
pub open spec fn stranger_text(name: Seq<char>, owner: Seq<char>, mine: Seq<char>, pid: Option<u32>) -> Seq<
    char,
> {
    name + " is served by a pipe owned by "@ + owner + " — not this account ("@ + mine
        + ") and not the vkd service account ("@ + VKD_SERVICE_SID@ + ")"@ + (match pid {
        Some(p) => ", process "@ + decimal(p as nat),
        None => Seq::empty(),
    })
        + ". Refusing to speak to it: a process that claimed this name before the node did would receive every syscall and could answer anything it liked."@
}

/// Refuse a pipe that is not to be spoken to. One whose owner cannot be read is.
pub fn ensure_expected_server(name: &str, owner: Option<String>, mine: &str, pid: Option<u32>) -> (r:
    Result<(), String>)
    ensures
        match owner {
            None => r is Ok,
            Some(o) => {
                &&& r is Ok <==> is_expected(o@, mine@)
                &&& r matches Err(why) ==> why@ == stranger_text(name@, o@, mine@, pid)
            },
        },
{
    let o = match owner {
        None => return Ok(()),
        Some(o) => o,
    };
    if owner_is_expected(o.as_str(), mine) {
        return Ok(());
    }
    let who = match pid {
        Some(p) => cat(", process ", decimal_text(p as u64).as_str()),
        None => String::new(),
    };
    let mut s = cat5(
        name,
        " is served by a pipe owned by ",
        o.as_str(),
        " — not this account (",
        mine,
    );
    s.append(") and not the vkd service account (");
    s.append(VKD_SERVICE_SID);
    s.append(")");
    s.append(who.as_str());
    s.append(
        ". Refusing to speak to it: a process that claimed this name before the node did would receive every syscall and could answer anything it liked.",
    );
    assert(s@ =~= stranger_text(name@, o@, mine@, pid));
    Err(s)
}

/// What is said when a pipe's name is taken.
pub open spec fn squatted_text(name: Seq<char>, pid: u32, account: Option<Seq<char>>) -> Seq<char> {
    name + " is already served by process "@ + decimal(pid as nat) + " (account: "@ + (match account {
        Some(a) => a,
        None => "could not be read"@,
    })
        + "); this node will not take a second instance of somebody else's pipe. Stop that process — or, if it is not ours, treat it as a squatter: it is receiving whatever `vk` sends to this endpoint."@
}

/// What is said when a pipe's name is taken, and by whom.
pub fn squatted(name: &str, pid: u32, account: Option<String>) -> (r: String)
    ensures
        r@ == squatted_text(name@, pid, crate::model::opt(account)),
{
    let n = decimal_text(pid as u64);
    let who = match &account {
        Some(a) => a.as_str(),
        None => "could not be read",
    };
    let mut s = cat5(name, " is already served by process ", n.as_str(), " (account: ", who);
    s.append(
        "); this node will not take a second instance of somebody else's pipe. Stop that process — or, if it is not ours, treat it as a squatter: it is receiving whatever `vk` sends to this endpoint.",
    );
    s
}

/// What to do about what stands where the endpoint should be.
#[derive(Debug)]
pub enum BindMove {
    /// There is nothing: listen there.
    Bind,
    /// There is a socket that nobody serves: remove it, and listen there.
    Replace,
    /// Do not listen there, and this is why.
    Refuse(String),
}

/// What to do about what stands where the endpoint should be: nothing but a socket is
/// ever removed, and none that is served. `found` is whether what is there is a socket.
pub fn bind_move(endpoint: &str, found: Option<bool>, served: bool) -> (r: BindMove)
    ensures
        match found {
            None => r is Bind,
            Some(false) => r matches BindMove::Refuse(why) && why@ == endpoint@
                + " exists and is not a socket"@,
            Some(true) => if served {
                r matches BindMove::Refuse(why) && why@ == "endpoint "@ + endpoint@
                    + " already in use"@
            } else {
                r is Replace
            },
        },
{
    match found {
        None => BindMove::Bind,
        Some(false) => BindMove::Refuse(cat(endpoint, " exists and is not a socket")),
        Some(true) => if served {
            BindMove::Refuse(cat3("endpoint ", endpoint, " already in use"))
        } else {
            BindMove::Replace
        },
    }
}

/// Refuse a directory that others can reach. `mode` is its permission bits.
pub fn private_mode(dir: &str, mode: u32) -> (r: Result<(), String>)
    ensures
        r is Ok <==> mode & 0o077 == 0,
        r matches Err(why) ==> why@ == dir@
            + " is accessible by others; refusing to listen there"@,
{
    if mode & 0o077 == 0 {
        Ok(())
    } else {
        Err(cat(dir, " is accessible by others; refusing to listen there"))
    }
}

/// Refuse a security descriptor where the endpoint is a socket.
pub fn no_descriptor(sddl: &Option<String>) -> (r: Result<(), String>)
    ensures
        r is Ok <==> sddl is None,
        r matches Err(why) ==> why@
            == "a security descriptor is a Windows concept; this endpoint is a Unix socket, whose ACL is its mode and its directory's"@,
{
    if sddl.is_none() {
        Ok(())
    } else {
        Err(
            "a security descriptor is a Windows concept; this endpoint is a Unix socket, whose ACL is its mode and its directory's".to_owned(),
        )
    }
}

/// How often in a row no new instance of a pipe could be made.
#[derive(Debug)]
pub struct Arming {
    pub failures: u32,
}

impl Arming {
    /// Take in whether a new instance could be made.
    pub fn armed(&mut self, made: bool)
        ensures
            final(self).failures == (if made {
                0
            } else if old(self).failures < u32::MAX {
                (old(self).failures + 1) as u32
            } else {
                old(self).failures
            }),
    {
        if made {
            self.failures = 0;
        } else if self.failures < u32::MAX {
            self.failures += 1;
        }
    }

    /// What a failure to make an instance means: a bad moment once, and the end of the
    /// listener when it is the second in a row.
    pub fn refused(&self, message: &str) -> (r: AcceptError)
        ensures
            r is Listener <==> self.failures >= 2,
            match r {
                AcceptError::Listener(why) => why@ == message@,
                AcceptError::Connection(why) => why@ == message@,
            },
    {
        if self.failures >= 2 {
            AcceptError::Listener(message.to_owned())
        } else {
            AcceptError::Connection(message.to_owned())
        }
    }
}

/// What kind of account an identifier names.
#[derive(Clone, Copy, Debug, PartialEq, Eq, Structural)]
pub enum AccountKind {
    User,
    Unknown,
    Deleted,
    Other(u32),
}

/// What an account is called when it is no user's.
pub open spec fn account_kind_text(kind: AccountKind) -> Seq<char> {
    match kind {
        AccountKind::User => "a user account"@,
        AccountKind::Unknown => "an account of unknown type"@,
        AccountKind::Deleted => "a deleted account"@,
        AccountKind::Other(n) => "not a user account (SID_NAME_USE "@ + decimal(n as nat) + ")"@,
    }
}

/// Why an account may not be the one that an endpoint admits, if it may not.
pub open spec fn account_fault(sid: Seq<char>, account: Seq<char>, kind: AccountKind) -> Option<
    Seq<char>,
> {
    if kind != AccountKind::User {
        Some(
            sid + " names "@ + account + ", which is "@ + account_kind_text(kind)
                + " — the endpoint admits one *user*, and a group or an alias here would hand it to everybody in that group. `whoami /user` prints the SID of the account you are logged in as."@,
        )
    } else if account.len() == 0 {
        Some(
            sid
                + " resolves to a user account with no name, which no endpoint can be derived from"@,
        )
    } else {
        None
    }
}

/// Refuse an account that is no user's: `account` and `kind` are what the identifier
/// names.
pub fn ensure_user_sid(sid: &str, account: &str, kind: AccountKind) -> (r: Result<(), String>)
    ensures
        r is Ok <==> is_string_sid(sid@) && account_fault(sid@, account@, kind) is None,
        r matches Err(why) ==> why@ == (if !is_string_sid(sid@) {
            not_a_sid(sid@)
        } else {
            account_fault(sid@, account@, kind)->0
        }),
{
    if let Err(why) = ensure_string_sid(sid) {
        return Err(why);
    }
    if kind != AccountKind::User {
        let what = match kind {
            AccountKind::User => "a user account".to_owned(),
            AccountKind::Unknown => "an account of unknown type".to_owned(),
            AccountKind::Deleted => "a deleted account".to_owned(),
            AccountKind::Other(n) => {
                let d = decimal_text(n as u64);
                cat3("not a user account (SID_NAME_USE ", d.as_str(), ")")
            },
        };
        let head = cat5(sid, " names ", account, ", which is ", what.as_str());
        return Err(
            cat(
                head.as_str(),
                " — the endpoint admits one *user*, and a group or an alias here would hand it to everybody in that group. `whoami /user` prints the SID of the account you are logged in as.",
            ),
        );
    }
    if account.unicode_len() == 0 {
        return Err(
            cat(
                sid,
                " resolves to a user account with no name, which no endpoint can be derived from",
            ),
        );
    }
    Ok(())
}

/// A list of accounts that was accepted holds nothing but accounts: no text in it could
/// write an entry of its own.
pub proof fn accepted_accounts_are_plain(sids: Seq<Seq<char>>, i: int)
    requires
        dacl_of(sids) is Ok,
        0 <= i < sids.len(),
    ensures
        is_string_sid(sids[i]),
    decreases sids.len(),
{
    let before = sids.drop_last();
    assert(first_bad_sid(before) is None);
    if i < before.len() {
        assert(before[i] == sids[i]);
        accepted_accounts_are_plain_of(before, i);
    }
}

proof fn accepted_accounts_are_plain_of(sids: Seq<Seq<char>>, i: int)
    requires
        first_bad_sid(sids) is None,
        0 <= i < sids.len(),
    ensures
        is_string_sid(sids[i]),
    decreases sids.len(),
{
    let before = sids.drop_last();
    if i < before.len() {
        accepted_accounts_are_plain_of(before, i);
        assert(before[i] == sids[i]);
    }
}

} // verus!
