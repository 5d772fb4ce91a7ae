//! What a node has mounted, what it refuses to keep, and what it finds when it comes up.
use crate::adapter::ArchAdapter;
use crate::arches::{
    difference, installing, manifest_of, mounting, state_of, unmounting, ArchStateView, Remount,
};
use crate::boot::{booting, forced, report_of, version_loaded};
use crate::devices::passkey_of;
use crate::json::{field, member, text_field, JsonView};
use crate::kernel::{KernelView, RecordState};
use crate::leases::{expired, in_slot};
use crate::listing::one_order;
use crate::manifest::{arch_id_of, ArchManifestView};
use crate::mount::{carried_secret, first_secret, names_secret, MountSpecView};
use crate::opening::{in_force, leases_in_force, opens_as, outranks};
use crate::outside::{is_hex, unhex};
use crate::reading_laws::member_is_found;
use crate::stops::is_stopped;
use crate::store::{LeaseView, LedgerEventView, StoreView};
use crate::table::ascending;
use vstd::prelude::*;

verus! {

/// A mount is of one arch: no other is touched, whatever their state. A new one has the context
/// that its adapter has and is on the record once; one that is replaced hands its adapter out
/// and is on the record no second time.
pub proof fn mount_is_of_one_arch<A: ArchAdapter>(
    k: KernelView<A>,
    a: A,
    checked: Result<(), Seq<char>>,
    spec: MountSpecView,
    remount: Remount,
    now: u64,
    other: Seq<char>,
)
    requires
        mounting(k, a, checked, spec, remount, now).1 is Ok,
    ensures
        ({
            let (after, r) = mounting(k, a, checked, spec, remount, now);
            let id = arch_id_of(a.declared().identity);
            let was_there = k.adapters.contains_key(id);
            &&& checked is Ok
            &&& r->Ok_0.arch_id == id
            &&& r->Ok_0.already_mounted == was_there
            &&& r->Ok_0.replaced == if was_there && remount == Remount::Replace {
                Some(k.adapters[id])
            } else {
                None
            }
            &&& !(was_there && remount == Remount::Keep) ==> {
                &&& after.adapters == k.adapters.insert(id, a)
                &&& after.budgets.contains_key(id)
                &&& a.budget() <= u32::MAX ==> after.budgets[id] == a.budget()
                &&& after.store.arches == k.store.arches.insert(id, a.declared())
                &&& after.store.mounts == k.store.mounts.insert(id, spec)
            }
            &&& was_there && remount == Remount::Keep ==> after == k
            &&& was_there ==> after.store.ledger == k.store.ledger
            &&& !was_there ==> after.store.ledger == k.store.ledger.push(
                LedgerEventView {
                    kind: "arch.mounted"@,
                    wall_ms: now,
                    payload: JsonView::Text(id),
                },
            )
            &&& other != id ==> {
                &&& state_of(after, other) == state_of(k, other)
                &&& after.budgets.contains_key(other) == k.budgets.contains_key(other)
                &&& after.budgets[other] == k.budgets[other]
                &&& k.adapters.contains_key(other) ==> after.adapters[other] == k.adapters[other]
            }
            &&& after.store.registers == k.store.registers
            &&& after.store.tasks == k.store.tasks
            &&& after.store.stats == k.store.stats
        }),
{
}

/// A mount is refused exactly when the manifest was not found valid, what makes the arch again
/// carries a credential, or the id is known by another manifest.
pub proof fn mount_is_refused_exactly_when<A: ArchAdapter>(
    k: KernelView<A>,
    a: A,
    checked: Result<(), Seq<char>>,
    spec: MountSpecView,
    remount: Remount,
    now: u64,
)
    requires
        crate::kernel::sound(k),
    ensures
        ({
            let id = arch_id_of(a.declared().identity);
            mounting(k, a, checked, spec, remount, now).1 is Err <==> {
                ||| checked is Err
                ||| carried_secret(spec) is Some
                ||| state_of(k, id) is Some && manifest_of(k, id) != a.declared()
            }
        }),
{
}

/// What was made for an arch that is starting is installed with its own context where it is
/// the arch that was mounted; otherwise the arch is unavailable and says why, and what was
/// made is handed back. No other arch is touched, and nothing is kept or put on the record.
pub proof fn made_arch_is_installed_or_says_why<A: ArchAdapter>(
    k: KernelView<A>,
    id: Seq<char>,
    made: Result<A, Seq<char>>,
    other: Seq<char>,
)
    requires
        crate::kernel::sound(k),
        k.starting.contains_key(id),
    ensures
        ({
            let (after, back) = installing(k, id, made);
            let manifest = k.starting[id].manifest;
            &&& !after.starting.contains_key(id)
            &&& made matches Err(why) ==> {
                &&& state_of(after, id) == Some(ArchStateView::Unavailable(why))
                &&& manifest_of(after, id) == manifest
                &&& back is None
            }
            &&& made matches Ok(a) ==> {
                &&& a.declared() == manifest ==> {
                    &&& state_of(after, id) == Some(ArchStateView::Ready)
                    &&& after.adapters[id] == a
                    &&& a.budget() <= u32::MAX ==> after.budgets[id] == a.budget()
                    &&& back is None
                }
                &&& a.declared() != manifest ==> {
                    &&& state_of(after, id) is Some
                    &&& state_of(after, id)->0 is Unavailable
                    &&& manifest_of(after, id) == manifest
                    &&& back == Some(a)
                }
            }
            &&& other != id ==> state_of(after, other) == state_of(k, other)
            &&& after.store == k.store
        }),
{
}

/// An arch that stopped waiting while it was made gets nothing, and what was made is handed
/// back.
pub proof fn arch_that_stopped_waiting_gets_nothing<A: ArchAdapter>(
    k: KernelView<A>,
    id: Seq<char>,
    made: Result<A, Seq<char>>,
)
    requires
        !k.starting.contains_key(id),
    ensures
        installing(k, id, made).0 == k,
        made matches Ok(a) ==> installing(k, id, made).1 == Some(a),
        made is Err ==> installing(k, id, made).1 is None,
{
}

/// Unmounting is of one arch: its adapter is handed out where it had one, the record names it,
/// and no other arch is touched. What the arch has spent stays on the books.
pub proof fn unmount_is_of_one_arch<A: ArchAdapter>(
    k: KernelView<A>,
    id: Seq<char>,
    now: u64,
    other: Seq<char>,
)
    requires
        other != id,
    ensures
        ({
            let (after, back) = unmounting(k, id, now);
            &&& back == if k.adapters.contains_key(id) {
                Some(k.adapters[id])
            } else {
                None
            }
            &&& state_of(after, other) == state_of(k, other)
            &&& after.budgets.contains_key(other) == k.budgets.contains_key(other)
            &&& after.budgets[other] == k.budgets[other]
            &&& after.adapters[other] == k.adapters[other]
            &&& after.store.arches.contains_key(other) == k.store.arches.contains_key(other)
            &&& after.store.mounts.contains_key(other) == k.store.mounts.contains_key(other)
            &&& after.store.arches[other] == k.store.arches[other]
            &&& after.store.mounts[other] == k.store.mounts[other]
            &&& after.store.stats == k.store.stats
            &&& after.store.registers == k.store.registers
            &&& after.store.tasks == k.store.tasks
            &&& after.store.ledger == k.store.ledger.push(
                LedgerEventView {
                    kind: "arch.unmounted"@,
                    wall_ms: now,
                    payload: JsonView::Text(id),
                },
            )
        }),
{
}

/// Two manifests differ exactly when there is something to say of it.
pub proof fn difference_is_said_exactly_when(stored: ArchManifestView, made: ArchManifestView)
    ensures
        difference(stored, made) is None <==> stored == made,
{
}

/// A text under the name of a credential is found wherever it stands: under that name itself,
/// or anywhere below it.
pub proof fn credential_is_found(
    members: Seq<(Seq<char>, JsonView)>,
    under: Option<Seq<char>>,
    i: int,
)
    requires
        0 <= i < members.len(),
        first_secret(
            members[i].1,
            if names_secret(members[i].0) {
                Some(members[i].0)
            } else {
                under
            },
        ) is Some,
    ensures
        first_secret(JsonView::Object(members), under) is Some,
    decreases members.len(),
{
    let front = members.drop_last();
    if i < front.len() {
        assert(front[i] == members[i]);
        credential_is_found(front, under, i);
        assert(first_secret(JsonView::Object(front), under) is Some);
        assert(crate::mount::first_of_members(front, under) is Some);
    }
}

/// A credential in a list is found, whatever stands before it.
pub proof fn credential_in_a_list_is_found(items: Seq<JsonView>, under: Option<Seq<char>>, i: int)
    requires
        0 <= i < items.len(),
        first_secret(items[i], under) is Some,
    ensures
        first_secret(JsonView::Array(items), under) is Some,
    decreases items.len(),
{
    let front = items.drop_last();
    if i < front.len() {
        assert(front[i] == items[i]);
        credential_in_a_list_is_found(front, under, i);
        assert(first_secret(JsonView::Array(front), under) is Some);
        assert(crate::mount::first_of_items(front, under) is Some);
    }
}

/// A text is a credential exactly when it stands under the name of one; a number, a truth value
/// and nothing are none.
pub proof fn text_under_a_secret_name_is_a_credential(
    name: Seq<char>,
    value: Seq<char>,
    rest: Seq<(Seq<char>, JsonView)>,
    n: nat,
    b: bool,
)
    ensures
        names_secret(name) ==> first_secret(
            JsonView::Object(rest.push((name, JsonView::Text(value)))),
            None,
        ) is Some,
        !names_secret(name) ==> first_secret(
            JsonView::Object(seq![(name, JsonView::Text(value))]),
            None,
        ) is None,
        first_secret(JsonView::Unsigned(n), Some(name)) is None,
        first_secret(JsonView::Bool(b), Some(name)) is None,
        first_secret(JsonView::Null, Some(name)) is None,
        first_secret(JsonView::Text(value), Some(name)) == Some(name),
        first_secret(JsonView::Text(value), None) is None,
{
    let ms = rest.push((name, JsonView::Text(value)));
    if names_secret(name) {
        assert(first_secret(ms[rest.len() as int].1, Some(name)) is Some);
        credential_is_found(ms, None, rest.len() as int);
    } else {
        let one = seq![(name, JsonView::Text(value))];
        assert(one.drop_last() =~= Seq::<(Seq<char>, JsonView)>::empty());
        assert(crate::mount::first_of_members(one.drop_last(), None) is None);
        assert(crate::mount::first_of_members(one, None) is None);
    }
}

/// What names a credential: a name with a key, a token, a secret, a password or a credential in
/// it, in whatever case.
pub proof fn secret_names_are_told_by_their_words(before: Seq<char>, after: Seq<char>)
    ensures
        names_secret(before + "key"@ + after),
        names_secret(before + "token"@ + after),
        names_secret(before + "secret"@ + after),
        names_secret(before + "password"@ + after),
        names_secret(before + "credential"@ + after),
        names_secret(before + "KEY"@ + after),
        names_secret(before + "Token"@ + after),
{
    reveal_strlit("key");
    reveal_strlit("token");
    reveal_strlit("secret");
    reveal_strlit("password");
    reveal_strlit("credential");
    reveal_strlit("KEY");
    reveal_strlit("Token");
    let i = before.len() as int;
    assert(crate::mount::stands_at(before + "key"@ + after, "key"@, i));
    assert(crate::mount::stands_at(before + "token"@ + after, "token"@, i));
    assert(crate::mount::stands_at(before + "secret"@ + after, "secret"@, i));
    assert(crate::mount::stands_at(before + "password"@ + after, "password"@, i));
    assert(crate::mount::stands_at(before + "credential"@ + after, "credential"@, i));
    assert(crate::mount::stands_at(before + "KEY"@ + after, "key"@, i));
    assert(crate::mount::stands_at(before + "Token"@ + after, "token"@, i));
}

/// The report of a boot says what the node found: whether the record holds, how long it was and
/// whether its last line was dropped, and, of whatever can be listed, exactly the arches that
/// are mounted, those of them that are unavailable and starting, the devices, and the scopes
/// that are stopped, each once and in order.
pub proof fn boot_reports_what_it_finds<A>(k: KernelView<A>, ids: Seq<Seq<char>>)
    requires
        ascending(ids),
    ensures
        ({
            let r = report_of(k);
            &&& r.ledger_ok == (k.record.chain_ok && k.record.head_ok)
            &&& r.ledger_len == k.store.ledger.len()
            &&& r.recovered_partial_line == k.record.recovered_partial_line
            &&& k.store.policies_version is Some ==> r.policies_version
                == k.store.policies_version->0
            &&& k.store.policies_version is None ==> r.policies_version == "0"@
            &&& (forall|id: Seq<char>| #[trigger]
                ids.contains(id) <==> state_of(k, id) is Some) ==> r.arches == ids
            &&& (forall|id: Seq<char>| #[trigger]
                ids.contains(id) <==> k.unavailable.contains_key(id)) ==> r.unavailable_arches == ids
            &&& (forall|id: Seq<char>| #[trigger]
                ids.contains(id) <==> k.starting.contains_key(id)) ==> r.starting_arches == ids
            &&& (forall|id: Seq<char>| #[trigger]
                ids.contains(id) <==> k.devices.contains_key(id) || passkey_of(k.store, id) is Some)
                ==> r.devices == ids
            &&& (forall|id: Seq<char>| #[trigger] ids.contains(id) <==> is_stopped(k, id))
                ==> r.stopped_scopes == ids
        }),
{
    if forall|id: Seq<char>| #[trigger] ids.contains(id) <==> state_of(k, id) is Some {
        one_order(ids, |id: Seq<char>| state_of(k, id) is Some);
    }
    if forall|id: Seq<char>| #[trigger] ids.contains(id) <==> k.unavailable.contains_key(id) {
        one_order(ids, |id: Seq<char>| k.unavailable.contains_key(id));
    }
    if forall|id: Seq<char>| #[trigger] ids.contains(id) <==> k.starting.contains_key(id) {
        one_order(ids, |id: Seq<char>| k.starting.contains_key(id));
    }
    if forall|id: Seq<char>| #[trigger]
        ids.contains(id) <==> k.devices.contains_key(id) || passkey_of(k.store, id) is Some {
        one_order(
            ids,
            |id: Seq<char>| k.devices.contains_key(id) || passkey_of(k.store, id) is Some,
        );
    }
    if forall|id: Seq<char>| #[trigger] ids.contains(id) <==> is_stopped(k, id) {
        one_order(ids, |s: Seq<char>| is_stopped(k, s));
    }
}

/// Booting gives the report of what was found, keeps the version of the policies from then on,
/// and leaves no token of a harness; what is stopped, mounted and approved stays.
pub proof fn booting_gives_the_report<A>(k: KernelView<A>, now: u64, later: u64)
    requires
        crate::kernel::filed(k.store),
    ensures
        ({
            let (after, r) = booting(k, now, later);
            &&& r == report_of(k)
            &&& after.store.policies_version == Some(version_loaded(k.store))
            &&& after.harness_tokens.dom() =~= Set::<Seq<char>>::empty()
            &&& after.store.registers == k.store.registers
            &&& after.store.approvals == k.store.approvals
            &&& after.store.blobs == k.store.blobs
            &&& after.store.stops == k.store.stops
            &&& after.store.resumes == k.store.resumes
            &&& after.store.arches == k.store.arches
            &&& after.store.devices == k.store.devices
            &&& after.adapters == k.adapters
            &&& after.stops == k.stops
            &&& after.resumes == k.resumes
            &&& after.devices == k.devices
        }),
{
    let report = report_of(k);
    let versioned = KernelView {
        store: StoreView { policies_version: Some(version_loaded(k.store)), ..k.store },
        ..k
    };
    let logged = crate::kernel::with_event(
        versioned,
        "boot"@,
        now,
        crate::boot::report_json(report),
    );
    recovery_keeps_the_rest(logged, crate::boot::every_task(k.store), later);
}

proof fn recovery_keeps_the_rest<A>(k: KernelView<A>, ids: Seq<Seq<char>>, now: u64)
    ensures
        crate::recovery::recovered(k, ids, now) == (KernelView {
            store: StoreView {
                ledger: crate::recovery::recovered(k, ids, now).store.ledger,
                tasks: crate::recovery::recovered(k, ids, now).store.tasks,
                ..k.store
            },
            ..k
        }),
    decreases ids.len(),
{
    if ids.len() > 0 {
        recovery_keeps_the_rest(k, ids.drop_last(), now);
        let before = crate::recovery::recovered(k, ids.drop_last(), now);
        let t = before.store.tasks[ids.last()];
        noting_keeps_the_rest(before, t, t.steps.len(), now);
    }
}

proof fn noting_keeps_the_rest<A>(k: KernelView<A>, t: crate::task::TaskView, n: nat, now: u64)
    ensures
        crate::recovery::noted(k, t, n, now) == (KernelView {
            store: StoreView {
                ledger: crate::recovery::noted(k, t, n, now).store.ledger,
                ..k.store
            },
            ..k
        }),
    decreases n,
{
    if n > 0 {
        noting_keeps_the_rest(k, t, (n - 1) as nat, now);
    }
}

/// What the record says of a forced boot can be read off it, and nothing but the record and the
/// mark of the run changes.
pub proof fn forced_boot_is_marked<A>(k: KernelView<A>, r: crate::boot::BootReportView, now: u64)
    ensures
        ({
            let after = forced(k, r, now);
            let said = after.store.ledger.last();
            &&& after.store.ledger == k.store.ledger.push(said)
            &&& said.wall_ms == now
            &&& crate::json::bool_field(said.payload, "ledger_ok"@) == Some(r.ledger_ok)
            &&& crate::json::bool_field(said.payload, "head_ok"@) == Some(k.record.head_ok)
            &&& crate::json::number_field(said.payload, "ledger_len"@) == Some(r.ledger_len)
            &&& text_field(said.payload, "report_hash"@) == Some(
                crate::json::canonical_hash(crate::boot::report_json(r)),
            )
            &&& after == (KernelView {
                forced_boot: true,
                store: StoreView { ledger: after.store.ledger, ..k.store },
                ..k
            })
        }),
{
    let ms = crate::boot::forced_json(k, r)->Object_0;
    reveal_strlit("ledger_ok");
    reveal_strlit("head_ok");
    reveal_strlit("ledger_len");
    assert("ledger_ok"@.len() != "head_ok"@.len());
    assert("ledger_ok"@.len() != "ledger_len"@.len());
    assert("head_ok"@.len() != "ledger_len"@.len());
    member_is_found(ms, 0);
    member_is_found(ms, 1);
    member_is_found(ms, 2);
    reveal_strlit("report_hash");
    assert("report_hash"@.len() == 11);
    member_is_found(ms, 3);
}

/// A lease outlives the process that granted it: one that has not run out, and that no other of
/// its slot was granted after or under a later fence, is in force when the node opens again.
/// Of several the latest is, and one that has run out is not.
pub proof fn latest_lease_survives_a_restart(
    m: Map<Seq<char>, LeaseView>,
    id: Seq<char>,
    other: Seq<char>,
    now: u64,
)
    ensures
        leases_in_force(m, now).contains_key(id) ==> {
            &&& m.contains_key(id)
            &&& now < m[id].expires_at_ms
            &&& leases_in_force(m, now)[id] == m[id]
        },
        leases_in_force(m, now).contains_key(id) && m.contains_key(other) && other != id && now
            < m[other].expires_at_ms && m[other].resource == m[id].resource && m[other].partition
            == m[id].partition ==> {
            ||| m[id].granted_at_ms > m[other].granted_at_ms
            ||| m[id].granted_at_ms == m[other].granted_at_ms && m[id].fence >= m[other].fence
        },
        m.contains_key(id) && now < m[id].expires_at_ms && (forall|o: Seq<char>| #[trigger]
            m.contains_key(o) && o != id ==> now >= m[o].expires_at_ms || m[o].resource
                != m[id].resource || m[o].partition != m[id].partition || m[o].granted_at_ms
                < m[id].granted_at_ms) ==> leases_in_force(m, now).contains_key(id),
{
    if leases_in_force(m, now).contains_key(id) {
        assert(in_force(m, id, now));
        if m.contains_key(other) && other != id && now < m[other].expires_at_ms && m[other].resource
            == m[id].resource && m[other].partition == m[id].partition {
            assert(!expired(m[other], now) && in_slot(m[other], m[id].resource, m[id].partition));
            assert(outranks(m[id], m[other]));
        }
    }
    if m.contains_key(id) && now < m[id].expires_at_ms && (forall|o: Seq<char>| #[trigger]
        m.contains_key(o) && o != id ==> now >= m[o].expires_at_ms || m[o].resource
            != m[id].resource || m[o].partition != m[id].partition || m[o].granted_at_ms
            < m[id].granted_at_ms) {
        assert forall|o: Seq<char>| #[trigger]
            m.contains_key(o) && o != id && !expired(m[o], now) && in_slot(
                m[o],
                m[id].resource,
                m[id].partition,
            ) implies outranks(m[id], m[o]) by {}
        assert(in_force(m, id, now));
    }
}

/// What a node holds after it was opened is what was kept: its stops, the record as it was
/// found, and the leases that are in force; an arch that is starting has the manifest and the
/// spec that were kept of it.
pub proof fn opened_node_holds_what_was_kept<A>(
    s: StoreView,
    node: Seq<char>,
    record: RecordState,
    now: u64,
    k: KernelView<A>,
    id: Seq<char>,
)
    requires
        opens_as(s, node, record, now, k),
    ensures
        k.record == record,
        k.stops == s.stops,
        k.resumes == s.resumes,
        k.locks == k.store.leases,
        k.starting.contains_key(id) ==> {
            &&& k.starting[id].manifest == s.arches[id]
            &&& k.starting[id].spec == s.mounts[id]
        },
        k.unavailable.contains_key(id) ==> k.unavailable[id].manifest == s.arches[id],
        k.store.devices == s.devices,
        k.store.arches == s.arches,
        k.store.fences == s.fences,
        k.devices.contains_key(id) ==> s.devices.contains_key(id) && k.devices[id] == unhex(
            s.devices[id].vk_hex,
        ),
        s.devices.contains_key(id) && is_hex(s.devices[id].vk_hex) && unhex(
            s.devices[id].vk_hex,
        ).len() == 32 ==> k.devices.contains_key(id),
{
}

/// What the record says of a boot is everything that the node found.
pub proof fn boot_report_is_told_in_full(r: crate::boot::BootReportView)
    ensures
        ({
            let told = crate::boot::report_json(r);
            &&& crate::json::bool_field(told, "ledger_ok"@) == Some(r.ledger_ok)
            &&& field(told, "ledger_len"@) == Some(JsonView::Unsigned(r.ledger_len))
            &&& crate::json::bool_field(told, "recovered_partial_line"@) == Some(r.recovered_partial_line)
            &&& field(told, "arches"@) is Some
            &&& crate::wire_laws::lists_texts(field(told, "arches"@)->0, r.arches)
            &&& field(told, "unavailable_arches"@) is Some
            &&& crate::wire_laws::lists_texts(field(told, "unavailable_arches"@)->0, r.unavailable_arches)
            &&& field(told, "starting_arches"@) is Some
            &&& crate::wire_laws::lists_texts(field(told, "starting_arches"@)->0, r.starting_arches)
            &&& field(told, "devices"@) is Some
            &&& crate::wire_laws::lists_texts(field(told, "devices"@)->0, r.devices)
            &&& field(told, "stopped_scopes"@) is Some
            &&& crate::wire_laws::lists_texts(field(told, "stopped_scopes"@)->0, r.stopped_scopes)
            &&& text_field(told, "policies_version"@) == Some(r.policies_version)
        }),
{
    let ms = crate::boot::report_json(r)->Object_0;
    reveal_strlit("ledger_ok");
    reveal_strlit("ledger_len");
    reveal_strlit("recovered_partial_line");
    reveal_strlit("arches");
    reveal_strlit("unavailable_arches");
    reveal_strlit("starting_arches");
    reveal_strlit("devices");
    reveal_strlit("stopped_scopes");
    reveal_strlit("policies_version");
    assert(member(ms, "ledger_ok"@) == Some(ms[0].1)) by {
        member_is_found(ms, 0);
    }
    assert(member(ms, "ledger_len"@) == Some(ms[1].1)) by {
        assert("ledger_ok"@.len() != "ledger_len"@.len());
        member_is_found(ms, 1);
    }
    assert(member(ms, "recovered_partial_line"@) == Some(ms[2].1)) by {
        assert("ledger_ok"@.len() != "recovered_partial_line"@.len());
        assert("ledger_len"@.len() != "recovered_partial_line"@.len());
        member_is_found(ms, 2);
    }
    assert(member(ms, "arches"@) == Some(ms[3].1)) by {
        assert("ledger_ok"@.len() != "arches"@.len());
        assert("ledger_len"@.len() != "arches"@.len());
        assert("recovered_partial_line"@.len() != "arches"@.len());
        member_is_found(ms, 3);
    }
    assert(member(ms, "unavailable_arches"@) == Some(ms[4].1)) by {
        assert("ledger_ok"@.len() != "unavailable_arches"@.len());
        assert("ledger_len"@.len() != "unavailable_arches"@.len());
        assert("recovered_partial_line"@.len() != "unavailable_arches"@.len());
        assert("arches"@.len() != "unavailable_arches"@.len());
        member_is_found(ms, 4);
    }
    assert(member(ms, "starting_arches"@) == Some(ms[5].1)) by {
        assert("ledger_ok"@.len() != "starting_arches"@.len());
        assert("ledger_len"@.len() != "starting_arches"@.len());
        assert("recovered_partial_line"@.len() != "starting_arches"@.len());
        assert("arches"@.len() != "starting_arches"@.len());
        assert("unavailable_arches"@.len() != "starting_arches"@.len());
        member_is_found(ms, 5);
    }
    assert(member(ms, "devices"@) == Some(ms[6].1)) by {
        assert("ledger_ok"@.len() != "devices"@.len());
        assert("ledger_len"@.len() != "devices"@.len());
        assert("recovered_partial_line"@.len() != "devices"@.len());
        assert("arches"@.len() != "devices"@.len());
        assert("unavailable_arches"@.len() != "devices"@.len());
        assert("starting_arches"@.len() != "devices"@.len());
        member_is_found(ms, 6);
    }
    assert(member(ms, "stopped_scopes"@) == Some(ms[7].1)) by {
        assert("ledger_ok"@.len() != "stopped_scopes"@.len());
        assert("ledger_len"@.len() != "stopped_scopes"@.len());
        assert("recovered_partial_line"@.len() != "stopped_scopes"@.len());
        assert("arches"@.len() != "stopped_scopes"@.len());
        assert("unavailable_arches"@.len() != "stopped_scopes"@.len());
        assert("starting_arches"@.len() != "stopped_scopes"@.len());
        assert("devices"@.len() != "stopped_scopes"@.len());
        member_is_found(ms, 7);
    }
    assert(member(ms, "policies_version"@) == Some(ms[8].1)) by {
        assert("ledger_ok"@.len() != "policies_version"@.len());
        assert("ledger_len"@.len() != "policies_version"@.len());
        assert("recovered_partial_line"@.len() != "policies_version"@.len());
        assert("arches"@.len() != "policies_version"@.len());
        assert("unavailable_arches"@.len() != "policies_version"@.len());
        assert("starting_arches"@.len() != "policies_version"@.len());
        assert("devices"@.len() != "policies_version"@.len());
        assert("stopped_scopes"@.len() != "policies_version"@.len());
        member_is_found(ms, 8);
    }
}

proof fn each_is_installed<A: ArchAdapter>(
    k: KernelView<A>,
    ids: Seq<Seq<char>>,
    made: Seq<Result<A, Seq<char>>>,
    id: Seq<char>,
)
    requires
        made.len() == ids.len(),
    ensures
        ({
            let after = crate::mock::installed_each(k, ids, made);
            &&& after.starting.contains_key(id) <==> k.starting.contains_key(id) && !ids.contains(id)
            &&& after.starting.contains_key(id) ==> after.starting[id] == k.starting[id]
            &&& !(k.starting.contains_key(id) && ids.contains(id)) ==> {
                &&& after.adapters.contains_key(id) == k.adapters.contains_key(id)
                &&& k.adapters.contains_key(id) ==> after.adapters[id] == k.adapters[id]
                &&& after.unavailable.contains_key(id) == k.unavailable.contains_key(id)
                &&& k.unavailable.contains_key(id) ==> after.unavailable[id] == k.unavailable[id]
            }
            &&& k.starting.contains_key(id) && ids.contains(id) ==> after.adapters.contains_key(id)
                || after.unavailable.contains_key(id)
            &&& after.store == k.store
        }),
    decreases ids.len(),
{
    if ids.len() > 0 {
        let (front, last) = (ids.drop_last(), ids.last());
        each_is_installed(k, front, made.drop_last(), id);
        each_is_installed(k, front, made.drop_last(), last);
        assert(ids.contains(id) <==> front.contains(id) || id == last) by {
            if front.contains(id) {
                let i = choose|i: int| 0 <= i < front.len() && front[i] == id;
                assert(ids[i] == id);
            }
            assert(ids[ids.len() - 1] == last);
            if ids.contains(id) && id != last {
                let i = choose|i: int| 0 <= i < ids.len() && ids[i] == id;
                assert(front[i] == id);
            }
        }
    }
}

/// When a node of mocks has started its arches none is starting any more: each of them is ready or
/// says why it cannot be called. No other arch is touched, and nothing is kept or put on the
/// record.
pub proof fn started_node_has_nothing_starting(
    k: KernelView<crate::adapter::MockAdapter>,
    words: Map<Seq<char>, Seq<char>>,
    after: KernelView<crate::adapter::MockAdapter>,
    ids: Seq<Seq<char>>,
    id: Seq<char>,
)
    requires
        crate::mock::starts_as(k, words, after),
        crate::listing::is_in_order(ids, |x: Seq<char>| k.starting.contains_key(x)),
    ensures
        !after.starting.contains_key(id),
        k.starting.contains_key(id) ==> after.adapters.contains_key(id)
            || after.unavailable.contains_key(id),
        !k.starting.contains_key(id) ==> {
            &&& after.adapters.contains_key(id) == k.adapters.contains_key(id)
            &&& k.adapters.contains_key(id) ==> after.adapters[id] == k.adapters[id]
            &&& after.unavailable.contains_key(id) == k.unavailable.contains_key(id)
        },
        after.store == k.store,
{
    let p = |x: Seq<char>| k.starting.contains_key(x);
    one_order(ids, p);
    assert(ids.contains(id) <==> p(id));
    let made = choose|made: Seq<Result<crate::adapter::MockAdapter, Seq<char>>>|
        crate::mock::are_mocks_of(k, crate::mock::starting_ids(k), made, words) && after
            == #[trigger] crate::mock::installed_each(k, crate::mock::starting_ids(k), made);
    each_is_installed(k, ids, made, id);
}

} // verus!
