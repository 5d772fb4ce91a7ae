//! Devices: the keys and passkeys that speak for a person.
use crate::error::{KernelError, KernelErrorView};
use crate::json::{text, Json, JsonView};
use crate::kernel::{with_event, DeviceKey, KernelView, RealKernel};
use crate::model::{all, Duplicate};
use crate::outside::{debug_of, debug_text, 
    ed25519_accepts, ed25519_key_of, ed25519_verify, hex_encode, hex_of, now_ms,
};
use crate::presence::{node_device_id, HumanKey, NodeDevice};
use crate::stops::done;
use crate::store::{DeviceRow, DeviceRowView, StoreView};
use crate::table::{ascending, Table};
use crate::text::{before, begins, begins_with, cat, cat3, cat5, same};
use vstd::prelude::*;
use vstd::string::*;

verus! {

/// The trust class of a row that holds a passkey.
pub const PASSKEY_TRUST_CLASS: &'static str = "passkey";

/// What the device id of every passkey begins with.
pub const PASSKEY_DEVICE_PREFIX: &'static str = "passkey:";

/// What a device's signature of a message is worth: nothing from a device that is
/// not enrolled, and nothing when it does not verify.
pub open spec fn device_check(
    devices: Map<Seq<char>, Seq<u8>>,
    device_id: Seq<char>,
    message: Seq<u8>,
    signature: Seq<u8>,
) -> Result<(), Seq<char>> {
    if !devices.contains_key(device_id) {
        Err("device "@ + device_id + " is not enrolled"@)
    } else if !ed25519_accepts(devices[device_id], message, signature) {
        Err("the signature of device "@ + device_id + " does not verify"@)
    } else {
        Ok(())
    }
}

/// The row of a device key.
pub open spec fn key_row(vk: Seq<u8>, now: u64) -> DeviceRowView {
    DeviceRowView { vk_hex: hex_of(vk), trust_class: "full"@, passkey: None, enrolled_ms: now }
}

/// The kernel after a device key was enrolled.
pub open spec fn key_enrolled<A>(k: KernelView<A>, device_id: Seq<char>, vk: Seq<u8>, now: u64) -> KernelView<
    A,
> {
    let enrolled = KernelView {
        store: StoreView {
            devices: k.store.devices.insert(device_id, key_row(vk, now)),
            ..k.store
        },
        devices: k.devices.insert(device_id, vk),
        ..k
    };
    with_event(enrolled, "device.enrolled"@, now, JsonView::Text(device_id))
}

/// Enrolling the key of this node's own device: once for good.
pub open spec fn node_key_enrolling<A>(k: KernelView<A>, vk: Seq<u8>, now: u64) -> (
    KernelView<A>,
    Result<(), KernelErrorView>,
) {
    let id = node_device_id(k.node_id);
    if !k.store.devices.contains_key(id) {
        (key_enrolled(k, id, vk, now), Ok(()))
    } else if k.store.devices[id].vk_hex == hex_of(vk) {
        (k, Ok(()))
    } else {
        (
            k,
            Err(
                KernelErrorView::I1(
                    "device "@ + id + " is already enrolled with a different key"@,
                ),
            ),
        )
    }
}

/// Whether a text is the device id of a passkey.
pub open spec fn is_passkey_id(device_id: Seq<char>) -> bool {
    begins(device_id, "passkey:"@) && device_id.len() > "passkey:"@.len()
}

/// Enrolling a passkey: under an id of its own, once for good.
pub open spec fn passkey_enrolling<A>(
    k: KernelView<A>,
    device_id: Seq<char>,
    credential: JsonView,
    now: u64,
) -> (KernelView<A>, Result<(), KernelErrorView>) {
    if !is_passkey_id(device_id) {
        (
            k,
            Err(
                KernelErrorView::I1(
                    "a passkey's device id is `passkey:<credential id>`, not "@ + debug_text(
                        device_id,
                    ),
                ),
            ),
        )
    } else if k.store.devices.contains_key(device_id) {
        (k, Err(KernelErrorView::I1("device "@ + device_id + " is already enrolled"@)))
    } else {
        let row = DeviceRowView {
            vk_hex: Seq::empty(),
            trust_class: "passkey"@,
            passkey: Some(credential),
            enrolled_ms: now,
        };
        let enrolled = KernelView {
            store: StoreView { devices: k.store.devices.insert(device_id, row), ..k.store },
            ..k
        };
        (with_event(enrolled, "device.enrolled"@, now, JsonView::Text(device_id)), Ok(()))
    }
}

/// Replacing the credential of an enrolled passkey; nothing else of its row moves.
pub open spec fn passkey_updating<A>(
    k: KernelView<A>,
    device_id: Seq<char>,
    credential: JsonView,
) -> (KernelView<A>, Result<(), KernelErrorView>) {
    if k.store.devices.contains_key(device_id) && k.store.devices[device_id].trust_class
        == "passkey"@ {
        let row = DeviceRowView {
            passkey: Some(credential),
            ..k.store.devices[device_id]
        };
        (
            KernelView {
                store: StoreView { devices: k.store.devices.insert(device_id, row), ..k.store },
                ..k
            },
            Ok(()),
        )
    } else {
        (k, Err(KernelErrorView::NotFound("passkey "@ + device_id)))
    }
}

/// An enrolled passkey.
#[derive(Debug)]
pub struct PasskeyRow {
    pub device_id: String,
    pub credential: Json,
    pub enrolled_ms: u64,
}

/// What a [`PasskeyRow`] says.
pub struct PasskeyRowView {
    pub device_id: Seq<char>,
    pub credential: JsonView,
    pub enrolled_ms: u64,
}

impl View for PasskeyRow {
    type V = PasskeyRowView;

    open spec fn view(&self) -> PasskeyRowView {
        PasskeyRowView {
            device_id: self.device_id@,
            credential: self.credential@,
            enrolled_ms: self.enrolled_ms,
        }
    }
}

/// The passkey enrolled under this id, if there is one.
pub open spec fn passkey_of(s: StoreView, id: Seq<char>) -> Option<PasskeyRowView> {
    if s.devices.contains_key(id) && s.devices[id].trust_class == "passkey"@ {
        match s.devices[id].passkey {
            Some(credential) => Some(
                PasskeyRowView {
                    device_id: id,
                    credential,
                    enrolled_ms: s.devices[id].enrolled_ms,
                },
            ),
            None => None,
        }
    } else {
        None
    }
}

/// The ids of passkeys.
pub open spec fn passkey_ids(ps: Seq<PasskeyRowView>) -> Seq<Seq<char>> {
    ps.map_values(|p: PasskeyRowView| p.device_id)
}

/// Whether `ps` is every enrolled passkey, in the order of their ids.
pub open spec fn lists_passkeys(s: StoreView, ps: Seq<PasskeyRowView>) -> bool {
    &&& ascending(passkey_ids(ps))
    &&& forall|i: int| 0 <= i < ps.len() ==> passkey_of(s, (#[trigger] ps[i]).device_id) == Some(
        ps[i],
    )
    &&& forall|id: Seq<char>|
        #![trigger passkey_ids(ps).contains(id)]
        #![trigger passkey_of(s, id)]
        passkey_of(s, id) is Some ==> passkey_ids(ps).contains(id)
}

impl<A> RealKernel<A> {
    /// Whether a device signed this message.
    pub fn verify_device(&self, device_id: &str, message: &[u8], signature: &[u8; 64]) -> (r: Result<
        (),
        String,
    >)
        requires
            self.wf(),
        ensures
            match device_check(self@.devices, device_id@, message@, signature@) {
                Ok(()) => r is Ok,
                Err(why) => r is Err && r->Err_0@ == why,
            },
    {
        match self.devices.get(device_id) {
            None => Err(cat3("device ", device_id, " is not enrolled")),
            Some(key) => {
                if ed25519_verify(&key.vk, message, signature) {
                    Ok(())
                } else {
                    Err(cat3("the signature of device ", device_id, " does not verify"))
                }
            },
        }
    }

    /// Enrol a device key at this time.
    pub fn enroll_device_at(&mut self, device_id: &str, vk: [u8; 32], now: u64) -> (r: Result<
        (),
        KernelError,
    >)
        requires
            old(self).wf(),
        ensures
            final(self).wf(),
            r is Ok,
            final(self)@ == key_enrolled(old(self)@, device_id@, vk@, now),
    {
        let row = DeviceRow {
            vk_hex: hex_encode(vk.as_slice()),
            trust_class: "full".to_owned(),
            passkey: None,
            enrolled_ms: now,
        };
        assert(row@ =~= key_row(vk@, now));
        self.store.devices.insert(device_id, row);
        self.devices.insert(device_id, DeviceKey { vk });
        self.record_event("device.enrolled", now, text(device_id));
        Ok(())
    }

    /// Enrol a device key now.
    pub fn enroll_device_persisted(&mut self, device_id: &str, vk: [u8; 32]) -> (r: Result<
        (),
        KernelError,
    >)
        requires
            old(self).wf(),
        ensures
            final(self).wf(),
            r is Ok,
            exists|now: u64|
                final(self)@ == #[trigger] key_enrolled(old(self)@, device_id@, vk@, now),
    {
        let now: u64 = now_ms();
        self.enroll_device_at(device_id, vk, now)
    }

    /// Enrol the key of this node's own device at this time. The same key again
    /// changes nothing, and another one is refused.
    pub fn enroll_node_key_at(&mut self, vk: [u8; 32], now: u64) -> (r: Result<(), KernelError>)
        requires
            old(self).wf(),
        ensures
            final(self).wf(),
            (final(self)@, done(r)) == node_key_enrolling(old(self)@, vk@, now),
    {
        let id = cat("node:", self.node_id.as_str());
        let known = match self.store.devices.get(id.as_str()) {
            Some(row) => {
                let digits = hex_encode(vk.as_slice());
                if same(row.vk_hex.as_str(), digits.as_str()) {
                    return Ok(());
                }
                true
            },
            None => false,
        };
        if known {
            return Err(
                KernelError::I1(
                    cat3("device ", id.as_str(), " is already enrolled with a different key"),
                ),
            );
        }
        self.enroll_device_at(id.as_str(), vk, now)
    }

    /// Enrol the key of this node's own device.
    pub fn enroll_node_key(&mut self, vk: [u8; 32]) -> (r: Result<(), KernelError>)
        requires
            old(self).wf(),
        ensures
            final(self).wf(),
            exists|now: u64|
                (final(self)@, done(r)) == #[trigger] node_key_enrolling(old(self)@, vk@, now),
    {
        let now: u64 = now_ms();
        self.enroll_node_key_at(vk, now)
    }

    /// Enrol this node's own device. A device made for another node is refused.
    pub fn enroll_node_device(&mut self, dev: &NodeDevice) -> (r: Result<(), KernelError>)
        requires
            old(self).wf(),
        ensures
            final(self).wf(),
            dev.device() != node_device_id(old(self)@.node_id) ==> final(self)@ == old(self)@
                && r is Err && r->Err_0@ == KernelErrorView::I1(
                "device "@ + dev.device() + " is not this node's device ("@ + node_device_id(
                    old(self)@.node_id,
                ) + ")"@,
            ),
            dev.device() == node_device_id(old(self)@.node_id) ==> exists|now: u64|
                (final(self)@, done(r)) == #[trigger] node_key_enrolling(
                    old(self)@,
                    ed25519_key_of(dev.secret()),
                    now,
                ),
    {
        let expected = cat("node:", self.node_id.as_str());
        let id = dev.device_id();
        if !same(id.as_str(), expected.as_str()) {
            return Err(
                KernelError::I1(
                    cat5(
                        "device ",
                        id.as_str(),
                        " is not this node's device (",
                        expected.as_str(),
                        ")",
                    ),
                ),
            );
        }
        self.enroll_node_key(dev.verifying_key_bytes())
    }

    /// Enrol a passkey.
    pub fn enroll_passkey(&mut self, device_id: &str, credential: Json, now_ms: u64) -> (r: Result<
        (),
        KernelError,
    >)
        requires
            old(self).wf(),
        ensures
            final(self).wf(),
            (final(self)@, done(r)) == passkey_enrolling(
                old(self)@,
                device_id@,
                credential@,
                now_ms,
            ),
    {
        if !begins_with(device_id, "passkey:") || device_id.unicode_len() <= "passkey:".unicode_len() {
            return Err(
                KernelError::I1(
                    cat(
                        "a passkey's device id is `passkey:<credential id>`, not ",
                        debug_of(device_id).as_str(),
                    ),
                ),
            );
        }
        if self.store.devices.has(device_id) {
            return Err(KernelError::I1(cat3("device ", device_id, " is already enrolled")));
        }
        let row = DeviceRow {
            vk_hex: String::new(),
            trust_class: "passkey".to_owned(),
            passkey: Some(credential),
            enrolled_ms: now_ms,
        };
        self.store.devices.insert(device_id, row);
        self.record_event("device.enrolled", now_ms, text(device_id));
        Ok(())
    }

    /// Replace the credential of an enrolled passkey.
    pub fn update_passkey(&mut self, device_id: &str, credential: Json) -> (r: Result<
        (),
        KernelError,
    >)
        requires
            old(self).wf(),
        ensures
            final(self).wf(),
            (final(self)@, done(r)) == passkey_updating(old(self)@, device_id@, credential@),
    {
        let row = match self.store.devices.get(device_id) {
            Some(row) => if same(row.trust_class.as_str(), "passkey") {
                Some(row.dup())
            } else {
                None
            },
            None => None,
        };
        match row {
            None => Err(KernelError::NotFound(cat("passkey ", device_id))),
            Some(row) => {
                let row = DeviceRow { passkey: Some(credential), ..row };
                self.store.devices.insert(device_id, row);
                Ok(())
            },
        }
    }

    /// Every enrolled passkey, in the order of their ids.
    pub fn passkeys(&self) -> (r: Vec<PasskeyRow>)
        requires
            self.wf(),
        ensures
            lists_passkeys(self@.store, all(r@)),
    {
        let ghost s = self@.store;
        let ghost keys = self.store.devices.keys();
        let ghost mut rows: Seq<int> = Seq::empty();
        let mut r: Vec<PasskeyRow> = Vec::new();
        let mut i: usize = 0;
        while i < self.store.devices.len()
            invariant
                self.wf(),
                s == self@.store,
                keys == self.store.devices.keys(),
                i <= keys.len(),
                rows.len() == r@.len(),
                forall|j: int|
                    0 <= j < rows.len() ==> 0 <= #[trigger] rows[j] < i && passkey_of(
                        s,
                        keys[rows[j]],
                    ) == Some(r@[j]@) && r@[j]@.device_id == keys[rows[j]],
                forall|a: int, b: int|
                    #![trigger rows[a], rows[b]]
                    0 <= a < b < rows.len() ==> rows[a] < rows[b],
                forall|m: int|
                    0 <= m < i && passkey_of(s, #[trigger] keys[m]) is Some ==> rows.contains(m),
            decreases keys.len() - i,
        {
            let row = self.store.devices.value_at(i);
            let id = self.store.devices.key_at(i);
            assert(s.devices.contains_key(keys[i as int]));
            if same(row.trust_class.as_str(), "passkey") {
                if let Some(credential) = &row.passkey {
                    let ghost before_push = rows;
                    r.push(
                        PasskeyRow {
                            device_id: id.dup(),
                            credential: credential.dup(),
                            enrolled_ms: row.enrolled_ms,
                        },
                    );
                    proof {
                        rows = before_push.push(i as int);
                        assert(rows[before_push.len() as int] == i);
                        assert forall|m: int|
                            0 <= m < i + 1 && passkey_of(
                                s,
                                #[trigger] keys[m],
                            ) is Some implies rows.contains(m) by {
                            if m < i {
                                let j = before_push.index_of(m);
                                assert(rows[j] == m);
                            }
                        }
                    }
                }
            }
            i += 1;
        }
        proof {
            self.store.devices.keys_are_domain();
            let ps = all(r@);
            assert forall|a: int, b: int|
                #![trigger passkey_ids(ps)[a], passkey_ids(ps)[b]]
                0 <= a < b < passkey_ids(ps).len() implies before(
                passkey_ids(ps)[a],
                passkey_ids(ps)[b],
            ) by {
                assert(rows[a] < rows[b]);
                assert(before(keys[rows[a]], keys[rows[b]]));
            }
            assert forall|j: int| 0 <= j < ps.len() implies passkey_of(
                s,
                (#[trigger] ps[j]).device_id,
            ) == Some(ps[j]) by {
                assert(0 <= rows[j]);
            }
            assert forall|id: Seq<char>|
                #![trigger passkey_ids(ps).contains(id)]
                #![trigger passkey_of(s, id)]
                passkey_of(s, id) is Some implies passkey_ids(ps).contains(id) by {
                assert(keys.contains(id));
                let m = keys.index_of(id);
                assert(keys[m] == id);
                let j = rows.index_of(m);
                assert(rows[j] == m);
                assert(passkey_ids(ps)[j] == id);
            }
        }
        r
    }

    /// Every enrolled device, the keys and the passkeys, once each and in order.
    pub fn device_ids(&self) -> (r: Vec<String>)
        requires
            self.wf(),
        ensures
            ascending(all(r@)),
            forall|id: Seq<char>| #[trigger]
                all(r@).contains(id) <==> self@.devices.contains_key(id) || passkey_of(
                    self@.store,
                    id,
                ) is Some,
    {
        let mut ids: Table<u64> = Table::new();
        let mut i: usize = 0;
        while i < self.devices.len()
            invariant
                self.wf(),
                ids.wf(),
                i <= self.devices.keys().len(),
                forall|j: int|
                    0 <= j < i ==> ids@.dom().contains(#[trigger] self.devices.keys()[j]),
                forall|id: Seq<char>| #[trigger]
                    ids@.dom().contains(id) ==> self@.devices.contains_key(id),
            decreases self.devices.keys().len() - i,
        {
            let _ = self.devices.value_at(i);
            let id = self.devices.key_at(i);
            ids.insert(id.as_str(), 0);
            i += 1;
        }
        proof {
            self.devices.keys_are_domain();
            assert forall|id: Seq<char>| self@.devices.contains_key(id) implies #[trigger]
                ids@.dom().contains(id) by {
                let j = self.devices.keys().index_of(id);
                assert(self.devices.keys()[j] == id);
            }
        }
        let ghost keyed = ids@.dom();
        let ps = self.passkeys();
        let mut n: usize = 0;
        while n < ps.len()
            invariant
                ids.wf(),
                n <= ps@.len(),
                forall|id: Seq<char>| #[trigger] keyed.contains(id) ==> ids@.dom().contains(id),
                forall|j: int| 0 <= j < n ==> ids@.dom().contains((#[trigger] ps@[j]).device_id@),
                forall|id: Seq<char>| #[trigger]
                    ids@.dom().contains(id) ==> keyed.contains(id) || passkey_ids(
                        all(ps@),
                    ).contains(id),
            decreases ps@.len() - n,
        {
            assert(passkey_ids(all(ps@))[n as int] == ps@[n as int].device_id@);
            ids.insert(ps[n].device_id.as_str(), 0);
            n += 1;
        }
        let r = ids.key_list();
        proof {
            ids.keys_are_domain();
            let pv = all(ps@);
            assert forall|id: Seq<char>| #[trigger] all(r@).contains(id) <==> self@.devices.contains_key(
                id,
            ) || passkey_of(self@.store, id) is Some by {
                assert(ids@.dom().contains(id) <==> ids.keys().contains(id));
                if passkey_ids(pv).contains(id) {
                    let j = passkey_ids(pv).index_of(id);
                    assert(pv[j].device_id == id);
                }
                if passkey_of(self@.store, id) is Some {
                    let j = passkey_ids(pv).index_of(id);
                    assert(passkey_ids(pv)[j] == id);
                    assert(ps@[j].device_id@ == id);
                }
                assert(keyed.contains(id) <==> self@.devices.contains_key(id));
            }
        }
        r
    }
}

/// The node's own key is enrolled once: a second enrolment with the same key
/// changes nothing, and with another key it is refused.
pub proof fn node_key_is_enrolled_once<A>(
    k: KernelView<A>,
    vk: Seq<u8>,
    now: u64,
    other: Seq<u8>,
    later: u64,
)
    requires
        node_key_enrolling(k, vk, now).1 is Ok,
    ensures
        node_key_enrolling(node_key_enrolling(k, vk, now).0, vk, later) == (
            node_key_enrolling(k, vk, now).0,
            Ok::<(), KernelErrorView>(()),
        ),
        hex_of(other) != hex_of(vk) ==> node_key_enrolling(
            node_key_enrolling(k, vk, now).0,
            other,
            later,
        ).1 is Err,
{
}

/// A passkey is enrolled once: its id is refused a second time, whatever the
/// credential.
pub proof fn passkey_is_enrolled_once<A>(
    k: KernelView<A>,
    id: Seq<char>,
    credential: JsonView,
    now: u64,
    other: JsonView,
    later: u64,
)
    requires
        passkey_enrolling(k, id, credential, now).1 is Ok,
    ensures
        passkey_enrolling(passkey_enrolling(k, id, credential, now).0, id, other, later).1 is Err,
        passkey_enrolling(passkey_enrolling(k, id, credential, now).0, id, other, later).0
            == passkey_enrolling(k, id, credential, now).0,
        passkey_of(passkey_enrolling(k, id, credential, now).0.store, id) == Some(
            PasskeyRowView { device_id: id, credential, enrolled_ms: now },
        ),
{
}

} // verus!
