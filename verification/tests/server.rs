use serde_json::Value;
use vk_kernel::adapter::MockAdapter;
use vk_kernel::challenges::{Challenges, CHALLENGE_TTL_MS, MAX_CHALLENGES};
use vk_kernel::dispatch::{dispatch, Answer, Beside};
use vk_kernel::harness::FileRead;
use vk_kernel::json::{hash_canonical, Fields, Items, Json};
use vk_kernel::kernel::{RealKernel, RecordState};
use vk_kernel::labels::{Clearance, Scope};
use vk_kernel::mock::mock_manifest;
use vk_kernel::model::Duplicate;
use vk_kernel::outside::now_ms;
use vk_kernel::presence::{fresh_seed, HumanKey, NodeDevice, PresenceProof, SoftwareHumanKey};
use vk_kernel::principal::{Approval, ApprovalKind, Challenge, Ctx, Principal};
use vk_kernel::reading::read_challenge;
use vk_kernel::rpc::{
    not_a_request, read_line, read_request, read_response, reply, request_to_json,
    response_to_json, Request, RpcError, E_BAD_PARAMS, E_INVARIANT, E_METHOD,
};
use vk_kernel::settings::ServerConfig;
use vk_kernel::store::Store;
use vk_kernel::table::Table;
use vk_kernel::wire::{approval_to_json, register_to_json};

type Mocked = RealKernel<MockAdapter>;

const SOUND: RecordState = RecordState {
    chain_ok: true,
    head_ok: true,
    recovered_partial_line: false,
};

/// What a parsed value says.
fn json_of(v: &Value) -> Json {
    match v {
        Value::Null => Json::Null,
        Value::Bool(b) => Json::Bool(*b),
        Value::Number(n) => match (n.as_u64(), n.as_i64()) {
            (Some(u), _) => Json::Unsigned(u),
            (None, Some(i)) => Json::Negative(i),
            (None, None) => Json::Real(n.to_string()),
        },
        Value::String(s) => Json::Text(s.clone()),
        Value::Array(items) => {
            let mut out = Items::new();
            for i in items {
                out.add(json_of(i));
            }
            out.array()
        }
        Value::Object(members) => {
            let mut out = Fields::new();
            for (name, value) in members {
                out.put(name, json_of(value));
            }
            out.object()
        }
    }
}

/// The value that a text is.
fn parsed(s: &str) -> Json {
    json_of(&serde_json::from_str(s).unwrap())
}

fn fresh(node_id: &str) -> Mocked {
    Mocked::open(Store::new("/state"), node_id, SOUND, now_ms(), &Table::new())
}

/// A daemon and its one client.
struct Daemon {
    k: Mocked,
    challenges: Challenges,
    cfg: ServerConfig,
    beside: fn() -> Beside,
}

impl Daemon {
    fn new() -> Daemon {
        Daemon {
            k: fresh("n1"),
            challenges: Challenges::new(),
            cfg: ServerConfig::new("endpoint".to_string(), "coder"),
            beside: Beside::nothing,
        }
    }

    fn answer(&mut self, req: Request) -> Result<Json, RpcError> {
        let file = FileRead { len: Ok(0), bytes: Ok(vec![]) };
        let beside = (self.beside)();
        let (k, open) = (&mut self.k, &mut self.challenges);
        match dispatch(k, open, req, &self.cfg, None, Ok(()), file, beside).answer {
            Ok(Answer::Plain(v)) => Ok(v),
            Ok(_) => panic!("an answer that is not there yet"),
            Err(e) => Err(e),
        }
    }

    fn call(
        &mut self,
        method: &str,
        params: &str,
        presence: Option<PresenceProof>,
    ) -> Result<Json, RpcError> {
        self.answer(Request {
            id: 1,
            method: method.to_string(),
            params: parsed(params),
            presence,
        })
    }

    fn ok(&mut self, method: &str, params: &str) -> Json {
        match self.call(method, params, None) {
            Ok(v) => v,
            Err(e) => panic!("{}", e.message),
        }
    }

    /// One fresh challenge, signed by `key`: a proof good for exactly one request.
    fn prove(&mut self, key: &impl HumanKey) -> PresenceProof {
        let ch = self.ok("presence.challenge", "{}");
        PresenceProof::sign(key, ch.text_at("nonce").unwrap())
    }

    /// The challenge the kernel mints for a task waiting at its approve step.
    fn mint(&mut self, id: &str) -> Challenge {
        let v = self.ok("approval.challenge", &task_params(id));
        read_challenge(&v).unwrap()
    }

    fn step(&mut self, id: &str) -> Json {
        self.ok("task.step", &task_params(id))
    }

    fn approve(&mut self, a: &Approval, proof: Option<PresenceProof>) -> Result<Json, RpcError> {
        let mut f = Fields::new();
        f.put("approval", approval_to_json(a));
        self.answer(Request {
            id: 1,
            method: "approve".to_string(),
            params: f.object(),
            presence: proof,
        })
    }

    fn mock(&mut self) -> String {
        let v = self.ok("arch.mount_mock", "{\"name\": \"mock\"}");
        v.text_at("arch_id").unwrap().clone()
    }

    fn create(&mut self, steps: &str) -> String {
        let v = self.ok(
            "task.create",
            &format!(
                "{{\"goal\": \"Draft a proposal\", \"artefact_type\": \"proposal\", \"steps\": {steps}}}"
            ),
        );
        v.text_at("id").unwrap().clone()
    }

    fn stopped(&self) -> bool {
        self.k.stopped("node")
    }
}

fn task_params(id: &str) -> String {
    format!("{{\"task_id\": \"{id}\"}}")
}

fn status(v: &Json) -> &str {
    v.text_at("status").unwrap()
}

fn items(v: &Json) -> &Vec<Json> {
    match v {
        Json::Array(items) => items,
        other => panic!("not a list: {other:?}"),
    }
}

fn copy(p: &PresenceProof) -> PresenceProof {
    PresenceProof {
        device_id: p.device_id.clone(),
        nonce: p.nonce.clone(),
        signature_hex: p.signature_hex.clone(),
    }
}

/// `key`'s approval of exactly `challenge`.
fn approval_of(key: &impl HumanKey, challenge: Challenge) -> Approval {
    Approval {
        subject_hash: challenge.action_digest.clone(),
        kind: ApprovalKind::Human,
        approver: Principal::Human { device_id: key.device_id() },
        signature_hex: Some(hex::encode(key.sign(&challenge.digest()))),
        challenge: Some(challenge),
    }
}

/// An approval of `subject` by `key`, with a challenge that the client made up.
fn human_approval(key: &impl HumanKey, subject: &str) -> Approval {
    approval_of(
        key,
        Challenge {
            resource: "task".to_string(),
            action_digest: subject.to_string(),
            nonce: uuid::Uuid::new_v4().simple().to_string(),
            expires_at_ms: now_ms() + 60_000,
        },
    )
}

fn local_ctx() -> Ctx {
    Ctx {
        principal: Principal::Machine { node_id: "n1".to_string(), lease_id: "test".to_string() },
        clearance: Clearance { max_scope: Scope::Personal, third_party_allowed: true },
        partition: "local".to_string(),
        now_ms: now_ms(),
    }
}

#[test]
fn a_challenge_expires_after_its_ttl_and_is_gone_once_spent() {
    let mut c = Challenges::new();
    let (nonce, exp) = c.issue(1_000);
    assert_eq!(exp, 1_000 + CHALLENGE_TTL_MS);
    // Past expiry: refused, and removed by the refusal.
    let err = c.spend(&nonce, exp).unwrap_err();
    assert!(err.message.contains("expired"), "{}", err.message);
    assert!(c.spend(&nonce, exp - 1).is_err(), "spent nonce must be gone");
    // Fresh one, spent in time, then unknown.
    let (nonce, _) = c.issue(2_000);
    assert!(c.spend(&nonce, 2_001).is_ok());
    assert!(c.spend(&nonce, 2_001).is_err());
    assert!(c.spend("never-issued", 2_001).is_err());
}

#[test]
fn open_challenges_are_bounded() {
    let mut c = Challenges::new();
    for i in 0..(MAX_CHALLENGES as u64 + 100) {
        c.issue(i);
    }
    assert!(c.open.len() <= MAX_CHALLENGES);
    // Expired ones are swept when issuing.
    c.issue(CHALLENGE_TTL_MS + MAX_CHALLENGES as u64 + 100);
    assert_eq!(c.open.len(), 1);
}

#[test]
fn cli_principal_cannot_stop_but_presence_proof_can() {
    let mut d = Daemon::new();
    let device = SoftwareHumanKey::generate("laptop");
    d.k.enroll_device_persisted("laptop", device.verifying_key_bytes()).unwrap();
    let err = d.call("stop", "{\"scope\": \"node\"}", None).unwrap_err();
    assert!(
        err.message.contains("I1"),
        "machine principal must not STOP: {}",
        err.message
    );
    let proof = d.prove(&device);
    let ok = d.call("stop", "{\"scope\": \"node\"}", Some(proof)).unwrap();
    assert!(ok.text_at("stop_id").unwrap().starts_with("stop-"));
    assert!(d.stopped());
}

#[test]
fn ns_and_task_flow_over_ipc() {
    let mut d = Daemon::new();
    let v = d.ok("arch.mount_mock", "{\"name\": \"mock\", \"context_ceiling\": 200}");
    let arch = v.text_at("arch_id").unwrap().clone();
    let id = d.create(&format!(
        "[{{\"kind\": \"plan\", \"arch_id\": \"{arch}\"}}, {{\"kind\": \"draft\", \"arch_id\": \"{arch}\"}}, {{\"kind\": \"approve\"}}]"
    ));
    d.step(&id);
    d.step(&id);
    let waiting = d.step(&id);
    assert_eq!(status(&waiting), "waiting_human");
    let ls = d.ok("ns.ls", "{\"path\": \"/tasks\"}");
    assert!(items(ls.get("entries").unwrap())
        .iter()
        .any(|e| e.as_text() == Some(&id)));
    assert_eq!(d.ok("ledger.verify", "{}").bool_at("ok"), Some(true));
}

#[test]
fn a_presence_nonce_is_single_use_and_expires() {
    let mut d = Daemon::new();
    let device = SoftwareHumanKey::generate("laptop");
    d.k.enroll_device_persisted("laptop", device.verifying_key_bytes()).unwrap();

    // A challenge is issued with a bounded lifetime.
    let issued_at = now_ms();
    let ch = d.ok("presence.challenge", "{}");
    let nonce = ch.text_at("nonce").unwrap().clone();
    let expires = ch.number_at("expires_at_ms").unwrap();
    assert!(
        expires > issued_at && expires <= issued_at + 61_000,
        "expiry must be about a minute out: {expires} vs {issued_at}"
    );

    // First use: the proof upgrades the request to a human principal.
    let proof = PresenceProof::sign(&device, &nonce);
    let again = copy(&proof);
    let v = d.call("stop", "{\"scope\": \"node\"}", Some(proof)).unwrap();
    let resume = format!("{{\"stop_id\": \"{}\"}}", v.text_at("stop_id").unwrap());
    assert!(d.stopped());

    // Replay: same nonce, same (valid) signature. Refused, and nothing changed.
    let err = d.call("resume", &resume, Some(again)).unwrap_err();
    assert!(err.message.contains("I1"), "replayed nonce: {}", err.message);
    assert!(d.stopped());

    // A nonce the server never issued is refused even with a valid signature.
    let forged = PresenceProof::sign(&device, "never-issued");
    let err = d.call("resume", &resume, Some(forged)).unwrap_err();
    assert!(err.message.contains("I1"), "unknown nonce: {}", err.message);
    assert!(d.stopped());

    // A failed verification consumes the nonce too.
    let ch = d.ok("presence.challenge", "{}");
    let nonce = ch.text_at("nonce").unwrap().clone();
    let impostor = SoftwareHumanKey::generate("laptop");
    let err = d
        .call("resume", &resume, Some(PresenceProof::sign(&impostor, &nonce)))
        .unwrap_err();
    assert!(err.message.contains("I1"), "impostor: {}", err.message);
    let err = d
        .call("resume", &resume, Some(PresenceProof::sign(&device, &nonce)))
        .unwrap_err();
    assert!(err.message.contains("I1"), "nonce burnt by impostor: {}", err.message);
    assert!(d.stopped());

    // A fresh challenge with the enrolled key is the only thing that lifts it.
    let proof = d.prove(&device);
    d.call("resume", &resume, Some(proof)).unwrap();
    assert!(!d.stopped());
}

#[test]
fn device_enroll_node_only_enrols_this_nodes_own_device() {
    let mut d = Daemon::new();
    let node = NodeDevice::of_seed("n1", fresh_seed());
    let vk_hex = hex::encode(node.verifying_key_bytes());
    let params = |id: &str, key: &str| {
        format!("{{\"device_id\": \"{id}\", \"vk_hex\": \"{key}\"}}")
    };

    // Any other device id is refused: that is the admin ceremony's job.
    let err = d
        .call("device.enroll_node", &params("laptop", &vk_hex), None)
        .unwrap_err();
    assert!(err.message.contains("I1"), "{}", err.message);
    let ls = d.ok("ns.ls", "{\"path\": \"/devices\"}");
    assert!(items(ls.get("entries").unwrap()).is_empty());

    // The node's own device: enrolled once, a repeat is a no-op.
    for _ in 0..2 {
        let ok = d.ok("device.enroll_node", &params("node:n1", &vk_hex));
        assert_eq!(ok.bool_at("ok"), Some(true));
    }
    let ls = d.ok("ns.ls", "{\"path\": \"/devices\"}");
    assert_eq!(ls.get("entries").unwrap().render(), "[\"node:n1\"]");

    // A different key for the same id is refused, and the first key still works.
    let other = SoftwareHumanKey::generate("node:n1");
    let other_hex = hex::encode(other.verifying_key_bytes());
    let err = d
        .call("device.enroll_node", &params("node:n1", &other_hex), None)
        .unwrap_err();
    assert!(err.message.contains("I1"), "{}", err.message);
    let proof = d.prove(&node);
    let ok = d.call("stop", "{\"scope\": \"node\"}", Some(proof)).unwrap();
    assert!(ok.text_at("stop_id").unwrap().starts_with("stop-"));

    // Malformed key material is a parameter error, not an invariant one.
    let err = d
        .call("device.enroll_node", &params("node:n1", "zz"), None)
        .unwrap_err();
    assert_eq!(err.code, E_BAD_PARAMS);
}

/// What a daemon writes back for one line.
fn exchange(d: &mut Daemon, bytes: &[u8]) -> Json {
    let line = read_line(bytes.to_vec()).unwrap().unwrap();
    let resp = match serde_json::from_str::<Value>(&line) {
        Err(e) => not_a_request(&format!("{e}")),
        Ok(v) => match read_request(&json_of(&v)) {
            None => not_a_request("not a call"),
            Some(req) => {
                let id = req.id;
                let outcome = d.answer(req);
                reply(id, outcome)
            }
        },
    };
    response_to_json(&resp)
}

#[test]
fn garbage_lines_get_a_parse_error_and_the_connection_survives() {
    let mut d = Daemon::new();
    let code = |v: &Json| match v.get("error").unwrap().get("code").unwrap() {
        Json::Negative(n) => *n,
        other => panic!("{other:?}"),
    };

    // Not JSON at all.
    let v = exchange(&mut d, b"this is not json\n");
    assert_eq!(code(&v), i64::from(E_BAD_PARAMS));
    assert_eq!(v.number_at("id"), Some(0));
    assert!(v.get("result").is_none());

    // JSON, but not a request.
    let v = exchange(&mut d, b"{\"jsonrpc\":\"2.0\",\"id\":7}\n");
    assert_eq!(code(&v), i64::from(E_BAD_PARAMS));

    // Unknown method: a proper "method not found", with the id echoed.
    let v = exchange(
        &mut d,
        b"{\"jsonrpc\":\"2.0\",\"id\":5,\"method\":\"nope\",\"params\":{}}\n",
    );
    assert_eq!(code(&v), -32601);
    assert_eq!(code(&v), i64::from(E_METHOD));
    assert_eq!(v.number_at("id"), Some(5));

    // The same daemon still serves a real request afterwards.
    let v = exchange(
        &mut d,
        b"{\"jsonrpc\":\"2.0\",\"id\":3,\"method\":\"boot.info\",\"params\":{}}\r\n",
    );
    assert_eq!(v.number_at("id"), Some(3));
    assert_eq!(v.get("result").unwrap().text_at("node_id").unwrap(), "n1");

    // Half a request, and the client goes away mid-line.
    assert_eq!(
        read_line(b"{\"jsonrpc\":\"2.0\",\"id\":4,".to_vec()),
        Err("connection closed mid-line".to_string())
    );
    assert_eq!(read_line(vec![]), Ok(None));
    assert_eq!(
        read_line(vec![0xff, b'\n']),
        Err("line is not utf-8".to_string())
    );
    assert_eq!(
        read_line(vec![b'x'; 1_048_577]),
        Err("line too long".to_string())
    );
}

#[test]
fn approve_over_ipc_requires_presence_and_a_matching_human_approval() {
    let mut d = Daemon::new();
    let laptop = SoftwareHumanKey::generate("laptop");
    let tablet = SoftwareHumanKey::generate("tablet");
    d.k.enroll_device_persisted("laptop", laptop.verifying_key_bytes()).unwrap();
    d.k.enroll_device_persisted("tablet", tablet.verifying_key_bytes()).unwrap();

    // A task that has drafted and now waits at its `approve` step.
    let arch = d.mock();
    let id = d.create(&format!(
        "[{{\"kind\": \"plan\", \"arch_id\": \"{arch}\"}}, {{\"kind\": \"draft\", \"arch_id\": \"{arch}\"}}, {{\"kind\": \"approve\"}}]"
    ));
    d.step(&id);
    d.step(&id);
    assert_eq!(status(&d.step(&id)), "waiting_human");

    // What the scheduler wants approved: the latest artefact, or the register.
    let register = d.k.task(&local_ctx(), &id).unwrap().register;
    let reg = d.k.read_register(&local_ctx(), &register).unwrap();
    let subject = reg
        .artefacts
        .last()
        .map(|a| a.hash.clone())
        .unwrap_or_else(|| hash_canonical(&register_to_json(&reg)));

    let minted = d.mint(&id);
    assert_eq!(minted.action_digest, subject);

    // (a) No presence: the connection is a machine principal.
    let err = d.approve(&approval_of(&laptop, minted), None).unwrap_err();
    assert_eq!(err.code, E_INVARIANT, "{}", err.message);
    assert!(err.message.contains("I1"), "{}", err.message);

    // (c) Presence from the laptop, approval signed by the tablet.
    let minted = d.mint(&id);
    let proof = d.prove(&laptop);
    let err = d.approve(&approval_of(&tablet, minted), Some(proof)).unwrap_err();
    assert_eq!(err.code, E_INVARIANT, "{}", err.message);
    assert!(err.message.contains("I1"), "{}", err.message);

    // (d) Only human approvals cross the transport.
    let mut test_kind = human_approval(&laptop, &subject);
    test_kind.kind = ApprovalKind::Test;
    let proof = d.prove(&laptop);
    let err = d.approve(&test_kind, Some(proof)).unwrap_err();
    assert_eq!(err.code, E_BAD_PARAMS, "{}", err.message);
    assert!(
        err.message.contains("only human approvals are accepted over the transport"),
        "{}",
        err.message
    );

    // None of the above was recorded: the task still waits.
    assert_eq!(status(&d.step(&id)), "waiting_human");

    // (b) Presence from the laptop and the laptop's own approval: accepted.
    let minted = d.mint(&id);
    let proof = d.prove(&laptop);
    let ok = d.approve(&approval_of(&laptop, minted), Some(proof)).unwrap();
    assert_eq!(ok.bool_at("ok"), Some(true));
    assert_eq!(status(&d.step(&id)), "done");
}

#[test]
fn task_subject_is_what_the_approve_step_accepts() {
    let mut d = Daemon::new();
    let laptop = SoftwareHumanKey::generate("laptop");
    d.k.enroll_device_persisted("laptop", laptop.verifying_key_bytes()).unwrap();
    let arch = d.mock();
    let id = d.create(&format!(
        "[{{\"kind\": \"draft\", \"arch_id\": \"{arch}\"}}, {{\"kind\": \"approve\"}}]"
    ));

    // Queued: there is nothing to approve and no hash to hand out.
    let err = d.call("task.subject", &task_params(&id), None).unwrap_err();
    assert_eq!(err.code, E_INVARIANT, "{}", err.message);
    assert!(
        err.message.contains("not waiting for an approval") && err.message.contains("queued"),
        "{}",
        err.message
    );

    d.step(&id);
    assert_eq!(status(&d.step(&id)), "waiting_human");
    let v = d.ok("task.subject", &task_params(&id));
    let subject = v.text_at("subject_hash").unwrap().clone();
    assert!(subject.starts_with("sha256:"), "{subject}");

    // The challenge the kernel mints names exactly that subject.
    let minted = d.mint(&id);
    assert_eq!(minted.action_digest, subject);
    let proof = d.prove(&laptop);
    let err = d
        .approve(&human_approval(&laptop, &subject), Some(proof))
        .unwrap_err();
    assert_eq!(err.code, E_INVARIANT, "{}", err.message);
    let proof = d.prove(&laptop);
    let ok = d.approve(&approval_of(&laptop, minted), Some(proof)).unwrap();
    assert_eq!(ok.bool_at("ok"), Some(true));
    assert_eq!(status(&d.step(&id)), "done");
}

#[test]
fn a_presence_proof_on_a_method_that_takes_none_is_refused_and_still_spent() {
    let mut d = Daemon::new();
    let laptop = SoftwareHumanKey::generate("laptop");
    d.k.enroll_device_persisted("laptop", laptop.verifying_key_bytes()).unwrap();

    // `task.show` derives no principal, so a proof there is a parameter error...
    let proof = d.prove(&laptop);
    let again = copy(&proof);
    let err = d
        .call("task.show", "{\"task_id\": \"t-1\"}", Some(proof))
        .unwrap_err();
    assert_eq!(err.code, E_BAD_PARAMS, "{}", err.message);
    assert!(
        err.message.contains("this method does not take a presence proof"),
        "{}",
        err.message
    );
    // ...and the nonce it carried is spent all the same.
    let err = d.call("stop", "{\"scope\": \"node\"}", Some(again)).unwrap_err();
    assert_eq!(err.code, E_INVARIANT, "{}", err.message);
    assert!(err.message.contains("I1"), "{}", err.message);
    assert!(!d.stopped());

    // The same holds for the one method answered before the kernel.
    let proof = d.prove(&laptop);
    let again = copy(&proof);
    let err = d.call("presence.challenge", "{}", Some(proof)).unwrap_err();
    assert_eq!(err.code, E_BAD_PARAMS, "{}", err.message);
    let err = d.call("stop", "{\"scope\": \"node\"}", Some(again)).unwrap_err();
    assert_eq!(err.code, E_INVARIANT, "{}", err.message);
    assert!(!d.stopped());

    // A fresh proof on a method that takes one is still the human path.
    let proof = d.prove(&laptop);
    d.call("stop", "{\"scope\": \"node\"}", Some(proof)).unwrap();
    assert!(d.stopped());
}

#[test]
fn mounting_the_same_arch_twice_is_idempotent_and_says_so() {
    let mut d = Daemon::new();
    let first = d.ok("arch.mount_mock", "{\"name\": \"twice\"}");
    assert_eq!(first.bool_at("already_mounted"), Some(false));
    let again = d.ok("arch.mount_mock", "{\"name\": \"twice\"}");
    assert_eq!(again.text_at("arch_id"), first.text_at("arch_id"));
    assert_eq!(
        again.bool_at("already_mounted"),
        Some(true),
        "the second is the same arch, not a new one"
    );

    // And the record says it happened once.
    let tail = d.ok("ledger.tail", "{\"n\": 50}");
    let mounted = items(&tail)
        .iter()
        .filter(|e| e.text_at("kind").unwrap() == "arch.mounted")
        .count();
    assert_eq!(mounted, 1, "an idempotent re-mount appends nothing");
}

#[test]
fn arch_ls_says_whether_each_arch_is_ready() {
    let mut d = Daemon::new();
    let v = d.ok("arch.mount_mock", "{\"name\": \"mock\", \"context_ceiling\": 200}");
    let arch = v.text_at("arch_id").unwrap().clone();

    let listed = d.ok("arch.ls", "{}");
    let row = items(&listed)
        .iter()
        .find(|a| a.text_at("arch_id") == Some(&arch))
        .expect("the mounted arch is listed");
    assert_eq!(
        row.text_at("state").unwrap(),
        "ready",
        "an arch that just mounted is ready"
    );
    assert!(
        matches!(row.get("reason"), None | Some(Json::Null)),
        "a ready arch has nothing to explain"
    );
    assert_eq!(row.get("manifest").unwrap().text_at("name").unwrap(), "mock");

    let entry = d.ok("ns.ls", &format!("{{\"path\": \"/arches/{arch}\"}}"));
    assert_eq!(entry.text_at("state").unwrap(), "ready");

    let info = d.ok("boot.info", "{}");
    let states = items(info.get("arch_states").unwrap());
    assert_eq!(states[0].text_at("arch_id"), Some(&arch));
    assert_eq!(states[0].text_at("state").unwrap(), "ready");
}

#[test]
fn harness_run_refuses_a_request_that_names_the_binary_model_timeout_or_any_unknown_key() {
    let mut d = Daemon::new();
    for (field, value) in [
        ("bin", "\"C:\\\\Windows\\\\System32\\\\whoami.exe\""),
        ("binary", "\"/usr/bin/id\""),
        ("model", "\"coder-opus-5\""),
        ("timeout_secs", "1"),
    ] {
        let params = format!(
            "{{\"task_id\": \"task-x\", \"name\": \"coder-code\", \"{field}\": {value}}}"
        );
        let err = d.call("harness.run", &params, None).unwrap_err();
        assert_eq!(err.code, E_BAD_PARAMS, "{field}: {}", err.message);
        assert!(
            err.message.contains(field) && err.message.contains("--harness-bin"),
            "{field}: the refusal names the field and the daemon flag: {}",
            err.message
        );
    }
    // Any other key: the params are an allow-list of four, not a bag.
    for (field, value) in [("foo", "1"), ("proof", "{\"x\": 1}")] {
        let params = format!(
            "{{\"task_id\": \"task-x\", \"name\": \"coder-code\", \"{field}\": {value}}}"
        );
        let err = d.call("harness.run", &params, None).unwrap_err();
        assert_eq!(err.code, E_BAD_PARAMS, "{field}: {}", err.message);
        assert!(
            err.message.contains(field),
            "{field}: the refusal names the key: {}",
            err.message
        );
    }
    let err = d.call("harness.run", "{}", None).unwrap_err();
    assert_eq!(
        err.message,
        "harness.run takes task_id, name, dry_run and keep, nothing else: missing field `task_id`"
    );
    let err = d
        .call("harness.run", "{\"task_id\": \"task-x\", \"keep\": 1}", None)
        .unwrap_err();
    assert_eq!(err.code, E_BAD_PARAMS);
    // The first key that is not taken is the one that is named.
    let err = d
        .call("harness.run", "{\"aaa\": 1, \"zzz\": 2, \"keep\": 1}", None)
        .unwrap_err();
    assert_eq!(
        err.message,
        "harness.run takes task_id, name, dry_run and keep, nothing else: unknown field `aaa`, \
         expected one of `task_id`, `name`, `dry_run`, `keep`"
    );
    // Nothing was created or leased on the way.
    let tasks = d.ok("task.ls", "{}");
    assert!(items(&tasks).is_empty());
}

#[test]
fn approve_accepts_only_a_challenge_the_kernel_minted_and_only_once() {
    let mut d = Daemon::new();
    let laptop = SoftwareHumanKey::generate("laptop");
    d.k.enroll_device_persisted("laptop", laptop.verifying_key_bytes()).unwrap();
    let arch = d.mock();
    let id = d.create(&format!(
        "[{{\"kind\": \"draft\", \"arch_id\": \"{arch}\"}}, {{\"kind\": \"approve\"}}]"
    ));

    // Before the task waits there is nothing to mint a challenge for.
    let err = d.call("approval.challenge", &task_params(&id), None).unwrap_err();
    assert_eq!(err.code, E_INVARIANT, "{}", err.message);
    assert!(err.message.contains("not waiting"), "{}", err.message);

    d.step(&id);
    assert_eq!(status(&d.step(&id)), "waiting_human");
    let v = d.ok("task.subject", &task_params(&id));
    let subject = v.text_at("subject_hash").unwrap().clone();

    // (a) A challenge the client made up: refused, because it was never minted.
    let proof = d.prove(&laptop);
    let err = d
        .approve(&human_approval(&laptop, &subject), Some(proof))
        .unwrap_err();
    assert_eq!(err.code, E_INVARIANT, "{}", err.message);
    assert!(
        err.message.contains("I1") && err.message.contains("minted"),
        "{}",
        err.message
    );

    // (b) A minted challenge that has expired: refused, and gone.
    let stale = d
        .k
        .mint_approval_challenge_with_ttl(&local_ctx(), &id, 1)
        .unwrap();
    while now_ms() <= stale.expires_at_ms {}
    let proof = d.prove(&laptop);
    let err = d.approve(&approval_of(&laptop, stale), Some(proof)).unwrap_err();
    assert_eq!(err.code, E_INVARIANT, "{}", err.message);
    assert!(err.message.contains("expired"), "{}", err.message);

    // (c) A minted challenge altered on the way back.
    let minted = d.mint(&id);
    assert_eq!(minted.resource, format!("task:{id}"));
    assert_eq!(minted.action_digest, subject);
    assert!(minted.expires_at_ms > now_ms());
    let altered = Challenge {
        expires_at_ms: minted.expires_at_ms + 3_600_000,
        ..minted.dup()
    };
    let proof = d.prove(&laptop);
    let err = d.approve(&approval_of(&laptop, altered), Some(proof)).unwrap_err();
    assert_eq!(err.code, E_INVARIANT, "{}", err.message);
    assert!(err.message.contains("I1"), "{}", err.message);
    // The alteration burnt the nonce: the genuine challenge is spent too.
    let proof = d.prove(&laptop);
    let err = d.approve(&approval_of(&laptop, minted), Some(proof)).unwrap_err();
    assert_eq!(err.code, E_INVARIANT, "{}", err.message);

    // Nothing above was recorded: the task still waits.
    assert_eq!(status(&d.step(&id)), "waiting_human");

    // (d) A fresh minted challenge, signed and presented as minted: accepted.
    let minted = d.mint(&id);
    let proof = d.prove(&laptop);
    let ok = d
        .approve(&approval_of(&laptop, minted.dup()), Some(proof))
        .unwrap();
    assert_eq!(ok.bool_at("ok"), Some(true));

    // (e) The same minted challenge a second time: spent on first use.
    let proof = d.prove(&laptop);
    let err = d.approve(&approval_of(&laptop, minted), Some(proof)).unwrap_err();
    assert_eq!(err.code, E_INVARIANT, "{}", err.message);
    assert!(err.message.contains("I1"), "{}", err.message);

    // One approval on the record, and the waiting step completes on it.
    assert_eq!(d.k.approvals_for(&subject).len(), 1);
    assert_eq!(status(&d.step(&id)), "done");
}

#[test]
fn a_request_and_its_response_read_back() {
    let key = SoftwareHumanKey::generate("laptop");
    let req = Request {
        id: 12,
        method: "stop".to_string(),
        params: parsed("{\"scope\": \"node\"}"),
        presence: Some(PresenceProof::sign(&key, "nonce")),
    };
    let text = request_to_json(&req).render();
    let back = read_request(&parsed(&text)).unwrap();
    assert_eq!(format!("{back:?}"), format!("{req:?}"));
    let resp = reply(12, Err(RpcError { code: E_INVARIANT, message: "I1: no".to_string() }));
    let text = response_to_json(&resp).render();
    assert_eq!(
        format!("{:?}", read_response(&parsed(&text)).unwrap()),
        format!("{resp:?}")
    );
}

#[test]
fn a_node_end_to_end() {
    let mut d = Daemon {
        k: fresh("node-1"),
        challenges: Challenges::new(),
        cfg: ServerConfig::new("endpoint".to_string(), "coder"),
        beside: Beside::nothing,
    };
    let node = NodeDevice::of_seed("node-1", fresh_seed());
    d.k.boot();
    d.k.enroll_node_device(&node).unwrap();
    let arch = d.mock();
    let id = d.create(&format!(
        "[{{\"kind\": \"plan\", \"arch_id\": \"{arch}\"}}, {{\"kind\": \"draft\", \"arch_id\": \"{arch}\"}}, {{\"kind\": \"approve\"}}]"
    ));
    assert_eq!(id, "task-node-1-2");
    d.step(&id);
    d.step(&id);
    assert_eq!(status(&d.step(&id)), "waiting_human");

    let proof = d.prove(&node);
    let v = d.call("stop", "{}", Some(proof)).unwrap();
    assert_eq!(v.text_at("stop_id").unwrap(), "stop-node-1-3");
    let err = d.call("task.step", &task_params(&id), None).unwrap_err();
    assert_eq!((err.message.as_str(), err.code), ("scope is stopped: node", -32001));
    let proof = d.prove(&node);
    d.call("resume", "{\"stop_id\": \"stop-node-1-3\"}", Some(proof)).unwrap();

    let minted = d.mint(&id);
    let proof = d.prove(&node);
    d.approve(&approval_of(&node, minted), Some(proof)).unwrap();
    assert_eq!(status(&d.step(&id)), "done");
    assert_eq!(d.ok("ledger.verify", "{}").bool_at("ok"), Some(true));
}

fn with_words() -> Beside {
    Beside { words: "missing field `kind`".to_string(), ..Beside::nothing() }
}

#[test]
fn a_refusal_says_what_the_reader_has_against_the_value() {
    let mut d = Daemon::new();
    d.beside = with_words;
    let err = d
        .call("task.create", "{\"goal\": \"g\", \"artefact_type\": \"proposal\", \"steps\": [{}]}", None)
        .unwrap_err();
    assert_eq!((err.message.as_str(), err.code), ("steps: missing field `kind`", E_BAD_PARAMS));
    let err = d.call("approve", "{\"approval\": {}}", None).unwrap_err();
    assert_eq!((err.message.as_str(), err.code), ("approval: missing field `kind`", E_BAD_PARAMS));
    let err = d.call("harness.run", "{\"task_id\": 1}", None).unwrap_err();
    assert_eq!(
        err.message,
        "harness.run takes task_id, name, dry_run and keep, nothing else: missing field `kind`"
    );
}

fn with_chain() -> Beside {
    let chain = (0..50).map(|i| parsed(&format!("{{\"seq\": {i}, \"prev_hash\": \"h{i}\"}}"))).collect();
    Beside { chain, ..Beside::nothing() }
}

#[test]
fn an_event_is_shown_with_what_the_chain_has_of_it() {
    let mut d = Daemon::new();
    d.mock();
    d.create("[]");
    d.beside = with_chain;
    let whole = d.ok("ledger.tail", "{\"n\": 50}");
    for (i, event) in items(&whole).iter().enumerate() {
        assert_eq!(event.number_at("seq"), Some(i as u64));
        assert_eq!(event.text_at("prev_hash").unwrap(), &format!("h{i}"));
        assert!(event.text_at("kind").is_some() && event.text_at("payload_hash").is_some());
    }
    // The last one alone is still the one it is.
    let n = items(&whole).len();
    assert!(n >= 2);
    let last = d.ok("ledger.tail", "{\"n\": 1}");
    assert_eq!(items(&last).len(), 1);
    assert_eq!(items(&last)[0].render(), items(&whole)[n - 1].render());
    let shown = d.ok("ns.ls", "{\"path\": \"/ledger\"}");
    let events = items(shown.get("events").unwrap());
    assert_eq!(events[n - 1].number_at("seq"), Some(n as u64 - 1));
}

#[test]
fn the_screen_shows_what_the_prices_of_an_arch_come_to() {
    let mut d = Daemon::new();
    let arch = d.mock();
    let id = d.create(&format!("[{{\"kind\": \"plan\", \"arch_id\": \"{arch}\"}}]"));
    d.step(&id);
    let top = d.ok("top", "{}").render();
    assert!(top.contains("\"cost_list_usd\":0.0,"), "{top}");
    d.beside = || {
        let mut totals = Table::new();
        let id = mock_manifest("mock", 8192).arch_id();
        totals.insert(&id, "0.25".to_string());
        Beside { totals, ..Beside::nothing() }
    };
    let top = d.ok("top", "{}").render();
    assert!(top.contains("\"cost_list_usd\":0.25,"), "{top}");
}
