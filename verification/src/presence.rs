//! The keys that make a request a person's: who signs, and what is signed.
use crate::hash::{hash_text, text_hash};
use crate::model::Duplicate;
use crate::outside::{
    base64_decode, base64_of, base64_reads_back, base64_standard, ed25519_accepts, ed25519_key,
    ed25519_key_of, ed25519_sign, ed25519_signature_of, hex_encode, hex_of, os_random_bytes,
    unbase64,
};
use crate::principal::{Challenge, ChallengeView};
use crate::text::{cat, cat5, decimal, decimal_text, trim_text, trimmed};
use vstd::prelude::*;
use vstd::string::*;
use vstd::utf8::encode_utf8;

verus! {

/// The service a node's key is kept under in the keyring of the system.
pub const KEYRING_SERVICE: &'static str = "vk";

/// Where a node's key is kept.
#[derive(Debug)]
pub enum KeySource {
    Keyring,
    File(String),
}

/// A key that speaks for a person: the device it belongs to, the key that checks
/// it, and its signatures.
pub trait HumanKey: Sized {
    /// The device the key belongs to.
    spec fn device(&self) -> Seq<char>;

    /// The seed of the key.
    spec fn secret(&self) -> Seq<u8>;

    fn device_id(&self) -> (r: String)
        ensures
            r@ == self.device(),
    ;

    fn sign(&self, message: &[u8]) -> (r: [u8; 64])
        ensures
            r@ == ed25519_signature_of(self.secret(), message@),
            ed25519_accepts(ed25519_key_of(self.secret()), message@, r@),
    ;

    fn verifying_key_bytes(&self) -> (r: [u8; 32])
        ensures
            r@ == ed25519_key_of(self.secret()),
    ;
}

/// The key of this node's own device.
pub struct NodeDevice {
    pub node_id: String,
    pub seed: [u8; 32],
}

impl NodeDevice {
    /// The device of `node_id` whose key has this seed.
    pub fn of_seed(node_id: &str, seed: [u8; 32]) -> (r: NodeDevice)
        ensures
            r.node_id@ == node_id@,
            r.seed == seed,
    {
        NodeDevice { node_id: node_id.to_owned(), seed }
    }
}

/// The device id of a node.
pub open spec fn node_device_id(node_id: Seq<char>) -> Seq<char> {
    "node:"@ + node_id
}

impl HumanKey for NodeDevice {
    open spec fn device(&self) -> Seq<char> {
        node_device_id(self.node_id@)
    }

    open spec fn secret(&self) -> Seq<u8> {
        self.seed@
    }

    fn device_id(&self) -> (r: String) {
        cat("node:", self.node_id.as_str())
    }

    fn sign(&self, message: &[u8]) -> (r: [u8; 64]) {
        ed25519_sign(&self.seed, message)
    }

    fn verifying_key_bytes(&self) -> (r: [u8; 32]) {
        ed25519_key(&self.seed)
    }
}

/// A key kept in memory, for the device with this id.
pub struct SoftwareHumanKey {
    pub id: String,
    pub seed: [u8; 32],
}

impl SoftwareHumanKey {
    /// A fresh key for this device. Its seed is chance.
    pub fn generate(device_id: &str) -> (r: SoftwareHumanKey)
        ensures
            r.id@ == device_id@,
    {
        SoftwareHumanKey { id: device_id.to_owned(), seed: fresh_seed() }
    }
}

impl HumanKey for SoftwareHumanKey {
    open spec fn device(&self) -> Seq<char> {
        self.id@
    }

    open spec fn secret(&self) -> Seq<u8> {
        self.seed@
    }

    fn device_id(&self) -> (r: String) {
        self.id.dup()
    }

    fn sign(&self, message: &[u8]) -> (r: [u8; 64]) {
        ed25519_sign(&self.seed, message)
    }

    fn verifying_key_bytes(&self) -> (r: [u8; 32]) {
        ed25519_key(&self.seed)
    }
}

/// A fresh seed, from the randomness of the system. Nothing is known of it.
pub fn fresh_seed() -> [u8; 32] {
    os_random_bytes()
}

/// A seed as it is kept: in base64.
pub fn encode_seed(seed: &[u8; 32]) -> (r: String)
    ensures
        r@ == base64_of(seed@),
        unbase64(r@) == Some(seed@),
{
    let r = base64_standard(seed);
    proof {
        base64_reads_back(r@, seed@);
    }
    r
}

/// Thirty-two bytes as an array.
pub fn array_of_32(v: &Vec<u8>) -> (r: Option<[u8; 32]>)
    ensures
        r is Some <==> v@.len() == 32,
        r is Some ==> r->0@ == v@,
{
    if v.len() != 32 {
        return None;
    }
    let mut a: [u8; 32] = [0u8;32];
    let mut i: usize = 0;
    while i < 32
        invariant
            i <= 32,
            v@.len() == 32,
            forall|j: int| 0 <= j < i ==> #[trigger] a@[j] == v@[j],
        decreases 32 - i,
    {
        a[i] = v[i];
        i += 1;
    }
    assert(a@ =~= v@);
    Some(a)
}

/// Sixty-four bytes as an array.
pub fn array_of_64(v: &Vec<u8>) -> (r: Option<[u8; 64]>)
    ensures
        r is Some <==> v@.len() == 64,
        r is Some ==> r->0@ == v@,
{
    if v.len() != 64 {
        return None;
    }
    let mut a: [u8; 64] = [0u8;64];
    let mut i: usize = 0;
    while i < 64
        invariant
            i <= 64,
            v@.len() == 64,
            forall|j: int| 0 <= j < i ==> #[trigger] a@[j] == v@[j],
        decreases 64 - i,
    {
        a[i] = v[i];
        i += 1;
    }
    assert(a@ =~= v@);
    Some(a)
}

/// What a kept seed is read as.
pub open spec fn seed_read(kept: Seq<char>) -> Result<Seq<u8>, Seq<char>> {
    match unbase64(kept) {
        None => Err("node device key is not base64"@),
        Some(bytes) => if bytes.len() == 32 {
            Ok(bytes)
        } else {
            Err("node device key must be 32 bytes"@)
        },
    }
}

/// Read a seed back: base64 of thirty-two bytes, or a refusal.
pub fn decode_seed(kept: &str) -> (r: Result<[u8; 32], String>)
    ensures
        match seed_read(kept@) {
            Ok(bytes) => r is Ok && r->Ok_0@ == bytes,
            Err(why) => r is Err && r->Err_0@ == why,
        },
{
    match base64_decode(kept) {
        None => Err("node device key is not base64".to_owned()),
        Some(v) => {
            proof {
                base64_reads_back(kept@, v@);
            }
            match array_of_32(&v) {
                Some(seed) => Ok(seed),
                None => Err("node device key must be 32 bytes".to_owned()),
            }
        },
    }
}

/// Whether a file's mode lets anybody but its owner in.
pub open spec fn open_to_others(mode: u32) -> bool {
    mode & 0o077 != 0
}

/// Read the seed out of a key file: `mode` is the mode of the file where the
/// system has one, and a file that others could read is refused.
pub fn seed_of_file(path: &str, mode: Option<u32>, kept: &str) -> (r: Result<[u8; 32], String>)
    ensures
        (mode is Some && open_to_others(mode->0)) ==> r is Err && r->Err_0@ == path@
            + " is readable by others; refusing"@,
        !(mode is Some && open_to_others(mode->0)) ==> match seed_read(trimmed(kept@)) {
            Ok(bytes) => r is Ok && r->Ok_0@ == bytes,
            Err(why) => r is Err && r->Err_0@ == why,
        },
{
    if let Some(m) = mode {
        if m & 0o077 != 0 {
            return Err(cat(path, " is readable by others; refusing"));
        }
    }
    decode_seed(trim_text(kept).as_str())
}

/// A seed that was kept is read back as it was.
pub proof fn seed_reads_back(seed: Seq<u8>)
    requires
        seed.len() == 32,
    ensures
        seed_read(base64_of(seed)) == Ok::<Seq<u8>, Seq<char>>(seed),
{
    base64_reads_back(base64_of(seed), seed);
}

/// What a device signs to show that its person is there: the text of a hash over
/// the nonce.
pub open spec fn presence_message(nonce: Seq<char>) -> Seq<u8> {
    encode_utf8(text_hash("presence|"@ + nonce))
}

/// What a person signs to approve: the text of a hash over the whole challenge.
pub open spec fn challenge_preimage(c: ChallengeView) -> Seq<char> {
    "approval|"@ + c.resource + "|"@ + c.action_digest + "|"@ + c.nonce + "|"@ + decimal(
        c.expires_at_ms as nat,
    )
}

/// What a person signs to approve.
pub open spec fn challenge_message(c: ChallengeView) -> Seq<u8> {
    encode_utf8(text_hash(challenge_preimage(c)))
}

impl Challenge {
    /// What a person signs to approve: the text of a hash over the whole challenge.
    pub fn digest(&self) -> (r: Vec<u8>)
        ensures
            r@ == challenge_message(self@),
    {
        let digits = decimal_text(self.expires_at_ms);
        let head = cat5("approval|", self.resource.as_str(), "|", self.action_digest.as_str(), "|");
        let all = cat5(head.as_str(), self.nonce.as_str(), "|", digits.as_str(), "");
        proof {
            reveal_strlit("");
            assert(all@ =~= challenge_preimage(self@));
        }
        hash_text(all.as_str()).as_str().as_bytes_vec()
    }
}

/// Proof that a device's key was there for one request.
#[derive(Debug)]
pub struct PresenceProof {
    pub device_id: String,
    pub nonce: String,
    pub signature_hex: String,
}

/// What a [`PresenceProof`] says.
#[verifier::ext_equal]
pub struct PresenceProofView {
    pub device_id: Seq<char>,
    pub nonce: Seq<char>,
    pub signature_hex: Seq<char>,
}

impl View for PresenceProof {
    type V = PresenceProofView;

    open spec fn view(&self) -> PresenceProofView {
        PresenceProofView {
            device_id: self.device_id@,
            nonce: self.nonce@,
            signature_hex: self.signature_hex@,
        }
    }
}

impl PresenceProof {
    /// What the device signs.
    pub fn message(nonce: &str) -> (r: Vec<u8>)
        ensures
            r@ == presence_message(nonce@),
    {
        hash_text(cat("presence|", nonce).as_str()).as_str().as_bytes_vec()
    }

    /// A proof for this nonce, by this key.
    pub fn sign<K: HumanKey>(key: &K, nonce: &str) -> (r: PresenceProof)
        ensures
            r.device_id@ == key.device(),
            r.nonce@ == nonce@,
            r.signature_hex@ == hex_of(ed25519_signature_of(key.secret(), presence_message(nonce@))),
    {
        let message = PresenceProof::message(nonce);
        let signature = key.sign(message.as_slice());
        PresenceProof {
            device_id: key.device_id(),
            nonce: nonce.to_owned(),
            signature_hex: hex_encode(signature.as_slice()),
        }
    }
}

/// A presence proof and an approval never sign the same text: what is hashed for
/// the one begins otherwise than what is hashed for the other.
pub proof fn presence_is_no_approval(nonce: Seq<char>, c: ChallengeView)
    ensures
        "presence|"@ + nonce != challenge_preimage(c),
{
    reveal_strlit("presence|");
    reveal_strlit("approval|");
    let a = "presence|"@ + nonce;
    assert(a[0] == 'p');
    assert(challenge_preimage(c)[0] == 'a');
}

} // verus!
