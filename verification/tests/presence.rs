use vk_kernel::adapter::MockAdapter;
use vk_kernel::error::KernelError;
use vk_kernel::kernel::{RealKernel, RecordState};
use vk_kernel::outside::now_ms;
use vk_kernel::presence::{
    decode_seed, encode_seed, fresh_seed, seed_of_file, HumanKey, NodeDevice,
};
use vk_kernel::store::Store;
use vk_kernel::table::Table;

type Mocked = RealKernel<MockAdapter>;

const SOUND: RecordState = RecordState {
    chain_ok: true,
    head_ok: true,
    recovered_partial_line: false,
};

fn fresh() -> Mocked {
    RealKernel::<MockAdapter>::open(Store::new("/state"), "n1", SOUND, now_ms(), &Table::new())
}

fn enrolled_events(k: &Mocked) -> usize {
    k.store.ledger.iter().filter(|e| e.kind == "device.enrolled").count()
}

#[test]
fn file_source_creates_once_and_reloads_the_same_key() {
    let seed = fresh_seed();
    let kept = encode_seed(&seed);
    let a = NodeDevice::of_seed("n1", seed);
    let read = seed_of_file("/state/node.key", Some(0o600), &format!("{kept}\n")).unwrap();
    let b = NodeDevice::of_seed("n1", read);
    assert_eq!(a.device_id(), "node:n1");
    assert_eq!(a.verifying_key_bytes(), b.verifying_key_bytes());
    // A signature by the reloaded key verifies against the first's public key.
    let mut k = fresh();
    k.enroll_device_persisted(&a.device_id(), a.verifying_key_bytes()).unwrap();
    assert!(k.verify_device(&b.device_id(), b"hello", &b.sign(b"hello")).is_ok());
    assert_ne!(fresh_seed(), seed, "each seed is its own");
}

#[test]
fn a_corrupt_key_file_is_refused() {
    assert!(seed_of_file("/state/node.key", Some(0o600), "not base64 of 32 bytes").is_err());
    assert!(decode_seed("AAAA").is_err(), "three bytes are no seed");
    assert_eq!(decode_seed(&encode_seed(&[9u8; 32])), Ok([9u8; 32]));
    assert_eq!(
        encode_seed(&[0u8; 32]),
        "AAAAAAAAAAAAAAAAAAAAAAAAAAAAAAAAAAAAAAAAAAA="
    );
}

#[test]
fn a_world_readable_key_file_is_refused() {
    let kept = encode_seed(&[1u8; 32]);
    let err = seed_of_file("/state/node.key", Some(0o644), &kept).unwrap_err();
    assert!(err.contains("readable by others"), "{err}");
    assert!(seed_of_file("/state/node.key", None, &kept).is_ok());
}

#[test]
fn enroll_node_device_is_idempotent_and_refuses_a_different_key() {
    let mut k = fresh();
    let dev = NodeDevice::of_seed("n1", fresh_seed());
    k.enroll_node_device(&dev).unwrap();
    k.enroll_node_device(&dev).unwrap();
    assert_eq!(enrolled_events(&k), 1, "a re-enrolment is a no-op");
    assert!(k.verify_device(&dev.device_id(), b"m", &dev.sign(b"m")).is_ok());

    let other = NodeDevice::of_seed("n1", fresh_seed());
    let err = k.enroll_node_device(&other).unwrap_err();
    assert!(matches!(err, KernelError::I1(_)), "{err:?}");
    assert_eq!(enrolled_events(&k), 1);
    // The original key still answers for the device; the other never did.
    assert!(k.verify_device(&dev.device_id(), b"m", &dev.sign(b"m")).is_ok());
    assert!(k.verify_device(&other.device_id(), b"m", &other.sign(b"m")).is_err());

    // A device for another node is not this node's device.
    let foreign = NodeDevice::of_seed("n2", fresh_seed());
    assert!(matches!(
        k.enroll_node_device(&foreign).unwrap_err(),
        KernelError::I1(_)
    ));
}

#[test]
fn the_enrolment_survives_a_reopen() {
    let dev = NodeDevice::of_seed("n1", fresh_seed());
    let mut k = fresh();
    k.enroll_node_device(&dev).unwrap();
    let k = RealKernel::<MockAdapter>::open(k.into_store(), "n1", SOUND, now_ms(), &Table::new());
    assert!(k.verify_device(&dev.device_id(), b"m", &dev.sign(b"m")).is_ok());
}
