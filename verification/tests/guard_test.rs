use idms::error::SecurityError;
use idms::guard::SocketGuard;
use idms::secure::keys::{derive_shared_secret, public_key_for};
use idms::secure::mac::sign;
use idms::secure::sym::{Algorithm, SymContext};
use idms::security::{DecodedMessage, EncryptionData, KeyDirectory, KeyStore, SealedMessage};

const GUARD_KEY: [u8; 32] = [1u8; 32];
const ALICE_KEY: [u8; 32] = [2u8; 32];
const CAROL_KEY: [u8; 32] = [3u8; 32];

const SECRET_WITH_ALICE: [u8; 32] = [
    46, 215, 106, 181, 73, 177, 231, 60, 3, 30, 180, 156, 148, 72, 240, 121, 138, 234, 129, 182, 152, 39, 154,
    12, 61, 195, 228, 159, 191, 196, 185, 83,
];

const SECRET_WITH_CAROL: [u8; 32] = [
    176, 25, 5, 65, 162, 171, 184, 188, 22, 59, 110, 239, 15, 174, 123, 160, 23, 144, 4, 180, 68, 50, 111, 115,
    128, 149, 99, 22, 77, 71, 197, 33,
];

const EXAMPLE_PUBLIC_KEY_BYTES: &'static [u8; 32] = &[0u8; 32];
const TEST_USERNAME: &'static str = "TEST_USERNAME";
const TEST_PASSWORD: &'static str = "TEST_PASSWORD";

fn synced_guard() -> SocketGuard<KeyDirectory> {
    let mut guard = SocketGuard::with_guard_key(GUARD_KEY, KeyDirectory::new());
    let public = public_key_for(&ALICE_KEY);
    let out = guard.next(SealedMessage::Sync { userid: "alice", password: "", public_key: &public });
    assert_eq!(out, Ok(None));
    guard
}

fn sealed(secret: [u8; 32], counter: u32, text: &[u8]) -> Vec<u8> {
    let mut ctx = SymContext::at(secret, Algorithm::ChaCha20Poly1305, counter);
    let mut frame = text.to_vec();
    ctx.encrypt(&mut frame).unwrap();
    frame
}

#[test]
fn socket_guard_sync() {
    let mut guard = SocketGuard::new(KeyDirectory::default());
    let out = guard.next(SealedMessage::Sync {
        userid: TEST_USERNAME,
        password: TEST_PASSWORD,
        public_key: EXAMPLE_PUBLIC_KEY_BYTES,
    });
    assert_eq!(out, Ok(None));
    assert_eq!(&guard.keys().get_key(TEST_USERNAME).unwrap().public_key, EXAMPLE_PUBLIC_KEY_BYTES);
}

#[test]
fn nil_frame_does_nothing() {
    let mut guard = synced_guard();
    let before = *guard.keys().get_key("alice").unwrap();
    assert_eq!(guard.next(SealedMessage::Nil), Ok(None));
    assert_eq!(guard.keys().get_key("alice"), Some(&before));
    assert_eq!(guard.keys().get_key("bob"), None);
}

#[test]
fn sync_then_sealed_hello_world_is_passed_on() {
    let mut guard = synced_guard();
    let secret = derive_shared_secret(&ALICE_KEY, &guard.public_key()).unwrap();
    assert_eq!(secret, SECRET_WITH_ALICE);

    let frame = sealed(secret, 0, b"Hello World");
    let signature = sign(&secret, b"Hello World");
    let out = guard.next(SealedMessage::Communicate { userid: "alice", signature: &signature, message: &frame });
    assert_eq!(
        out,
        Ok(Some(DecodedMessage {
            encryption_data: EncryptionData::Passed {
                encrypted: true,
                username: "alice",
                sharedkey: SECRET_WITH_ALICE
            },
            message: b"Hello World".to_vec(),
        }))
    );
}

#[test]
fn frame_for_unsynced_peer_fails_without_abort() {
    let mut guard = synced_guard();
    let frame = sealed(SECRET_WITH_ALICE, 0, b"Hello World");
    let signature = sign(&SECRET_WITH_ALICE, b"Hello World");
    let out = guard.next(SealedMessage::Communicate { userid: "bob", signature: &signature, message: &frame });
    assert_eq!(
        out,
        Ok(Some(DecodedMessage {
            encryption_data: EncryptionData::Failed { target: "bob", encrypted: false },
            message: Vec::new(),
        }))
    );
    assert_eq!(guard.receive("bob", &frame, &signature).err(), Some(SecurityError::UnknownPeer));

    let mut empty = SocketGuard::with_guard_key(GUARD_KEY, KeyDirectory::new());
    let out = empty.communicate("bob", b"Hello World", &[0u8; 32]);
    assert_eq!(
        out,
        Ok(DecodedMessage {
            encryption_data: EncryptionData::Failed { target: "bob", encrypted: false },
            message: Vec::new(),
        })
    );
}

#[test]
fn later_sync_overwrites_the_earlier_secret() {
    let mut guard = SocketGuard::with_guard_key(GUARD_KEY, KeyDirectory::new());
    let first_key = public_key_for(&ALICE_KEY);
    let second_key = public_key_for(&CAROL_KEY);
    assert_ne!(first_key, second_key);

    assert_eq!(guard.sync("alice", "", &first_key), Ok(()));
    let first = *guard.keys().get_key("alice").unwrap();
    assert_eq!(first.public_key, first_key);
    assert_eq!(first.shared_key, Some(SECRET_WITH_ALICE));

    assert_eq!(guard.sync("alice", "", &second_key), Ok(()));
    let second = *guard.keys().get_key("alice").unwrap();
    assert_eq!(second.public_key, second_key);
    assert_eq!(second.shared_key, Some(SECRET_WITH_CAROL));
    assert_ne!(first.shared_key, second.shared_key);

    let old_frame = sealed(SECRET_WITH_ALICE, 0, b"Hello World");
    let old_signature = sign(&SECRET_WITH_ALICE, b"Hello World");
    let out = guard.communicate("alice", &old_frame, &old_signature).unwrap();
    assert_eq!(out.encryption_data, EncryptionData::Failed { target: "alice", encrypted: true });

    let new_frame = sealed(SECRET_WITH_CAROL, 1, b"Hello World");
    let new_signature = sign(&SECRET_WITH_CAROL, b"Hello World");
    let out = guard.communicate("alice", &new_frame, &new_signature).unwrap();
    assert_eq!(
        out.encryption_data,
        EncryptionData::Passed { encrypted: true, username: "alice", sharedkey: SECRET_WITH_CAROL }
    );
    assert_eq!(out.message, b"Hello World".to_vec());
}

#[test]
fn identical_sync_twice_gives_the_same_secret() {
    let mut guard = SocketGuard::with_guard_key(GUARD_KEY, KeyDirectory::new());
    let public = public_key_for(&ALICE_KEY);
    let frame = SealedMessage::Sync { userid: "alice", password: "pw", public_key: &public };

    assert_eq!(guard.next(frame), Ok(None));
    let once = *guard.keys().get_key("alice").unwrap();
    assert_eq!(guard.next(frame), Ok(None));
    let twice = *guard.keys().get_key("alice").unwrap();
    assert_eq!(once, twice);
    assert_eq!(twice.shared_key, Some(SECRET_WITH_ALICE));
}

#[test]
fn identical_sync_keeps_the_context_counting() {
    let mut guard = synced_guard();
    let public = public_key_for(&ALICE_KEY);
    let signature = sign(&SECRET_WITH_ALICE, b"one");

    let first = sealed(SECRET_WITH_ALICE, 0, b"one");
    assert!(guard.receive("alice", &first, &signature).is_ok());

    assert_eq!(guard.sync("alice", "", &public), Ok(()));

    let replayed = sealed(SECRET_WITH_ALICE, 0, b"one");
    assert_eq!(guard.receive("alice", &replayed, &signature).err(), Some(SecurityError::AuthenticationFailed));

    let third = sealed(SECRET_WITH_ALICE, 2, b"one");
    let got = guard.receive("alice", &third, &signature).unwrap();
    assert_eq!(got.payload, b"one".to_vec());
    assert!(got.encrypted);
    assert_eq!(got.shared_key, SECRET_WITH_ALICE);
}

#[test]
fn signed_frame_in_the_clear_is_passed_on_unencrypted() {
    let mut guard = synced_guard();
    let signature = sign(&SECRET_WITH_ALICE, b"Hello World");
    let out = guard.next(SealedMessage::Communicate {
        userid: "alice",
        signature: &signature,
        message: b"Hello World",
    });
    assert_eq!(
        out,
        Ok(Some(DecodedMessage {
            encryption_data: EncryptionData::Passed {
                encrypted: false,
                username: "alice",
                sharedkey: SECRET_WITH_ALICE
            },
            message: b"Hello World".to_vec(),
        }))
    );

    let frame = sealed(SECRET_WITH_ALICE, 0, b"sealed after clear");
    let signature = sign(&SECRET_WITH_ALICE, b"sealed after clear");
    let got = guard.receive("alice", &frame, &signature).unwrap();
    assert_eq!(got.payload, b"sealed after clear".to_vec());
}

#[test]
fn unsigned_or_forged_frames_fail() {
    let mut guard = synced_guard();
    let out = guard.communicate("alice", b"Hello World", &[0u8; 32]).unwrap();
    assert_eq!(out.encryption_data, EncryptionData::Failed { target: "alice", encrypted: true });
    assert!(out.message.is_empty());

    let frame = sealed(SECRET_WITH_ALICE, 1, b"Hello World");
    let wrong_signature = sign(&SECRET_WITH_ALICE, b"Hello World?");
    let out = guard.communicate("alice", &frame, &wrong_signature).unwrap();
    assert_eq!(out.encryption_data, EncryptionData::Failed { target: "alice", encrypted: true });
    assert!(out.message.is_empty());

    let frame = sealed(SECRET_WITH_ALICE, 2, b"Hello World");
    let signature = sign(&SECRET_WITH_ALICE, b"Hello World");
    let mut tampered = frame.clone();
    tampered[3] ^= 0x40;
    assert_eq!(guard.receive("alice", &tampered, &signature).err(), Some(SecurityError::AuthenticationFailed));

    let frame = sealed(SECRET_WITH_ALICE, 3, b"Hello World");
    let got = guard.receive("alice", &frame, &signature).unwrap();
    assert_eq!(got.payload, b"Hello World".to_vec());
}

#[test]
fn malformed_public_key_is_rejected_and_registers_nothing() {
    let mut guard = SocketGuard::with_guard_key(GUARD_KEY, KeyDirectory::new());
    for len in [0usize, 31, 33] {
        let key = vec![9u8; len];
        let out = guard.next(SealedMessage::Sync { userid: "alice", password: "", public_key: &key });
        assert_eq!(out, Err(SecurityError::InvalidKeyEncoding));
        assert_eq!(guard.keys().get_key("alice"), None);
    }
    let out = guard.communicate("alice", b"Hello World", &[0u8; 32]).unwrap();
    assert_eq!(out.encryption_data, EncryptionData::Failed { target: "alice", encrypted: false });
}

#[test]
fn red_box_is_not_implemented() {
    let mut guard = synced_guard();
    let out = guard.next(SealedMessage::RedBox { userid: "alice", message: b"Hello World" });
    assert_eq!(out, Err(SecurityError::NotImplemented));
    assert_eq!(guard.red_box("alice", b"Hello World"), Err(SecurityError::NotImplemented));
}

#[test]
fn guard_with_a_random_key_agrees_with_its_peers() {
    let mut guard = SocketGuard::new(KeyDirectory::new());
    let other = SocketGuard::new(KeyDirectory::new());
    assert_ne!(guard.public_key(), other.public_key());

    let public = public_key_for(&ALICE_KEY);
    assert_eq!(guard.sync("alice", "", &public), Ok(()));
    let secret = derive_shared_secret(&ALICE_KEY, &guard.public_key()).unwrap();
    assert_eq!(guard.keys().get_key("alice").unwrap().shared_key, Some(secret));
}

#[test]
fn peers_have_contexts_of_their_own() {
    let mut guard = synced_guard();
    assert_eq!(guard.sync("carol", "", &public_key_for(&CAROL_KEY)), Ok(()));

    let from_alice = sealed(SECRET_WITH_ALICE, 0, b"from alice");
    let from_carol = sealed(SECRET_WITH_CAROL, 0, b"from carol");
    let got = guard.receive("alice", &from_alice, &sign(&SECRET_WITH_ALICE, b"from alice")).unwrap();
    assert_eq!(got.payload, b"from alice".to_vec());
    let got = guard.receive("carol", &from_carol, &sign(&SECRET_WITH_CAROL, b"from carol")).unwrap();
    assert_eq!(got.payload, b"from carol".to_vec());
    assert_eq!(got.shared_key, SECRET_WITH_CAROL);
}

#[test]
fn password_is_carried_and_not_checked() {
    let public = public_key_for(&ALICE_KEY);
    let mut with_password = SocketGuard::with_guard_key(GUARD_KEY, KeyDirectory::new());
    let mut without = SocketGuard::with_guard_key(GUARD_KEY, KeyDirectory::new());
    assert_eq!(with_password.sync("alice", "correct horse", &public), Ok(()));
    assert_eq!(without.sync("alice", "", &public), Ok(()));
    assert_eq!(with_password.keys().get_key("alice"), without.keys().get_key("alice"));
}
