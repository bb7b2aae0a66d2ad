use idms::account::{AccountConnection, AmbiguousAccount, ImplicitAccount};
use idms::error::SecurityError;
use idms::guard::SocketGuard;
use idms::messages::{IncomingMessage, MessagePayload, OutgoingMessage};
use idms::secure::keys::public_key_for;
use idms::secure::mac::{sign, verify};
use idms::secure::sym::{Algorithm, SymContext};
use idms::security::{EncryptionData, ForeignKeychain, KeyDirectory, KeyStore, SealedMessage};
use idms::user::Account;

const SHARED: [u8; 32] = [
    46, 215, 106, 181, 73, 177, 231, 60, 3, 30, 180, 156, 148, 72, 240, 121, 138, 234, 129, 182, 152, 39, 154,
    12, 61, 195, 228, 159, 191, 196, 185, 83,
];

fn user1() -> ImplicitAccount {
    ImplicitAccount { id: "user1".to_owned(), private_key: vec![1u8; 32], info: vec![] }
}

fn user2_as_seen_by_user1() -> AmbiguousAccount {
    AmbiguousAccount { id: "user2".to_owned(), public_key: public_key_for(&[2u8; 32]).to_vec(), info: vec![] }
}

fn hello() -> OutgoingMessage {
    OutgoingMessage { user: user1(), contents: b"hello world".to_vec(), to: user2_as_seen_by_user1() }
}

fn directory_of_user2() -> KeyDirectory {
    let mut directory = KeyDirectory::new();
    directory.set_key("user1", ForeignKeychain::new(&public_key_for(&[1u8; 32]), &[2u8; 32]).unwrap());
    directory
}

#[test]
fn connection_holds_both_ids_and_the_shared_secret() {
    let connection = AccountConnection::from_accounts(&user1(), &user2_as_seen_by_user1()).unwrap();
    assert_eq!(connection.imp_id, "user1");
    assert_eq!(connection.amb_id, "user2");
    assert_eq!(connection.secret, SHARED.to_vec());

    let user2 = ImplicitAccount { id: "user2".to_owned(), private_key: vec![2u8; 32], info: vec![] };
    let user1_seen = AmbiguousAccount {
        id: "user1".to_owned(),
        public_key: public_key_for(&[1u8; 32]).to_vec(),
        info: vec![],
    };
    let reverse = AccountConnection::from_accounts(&user2, &user1_seen).unwrap();
    assert_eq!(reverse.secret, connection.secret);
    assert_eq!(reverse.imp_id, "user2");
}

#[test]
fn connection_rejects_malformed_keys() {
    let mut short = user1();
    short.private_key.pop();
    assert_eq!(
        AccountConnection::from_accounts(&short, &user2_as_seen_by_user1()),
        Err(SecurityError::InvalidKeyEncoding)
    );
    let mut long = user2_as_seen_by_user1();
    long.public_key.push(0);
    assert_eq!(AccountConnection::from_accounts(&user1(), &long), Err(SecurityError::InvalidKeyEncoding));
    assert_eq!(user1().sign(b"data".to_vec(), &long), Err(SecurityError::InvalidKeyEncoding));
}

#[test]
fn account_signature_is_the_keyed_hash_under_the_shared_secret() {
    let signature = user1().sign(b"hello world".to_vec(), &user2_as_seen_by_user1()).unwrap();
    assert_eq!(signature, sign(&SHARED, b"hello world"));
    assert!(verify(&SHARED, b"hello world", &signature));
}

#[test]
fn address_book_entry_derives_the_same_secret() {
    let entry = Account::new("user2".to_owned(), "User Two".to_owned(), public_key_for(&[2u8; 32]).to_vec());
    assert_eq!(entry.id, "user2");
    assert_eq!(entry.name, "User Two");
    assert_eq!(entry.secret(&[1u8; 32]), Ok(SHARED));
    assert_eq!(entry.secret(&[1u8; 3]), Err(SecurityError::InvalidKeyEncoding));
}

#[test]
fn payload_in_the_clear_carries_plaintext_and_signature() {
    let payload = hello().to_payload(None).unwrap();
    assert_eq!(payload.id, "user1");
    assert_eq!(payload.key, public_key_for(&[1u8; 32]).to_vec());
    assert_eq!(payload.contents, b"hello world".to_vec());
    assert_eq!(payload.signature, sign(&SHARED, b"hello world"));
}

#[test]
fn sealed_payload_is_signed_over_the_plaintext() {
    let mut ctx = SymContext::new(SHARED, Algorithm::ChaCha20Poly1305);
    let payload = hello().to_payload(Some(&mut ctx)).unwrap();
    assert_eq!(ctx.peek(), 1);
    assert_eq!(payload.signature, sign(&SHARED, b"hello world"));
    assert_ne!(payload.contents, b"hello world".to_vec());
    assert_eq!(payload.contents.len(), 11 + 16);

    let mut peer = SymContext::new(SHARED, Algorithm::ChaCha20Poly1305);
    let mut contents = payload.contents.clone();
    peer.decrypt(&mut contents).unwrap();
    assert_eq!(contents, b"hello world".to_vec());
}

#[test]
fn payload_fails_on_bad_keys_and_exhausted_context() {
    let mut message = hello();
    message.to.public_key = vec![1, 2, 3];
    assert!(matches!(message.to_payload(None), Err(SecurityError::InvalidKeyEncoding)));

    let mut ctx = SymContext::at(SHARED, Algorithm::ChaCha20Poly1305, 5);
    assert!(matches!(message.to_payload(Some(&mut ctx)), Err(SecurityError::InvalidKeyEncoding)));
    assert_eq!(ctx.peek(), 5);

    let mut spent = SymContext::at(SHARED, Algorithm::ChaCha20Poly1305, u32::MAX);
    assert!(matches!(hello().to_payload(Some(&mut spent)), Err(SecurityError::NonceExhausted)));
    assert_eq!(spent.peek(), u32::MAX);
}

#[test]
fn incoming_message_verifies_against_the_directory() {
    let directory = directory_of_user2();
    let payload = hello().to_payload(None).unwrap();
    assert!(IncomingMessage::from_payload(payload.clone()).verify(&directory));

    let mut tampered = payload.clone();
    tampered.contents.push(20);
    assert!(!IncomingMessage::from_payload(tampered).verify(&directory));

    let mut short = payload.clone();
    short.signature.pop();
    assert!(!IncomingMessage::from_payload(short).verify(&directory));

    let mut stranger = payload.clone();
    stranger.id = "user3".to_owned();
    assert!(!IncomingMessage::from_payload(stranger).verify(&directory));

    assert!(!IncomingMessage::from_payload(payload).verify(&KeyDirectory::new()));
}

#[test]
fn key_that_comes_with_the_message_is_not_trusted() {
    let directory = directory_of_user2();
    let mut payload = hello().to_payload(None).unwrap();
    payload.key = public_key_for(&[9u8; 32]).to_vec();
    assert!(IncomingMessage::from_payload(payload).verify(&directory));

    let forger = ImplicitAccount { id: "user1".to_owned(), private_key: vec![9u8; 32], info: vec![] };
    let forged = OutgoingMessage { user: forger, contents: b"hello world".to_vec(), to: user2_as_seen_by_user1() }
        .to_payload(None)
        .unwrap();
    assert!(!IncomingMessage::from_payload(forged).verify(&directory));
}

#[test]
fn message_from_a_payload_moves_the_fields_over_and_knows_no_more() {
    let payload = MessagePayload {
        id: "user1".to_owned(),
        key: vec![1, 2, 3],
        contents: vec![4, 5, 6],
        signature: vec![7, 8, 9],
    };
    let incoming = IncomingMessage::from_payload(payload);
    assert_eq!(incoming.account().id, "user1");
    assert_eq!(incoming.account().public_key, vec![1, 2, 3]);
    assert!(incoming.account().info.is_empty());

    let sender = AmbiguousAccount { id: "user1".to_owned(), public_key: vec![], info: vec![5, 5] };
    let built = IncomingMessage::new(sender, vec![], vec![]);
    assert_eq!(built.account().info, vec![5, 5]);
}

#[test]
fn incoming_message_can_be_built_from_parts() {
    let directory = directory_of_user2();
    let sender = AmbiguousAccount { id: "user1".to_owned(), public_key: vec![], info: vec![] };
    let incoming = IncomingMessage::new(sender.clone(), b"hello world".to_vec(), sign(&SHARED, b"hello world"));
    assert!(incoming.verify(&directory));
    let wrong = IncomingMessage::new(sender, b"hello world".to_vec(), sign(&SHARED, b"hello"));
    assert!(!wrong.verify(&directory));
}

#[test]
fn record_without_a_secret_vouches_for_nothing() {
    let mut directory = KeyDirectory::new();
    directory.set_key("user1", ForeignKeychain { public_key: public_key_for(&[1u8; 32]), shared_key: None });
    let payload = hello().to_payload(None).unwrap();
    assert!(!IncomingMessage::from_payload(payload.clone()).verify(&directory));

    let mut guard = SocketGuard::with_guard_key([2u8; 32], directory);
    let out = guard.next(payload.frame()).unwrap().unwrap();
    assert_eq!(out.encryption_data, EncryptionData::Failed { target: "user1", encrypted: false });
}

#[test]
fn payload_travels_as_a_data_frame_to_the_guard() {
    let payload = MessagePayload {
        id: "user1".to_owned(),
        key: vec![1, 2, 3],
        contents: vec![4, 5, 6],
        signature: vec![7, 8, 9],
    };
    assert_eq!(
        payload.frame(),
        SealedMessage::Communicate { userid: "user1", signature: &[7, 8, 9], message: &[4, 5, 6] }
    );

    let mut guard = SocketGuard::with_guard_key([2u8; 32], KeyDirectory::new());
    let mut ctx = SymContext::new(SHARED, Algorithm::ChaCha20Poly1305);
    let sealed = hello().to_payload(Some(&mut ctx)).unwrap();
    assert_eq!(guard.sync("user1", "", &sealed.key), Ok(()));
    let out = guard.next(sealed.frame()).unwrap().unwrap();
    assert_eq!(
        out.encryption_data,
        EncryptionData::Passed { encrypted: true, username: "user1", sharedkey: SHARED }
    );
    assert_eq!(out.message, b"hello world".to_vec());

    let clear = hello().to_payload(None).unwrap();
    let out = guard.next(clear.frame()).unwrap().unwrap();
    assert_eq!(
        out.encryption_data,
        EncryptionData::Passed { encrypted: false, username: "user1", sharedkey: SHARED }
    );
    assert_eq!(out.message, b"hello world".to_vec());
}
