use fleetcore::authenticate::authenticate;
use fleetcore::digest::Digest;
use fleetcore::encoding::{export_key_base64, import_key_base64};
use fleetcore::handlers::handle_join;
use fleetcore::node::smart_contract;
use fleetcore::rules::ChainError;
use fleetcore::signing::{
    generate_keypair, sign_message, sign_payload, verify_signature, PUBLIC_KEY_BYTES,
    SECRET_KEY_BYTES, SIGNATURE_BYTES,
};
use fleetcore::states::ChainState;
use fleetcore::types::{
    BaseJournal, Command, CommunicationData, EncryptedToken, FireJournal, Journal, Receipt,
    SignedMessage,
};

fn join_payload(fleet: &str) -> CommunicationData {
    CommunicationData {
        cmd: Command::Join,
        receipt: Receipt {
            program: Some(Command::Join),
            journal: Journal::Base(BaseJournal {
                gameid: "g".to_string(),
                fleet: fleet.to_string(),
                board: Digest::of(fleet.as_bytes()),
                token_commitment: Digest::zero(),
            }),
        },
        token_data: Some(EncryptedToken {
            enc_token: "enc".to_string(),
            token_hash: Digest::of(b"t0"),
            pub_rsa_key: b"rsa".to_vec(),
        }),
    }
}

fn signed(payload: CommunicationData, bytes: &[u8], sk: &[u8], pk: &[u8]) -> SignedMessage<CommunicationData> {
    SignedMessage { payload, signature: sign_message(bytes, sk), public_key: pk.to_vec() }
}

#[test]
fn key_sizes_are_those_of_dilithium2() {
    assert_eq!(PUBLIC_KEY_BYTES, 1312);
    assert_eq!(SECRET_KEY_BYTES, 2560);
    assert_eq!(SIGNATURE_BYTES, 2420);
    let (sk, pk) = generate_keypair();
    assert_eq!(sk.len(), 2560);
    assert_eq!(pk.len(), 1312);
    let (sk2, pk2) = generate_keypair();
    assert_ne!(sk, sk2);
    assert_ne!(pk, pk2);
}

#[test]
fn signature_verifies_under_its_key() {
    let (sk, pk) = generate_keypair();
    let signature = sign_message(b"fire at E3", &sk);
    assert!(signature.len() <= 2420);
    assert!(!signature.is_empty());
    assert!(verify_signature(b"fire at E3", &signature, &pk));
}

#[test]
fn signing_gives_the_same_signature_again() {
    let (sk, _pk) = generate_keypair();
    assert_eq!(sign_message(b"fire at E3", &sk), sign_message(b"fire at E3", &sk));
    assert_ne!(sign_message(b"fire at E3", &sk), sign_message(b"fire at E4", &sk));
}

#[test]
fn flipped_bit_in_message_is_rejected() {
    let (sk, pk) = generate_keypair();
    let message = b"fire at E3".to_vec();
    let signature = sign_message(&message, &sk);
    for i in 0..message.len() {
        let mut forged = message.clone();
        forged[i] ^= 1;
        assert!(!verify_signature(&forged, &signature, &pk));
    }
    assert!(!verify_signature(b"", &signature, &pk));
}

#[test]
fn flipped_bit_in_signature_is_rejected() {
    let (sk, pk) = generate_keypair();
    let signature = sign_message(b"fire at E3", &sk);
    for i in [0, 1, 7, 100, 1000, signature.len() - 1] {
        for bit in [1u8, 0x80] {
            let mut forged = signature.clone();
            forged[i] ^= bit;
            assert!(!verify_signature(b"fire at E3", &forged, &pk));
        }
    }
}

#[test]
fn signature_of_another_key_is_rejected() {
    let (sk, _pk) = generate_keypair();
    let (_sk2, pk2) = generate_keypair();
    let signature = sign_message(b"fire at E3", &sk);
    assert!(!verify_signature(b"fire at E3", &signature, &pk2));
}

#[test]
fn keys_and_signatures_of_wrong_length_are_rejected() {
    let (sk, pk) = generate_keypair();
    let signature = sign_message(b"m", &sk);
    assert!(!verify_signature(b"m", &signature, &pk[..1311]));
    assert!(!verify_signature(b"m", &signature, &[]));
    let mut long_key = pk.clone();
    long_key.push(0);
    assert!(!verify_signature(b"m", &signature, &long_key));
    let mut long_signature = signature.clone();
    long_signature.push(0);
    assert!(!verify_signature(b"m", &long_signature, &pk));
    assert!(!verify_signature(b"m", &signature[..signature.len() - 1], &pk));
    assert!(!verify_signature(b"m", &[], &pk));
}

#[test]
fn sign_payload_wraps_payload_signature_and_key() {
    let (sk, pk) = generate_keypair();
    let message = sign_payload(
        "payload".to_string(),
        b"payload bytes",
        &export_key_base64(&pk),
        &export_key_base64(&sk),
    )
    .unwrap();
    assert_eq!(message.payload, "payload");
    assert_eq!(message.public_key, pk);
    assert_eq!(message.signature, sign_message(b"payload bytes", &sk));
    assert!(verify_signature(b"payload bytes", &message.signature, &message.public_key));
    assert!(!verify_signature(b"payload bytez", &message.signature, &message.public_key));
}

#[test]
fn sign_payload_refuses_bad_keys() {
    let (sk, pk) = generate_keypair();
    let pk64 = export_key_base64(&pk);
    let sk64 = export_key_base64(&sk);
    assert!(sign_payload(1u8, b"x", "not base 64!", &sk64).is_none());
    assert!(sign_payload(1u8, b"x", &pk64, "not base 64!").is_none());
    assert!(sign_payload(1u8, b"x", &pk64, "").is_none());
    assert!(sign_payload(1u8, b"x", &pk64, &export_key_base64(&sk[..2559])).is_none());
    // the public key is passed on as it is
    let short = sign_payload(1u8, b"x", &export_key_base64(b"pk"), &sk64).unwrap();
    assert_eq!(short.public_key, b"pk".to_vec());
}

#[test]
fn base64_round_trip() {
    assert_eq!(export_key_base64(b"hello world~"), "aGVsbG8gd29ybGR+");
    assert_eq!(export_key_base64(b""), "");
    let bytes: Vec<u8> = (0u8..32).collect();
    assert_eq!(export_key_base64(&bytes), "AAECAwQFBgcICQoLDA0ODxAREhMUFRYXGBkaGxwdHh8=");
    assert_eq!(import_key_base64("aGVsbG8gd29ybGR+"), Some(b"hello world~".to_vec()));
    assert_eq!(import_key_base64("AAECAwQFBgcICQoLDA0ODxAREhMUFRYXGBkaGxwdHh8="), Some(bytes));
    assert_eq!(import_key_base64(""), Some(vec![]));
    assert_eq!(import_key_base64("a"), None);
    assert_eq!(import_key_base64("aGVsbG8gd29ybGR+*"), None);
    assert_eq!(import_key_base64("AAECAwQFBgcICQoLDA0ODxAREhMUFRYXGBkaGxwdHh8"), None);
}

#[test]
fn authenticate_accepts_a_signed_message() {
    let (sk, pk) = generate_keypair();
    let chain = ChainState::new();
    let payload = join_payload("A");
    let bytes = b"the bytes of the payload";
    assert_eq!(authenticate(&chain, &signed(payload, bytes, &sk, &pk), bytes), Ok(()));
}

#[test]
fn authenticate_rejects_a_bad_signature() {
    let (sk, pk) = generate_keypair();
    let chain = ChainState::new();
    let bytes = b"the bytes of the payload";
    let message = signed(join_payload("A"), bytes, &sk, &pk);
    assert_eq!(authenticate(&chain, &message, b"other bytes"), Err(ChainError::InvalidSignature));
    let mut tampered = signed(join_payload("A"), bytes, &sk, &pk);
    tampered.signature[10] ^= 4;
    assert_eq!(authenticate(&chain, &tampered, bytes), Err(ChainError::InvalidSignature));
    let mut no_signature = signed(join_payload("A"), bytes, &sk, &pk);
    no_signature.signature.clear();
    assert_eq!(authenticate(&chain, &no_signature, bytes), Err(ChainError::InvalidSignature));
}

#[test]
fn impersonation_is_rejected_by_the_key_check() {
    // A joins with its key; C signs a message in A's name with C's own key
    let (_sk_a, pk_a) = generate_keypair();
    let (sk_c, pk_c) = generate_keypair();
    let mut chain = ChainState::new();
    assert_eq!(handle_join(&mut chain, &join_payload("A"), &pk_a), Ok(()));
    let bytes = b"fire in the name of A";
    let payload = CommunicationData {
        cmd: Command::Fire,
        receipt: Receipt {
            program: Some(Command::Fire),
            journal: Journal::Fire(FireJournal {
                gameid: "g".to_string(),
                fleet: "A".to_string(),
                board: Digest::of(b"A"),
                target: "A".to_string(),
                pos: 1,
                token_commitment: Digest::of(b"t0"),
            }),
        },
        token_data: join_payload("A").token_data,
    };
    let forged = signed(payload, bytes, &sk_c, &pk_c);
    assert_eq!(authenticate(&chain, &forged, bytes), Err(ChainError::SignerMismatch));
    assert_eq!(smart_contract(&mut chain, &forged, bytes, 0), Err(ChainError::SignerMismatch));
    let game = chain.game("g").unwrap();
    assert_eq!(game.shot_position, None);
    assert_eq!(game.turn_commitment, Some(Digest::of(b"t0")));
}

#[test]
fn unknown_fleet_or_game_passes_the_key_check() {
    let (_sk_a, pk_a) = generate_keypair();
    let (sk_c, pk_c) = generate_keypair();
    let mut chain = ChainState::new();
    assert_eq!(handle_join(&mut chain, &join_payload("A"), &pk_a), Ok(()));
    let bytes = b"join as C";
    assert_eq!(authenticate(&chain, &signed(join_payload("C"), bytes, &sk_c, &pk_c), bytes), Ok(()));
    let mut elsewhere = join_payload("A");
    if let Journal::Base(j) = &mut elsewhere.receipt.journal {
        j.gameid = "other".to_string();
    }
    assert_eq!(authenticate(&chain, &signed(elsewhere, bytes, &sk_c, &pk_c), bytes), Ok(()));
}

#[test]
fn smart_contract_authenticates_then_dispatches() {
    let (sk, pk) = generate_keypair();
    let mut chain = ChainState::new();
    let bytes = b"join";
    // a bad signature stops the message before the handler
    let mut bad = signed(join_payload("A"), bytes, &sk, &pk);
    bad.signature[0] ^= 1;
    assert_eq!(smart_contract(&mut chain, &bad, bytes, 7), Err(ChainError::InvalidSignature));
    assert_eq!(chain.len(), 0);
    // a receipt that proves nothing stops it in the handler
    let mut unproved = join_payload("A");
    unproved.receipt.program = None;
    assert_eq!(
        smart_contract(&mut chain, &signed(unproved, bytes, &sk, &pk), bytes, 7),
        Err(ChainError::InvalidProof)
    );
    assert_eq!(chain.len(), 0);
    // the command decides which handler runs: a join receipt under "Win" proves nothing
    let mut mislabeled = join_payload("A");
    mislabeled.cmd = Command::Win;
    assert_eq!(
        smart_contract(&mut chain, &signed(mislabeled, bytes, &sk, &pk), bytes, 7),
        Err(ChainError::InvalidProof)
    );
    assert_eq!(smart_contract(&mut chain, &signed(join_payload("A"), bytes, &sk, &pk), bytes, 7), Ok(()));
    assert_eq!(chain.len(), 1);
    assert_eq!(chain.game("g").unwrap().pmap.get("A").unwrap().public_key, pk);
    // a claim of victory takes the time of the call
    let win = CommunicationData {
        cmd: Command::Win,
        receipt: Receipt {
            program: Some(Command::Win),
            journal: join_payload("A").receipt.journal,
        },
        token_data: None,
    };
    assert_eq!(smart_contract(&mut chain, &signed(win, bytes, &sk, &pk), bytes, 77), Ok(()));
    assert_eq!(chain.game("g").unwrap().pending_win.as_ref().unwrap().time, 77);
    let contest = CommunicationData {
        cmd: Command::Contest,
        receipt: Receipt {
            program: Some(Command::Contest),
            journal: join_payload("A").receipt.journal,
        },
        token_data: None,
    };
    assert_eq!(
        smart_contract(&mut chain, &signed(contest, bytes, &sk, &pk), bytes, 78),
        Err(ChainError::SelfContest)
    );
}
