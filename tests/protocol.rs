use coal_pool::auth::{auth_decision, authenticate, AuthRejection, MinerLookup};
use coal_pool::bytes::{push_u64_le, u64_from_le};
use coal_pool::keys::{PeerAddr, WalletKey};
use coal_pool::nonce::NonceRange;
use coal_pool::registry::{ClientRegistry, RegistryError};
use coal_pool::wire::{encode_work_packet, parse_client_frame, ClientMessage};
use solana_sdk::signature::{Keypair, Signer};

fn addr(port: u16) -> PeerAddr {
    PeerAddr { ip: 1, port }
}

fn solution_frame(kp: &Keypair, digest: [u8; 16], nonce: [u8; 8]) -> Vec<u8> {
    let mut msg = Vec::new();
    msg.extend_from_slice(&digest);
    msg.extend_from_slice(&nonce);
    let sig = kp.sign_message(&msg);
    let mut frame = vec![2u8];
    frame.extend_from_slice(&digest);
    frame.extend_from_slice(&nonce);
    frame.extend_from_slice(&kp.pubkey().to_bytes());
    frame.extend_from_slice(sig.to_string().as_bytes());
    frame
}

#[test]
fn little_endian_round_trip() {
    let mut out = Vec::new();
    push_u64_le(&mut out, 0x0102_0304_0506_0708);
    assert_eq!(out, vec![8, 7, 6, 5, 4, 3, 2, 1]);
    let mut b = [0u8; 8];
    b.copy_from_slice(&out);
    assert_eq!(u64_from_le(&b), 0x0102_0304_0506_0708);
    assert_eq!(u64_from_le(&u64::MAX.to_le_bytes()), u64::MAX);
}

#[test]
fn work_packet_layout() {
    let challenge: [u8; 32] = core::array::from_fn(|i| i as u8);
    let p = encode_work_packet(&challenge, 42, NonceRange { start: 4_000_000, end: 8_000_000 });
    assert_eq!(p.len(), 57);
    assert_eq!(p[0], 0);
    assert_eq!(&p[1..33], &challenge);
    assert_eq!(&p[33..41], &42u64.to_le_bytes());
    assert_eq!(&p[41..49], &4_000_000u64.to_le_bytes());
    assert_eq!(&p[49..57], &8_000_000u64.to_le_bytes());
}

#[test]
fn control_frames_are_read() {
    assert!(matches!(parse_client_frame(addr(1), &[0]), Some(ClientMessage::Ready(a)) if a == addr(1)));
    assert!(matches!(parse_client_frame(addr(1), &[1, 9, 9]), Some(ClientMessage::Mining(_))));
    assert!(parse_client_frame(addr(1), &[]).is_none());
    assert!(parse_client_frame(addr(1), &[3]).is_none());
    assert!(parse_client_frame(addr(1), &[2, 0, 0]).is_none());
}

#[test]
fn signed_solution_frame_is_accepted() {
    let kp = Keypair::new();
    let frame = solution_frame(&kp, [7; 16], 500u64.to_le_bytes());
    match parse_client_frame(addr(4), &frame) {
        Some(ClientMessage::BestSolution(a, s, k)) => {
            assert_eq!(a, addr(4));
            assert_eq!(s.digest, [7; 16]);
            assert_eq!(s.nonce_value(), 500);
            assert_eq!(k.bytes, kp.pubkey().to_bytes());
        }
        other => panic!("unexpected {:?}", other),
    }
}

#[test]
fn tampered_or_garbled_solution_frame_is_dropped() {
    let kp = Keypair::new();
    let mut frame = solution_frame(&kp, [7; 16], 500u64.to_le_bytes());
    frame[17] ^= 1;
    assert!(parse_client_frame(addr(4), &frame).is_none());
    let mut bad_text = solution_frame(&kp, [7; 16], 1u64.to_le_bytes());
    bad_text.truncate(57);
    bad_text.extend_from_slice(&[0xff, 0xfe]);
    assert!(parse_client_frame(addr(4), &bad_text).is_none());
    let other = Keypair::new();
    let mut wrong_key = solution_frame(&kp, [7; 16], 1u64.to_le_bytes());
    wrong_key[25..57].copy_from_slice(&other.pubkey().to_bytes());
    assert!(parse_client_frame(addr(4), &wrong_key).is_none());
}

#[test]
fn registry_keeps_one_session_per_wallet() {
    let mut r = ClientRegistry::new();
    let w = WalletKey::new([1; 32]);
    assert_eq!(r.insert(addr(1), w, 1, 100), Ok(()));
    assert_eq!(r.insert(addr(2), w, 1, 100), Err(RegistryError::WalletConnected));
    assert_eq!(r.insert(addr(1), WalletKey::new([2; 32]), 2, 100), Err(RegistryError::AddressInUse));
    assert_eq!(r.len(), 1);
    assert!(r.is_wallet_connected(&w));
    assert!(r.remove(addr(1)).is_some());
    assert!(r.remove(addr(1)).is_none());
    assert!(!r.is_wallet_connected(&w));
    assert_eq!(r.insert(addr(2), w, 1, 100), Ok(()));
}

#[test]
fn silent_sessions_go_stale_after_45_seconds() {
    let mut r = ClientRegistry::new();
    r.insert(addr(1), WalletKey::new([1; 32]), 1, 1_000).unwrap();
    r.insert(addr(2), WalletKey::new([2; 32]), 2, 1_000).unwrap();
    assert!(r.record_pong(addr(2), 1_030));
    assert!(!r.record_pong(addr(3), 1_030));
    assert!(r.stale_addrs(1_045).is_empty());
    assert_eq!(r.stale_addrs(1_046), vec![addr(1)]);
    assert_eq!(r.stale_addrs(1_076), vec![addr(1), addr(2)]);
}

#[test]
fn handshake_rejects_stale_timestamp() {
    let r = auth_decision(1_031, 1_000, Some([1; 32]), false, MinerLookup::Found { id: 1, enabled: true }, Some([2; 64]), true);
    assert_eq!(r.err(), Some(AuthRejection::TimestampTooOld));
    assert_eq!(AuthRejection::TimestampTooOld.status(), 401);
    let ok = auth_decision(1_030, 1_000, Some([1; 32]), false, MinerLookup::Found { id: 1, enabled: true }, Some([2; 64]), true);
    assert_eq!(ok.unwrap().1, 1);
}

#[test]
fn handshake_rejections_in_order() {
    let found = MinerLookup::Found { id: 3, enabled: true };
    let k = Some([1u8; 32]);
    let s = Some([2u8; 64]);
    assert_eq!(auth_decision(5, 0, None, true, found, s, true).err(), Some(AuthRejection::InvalidPubkey));
    assert_eq!(auth_decision(5, 0, k, true, found, s, true).err(), Some(AuthRejection::AlreadyConnected));
    assert_eq!(AuthRejection::AlreadyConnected.status(), 429);
    assert_eq!(auth_decision(5, 0, k, false, MinerLookup::NotFound, s, true).err(), Some(AuthRejection::NotRegistered));
    assert_eq!(auth_decision(5, 0, k, false, MinerLookup::Unavailable, s, true).err(), Some(AuthRejection::StoreUnavailable));
    assert_eq!(AuthRejection::StoreUnavailable.status(), 500);
    assert_eq!(auth_decision(5, 0, k, false, MinerLookup::Found { id: 3, enabled: false }, s, true).err(), Some(AuthRejection::Disabled));
    assert_eq!(auth_decision(5, 0, k, false, found, None, true).err(), Some(AuthRejection::InvalidSignature));
    assert_eq!(auth_decision(5, 0, k, false, found, s, false).err(), Some(AuthRejection::SignatureMismatch));
}

#[test]
fn handshake_with_real_signature() {
    let kp = Keypair::new();
    let ts: u64 = 1_700_000_000;
    let sig = kp.sign_message(&ts.to_le_bytes()).to_string();
    let pk = kp.pubkey().to_string();
    let mut reg = ClientRegistry::new();
    let found = MinerLookup::Found { id: 9, enabled: true };

    let old = authenticate(ts + 31, ts, &pk, &sig, &reg, found);
    assert_eq!(old.err(), Some(AuthRejection::TimestampTooOld));

    let (wallet, id) = authenticate(ts + 5, ts, &pk, &sig, &reg, found).unwrap();
    assert_eq!(wallet.bytes, kp.pubkey().to_bytes());
    assert_eq!(id, 9);

    reg.insert(addr(1), wallet, id, ts + 5).unwrap();
    let again = authenticate(ts + 6, ts, &pk, &sig, &reg, found);
    assert_eq!(again.err(), Some(AuthRejection::AlreadyConnected));
    assert_eq!(again.err().unwrap().status(), 429);

    let other = Keypair::new().sign_message(&ts.to_le_bytes()).to_string();
    let forged = authenticate(ts + 5, ts, &pk, &other, &ClientRegistry::new(), found);
    assert_eq!(forged.err(), Some(AuthRejection::SignatureMismatch));
    let garbled = authenticate(ts + 5, ts, &pk, "not-base58!", &ClientRegistry::new(), found);
    assert_eq!(garbled.err(), Some(AuthRejection::InvalidSignature));
    let bad_key = authenticate(ts + 5, ts, "0OIl", &sig, &ClientRegistry::new(), found);
    assert_eq!(bad_key.err(), Some(AuthRejection::InvalidPubkey));
}
