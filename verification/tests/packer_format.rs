use animus_patch_loader::hashing::{digest, Sha256State};
use sha2::Digest;

fn fed(bytes: &[u8]) -> Sha256State {
    let mut h = Sha256State::new();
    h.update(bytes);
    h
}

fn sha256_bytes(data: &[u8]) -> Vec<u8> {
    sha2::Sha256::digest(data).to_vec()
}
use animus_patch_loader::packer::{
    build_chunk_aad, build_sign_message, default_output_name, default_output_path, le_bytes,
    make_nonce, package_header, public_key_of, public_key_text, seed_from_file, server_record, signing_seed,
    signing_key_id, signing_key_id_bytes, uuid_string, PackError, Sealer, CHUNK_SIZE,
};
use chacha20poly1305::aead::{Aead, KeyInit, Payload};
use ed25519_dalek::Verifier;

#[test]
fn little_endian_fields() {
    assert_eq!(le_bytes(0x0102_0304, 4), vec![4, 3, 2, 1]);
    assert_eq!(le_bytes(1, 2), vec![1, 0]);
    assert_eq!(le_bytes(u64::MAX, 8), vec![255; 8]);
}

#[test]
fn nonce_is_prefix_then_index() {
    let n = make_nonce(&[9u8; 16], 0x0102);
    assert_eq!(n.len(), 24);
    assert_eq!(&n[..16], &[9u8; 16]);
    assert_eq!(&n[16..], &[2, 1, 0, 0, 0, 0, 0, 0]);
    assert_ne!(make_nonce(&[9u8; 16], 1), make_nonce(&[9u8; 16], 2));
}

#[test]
fn chunk_aad_layout() {
    let aad = build_chunk_aad(&[1u8; 16], 5, &[2u8; 32], 3, 7);
    assert_eq!(aad.len(), 8 + 2 + 16 + 8 + 32 + 8 + 4);
    assert_eq!(&aad[..8], b"ANIMUS01");
    assert_eq!(&aad[8..10], &[1, 0]);
    assert_eq!(&aad[26..34], &[5, 0, 0, 0, 0, 0, 0, 0]);
    assert_eq!(&aad[66..74], &[3, 0, 0, 0, 0, 0, 0, 0]);
    assert_eq!(&aad[74..], &[7, 0, 0, 0]);
}

#[test]
fn sign_message_layout() {
    let m = build_sign_message(&[1u8; 16], &[2u8; 32]);
    assert_eq!(&m[..28], b"ANIMUS-PACKAGE-SIGNATURE-V1\0");
    assert_eq!(m.len(), 28 + 16 + 32);
}

#[test]
fn header_layout() {
    let h = package_header(300, &[1u8; 16], &[2u8; 16], &[3u8; 32], &[4u8; 8], b"Yama.zip").unwrap();
    assert_eq!(&h[..8], b"ANIMUS01");
    assert_eq!(&h[8..12], &[1, 0, 0, 0]);
    assert_eq!(&h[12..16], &(CHUNK_SIZE as u32).to_le_bytes());
    assert_eq!(&h[16..24], &300u64.to_le_bytes());
    assert_eq!(&h[96..98], &[8, 0]);
    assert_eq!(&h[98..], b"Yama.zip");
    let long = vec![b'a'; 65536];
    assert!(matches!(package_header(1, &[0; 16], &[0; 16], &[0; 32], &[0; 8], &long), Err(PackError::NameTooLong)));
}

#[test]
fn sealed_chunks_open_with_the_key() {
    let seed = [7u8; 32];
    let public = public_key_of(&seed);
    let data = b"hello animus package".to_vec();
    let sha = sha256_bytes(&data);
    let (mut sealer, header) = Sealer::start(data.len() as u64, fed(&data), b"x.zip", &public).unwrap();
    assert_eq!(sealer.original_sha256, sha);
    assert_eq!(&header[56..88], &sha[..]);
    assert_eq!(&header[88..96], &signing_key_id_bytes(&public)[..]);
    let chunk = sealer.seal_next(&data);
    assert_eq!(&chunk[..4], &(data.len() as u32).to_le_bytes());
    assert_eq!(&chunk[4..8], &((data.len() + 16) as u32).to_le_bytes());
    let cipher = chacha20poly1305::XChaCha20Poly1305::new(chacha20poly1305::Key::from_slice(&sealer.key));
    let nonce = make_nonce(&sealer.nonce_prefix, 0);
    let aad = build_chunk_aad(&sealer.package_id, data.len() as u64, &sha, 0, data.len() as u32);
    let opened = cipher
        .decrypt(chacha20poly1305::XNonce::from_slice(&nonce), Payload { msg: &chunk[8..], aad: &aad })
        .unwrap();
    assert_eq!(opened, data);
    assert_eq!(sealer.next_index, 1);
    assert_eq!(sealer.processed, data.len() as u64);

    let mut payload = header.clone();
    payload.extend_from_slice(&chunk);
    let expected_payload_sha = sha256_bytes(&payload);
    let (footer, payload_sha, package_sha) = sealer.finish(&seed).unwrap();
    assert_eq!(payload_sha, expected_payload_sha);
    let mut package = payload.clone();
    package.extend_from_slice(&footer);
    assert_eq!(package_sha, sha256_bytes(&package));
    assert_eq!(&footer[..8], b"ANMSIG01");
    assert_eq!(&footer[8..40], &payload_sha[..]);
    let key = ed25519_dalek::VerifyingKey::from_bytes(&public.clone().try_into().unwrap()).unwrap();
    let sig = ed25519_dalek::Signature::from_bytes(&footer[40..104].try_into().unwrap());
    let message = build_sign_message(&sealer.package_id, &payload_sha);
    assert!(key.verify(&message, &sig).is_ok());
}

#[test]
fn size_change_is_refused() {
    let seed = [1u8; 32];
    let public = public_key_of(&seed);
    let (mut sealer, _) = Sealer::start(10, Sha256State::new(), b"a", &public).unwrap();
    let _ = sealer.seal_next(b"12345");
    match sealer.finish(&seed) {
        Err(PackError::SizeChanged { expected, read }) => {
            assert_eq!(expected, 10);
            assert_eq!(read, 5);
        },
        other => panic!("{:?}", other.map(|_| ())),
    }
}

#[test]
fn key_id_and_texts() {
    let public = public_key_of(&[3u8; 32]);
    let id = signing_key_id(&public);
    assert_eq!(id.len(), 16);
    assert_eq!(id, digest(&public)[..16].to_string());
    assert_eq!(public_key_text(&[0, 1, 2]), "AAEC");
    assert!(matches!(seed_from_file(&[0u8; 31]), Err(PackError::CorruptKey)));
    assert_eq!(seed_from_file(&[5u8; 32]).unwrap(), vec![5u8; 32]);
}

#[test]
fn signing_seed_is_read_back_unchanged() {
    let (first, write) = signing_seed(None).unwrap();
    assert!(write);
    assert_eq!(first.len(), 32);
    let (second, write_again) = signing_seed(Some(first.clone())).unwrap();
    assert!(!write_again);
    assert_eq!(second, first);
    assert_eq!(public_key_of(&second), public_key_of(&first));
    assert!(matches!(signing_seed(Some(vec![1u8; 31])), Err(PackError::CorruptKey)));
}

#[test]
fn uuid_text_is_hyphenated_hex() {
    let b: Vec<u8> = (0u8..16).collect();
    assert_eq!(uuid_string(&b), "00010203-0405-0607-0809-0a0b0c0d0e0f");
    assert_eq!(uuid_string(&b), uuid::Uuid::from_slice(&b).unwrap().to_string());
}

#[test]
fn default_output_names() {
    assert_eq!(default_output_name("Yama.zip"), "Yama.animus");
    assert_eq!(default_output_name("archive.tar.gz"), "archive.tar.animus");
    assert_eq!(default_output_name(".hidden"), ".hidden.animus");
    assert_eq!(default_output_name("noext"), "noext.animus");
    assert_eq!(default_output_path(Some("C:\\out".into()), Some("a.zip".into())).unwrap(), "C:\\out\\a.animus");
    assert_eq!(default_output_path(None, Some("a.zip".into())).unwrap(), ".\\a.animus");
    assert!(matches!(default_output_path(None, None), Err(PackError::NoFileName)));
}

#[test]
fn server_record_fields() {
    let public = public_key_of(&[3u8; 32]);
    let r = server_record(&[0u8; 16], "a.zip", 5, &[0xab; 2], 9, &[0xcd; 2], &[0, 1, 2], &public);
    assert_eq!(r.package_id, "00000000-0000-0000-0000-000000000000");
    assert_eq!(r.original_sha256, "abab");
    assert_eq!(r.package_sha256, "cdcd");
    assert_eq!(r.encryption_key_b64, "AAEC");
    assert_eq!(r.signing_key_id, signing_key_id(&public));
}
