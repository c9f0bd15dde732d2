use umbra_relay::spool::{
    header, open_snapshots, parse_spool, plaintext, spool_file, split_plaintext, Argon2Params,
    SpoolError, HEADER_LEN, SALT_SIZE, TAG_LEN,
};

fn params() -> Argon2Params {
    Argon2Params { m_cost_kib: 0x0001_0000, t_cost: 3, p_cost: 0x0102_0304 }
}

fn salt() -> Vec<u8> {
    (0u8..16).collect()
}

#[test]
fn header_layout() {
    let h = header(&salt(), &params());
    assert_eq!(h.len(), HEADER_LEN);
    assert_eq!(&h[..8], b"URLYSPL1");
    assert_eq!(&h[8..24], &salt()[..]);
    assert_eq!(&h[24..28], &[0x00, 0x00, 0x01, 0x00]);
    assert_eq!(&h[28..32], &[3, 0, 0, 0]);
    assert_eq!(&h[32..36], &[0x04, 0x03, 0x02, 0x01]);
    assert_eq!(SALT_SIZE, 16);
    assert_eq!(TAG_LEN, 16);
}

#[test]
fn spool_file_reads_back() {
    let h = header(&salt(), &params());
    let sealed: Vec<u8> = (100u8..140).collect();
    let file = spool_file(&h, &sealed);
    assert_eq!(file.len(), h.len() + sealed.len());
    let parsed = parse_spool(&file).ok().expect("a well-formed spool");
    assert_eq!(parsed.header.salt, salt());
    assert_eq!(parsed.header.params, params());
    assert_eq!(parsed.aad, h);
    assert_eq!(parsed.sealed, sealed);
}

#[test]
fn bad_magic_and_short_files_are_refused() {
    let h = header(&salt(), &params());
    let mut file = spool_file(&h, &[0u8; 16]);
    assert!(parse_spool(&file).is_ok());
    // One byte short of a header and a tag.
    assert_eq!(parse_spool(&file[..HEADER_LEN + TAG_LEN - 1]).err(), Some(SpoolError::BadMagic));
    assert_eq!(parse_spool(&[]).err(), Some(SpoolError::BadMagic));
    file[7] = b'2';
    assert_eq!(parse_spool(&file).err(), Some(SpoolError::BadMagic));
}

#[test]
fn plaintext_layout() {
    let p = plaintext(b"group", b"mail");
    assert_eq!(p, b"\x05\x00\x00\x00groupmail".to_vec());
    assert_eq!(plaintext(b"", b""), vec![0, 0, 0, 0]);
}

#[test]
fn plaintext_splits_back() {
    let group: Vec<u8> = (0u8..=255).collect();
    let mailbox = b"mailbox snapshot".to_vec();
    let p = plaintext(&group, &mailbox);
    assert_eq!(split_plaintext(&p).ok(), Some((group.clone(), mailbox.clone())));
    assert_eq!(open_snapshots(Some(p)).ok(), Some((group, mailbox)));
    assert_eq!(split_plaintext(&plaintext(b"", b"")).ok(), Some((vec![], vec![])));
}

#[test]
fn malformed_bodies_are_refused() {
    assert_eq!(split_plaintext(&[1, 0, 0]).err(), Some(SpoolError::Truncated));
    assert_eq!(split_plaintext(&[]).err(), Some(SpoolError::Truncated));
    assert_eq!(split_plaintext(&[2, 0, 0, 0, 9]).err(), Some(SpoolError::LengthMismatch));
    assert_eq!(split_plaintext(&[0xff, 0xff, 0xff, 0xff]).err(), Some(SpoolError::LengthMismatch));
    assert_eq!(split_plaintext(&[1, 0, 0, 0, 9]).ok(), Some((vec![9], vec![])));
    assert_eq!(open_snapshots(None).err(), Some(SpoolError::WrongPassphrase));
}

#[test]
fn error_messages() {
    assert_eq!(SpoolError::BadMagic.message(), "not an umbra-relay spool (bad magic)");
    assert_eq!(SpoolError::WrongPassphrase.message(), "wrong operator passphrase or corrupted spool");
    assert_eq!(SpoolError::Truncated.message(), "spool body truncated");
    assert_eq!(SpoolError::LengthMismatch.message(), "spool body length mismatch");
}
