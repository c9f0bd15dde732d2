//! The encrypted spool's file framing.
//!
//! File: `MAGIC(8) || salt(16) || m,t,p (3 x u32 LE) || sealed body`, where the
//! sealed body is the AEAD encryption (nonce 0, associated data = the 36-byte
//! header) of the plaintext `u32-le(group_len) || group || mailbox`, and ends
//! in a 16-byte tag. The key derivation and the AEAD are done by the caller;
//! this module builds and checks the bytes around them.

use vstd::prelude::*;
use vstd::bytes::{spec_u32_to_le_bytes, spec_u32_from_le_bytes, u32_to_le_bytes, u32_from_le_bytes, lemma_auto_spec_u32_to_from_le_bytes};
use vstd::slice::{slice_subrange, slice_to_vec};

verus! {

/// Length of the key-derivation salt.
pub const SALT_SIZE: usize = 16;

/// Length of the file header: magic, salt and the three cost parameters.
pub const HEADER_LEN: usize = 36;

/// Length of the AEAD tag at the end of the sealed body.
pub const TAG_LEN: usize = 16;

/// The file's magic bytes, `URLYSPL1`.
pub open spec fn magic() -> Seq<u8> {
    seq![0x55u8, 0x52u8, 0x4cu8, 0x59u8, 0x53u8, 0x50u8, 0x4cu8, 0x31u8]
}

/// Argon2id cost parameters of the spool's key derivation.
#[derive(Clone, Copy, Debug, PartialEq, Eq, Structural)]
pub struct Argon2Params {
    pub m_cost_kib: u32,
    pub t_cost: u32,
    pub p_cost: u32,
}

/// The header bytes for a salt and cost parameters.
pub open spec fn header_bytes(salt: Seq<u8>, params: Argon2Params) -> Seq<u8> {
    magic() + salt + spec_u32_to_le_bytes(params.m_cost_kib) + spec_u32_to_le_bytes(params.t_cost)
        + spec_u32_to_le_bytes(params.p_cost)
}

/// The magic bytes, as a vector.
fn magic_bytes() -> (r: Vec<u8>)
    ensures
        r@ == magic(),
{
    let r: Vec<u8> = vec![0x55u8, 0x52u8, 0x4cu8, 0x59u8, 0x53u8, 0x50u8, 0x4cu8, 0x31u8];
    assert(r@ =~= magic());
    r
}

/// `a` followed by `b`.
fn concat(a: &[u8], b: &[u8]) -> (r: Vec<u8>)
    requires
        a@.len() + b@.len() <= usize::MAX,
    ensures
        r@ == a@ + b@,
{
    let mut r = slice_to_vec(a);
    let mut i: usize = 0;
    while i < b.len()
        invariant
            i <= b@.len(),
            r@ == a@ + b@.subrange(0, i as int),
        decreases b@.len() - i,
    {
        r.push(b[i]);
        i = i + 1;
        assert(r@ =~= a@ + b@.subrange(0, i as int));
    }
    assert(b@.subrange(0, b@.len() as int) =~= b@);
    r
}

/// The spool file's header: magic, salt, then the cost parameters.
pub fn header(salt: &[u8], params: &Argon2Params) -> (r: Vec<u8>)
    requires
        salt@.len() == SALT_SIZE,
    ensures
        r@ == header_bytes(salt@, *params),
        r@.len() == HEADER_LEN,
{
    proof {
        lemma_auto_spec_u32_to_from_le_bytes();
    }
    let m = magic_bytes();
    let h = concat(m.as_slice(), salt);
    let mb = u32_to_le_bytes(params.m_cost_kib);
    let h = concat(h.as_slice(), mb.as_slice());
    let tb = u32_to_le_bytes(params.t_cost);
    let h = concat(h.as_slice(), tb.as_slice());
    let pb = u32_to_le_bytes(params.p_cost);
    let h = concat(h.as_slice(), pb.as_slice());
    h
}

} // verus!

verus! {

/// Why a spool could not be read.
#[derive(Clone, Copy, Debug, PartialEq, Eq, Structural)]
pub enum SpoolError {
    /// The file is too short, or does not start with the magic bytes.
    BadMagic,
    /// The sealed body did not open: wrong passphrase, or a corrupted file.
    WrongPassphrase,
    /// The opened body is shorter than its length field.
    Truncated,
    /// The group length in the opened body runs past its end.
    LengthMismatch,
}

impl SpoolError {
    /// The operator-facing message for the error.
    pub open spec fn message_spec(self) -> Seq<char> {
        match self {
            SpoolError::BadMagic => "not an umbra-relay spool (bad magic)"@,
            SpoolError::WrongPassphrase => "wrong operator passphrase or corrupted spool"@,
            SpoolError::Truncated => "spool body truncated"@,
            SpoolError::LengthMismatch => "spool body length mismatch"@,
        }
    }

    /// The operator-facing message for the error.
    pub fn message(&self) -> (r: String)
        ensures
            r@ == self.message_spec(),
    {
        match self {
            SpoolError::BadMagic => "not an umbra-relay spool (bad magic)".to_string(),
            SpoolError::WrongPassphrase => "wrong operator passphrase or corrupted spool".to_string(),
            SpoolError::Truncated => "spool body truncated".to_string(),
            SpoolError::LengthMismatch => "spool body length mismatch".to_string(),
        }
    }
}

/// The salt and cost parameters that a spool's key is derived with.
pub struct SpoolHeader {
    pub salt: Vec<u8>,
    pub params: Argon2Params,
}

/// A spool file taken apart: its header, the header's bytes (the associated
/// data of the sealed body), and the sealed body.
pub struct ParsedSpool {
    pub header: SpoolHeader,
    pub aad: Vec<u8>,
    pub sealed: Vec<u8>,
}

/// The parts of a parsed spool, as plain values.
#[verifier::ext_equal]
pub struct SpoolView {
    pub salt: Seq<u8>,
    pub params: Argon2Params,
    pub aad: Seq<u8>,
    pub sealed: Seq<u8>,
}

impl View for ParsedSpool {
    type V = SpoolView;

    open spec fn view(&self) -> SpoolView {
        SpoolView {
            salt: self.header.salt@,
            params: self.header.params,
            aad: self.aad@,
            sealed: self.sealed@,
        }
    }
}

/// The cost parameters stored at bytes 24..36 of a spool.
pub open spec fn params_at(data: Seq<u8>) -> Argon2Params {
    Argon2Params {
        m_cost_kib: spec_u32_from_le_bytes(data.subrange(24, 28)),
        t_cost: spec_u32_from_le_bytes(data.subrange(28, 32)),
        p_cost: spec_u32_from_le_bytes(data.subrange(32, 36)),
    }
}

/// What reading a spool's bytes gives: `BadMagic` unless the file holds a
/// header and a tag at least and starts with the magic bytes; otherwise the
/// salt, the parameters, the header's bytes and the sealed body.
pub open spec fn parse_spool_spec(data: Seq<u8>) -> Result<SpoolView, SpoolError> {
    if data.len() < HEADER_LEN + TAG_LEN || data.subrange(0, 8) != magic() {
        Err(SpoolError::BadMagic)
    } else {
        Ok(
            SpoolView {
                salt: data.subrange(8, 24),
                params: params_at(data),
                aad: data.subrange(0, HEADER_LEN as int),
                sealed: data.subrange(HEADER_LEN as int, data.len() as int),
            },
        )
    }
}

/// A parse result, by views.
pub open spec fn parsed_view(r: Result<ParsedSpool, SpoolError>) -> Result<SpoolView, SpoolError> {
    match r {
        Ok(p) => Ok(p.view()),
        Err(e) => Err(e),
    }
}

/// Whether `a` and `b` hold the same bytes.
fn bytes_eq(a: &[u8], b: &[u8]) -> (r: bool)
    ensures
        r == (a@ == b@),
{
    if a.len() != b.len() {
        return false;
    }
    let mut i: usize = 0;
    while i < a.len()
        invariant
            a@.len() == b@.len(),
            i <= a@.len(),
            forall|j: int| 0 <= j < i ==> a@[j] == b@[j],
        decreases a@.len() - i,
    {
        if a[i] != b[i] {
            return false;
        }
        i = i + 1;
    }
    assert(a@ =~= b@);
    true
}

/// Takes a spool file apart (see `parse_spool_spec`).
pub fn parse_spool(data: &[u8]) -> (r: Result<ParsedSpool, SpoolError>)
    ensures
        parsed_view(r) == parse_spool_spec(data@),
{
    if data.len() < HEADER_LEN + TAG_LEN {
        return Err(SpoolError::BadMagic);
    }
    let m = magic_bytes();
    if !bytes_eq(slice_subrange(data, 0, 8), m.as_slice()) {
        return Err(SpoolError::BadMagic);
    }
    let salt = slice_to_vec(slice_subrange(data, 8, 24));
    let params = Argon2Params {
        m_cost_kib: u32_from_le_bytes(slice_subrange(data, 24, 28)),
        t_cost: u32_from_le_bytes(slice_subrange(data, 28, 32)),
        p_cost: u32_from_le_bytes(slice_subrange(data, 32, 36)),
    };
    let aad = slice_to_vec(slice_subrange(data, 0, HEADER_LEN));
    let sealed = slice_to_vec(slice_subrange(data, HEADER_LEN, data.len()));
    Ok(ParsedSpool { header: SpoolHeader { salt, params }, aad, sealed })
}

} // verus!

verus! {

/// The plaintext that a snapshot seals: the group snapshot's length (as a
/// `u32`, little-endian), the group snapshot, then the mailbox snapshot.
pub open spec fn plaintext_bytes(group: Seq<u8>, mailbox: Seq<u8>) -> Seq<u8> {
    spec_u32_to_le_bytes(group.len() as u32) + group + mailbox
}

/// What an opened body holds: `Truncated` when it is shorter than its
/// length field, `LengthMismatch` when the group length runs past its end,
/// otherwise the group snapshot and the mailbox snapshot (the rest).
pub open spec fn split_plaintext_spec(body: Seq<u8>) -> Result<(Seq<u8>, Seq<u8>), SpoolError> {
    if body.len() < 4 {
        Err(SpoolError::Truncated)
    } else {
        let glen = spec_u32_from_le_bytes(body.subrange(0, 4)) as int;
        if body.len() < 4 + glen {
            Err(SpoolError::LengthMismatch)
        } else {
            Ok((body.subrange(4, 4 + glen), body.subrange(4 + glen, body.len() as int)))
        }
    }
}

/// A pair of snapshots, by views.
pub open spec fn snapshots_view(r: Result<(Vec<u8>, Vec<u8>), SpoolError>) -> Result<
    (Seq<u8>, Seq<u8>),
    SpoolError,
> {
    match r {
        Ok((g, m)) => Ok((g@, m@)),
        Err(e) => Err(e),
    }
}

/// Builds the plaintext of a snapshot (see `plaintext_bytes`). The group
/// length is stored in 32 bits: a longer group snapshot has its length
/// truncated, as a `u32` cast does.
pub fn plaintext(group: &[u8], mailbox: &[u8]) -> (r: Vec<u8>)
    requires
        4 + group@.len() + mailbox@.len() <= usize::MAX,
    ensures
        r@ == plaintext_bytes(group@, mailbox@),
{
    proof {
        lemma_auto_spec_u32_to_from_le_bytes();
    }
    let len = u32_to_le_bytes(group.len() as u32);
    let p = concat(len.as_slice(), group);
    let p = concat(p.as_slice(), mailbox);
    p
}

/// Splits an opened body into the group and mailbox snapshots (see
/// `split_plaintext_spec`).
pub fn split_plaintext(body: &[u8]) -> (r: Result<(Vec<u8>, Vec<u8>), SpoolError>)
    ensures
        snapshots_view(r) == split_plaintext_spec(body@),
{
    if body.len() < 4 {
        return Err(SpoolError::Truncated);
    }
    let glen = u32_from_le_bytes(slice_subrange(body, 0, 4));
    if body.len() - 4 < glen as usize {
        return Err(SpoolError::LengthMismatch);
    }
    let end = 4 + glen as usize;
    let group = slice_to_vec(slice_subrange(body, 4, end));
    let mailbox = slice_to_vec(slice_subrange(body, end, body.len()));
    Ok((group, mailbox))
}

/// What opening a spool gives once its sealed body has been through the
/// AEAD: `WrongPassphrase` when it did not open (`None`), otherwise the
/// snapshots that the opened body holds.
pub open spec fn open_spec(opened: Option<Seq<u8>>) -> Result<(Seq<u8>, Seq<u8>), SpoolError> {
    match opened {
        None => Err(SpoolError::WrongPassphrase),
        Some(body) => split_plaintext_spec(body),
    }
}

/// Finishes opening a spool from what the AEAD gave for its sealed body:
/// `None` when it refused to open it, the opened body otherwise.
pub fn open_snapshots(opened: Option<Vec<u8>>) -> (r: Result<(Vec<u8>, Vec<u8>), SpoolError>)
    ensures
        snapshots_view(r) == open_spec(
            match opened {
                Some(b) => Some(b@),
                None => None,
            },
        ),
{
    match opened {
        None => Err(SpoolError::WrongPassphrase),
        Some(body) => split_plaintext(body.as_slice()),
    }
}

/// The bytes of a spool file: its header, then the sealed body.
pub fn spool_file(head: &[u8], sealed: &[u8]) -> (r: Vec<u8>)
    requires
        head@.len() + sealed@.len() <= usize::MAX,
    ensures
        r@ == head@ + sealed@,
{
    concat(head, sealed)
}

} // verus!

verus! {

/// Opening gives back the snapshots that a snapshot's plaintext was built
/// from, when the sealed body opens to that plaintext and the group
/// snapshot's length fits in 32 bits.
pub proof fn lemma_open_reads_back_snapshot(group: Seq<u8>, mailbox: Seq<u8>)
    requires
        group.len() <= u32::MAX,
    ensures
        open_spec(Some(plaintext_bytes(group, mailbox))) == Ok::<(Seq<u8>, Seq<u8>), SpoolError>(
            (group, mailbox),
        ),
{
    lemma_auto_spec_u32_to_from_le_bytes();
    let body = plaintext_bytes(group, mailbox);
    let len_bytes = spec_u32_to_le_bytes(group.len() as u32);
    assert(body.subrange(0, 4) =~= len_bytes);
    assert(body.subrange(4, 4 + group.len() as int) =~= group);
    assert(body.subrange(4 + group.len() as int, body.len() as int) =~= mailbox);
}

/// Reading a spool file gives back the salt and parameters its header was
/// built from, that header's bytes as the associated data, and the sealed
/// body that follows the header, whenever the sealed body holds a tag.
pub proof fn lemma_read_back_spool_file(salt: Seq<u8>, params: Argon2Params, sealed: Seq<u8>)
    requires
        salt.len() == SALT_SIZE,
        sealed.len() >= TAG_LEN,
    ensures
        parse_spool_spec(header_bytes(salt, params) + sealed) == Ok::<SpoolView, SpoolError>(
            SpoolView { salt, params, aad: header_bytes(salt, params), sealed },
        ),
{
    lemma_auto_spec_u32_to_from_le_bytes();
    let h = header_bytes(salt, params);
    let data = h + sealed;
    assert(data.subrange(0, 8) =~= magic());
    assert(data.subrange(8, 24) =~= salt);
    assert(data.subrange(24, 28) =~= spec_u32_to_le_bytes(params.m_cost_kib));
    assert(data.subrange(28, 32) =~= spec_u32_to_le_bytes(params.t_cost));
    assert(data.subrange(32, 36) =~= spec_u32_to_le_bytes(params.p_cost));
    assert(data.subrange(0, HEADER_LEN as int) =~= h);
    assert(data.subrange(HEADER_LEN as int, data.len() as int) =~= sealed);
}

/// The associated data that reading a spool uses is the header built from
/// the salt and parameters read: the bytes that sealing authenticated.
pub proof fn lemma_read_aad_is_header(data: Seq<u8>)
    requires
        parse_spool_spec(data) is Ok,
    ensures
        ({
            let v = parse_spool_spec(data)->Ok_0;
            v.aad == header_bytes(v.salt, v.params)
        }),
{
    lemma_auto_spec_u32_to_from_le_bytes();
    let v = parse_spool_spec(data)->Ok_0;
    assert(data.subrange(24, 28).len() == 4);
    assert(data.subrange(28, 32).len() == 4);
    assert(data.subrange(32, 36).len() == 4);
    assert(v.aad =~= data.subrange(0, 8) + data.subrange(8, 24) + data.subrange(24, 28)
        + data.subrange(28, 32) + data.subrange(32, 36));
}

} // verus!
