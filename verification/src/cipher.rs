//! The streaming cipher stage: AES-128 in counter mode with a 64-bit
//! little-endian counter, applied to the plaintext of a chunk group by group.

use vstd::prelude::*;
use aes::cipher::{KeyIvInit, StreamCipher, StreamCipherSeek};

verus! {

/// How many pieces of plaintext go into one piece of ciphertext.
pub const CIPHER_BATCH: usize = 16;

/// The byte at `position` of the keystream that AES-128 in counter mode
/// (64-bit little-endian counter) produces for `key` and `iv`.
pub uninterp spec fn aes128_ctr64le_keystream(key: Seq<u8>, iv: Seq<u8>, position: nat) -> u8;

/// `data` combined byte by byte with the keystream that starts at `offset`.
pub open spec fn keystream_xor(key: Seq<u8>, iv: Seq<u8>, offset: nat, data: Seq<u8>) -> Seq<u8> {
    Seq::new(
        data.len(),
        |i: int| data[i] ^ aes128_ctr64le_keystream(key, iv, (offset + i) as nat),
    )
}

/// Calls `ctr::Ctr64LE::<aes::Aes128>`: makes the cipher for `key` and `iv`,
/// seeks to byte `offset` of its keystream and applies the keystream to `data`.
/// The claim: the output is as long as the input, and each of its bytes is the
/// input byte xor the keystream byte at that byte's position in the stream.
#[verifier::external_body]
fn apply_keystream_at(key: &[u8; 16], iv: &[u8; 16], offset: u64, data: Vec<u8>) -> (out: Vec<u8>)
    ensures
        out@.len() == data@.len(),
        forall|i: int|
            0 <= i < data@.len() ==> #[trigger] out@[i] == data@[i] ^ aes128_ctr64le_keystream(
                key@,
                iv@,
                (offset + i) as nat,
            ),
{
    let mut cipher = ctr::Ctr64LE::<aes::Aes128>::new(key.into(), iv.into());
    cipher.seek(offset);
    let mut out = data;
    cipher.apply_keystream(&mut out);
    out
}

/// The bytes of `pieces`, end to end.
pub open spec fn joined(pieces: Seq<Vec<u8>>) -> Seq<u8>
    decreases pieces.len(),
{
    if pieces.len() == 0 {
        Seq::empty()
    } else {
        joined(pieces.drop_last()) + pieces.last()@
    }
}

/// Adding one piece to a prefix appends its bytes.
pub proof fn lemma_joined_step(pieces: Seq<Vec<u8>>, i: int)
    requires
        0 <= i < pieces.len(),
    ensures
        joined(pieces.take(i + 1)) == joined(pieces.take(i)) + pieces[i]@,
{
    assert(pieces.take(i + 1).drop_last() =~= pieces.take(i));
}

/// Joins `pieces` end to end.
pub fn join_pieces(pieces: &Vec<Vec<u8>>) -> (bytes: Vec<u8>)
    ensures
        bytes@ == joined(pieces@),
{
    let mut bytes: Vec<u8> = Vec::new();
    let mut i: usize = 0;
    while i < pieces.len()
        invariant
            i <= pieces.len(),
            bytes@ == joined(pieces@.take(i as int)),
        decreases pieces.len() - i,
    {
        let ghost before = bytes@;
        bytes.extend_from_slice(pieces[i].as_slice());
        proof {
            lemma_joined_step(pieces@, i as int);
            assert(bytes@ =~= before + pieces@[i as int]@);
        }
        i += 1;
    }
    proof {
        assert(pieces@.take(i as int) =~= pieces@);
    }
    bytes
}

/// Encrypts (or, applied again, decrypts) a whole chunk at once.
pub fn encrypt_chunk(key: &[u8; 16], iv: &[u8; 16], plaintext: Vec<u8>) -> (ciphertext: Vec<u8>)
    ensures
        ciphertext@ == keystream_xor(key@, iv@, 0, plaintext@),
{
    let ciphertext = apply_keystream_at(key, iv, 0, plaintext);
    proof {
        assert(ciphertext@ =~= keystream_xor(key@, iv@, 0, plaintext@));
    }
    ciphertext
}

/// The cipher of one response body: the key and IV it was made with, and how
/// many bytes it has emitted so far. One stage serves one chunk.
pub struct CipherStage {
    key: [u8; 16],
    iv: [u8; 16],
    position: u64,
}

/// What a `CipherStage` stands for in contracts.
pub struct CipherStageView {
    pub key: Seq<u8>,
    pub iv: Seq<u8>,
    pub position: nat,
}

impl View for CipherStage {
    type V = CipherStageView;

    closed spec fn view(&self) -> CipherStageView {
        CipherStageView { key: self.key@, iv: self.iv@, position: self.position as nat }
    }
}

impl CipherStage {
    /// A stage at the start of the keystream for `key` and `iv`.
    pub fn new(key: [u8; 16], iv: [u8; 16]) -> (stage: CipherStage)
        ensures
            stage@ == (CipherStageView { key: key@, iv: iv@, position: 0 }),
    {
        CipherStage { key, iv, position: 0 }
    }

    /// How many bytes the stage has emitted.
    pub fn position(&self) -> (position: u64)
        ensures
            position == self@.position,
    {
        self.position
    }

    /// Joins one group of plaintext pieces and encrypts it at the stage's
    /// position, which advances by the bytes emitted. `None`, with the stage
    /// unchanged, when the position would pass `u64::MAX`.
    pub fn encrypt_group(&mut self, pieces: &Vec<Vec<u8>>) -> (emitted: Option<Vec<u8>>)
        ensures
            emitted is Some == (old(self)@.position + joined(pieces@).len() <= u64::MAX),
            emitted matches Some(bytes) ==> {
                &&& bytes@ == keystream_xor(
                    old(self)@.key,
                    old(self)@.iv,
                    old(self)@.position,
                    joined(pieces@),
                )
                &&& final(self)@ == (CipherStageView {
                    position: old(self)@.position + joined(pieces@).len(),
                    ..old(self)@
                })
            },
            emitted is None ==> final(self)@ == old(self)@,
    {
        let plaintext = join_pieces(pieces);
        let length: usize = plaintext.len();
        if length as u64 > u64::MAX - self.position {
            return None;
        }
        let bytes = apply_keystream_at(&self.key, &self.iv, self.position, plaintext);
        proof {
            assert(bytes@ =~= keystream_xor(
                self.key@,
                self.iv@,
                self.position as nat,
                joined(pieces@),
            ));
        }
        self.position = self.position + length as u64;
        Some(bytes)
    }
}

/// What a stage emits for a run of groups, one after the other, from `offset` on.
pub open spec fn stream_encrypt(key: Seq<u8>, iv: Seq<u8>, offset: nat, groups: Seq<Seq<u8>>) -> Seq<u8>
    decreases groups.len(),
{
    if groups.len() == 0 {
        Seq::empty()
    } else {
        let head = stream_encrypt(key, iv, offset, groups.drop_last());
        head + keystream_xor(key, iv, offset + head.len(), groups.last())
    }
}

/// The cipher stage preserves length: as many bytes leave as enter.
pub proof fn law_cipher_preserves_length(key: Seq<u8>, iv: Seq<u8>, offset: nat, data: Seq<u8>)
    ensures
        keystream_xor(key, iv, offset, data).len() == data.len(),
{
}

/// Encrypting two runs one after the other gives what encrypting their
/// concatenation gives.
pub proof fn law_cipher_splits(key: Seq<u8>, iv: Seq<u8>, offset: nat, first: Seq<u8>, second: Seq<u8>)
    ensures
        keystream_xor(key, iv, offset, first + second) == keystream_xor(key, iv, offset, first)
            + keystream_xor(key, iv, offset + first.len(), second),
{
    assert(keystream_xor(key, iv, offset, first + second) =~= keystream_xor(key, iv, offset, first)
        + keystream_xor(key, iv, offset + first.len(), second));
}

/// Applying the keystream twice at one offset gives the data back, so
/// decrypting a body yields the plaintext it was made from.
pub proof fn law_cipher_inverts(key: Seq<u8>, iv: Seq<u8>, offset: nat, data: Seq<u8>)
    ensures
        keystream_xor(key, iv, offset, keystream_xor(key, iv, offset, data)) == data,
{
    let once = keystream_xor(key, iv, offset, data);
    let twice = keystream_xor(key, iv, offset, once);
    assert forall|i: int| 0 <= i < data.len() implies twice[i] == data[i] by {
        let d = data[i];
        let k = aes128_ctr64le_keystream(key, iv, (offset + i) as nat);
        assert((d ^ k) ^ k == d) by (bit_vector);
    }
    assert(twice =~= data);
}

/// However the plaintext is cut into groups, the stream of ciphertext is the
/// offline encryption of the whole plaintext.
pub proof fn law_streaming_equals_offline(key: Seq<u8>, iv: Seq<u8>, offset: nat, groups: Seq<Seq<u8>>)
    ensures
        stream_encrypt(key, iv, offset, groups) == keystream_xor(key, iv, offset, groups.flatten()),
    decreases groups.len(),
{
    if groups.len() == 0 {
        assert(groups.flatten() =~= Seq::<u8>::empty());
        assert(keystream_xor(key, iv, offset, Seq::<u8>::empty()) =~= Seq::<u8>::empty());
    } else {
        let front = groups.drop_last();
        law_streaming_equals_offline(key, iv, offset, front);
        assert(groups =~= front.push(groups.last()));
        front.lemma_flatten_push(groups.last());
        law_cipher_splits(key, iv, offset, front.flatten(), groups.last());
    }
}

} // verus!
