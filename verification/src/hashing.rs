//! BLAKE3 digests, written as lowercase hexadecimal: session and setup tokens
//! are stored by their digest, and the stats sync notices changed files by it.
use vstd::prelude::*;
use vstd::utf8::encode_utf8;

verus! {

#[verifier::external_type_specification]
#[verifier::external_body]
pub struct ExBlake3Hasher(blake3::Hasher);

/// The bytes fed to a BLAKE3 hasher since it was made.
pub uninterp spec fn hasher_input(h: blake3::Hasher) -> Seq<u8>;

/// The BLAKE3 hash of `data`, in lowercase hexadecimal.
pub uninterp spec fn blake3_hex(data: Seq<u8>) -> Seq<char>;

pub open spec fn is_lower_hex_digit(c: char) -> bool {
    ('0' <= c <= '9') || ('a' <= c <= 'f')
}

/// `blake3::Hasher::new`: a hasher that has been fed nothing.
#[verifier::external_body]
fn new_hasher() -> (h: blake3::Hasher)
    ensures
        hasher_input(h) == Seq::<u8>::empty(),
{
    blake3::Hasher::new()
}

/// `blake3::Hasher::update`: feeds `data` after what the hasher already holds.
#[verifier::external_body]
fn hasher_update(h: &mut blake3::Hasher, data: &[u8])
    ensures
        hasher_input(*final(h)) == hasher_input(*old(h)) + data@,
{
    h.update(data);
}

/// `blake3::Hasher::finalize` then `Hash::to_hex`: the hash of everything fed,
/// 64 lowercase hexadecimal digits (two per byte of the 32-byte hash).
#[verifier::external_body]
fn hasher_hex(h: &blake3::Hasher) -> (s: String)
    ensures
        s@ == blake3_hex(hasher_input(*h)),
        s@.len() == 64,
        forall|i: int| 0 <= i < s@.len() ==> is_lower_hex_digit(#[trigger] s@[i]),
{
    h.finalize().to_hex().to_string()
}

/// The digest a secret is stored under: BLAKE3 of its UTF-8 bytes.
pub fn hash_secret(secret: &str) -> (r: String)
    ensures
        r@ == blake3_hex(encode_utf8(secret@)),
        r@.len() == 64,
{
    let mut h = new_hasher();
    hasher_update(&mut h, secret.as_bytes());
    assert(hasher_input(h) =~= encode_utf8(secret@));
    hasher_hex(&h)
}

/// The digest of a file's contents.
pub fn hash_contents(content: &[u8]) -> (r: String)
    ensures
        r@ == blake3_hex(content@),
        r@.len() == 64,
{
    let mut h = new_hasher();
    hasher_update(&mut h, content);
    assert(hasher_input(h) =~= content@);
    hasher_hex(&h)
}

/// The bytes of the files that could be read, in order.
pub open spec fn readable_contents(files: Seq<Option<Vec<u8>>>) -> Seq<u8>
    decreases files.len(),
{
    if files.len() == 0 {
        Seq::empty()
    } else {
        match files.last() {
            Some(bytes) => readable_contents(files.drop_last()) + bytes@,
            None => readable_contents(files.drop_last()),
        }
    }
}

/// The digest of a block of files: every readable file's bytes, in order, fed
/// to one hasher; files that could not be read are skipped.
pub fn hash_block(files: &Vec<Option<Vec<u8>>>) -> (r: String)
    ensures
        r@ == blake3_hex(readable_contents(files@)),
        r@.len() == 64,
{
    let mut h = new_hasher();
    let mut i: usize = 0;
    while i < files.len()
        invariant
            i <= files.len(),
            hasher_input(h) == readable_contents(files@.take(i as int)),
        decreases files.len() - i,
    {
        proof {
            assert(files@.take(i + 1).drop_last() =~= files@.take(i as int));
        }
        match &files[i] {
            Some(bytes) => {
                hasher_update(&mut h, bytes.as_slice());
            },
            None => {},
        }
        i = i + 1;
    }
    assert(files@.take(files.len() as int) =~= files@);
    hasher_hex(&h)
}

} // verus!
