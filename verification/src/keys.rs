//! From a key descriptor to the 16-byte key and initialization vector that
//! decrypt one segment.

use crate::crypto::BLOCK_LEN;
use crate::error::ChunkError;
use crate::text::text_of;
use crate::urls::{join_url, joined_url, parse_url, parsed_url};
use vstd::prelude::*;
use vstd::string::*;

verus! {

/// The key and the initialization vector for one segment, 16 bytes each.
#[derive(Debug)]
pub struct KeyMaterial {
    key: Vec<u8>,
    iv: Vec<u8>,
}

impl KeyMaterial {
    #[verifier::type_invariant]
    closed spec fn inv(&self) -> bool {
        self.key@.len() == 16 && self.iv@.len() == 16
    }

    /// The bytes of the key.
    pub closed spec fn key_bytes(&self) -> Seq<u8> {
        self.key@
    }

    /// The bytes of the initialization vector.
    pub closed spec fn iv_bytes(&self) -> Seq<u8> {
        self.iv@
    }

    /// The key.
    pub fn key(&self) -> (r: &[u8])
        ensures
            r@ == self.key_bytes(),
            r@.len() == 16,
    {
        proof {
            use_type_invariant(self);
        }
        self.key.as_slice()
    }

    /// The initialization vector.
    pub fn iv(&self) -> (r: &[u8])
        ensures
            r@ == self.iv_bytes(),
            r@.len() == 16,
    {
        proof {
            use_type_invariant(self);
        }
        self.iv.as_slice()
    }
}

/// `bytes` brought to 16 bytes: the first 16 of a longer sequence, a shorter
/// one followed by zeros.
pub open spec fn fitted(bytes: Seq<u8>) -> Seq<u8> {
    Seq::new(
        16,
        |i: int|
            if i < bytes.len() {
                bytes[i]
            } else {
                0u8
            },
    )
}

/// Whatever its length, a sequence is brought to exactly 16 bytes: one of 16
/// stays as it is, a longer one keeps its first 16, and a shorter one is
/// followed by as many zeros as it lacks.
pub proof fn lemma_fitted(bytes: Seq<u8>)
    ensures
        fitted(bytes).len() == 16,
        bytes.len() >= 16 ==> fitted(bytes) == bytes.subrange(0, 16),
        bytes.len() <= 16 ==> fitted(bytes) == bytes + Seq::new(
            (16 - bytes.len()) as nat,
            |i: int| 0u8,
        ),
{
    if bytes.len() >= 16 {
        assert(fitted(bytes) =~= bytes.subrange(0, 16));
    }
    if bytes.len() <= 16 {
        assert(fitted(bytes) =~= bytes + Seq::new((16 - bytes.len()) as nat, |i: int| 0u8));
    }
}

/// Brings key or vector bytes to exactly 16 bytes, cutting what is beyond
/// them and filling what is missing with zeros.
pub fn fit_block(bytes: Vec<u8>) -> (r: Vec<u8>)
    ensures
        r@ == fitted(bytes@),
        r@.len() == 16,
{
    let mut r = bytes;
    if r.len() > BLOCK_LEN {
        r.truncate(BLOCK_LEN);
    }
    while r.len() < BLOCK_LEN
        invariant
            r@.len() <= 16,
            r@.len() >= bytes@.len() || r@.len() == 16,
            forall|i: int| 0 <= i < r@.len() ==> r@[i] == fitted(bytes@)[i],
        decreases 16 - r@.len(),
    {
        r.push(0u8);
    }
    assert(r@ =~= fitted(bytes@));
    r
}

/// The `width` low-order bytes of `n`, most significant first.
pub open spec fn be_bytes(n: nat, width: nat) -> Seq<u8>
    decreases width,
{
    if width == 0 {
        Seq::empty()
    } else {
        be_bytes(n / 256, (width - 1) as nat).push((n % 256) as u8)
    }
}

fn be_bytes_of(n: usize, width: usize) -> (r: Vec<u8>)
    ensures
        r@ == be_bytes(n as nat, width as nat),
    decreases width,
{
    if width == 0 {
        Vec::new()
    } else {
        let mut r = be_bytes_of(n / 256, width - 1);
        r.push((n % 256) as u8);
        r
    }
}

/// A big-endian sequence of bytes is as long as its width.
pub proof fn lemma_be_bytes_len(n: nat, width: nat)
    ensures
        be_bytes(n, width).len() == width,
    decreases width,
{
    if width > 0 {
        lemma_be_bytes_len(n / 256, (width - 1) as nat);
    }
}

/// The number that `bytes` spell, most significant byte first.
pub open spec fn be_value(bytes: Seq<u8>) -> nat
    decreases bytes.len(),
{
    if bytes.len() == 0 {
        0
    } else {
        256 * be_value(bytes.drop_last()) + bytes.last() as nat
    }
}

/// The numbers that `width` bytes can spell are those below `capacity(width)`.
pub open spec fn capacity(width: nat) -> nat
    decreases width,
{
    if width == 0 {
        1
    } else {
        256 * capacity((width - 1) as nat)
    }
}

/// The bytes of a number that fits spell that number.
pub proof fn lemma_be_bytes_spell(n: nat, width: nat)
    requires
        n < capacity(width),
    ensures
        be_value(be_bytes(n, width)) == n,
    decreases width,
{
    if width > 0 {
        let high = be_bytes(n / 256, (width - 1) as nat);
        lemma_be_bytes_spell(n / 256, (width - 1) as nat);
        assert(be_bytes(n, width).drop_last() =~= high);
        assert(be_bytes(n, width).last() == (n % 256) as u8);
    }
}

/// Every index has room in 16 bytes: the default vector, read as a number,
/// is the index.
pub proof fn lemma_default_iv_spells_index(index: usize)
    ensures
        be_value(be_bytes(index as nat, 16)) == index,
{
    reveal_with_fuel(capacity, 17);
    lemma_be_bytes_spell(index as nat, 16);
}

/// The initialization vector of a segment that names none: its index as a
/// 16-byte big-endian number.
pub fn default_iv(index: usize) -> (r: Vec<u8>)
    ensures
        r@ == be_bytes(index as nat, 16),
        r@.len() == 16,
{
    proof {
        lemma_be_bytes_len(index as nat, 16);
    }
    be_bytes_of(index, BLOCK_LEN)
}

/// The value of a hexadecimal digit, in either case.
pub open spec fn hex_digit(c: char) -> Option<u8> {
    if '0' <= c && c <= '9' {
        Some((c as int - '0' as int) as u8)
    } else if 'a' <= c && c <= 'f' {
        Some((c as int - 'a' as int + 10) as u8)
    } else if 'A' <= c && c <= 'F' {
        Some((c as int - 'A' as int + 10) as u8)
    } else {
        None
    }
}

/// The bytes that `text` spells in hexadecimal, two digits to the byte;
/// `None` where a character is no digit or a digit is left over.
pub open spec fn hex_decoded(text: Seq<char>) -> Option<Seq<u8>> {
    if text.len() % 2 == 0 && forall|i: int| 0 <= i < text.len() ==> hex_digit(text[i]) is Some {
        Some(
            Seq::new(
                text.len() / 2,
                |i: int| (hex_digit(text[2 * i])->0 * 16 + hex_digit(text[2 * i + 1])->0) as u8,
            ),
        )
    } else {
        None
    }
}

/// The bytes of an optional vector.
pub open spec fn bytes_of(v: Option<Vec<u8>>) -> Option<Seq<u8>> {
    match v {
        Some(b) => Some(b@),
        None => None,
    }
}

/// Calls `hex::decode`: an even number of hexadecimal digits, upper or lower
/// case, gives the bytes they spell; anything else is an error there and
/// `None` here.
#[verifier::external_body]
fn hex_decode(text: &str) -> (r: Option<Vec<u8>>)
    ensures
        bytes_of(r) == hex_decoded(text@),
{
    hex::decode(text).ok()
}

/// `text` without one leading `0x`, if it has one.
pub open spec fn without_0x(text: Seq<char>) -> Seq<char> {
    if text.len() >= 2 && text[0] == '0' && text[1] == 'x' {
        text.subrange(2, text.len() as int)
    } else {
        text
    }
}

fn strip_0x(text: &str) -> (r: &str)
    ensures
        r@ == without_0x(text@),
{
    let n = text.unicode_len();
    if n >= 2 && text.get_char(0) == '0' && text.get_char(1) == 'x' {
        text.substring_char(2, n)
    } else {
        text
    }
}

/// The initialization vector for the segment at `index`: the hexadecimal
/// vector that the descriptor gives, brought to 16 bytes, or the index as a
/// 16-byte number where it gives none. `None` where the given vector is not
/// hexadecimal.
pub open spec fn iv_for(iv: Option<Seq<char>>, index: nat) -> Option<Seq<u8>> {
    match iv {
        Some(text) => match hex_decoded(without_0x(text)) {
            Some(bytes) => Some(fitted(bytes)),
            None => None,
        },
        None => Some(be_bytes(index, 16)),
    }
}

/// Derives the initialization vector for the segment at `index`.
pub fn resolve_iv(iv: &Option<String>, index: usize) -> (r: Result<Vec<u8>, ChunkError>)
    ensures
        match r {
            Ok(bytes) => iv_for(text_of(*iv), index as nat) == Some(bytes@) && bytes@.len() == 16,
            Err(e) => e == ChunkError::IvDecode && iv_for(text_of(*iv), index as nat) is None,
        },
{
    match iv {
        Some(text) => match hex_decode(strip_0x(text.as_str())) {
            Some(bytes) => Ok(fit_block(bytes)),
            None => Err(ChunkError::IvDecode),
        },
        None => Ok(default_iv(index)),
    }
}

/// Makes the key material for the segment at `index` from the key bytes that
/// were fetched and the vector that the descriptor gives.
pub fn key_material(key_bytes: Vec<u8>, iv: &Option<String>, index: usize) -> (r: Result<
    KeyMaterial,
    ChunkError,
>)
    ensures
        match r {
            Ok(m) => m.key_bytes() == fitted(key_bytes@) && iv_for(text_of(*iv), index as nat)
                == Some(m.iv_bytes()),
            Err(e) => e == ChunkError::IvDecode && iv_for(text_of(*iv), index as nat) is None,
        },
{
    let key = fit_block(key_bytes);
    match resolve_iv(iv, index) {
        Ok(iv) => Ok(KeyMaterial { key, iv }),
        Err(e) => Err(e),
    }
}

/// Where the key is fetched from: the descriptor's URI where that is an
/// absolute URL, else the URI resolved against the base URL.
pub open spec fn key_url_for(base_url: Seq<char>, uri: Seq<char>) -> Option<Seq<char>> {
    match parsed_url(uri) {
        Some(absolute) => Some(absolute),
        None => joined_url(base_url, uri),
    }
}

/// Resolves the key's URI to the URL that the key is fetched from.
pub fn key_url(base_url: &str, uri: &str) -> (r: Result<String, ChunkError>)
    ensures
        match r {
            Ok(url) => key_url_for(base_url@, uri@) == Some(url@),
            Err(e) => e == ChunkError::KeyUri && key_url_for(base_url@, uri@) is None,
        },
{
    match parse_url(uri) {
        Some(absolute) => Ok(absolute),
        None => match join_url(base_url, uri) {
            Some(resolved) => Ok(resolved),
            None => Err(ChunkError::KeyUri),
        },
    }
}

} // verus!
