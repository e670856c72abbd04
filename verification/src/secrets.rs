//! Secrets: making them, comparing them, keeping them out of sight.
use vstd::prelude::*;
use base64::Engine;
use sha2::Digest;
use rand::RngCore;
use subtle::ConstantTimeEq;
use crate::text;

verus! {

/// The bytes of a text in UTF-8.
pub open spec fn bytes_of(s: Seq<char>) -> Seq<u8> {
    vstd::utf8::encode_utf8(s)
}

// ---------------------------------------------------------------------------------------------
// Digests and encodings
// ---------------------------------------------------------------------------------------------
/// The SHA-256 digest of some bytes.
pub uninterp spec fn sha256_of(data: Seq<u8>) -> Seq<u8>;

/// `sha2::Sha256::digest` gives the digest of the bytes: 32 bytes that depend on them alone.
#[verifier::external_body]
pub(crate) fn sha256(data: &Vec<u8>) -> (r: Vec<u8>)
    ensures
        r@ == sha256_of(data@),
        r@.len() == 32,
{
    sha2::Sha256::digest(data).to_vec()
}

/// The base64 form of some bytes, with padding.
pub uninterp spec fn base64_of(data: Seq<u8>) -> Seq<char>;

/// `base64::engine::general_purpose::STANDARD.encode` gives the padded base64 form of the bytes,
/// which depends on them alone. The bound keeps the length of the text within what a string holds.
#[verifier::external_body]
pub(crate) fn base64_standard(data: &Vec<u8>) -> (r: String)
    requires
        data@.len() <= 1_000_000_000,
    ensures
        r@ == base64_of(data@),
{
    base64::engine::general_purpose::STANDARD.encode(data)
}

/// The base64 form of some bytes in the alphabet that is safe in addresses, without padding.
pub uninterp spec fn base64_url_of(data: Seq<u8>) -> Seq<char>;

/// Whether a character belongs to the base64 alphabet that is safe in addresses.
pub open spec fn is_url_safe(c: char) -> bool {
    'A' <= c <= 'Z' || 'a' <= c <= 'z' || '0' <= c <= '9' || c == '-' || c == '_'
}

/// `base64::engine::general_purpose::URL_SAFE_NO_PAD.encode` gives the base64 form of the bytes
/// without padding. It depends on them alone, has four characters for every three bytes, the rest
/// rounded up, and uses the alphabet that is safe in addresses. The bound keeps the length of the
/// text within what a string holds.
#[verifier::external_body]
fn base64_url(data: &Vec<u8>) -> (r: String)
    requires
        data@.len() <= 1_000_000_000,
    ensures
        r@ == base64_url_of(data@),
        r@.len() == (4 * data@.len() + 2) / 3,
        forall|i: int| 0 <= i < r@.len() ==> is_url_safe(#[trigger] r@[i]),
{
    base64::engine::general_purpose::URL_SAFE_NO_PAD.encode(data)
}

/// `rand::rng` and `RngCore::fill_bytes` fill a buffer with random bytes. Nothing but their number
/// is known. The bound keeps the buffer within what memory can be asked for.
#[verifier::external_body]
fn random_bytes(n: usize) -> (r: Vec<u8>)
    requires
        n <= 1_000_000_000,
    ensures
        r@.len() == n,
{
    let mut buf = vec![0u8; n];
    rand::rng().fill_bytes(&mut buf);
    buf
}

/// A secret made of the given bytes.
pub fn secret_of(bytes: &Vec<u8>) -> (r: String)
    requires
        bytes@.len() <= 1_000_000_000,
    ensures
        r@ == base64_url_of(bytes@),
        r@.len() == (4 * bytes@.len() + 2) / 3,
        forall|i: int| 0 <= i < r@.len() ==> is_url_safe(#[trigger] r@[i]),
{
    base64_url(bytes)
}

/// A random secret of so many bytes, as text that is safe in addresses and headers.
pub fn random_secret_b64(bytes: usize) -> (r: String)
    requires
        bytes <= 1_000_000_000,
    ensures
        exists|b: Seq<u8>| b.len() == bytes && r@ == base64_url_of(b),
        r@.len() == (4 * bytes + 2) / 3,
        forall|i: int| 0 <= i < r@.len() ==> is_url_safe(#[trigger] r@[i]),
{
    let buf = random_bytes(bytes);
    let r = secret_of(&buf);
    assert(buf@.len() == bytes && r@ == base64_url_of(buf@));
    r
}

// ---------------------------------------------------------------------------------------------
// Comparing
// ---------------------------------------------------------------------------------------------
/// `subtle::ConstantTimeEq::ct_eq` on byte slices tells whether they hold the same bytes.
#[verifier::external_body]
fn same_bytes(a: &[u8], b: &[u8]) -> (r: bool)
    ensures
        r == (a@ == b@),
{
    a.ct_eq(b).into()
}

/// Whether two secrets are the same. An ordinary comparison stops at the first difference and so
/// would let a token be guessed from the time it takes.
pub fn secret_eq(a: &str, b: &str) -> (r: bool)
    ensures
        r == (a@ == b@),
{
    proof {
        vstd::utf8::encode_utf8_decode_utf8(a@);
        vstd::utf8::encode_utf8_decode_utf8(b@);
    }
    same_bytes(a.as_bytes(), b.as_bytes())
}

// ---------------------------------------------------------------------------------------------
// Keeping out of sight
// ---------------------------------------------------------------------------------------------
/// What may be shown of a secret: its first and last four characters, or nothing of a short one.
pub open spec fn redacted(s: Seq<char>) -> Seq<char> {
    if s.len() <= 8 {
        "***"@
    } else {
        s.take(4) + "..."@ + s.skip(s.len() - 4)
    }
}

/// What may be shown of a secret.
pub fn redact(s: &str) -> (r: String)
    ensures
        r@ == redacted(s@),
{
    let cs = text::chars_of(s);
    if cs.len() <= 8 {
        return "***".to_owned();
    }
    let n: usize = cs.len();
    let head = text::text_between(&cs, 0, 4);
    let tail = text::text_between(&cs, n - 4, n);
    proof {
        assert(s@.subrange(0, 4) =~= s@.take(4));
        assert(s@.subrange(n - 4, n as int) =~= s@.skip(n - 4));
    }
    text::join3(head.as_str(), "...", tail.as_str())
}

/// Nothing of the middle of a secret leaks, nor how long it is: two long secrets that agree in their
/// first and last four characters look the same, and so do any two short ones.
pub proof fn law_redaction_hides_the_middle(a: Seq<char>, b: Seq<char>)
    requires
        a.len() > 8 <==> b.len() > 8,
        a.len() > 8 ==> a.take(4) == b.take(4) && a.skip(a.len() - 4) == b.skip(b.len() - 4),
    ensures
        redacted(a) == redacted(b),
        redacted(a).len() <= 11,
{
    reveal_strlit("***");
    reveal_strlit("...");
}

// ---------------------------------------------------------------------------------------------
// Addresses
// ---------------------------------------------------------------------------------------------
/// A hexadecimal digit, in capitals.
pub open spec fn hex_capital(d: int) -> char {
    if d < 10 {
        (d + 48) as char
    } else {
        (d + 55) as char
    }
}

/// Whether a byte stands for itself in a query of an address.
pub open spec fn is_unreserved(b: u8) -> bool {
    ||| 48 <= b <= 57
    ||| 65 <= b <= 90
    ||| 97 <= b <= 122
    ||| b == 45
    ||| b == 46
    ||| b == 95
    ||| b == 126
}

/// Bytes written for a query of an address: unreserved ones as they are, any other as a percent
/// sign and two hexadecimal digits.
pub open spec fn percent_encoded(bytes: Seq<u8>) -> Seq<char>
    decreases bytes.len(),
{
    if bytes.len() == 0 {
        Seq::empty()
    } else {
        let b = bytes.last();
        percent_encoded(bytes.drop_last()) + if is_unreserved(b) {
            seq![b as char]
        } else {
            seq!['%', hex_capital(b as int / 16), hex_capital(b as int % 16)]
        }
    }
}

/// `urlencoding::encode` writes the UTF-8 bytes of the text for a query of an address: letters,
/// digits, `-`, `_`, `.` and `~` as they are, any other byte as a percent sign and two capital
/// hexadecimal digits.
#[verifier::external_body]
pub(crate) fn url_encode(s: &str) -> (r: String)
    ensures
        r@ == percent_encoded(bytes_of(s@)),
{
    urlencoding::encode(s).into_owned()
}

// ---------------------------------------------------------------------------------------------
// The store of secrets
// ---------------------------------------------------------------------------------------------
/// Seals bytes for the store. Only Windows has a key store to seal them with; elsewhere they are
/// kept as they are.
pub fn protect(data: &[u8]) -> (r: Result<Vec<u8>, String>)
    ensures
        r is Ok,
        r->Ok_0@ == data@,
{
    Ok(copy_bytes(data))
}

/// Opens bytes of the store, undoing [`protect`].
pub fn unprotect(data: &[u8]) -> (r: Result<Vec<u8>, String>)
    ensures
        r is Ok,
        r->Ok_0@ == data@,
{
    Ok(copy_bytes(data))
}

fn copy_bytes(data: &[u8]) -> (r: Vec<u8>)
    ensures
        r@ == data@,
{
    let mut out: Vec<u8> = Vec::new();
    let mut i: usize = 0;
    while i < data.len()
        invariant
            i <= data.len(),
            out@ == data@.take(i as int),
        decreases data.len() - i,
    {
        out.push(data[i]);
        i = i + 1;
    }
    assert(data@.take(i as int) =~= data@);
    out
}

/// A stored secret counts only if it is not blank.
pub open spec fn meaningful(stored: Option<Seq<char>>) -> Option<Seq<char>> {
    match stored {
        Some(v) => if text::trimmed(v).len() > 0 {
            Some(v)
        } else {
            None
        },
        None => None,
    }
}

/// The stored secret, unless it is blank.
pub fn secret_string(stored: Option<String>) -> (r: Option<String>)
    ensures
        text::opt_view(r) == meaningful(text::opt_view(stored)),
{
    match stored {
        Some(v) => if text::is_blank(v.as_str()) {
            None
        } else {
            Some(v)
        },
        None => None,
    }
}

/// The bytes of two texts one behind the other are the bytes of the first and then of the second.
pub proof fn law_bytes_of_joined_texts(a: Seq<char>, b: Seq<char>)
    ensures
        bytes_of(a + b) == bytes_of(a) + bytes_of(b),
    decreases a.len(),
{
    if a.len() == 0 {
        assert(a + b =~= b);
        assert(bytes_of(a) + bytes_of(b) =~= bytes_of(b));
    } else {
        law_bytes_of_joined_texts(a.drop_first(), b);
        assert((a + b).drop_first() =~= a.drop_first() + b);
        let first = vstd::utf8::encode_scalar(a[0] as u32);
        assert(first + (bytes_of(a.drop_first()) + bytes_of(b)) =~= (first + bytes_of(
            a.drop_first(),
        )) + bytes_of(b));
    }
}


/// A long secret shows its first four and its last four characters, a short one nothing.
pub proof fn law_redaction_shows_both_ends(s: Seq<char>)
    ensures
        s.len() <= 8 ==> redacted(s) == "***"@,
        s.len() > 8 ==> redacted(s).len() == 11 && redacted(s).take(4) == s.take(4) && redacted(
            s,
        ).skip(7) == s.skip(s.len() - 4),
{
    reveal_strlit("...");
    if s.len() > 8 {
        assert(redacted(s).take(4) =~= s.take(4));
        assert(redacted(s).skip(7) =~= s.skip(s.len() - 4));
    }
}

/// In an address letters, digits and four signs stand for themselves; any other byte is written as a
/// percent sign and its two digits in the base sixteen.
pub proof fn law_each_byte_is_encoded_by_itself(bytes: Seq<u8>, b: u8)
    ensures
        percent_encoded(Seq::empty()).len() == 0,
        ('0' as int <= b <= '9' as int || 'A' as int <= b <= 'Z' as int || 'a' as int <= b
            <= 'z' as int || b == '-' as int || b == '_' as int || b == '.' as int || b == '~' as int)
            ==> percent_encoded(bytes.push(b)) == percent_encoded(bytes).push(b as char),
        !('0' as int <= b <= '9' as int || 'A' as int <= b <= 'Z' as int || 'a' as int <= b
            <= 'z' as int || b == '-' as int || b == '_' as int || b == '.' as int || b == '~' as int)
            ==> percent_encoded(bytes.push(b)) == percent_encoded(bytes) + seq![
            '%',
            hex_capital(b as int / 16),
            hex_capital(b as int % 16),
        ],
        forall|d: int| 0 <= d < 10 ==> (#[trigger] hex_capital(d)) as int == '0' as int + d,
        forall|d: int| 10 <= d < 16 ==> (#[trigger] hex_capital(d)) as int == 'A' as int + d - 10,
{
    assert(bytes.push(b).drop_last() =~= bytes);
    assert(percent_encoded(bytes) + seq![b as char] =~= percent_encoded(bytes).push(b as char));
}

/// A stored secret counts as it is unless it is blank.
pub proof fn law_a_blank_secret_is_none(v: Seq<char>)
    ensures
        text::trimmed(v).len() > 0 ==> meaningful(Some(v)) == Some(v),
        text::trimmed(v).len() == 0 ==> meaningful(Some(v)) is None,
        meaningful(None) is None,
{
}

} // verus!
