//! Installers of other programs, in fixed versions.
//!
//! An installer runs as a program with the rights of the user. So none is run whose digest is not
//! the one that was written down: a mismatch is a refusal, not a warning.
use vstd::prelude::*;
use crate::secrets;
use crate::text;

verus! {

/// An installer as the manifest lists it.
#[derive(Debug, Clone)]
pub struct InstallerEntry {
    pub file: String,
    pub version: String,
    pub url: String,
    pub sha256: String,
}

/// The installers in fixed versions.
#[derive(Debug, Clone)]
pub struct InstallerManifest {
    pub tailscale: InstallerEntry,
    pub obs: InstallerEntry,
}

/// A hexadecimal digit, in lower case.
pub open spec fn hex_digit(d: int) -> char {
    if d < 10 {
        (48 + d) as char
    } else {
        (87 + d) as char
    }
}

/// Bytes in hexadecimal form, in lower case.
pub open spec fn hex(bytes: Seq<u8>) -> Seq<char>
    decreases bytes.len(),
{
    if bytes.len() == 0 {
        Seq::empty()
    } else {
        hex(bytes.drop_last()) + seq![
            hex_digit(bytes.last() as int / 16),
            hex_digit(bytes.last() as int % 16),
        ]
    }
}

fn digit_of(d: u8) -> (r: char)
    requires
        d < 16,
    ensures
        r == hex_digit(d as int),
{
    if d < 10 {
        (48 + d) as char
    } else {
        (87 + d) as char
    }
}

/// Bytes in hexadecimal form, in lower case.
pub fn to_hex(bytes: &Vec<u8>) -> (r: String)
    ensures
        r@ == hex(bytes@),
{
    let mut out = String::new();
    let mut i: usize = 0;
    while i < bytes.len()
        invariant
            i <= bytes@.len(),
            out@ == hex(bytes@.take(i as int)),
        decreases bytes.len() - i,
    {
        assert(bytes@.take(i + 1).drop_last() =~= bytes@.take(i as int));
        let ghost before = out@;
        out.push(digit_of(bytes[i] / 16));
        out.push(digit_of(bytes[i] % 16));
        assert(out@ =~= before + seq![
            hex_digit(bytes@[i as int] as int / 16),
            hex_digit(bytes@[i as int] as int % 16),
        ]);
        i = i + 1;
    }
    assert(bytes@.take(i as int) =~= bytes@);
    out
}

/// The digest of the content of a file, in hexadecimal form.
pub fn sha256_file(content: &Vec<u8>) -> (r: String)
    ensures
        r@ == hex(secrets::sha256_of(content@)),
{
    to_hex(&secrets::sha256(content))
}

/// The digest that the manifest asks for.
pub open spec fn expected_digest(entry: InstallerEntry) -> Seq<char> {
    text::lowered(text::trimmed(entry.sha256@))
}

/// What is said of an installer without a digest.
pub open spec fn no_digest(entry: InstallerEntry) -> Seq<char> {
    "в манифесте нет контрольной суммы для "@ + entry.file@
        + "; запускать непроверенный установщик нельзя"@
}

/// What is said of an installer with another digest.
pub open spec fn wrong_digest(path: Seq<char>, expected: Seq<char>, actual: Seq<char>) -> Seq<
    char,
> {
    "контрольная сумма "@ + path + " не совпала.\nОжидалась: "@ + expected + "\nПолучена:  "@
        + actual + "\nФайл повреждён или подменён, запускать его нельзя."@
}

/// What is wrong with an installer of a given digest, if anything.
pub open spec fn complaint(path: Seq<char>, entry: InstallerEntry, digest: Seq<char>) -> Option<
    Seq<char>,
> {
    if expected_digest(entry).len() == 0 {
        Some(no_digest(entry))
    } else if text::lowered(digest) != expected_digest(entry) {
        Some(wrong_digest(path, expected_digest(entry), text::lowered(digest)))
    } else {
        None
    }
}

/// Whether an installer of a given digest is the one in the manifest.
pub fn check_digest(path: &str, entry: &InstallerEntry, digest: &str) -> (r: Result<(), String>)
    ensures
        match r {
            Ok(_) => complaint(path@, *entry, digest@) is None,
            Err(e) => complaint(path@, *entry, digest@) == Some(e@),
        },
{
    let trimmed = text::trim(entry.sha256.as_str());
    let expected = text::to_lower(trimmed.as_str());
    if expected.as_str().is_empty() {
        return Err(
            text::join3(
                "в манифесте нет контрольной суммы для ",
                entry.file.as_str(),
                "; запускать непроверенный установщик нельзя",
            ),
        );
    }
    let actual = text::to_lower(digest);
    if !text::same(actual.as_str(), expected.as_str()) {
        let head = text::join5(
            "контрольная сумма ",
            path,
            " не совпала.\nОжидалась: ",
            expected.as_str(),
            "\nПолучена:  ",
        );
        return Err(
            text::join3(
                head.as_str(),
                actual.as_str(),
                "\nФайл повреждён или подменён, запускать его нельзя.",
            ),
        );
    }
    Ok(())
}

/// Makes sure that a file is the one in the manifest.
pub fn verify_installer(path: &str, content: &Vec<u8>, entry: &InstallerEntry) -> (r: Result<
    (),
    String,
>)
    ensures
        match r {
            Ok(_) => complaint(path@, *entry, hex(secrets::sha256_of(content@))) is None,
            Err(e) => complaint(path@, *entry, hex(secrets::sha256_of(content@))) == Some(e@),
        },
{
    let digest = sha256_file(content);
    check_digest(path, entry, digest.as_str())
}

// ---------------------------------------------------------------------------------------------
// Laws
// ---------------------------------------------------------------------------------------------
/// Only a file with the written digest is accepted; without a written digest, none is.
pub proof fn law_only_the_written_digest_passes(
    path: Seq<char>,
    entry: InstallerEntry,
    digest: Seq<char>,
)
    ensures
        complaint(path, entry, digest) is None <==> expected_digest(entry).len() > 0
            && text::lowered(digest) == expected_digest(entry),
{
}

/// Different bytes have different hexadecimal forms: the comparison of digests is one of bytes.
pub proof fn law_hex_tells_bytes_apart(a: Seq<u8>, b: Seq<u8>)
    requires
        hex(a) == hex(b),
    ensures
        a == b,
    decreases a.len(),
{
    lemma_hex_length(a);
    lemma_hex_length(b);
    if a.len() > 0 {
        let ha = hex(a);
        let n = ha.len() as int;
        let fa = hex(a.drop_last());
        let fb = hex(b.drop_last());
        lemma_hex_length(a.drop_last());
        lemma_hex_length(b.drop_last());
        assert(ha[n - 2] == hex_digit(a.last() as int / 16));
        assert(ha[n - 1] == hex_digit(a.last() as int % 16));
        assert(hex(b)[n - 2] == hex_digit(b.last() as int / 16));
        assert(hex(b)[n - 1] == hex_digit(b.last() as int % 16));
        assert(fa =~= ha.take(n - 2));
        assert(fb =~= hex(b).take(n - 2));
        law_hex_tells_bytes_apart(a.drop_last(), b.drop_last());
        assert(a.last() == b.last());
        assert(a =~= a.drop_last().push(a.last()));
        assert(b =~= b.drop_last().push(b.last()));
    } else {
        assert(a =~= b);
    }
}

proof fn lemma_hex_length(a: Seq<u8>)
    ensures
        hex(a).len() == 2 * a.len(),
    decreases a.len(),
{
    if a.len() > 0 {
        lemma_hex_length(a.drop_last());
    }
}


/// A byte is written as two digits, the higher one first: read as a number of the base sixteen they
/// give the byte.
pub proof fn law_hex_digits_stand_for_their_values(bytes: Seq<u8>, b: u8)
    ensures
        hex(bytes.push(b)) == hex(bytes) + seq![hex_digit(b as int / 16), hex_digit(b as int % 16)],
        hex(Seq::empty()).len() == 0,
        forall|d: int| 0 <= d < 10 ==> (#[trigger] hex_digit(d)) as int == '0' as int + d,
        forall|d: int| 10 <= d < 16 ==> (#[trigger] hex_digit(d)) as int == 'a' as int + d - 10,
{
    assert(bytes.push(b).drop_last() =~= bytes);
}

/// The digest is compared without regard to the case of letters and to white space around it.
pub proof fn law_case_plays_no_part(path: Seq<char>, entry: InstallerEntry, a: Seq<char>, b: Seq<char>)
    requires
        text::lowered(a) == text::lowered(b),
    ensures
        complaint(path, entry, a) is None <==> complaint(path, entry, b) is None,
        text::trimmed(entry.sha256@).len() == 0 ==> complaint(path, entry, a) is Some,
        text::trimmed(entry.sha256@).len() > 0 && text::lowered(text::trimmed(entry.sha256@))
            == text::lowered(a) ==> complaint(path, entry, a) is None,
        text::lowered(text::trimmed(entry.sha256@)) != text::lowered(a) ==> complaint(path, entry, a)
            is Some,
{
    assert(text::lowered(text::trimmed(entry.sha256@)).len() == text::trimmed(entry.sha256@).len());
}

/// A complaint names the file and both digests, or the installer that has none.
pub proof fn law_a_complaint_names_the_digests(
    path: Seq<char>,
    entry: InstallerEntry,
    digest: Seq<char>,
)
    ensures
        complaint(path, entry, digest) matches Some(note) ==> {
            &&& expected_digest(entry).len() == 0 ==> text::holds_text(note, entry.file@)
            &&& expected_digest(entry).len() > 0 ==> text::holds_text(note, path)
                && text::holds_text(note, expected_digest(entry)) && text::holds_text(
                note,
                text::lowered(digest),
            )
        },
{
    text::lemma_part_is_held(
        "в манифесте нет контрольной суммы для "@,
        entry.file@,
        "; запускать непроверенный установщик нельзя"@,
    );
    let a = "контрольная сумма "@;
    let b = " не совпала.\nОжидалась: "@;
    let e = expected_digest(entry);
    let c = "\nПолучена:  "@;
    let g = text::lowered(digest);
    let d = "\nФайл повреждён или подменён, запускать его нельзя."@;
    let whole = wrong_digest(path, e, g);
    text::lemma_part_is_held(a, path, b + e + c + g + d);
    assert(a + path + (b + e + c + g + d) =~= whole);
    text::lemma_part_is_held(a + path + b, e, c + g + d);
    assert(a + path + b + e + (c + g + d) =~= whole);
    text::lemma_part_is_held(a + path + b + e + c, g, d);
}

} // verus!
