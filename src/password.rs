//! Hashed control passwords in the salted, iterated SHA-1 format that Tor's
//! `HashedControlPassword` reads: `16:` + salt + count specifier + digest, in
//! hexadecimal.

use vstd::prelude::*;
use vstd::string::*;

verus! {

/// The count specifier byte: the secret is hashed `(16 + (96 & 15)) << ((96 >> 4) + 6)` bytes long.
pub const COUNT_SPECIFIER: u8 = 96;

/// The number of bytes hashed for the count specifier 96.
pub const HASHED_LEN: usize = 65536;

/// The SHA-1 digest of `data`.
pub uninterp spec fn sha1_of(data: Seq<u8>) -> Seq<u8>;

/// Relies on sha1 0.6 (`sha1_smol`): `Sha1::from(data)` hashes `data`, and
/// `digest().bytes()` gives the 20-byte SHA-1 digest.
#[verifier::external_body]
fn sha1_digest(data: &[u8]) -> (r: Vec<u8>)
    ensures
        r@ == sha1_of(data@),
        r@.len() == 20,
{
    sha1::Sha1::from(data).digest().bytes().to_vec()
}

/// Relies on rand 0.8 (`rand_core` 0.6): `OsRng::try_fill_bytes` fills the
/// salt from the operating system's generator, or reports that it failed.
#[verifier::external_body]
fn random_salt() -> (r: Option<[u8; 8]>) {
    let mut salt = [0u8; 8];
    match rand::RngCore::try_fill_bytes(&mut rand::rngs::OsRng, &mut salt) {
        Ok(()) => Some(salt),
        Err(_) => None,
    }
}

/// The lower-case hexadecimal digit of `n`.
pub open spec fn hex_digit(n: nat) -> char {
    if n < 10 {
        ((n + 48) as u8) as char
    } else {
        ((n + 87) as u8) as char
    }
}

/// Each byte as two lower-case hexadecimal digits.
pub open spec fn hex(bytes: Seq<u8>) -> Seq<char>
    decreases bytes.len(),
{
    if bytes.len() == 0 {
        Seq::empty()
    } else {
        hex(bytes.drop_last()) + seq![hex_digit(bytes.last() as nat / 16), hex_digit(bytes.last() as nat % 16)]
    }
}

/// `data` repeated until it is `len` bytes long.
pub open spec fn stretched(data: Seq<u8>, len: nat) -> Seq<u8> {
    Seq::new(len, |i: int| data[i % data.len() as int])
}

/// The text of a hashed password from its salt and digest.
pub open spec fn hashed_password_text(salt: Seq<u8>, digest: Seq<u8>) -> Seq<char> {
    seq!['1', '6', ':'] + hex(salt) + hex(seq![COUNT_SPECIFIER]) + hex(digest)
}

proof fn lemma_hex_len(bytes: Seq<u8>)
    ensures
        hex(bytes).len() == 2 * bytes.len(),
    decreases bytes.len(),
{
    if bytes.len() > 0 {
        lemma_hex_len(bytes.drop_last());
    }
}

fn hex_digit_str(n: u8) -> (r: &'static str)
    requires
        n < 16,
    ensures
        r@ == seq![hex_digit(n as nat)],
{
    proof {
        reveal_strlit("0");
        reveal_strlit("1");
        reveal_strlit("2");
        reveal_strlit("3");
        reveal_strlit("4");
        reveal_strlit("5");
        reveal_strlit("6");
        reveal_strlit("7");
        reveal_strlit("8");
        reveal_strlit("9");
        reveal_strlit("a");
        reveal_strlit("b");
        reveal_strlit("c");
        reveal_strlit("d");
        reveal_strlit("e");
        reveal_strlit("f");
    }
    let r = if n == 0 {
        "0"
    } else if n == 1 {
        "1"
    } else if n == 2 {
        "2"
    } else if n == 3 {
        "3"
    } else if n == 4 {
        "4"
    } else if n == 5 {
        "5"
    } else if n == 6 {
        "6"
    } else if n == 7 {
        "7"
    } else if n == 8 {
        "8"
    } else if n == 9 {
        "9"
    } else if n == 10 {
        "a"
    } else if n == 11 {
        "b"
    } else if n == 12 {
        "c"
    } else if n == 13 {
        "d"
    } else if n == 14 {
        "e"
    } else {
        "f"
    };
    assert(r@ =~= seq![hex_digit(n as nat)]);
    r
}

/// Appends the hexadecimal digits of `bytes` to `out`.
fn push_hex(out: &mut String, bytes: &[u8])
    ensures
        final(out)@ == old(out)@ + hex(bytes@),
{
    let mut i: usize = 0;
    let ghost start = out@;
    assert(bytes@.subrange(0, 0) =~= Seq::<u8>::empty());
    assert(start + hex(Seq::<u8>::empty()) =~= start);
    while i < bytes.len()
        invariant
            i <= bytes@.len(),
            out@ == start + hex(bytes@.subrange(0, i as int)),
        decreases bytes@.len() - i,
    {
        let b = bytes[i];
        out.append(hex_digit_str(b / 16));
        out.append(hex_digit_str(b % 16));
        proof {
            let pre = bytes@.subrange(0, i + 1);
            assert(pre.drop_last() =~= bytes@.subrange(0, i as int));
            assert(pre.last() == b);
            assert(out@ =~= start + hex(pre));
        }
        i += 1;
    }
    assert(bytes@.subrange(0, bytes@.len() as int) =~= bytes@);
}

/// Writes a hashed password from its salt and its digest.
pub fn format_hashed_password(salt: &[u8; 8], digest: &Vec<u8>) -> (r: String)
    ensures
        r@ == hashed_password_text(salt@, digest@),
{
    proof {
        reveal_strlit("16:");
    }
    let mut r = String::from_str("16:");
    push_hex(&mut r, salt);
    let spec_byte = [COUNT_SPECIFIER];
    push_hex(&mut r, &spec_byte);
    push_hex(&mut r, digest.as_slice());
    proof {
        assert("16:"@ =~= seq!['1', '6', ':']);
        assert(spec_byte@ =~= seq![COUNT_SPECIFIER]);
    }
    r
}

/// The bytes that are hashed: `salt` then `secret`, repeated to `len` bytes.
fn stretch(salt: &[u8; 8], secret: &[u8], len: usize) -> (r: Vec<u8>)
    ensures
        r@ == stretched(salt@ + secret@, len as nat),
{
    let mut unit: Vec<u8> = Vec::new();
    let mut k: usize = 0;
    while k < 8
        invariant
            k <= 8,
            unit@ =~= salt@.subrange(0, k as int),
        decreases 8 - k,
    {
        unit.push(salt[k]);
        k += 1;
    }
    let mut k: usize = 0;
    while k < secret.len()
        invariant
            k <= secret@.len(),
            unit@ =~= salt@ + secret@.subrange(0, k as int),
        decreases secret@.len() - k,
    {
        unit.push(secret[k]);
        k += 1;
    }
    let ghost whole = salt@ + secret@;
    assert(unit@ =~= whole);
    let mut r: Vec<u8> = Vec::new();
    let mut i: usize = 0;
    let mut j: usize = 0;
    let ghost mut q: int = 0;
    while i < len
        invariant
            unit@ == whole,
            whole.len() >= 8,
            i <= len,
            j < whole.len(),
            i as int == q * whole.len() + j,
            r@ =~= stretched(whole, i as nat),
        decreases len - i,
    {
        proof {
            vstd::arithmetic::div_mod::lemma_fundamental_div_mod_converse(i as int, whole.len() as int, q, j as int);
        }
        r.push(unit[j]);
        proof {
            assert(stretched(whole, (i + 1) as nat) =~= stretched(whole, i as nat).push(whole[j as int]));
        }
        i += 1;
        if j + 1 == unit.len() {
            j = 0;
            proof {
                q = q + 1;
                assert(i as int == q * whole.len() + j) by (nonlinear_arith)
                    requires
                        i as int == (q - 1) * whole.len() + whole.len(),
                        j == 0,
                ;
            }
        } else {
            j = j + 1;
        }
    }
    r
}

/// The hashed password of `secret` with the given salt.
pub fn hashed_password_with_salt(secret: &str, salt: [u8; 8]) -> (r: String)
    ensures
        r@ == hashed_password_text(salt@, sha1_of(stretched(salt@ + secret.spec_bytes(), HASHED_LEN as nat))),
        r@.len() == 61,
{
    let input = stretch(&salt, secret.as_bytes(), HASHED_LEN);
    let digest = sha1_digest(input.as_slice());
    let r = format_hashed_password(&salt, &digest);
    proof {
        lemma_hex_len(salt@);
        lemma_hex_len(seq![COUNT_SPECIFIER]);
        lemma_hex_len(digest@);
    }
    r
}

/// The hashed password of `secret` with a fresh random salt, as
/// `HashedControlPassword` reads it; `None` when the operating system's
/// generator gives no salt.
pub fn generate_hashed_password(secret: &str) -> (r: Option<String>)
    ensures
        r matches Some(h) ==> (exists|salt: Seq<u8>| salt.len() == 8 && h@ == hashed_password_text(salt, sha1_of(stretched(salt + secret.spec_bytes(), HASHED_LEN as nat))))
            && h@.len() == 61,
{
    match random_salt() {
        Some(salt) => Some(hashed_password_with_salt(secret, salt)),
        None => None,
    }
}

} // verus!
