//! The credential checks behind the password gate: hashing a password,
//! comparing it against the stored hash, and vetting a new password.
//! Reading the password and the stored hash is I/O and stays with the
//! caller; everything decided about them is decided here.

use vstd::prelude::*;

use sha2::Digest;

verus! {

/// The SHA-256 digest of the given characters (as UTF-8 bytes). The digest
/// is a pure function of its input; its value is not modelled here.
pub uninterp spec fn sha256_of(s: Seq<char>) -> Seq<u8>;

/// The whitespace-trimmed form of the given characters: the input with
/// leading and trailing whitespace removed. A pure function of its input;
/// its value is not modelled here.
pub uninterp spec fn trimmed_of(s: Seq<char>) -> Seq<char>;

/// Relies on `sha2::Sha256` (SHA-256 as specified by FIPS 180-4, through the
/// `digest::Digest` interface): the 32-byte digest depends on the input
/// bytes alone.
#[verifier::external_body]
fn sha256_digest(s: &str) -> (d: Vec<u8>)
    ensures
        d@ == sha256_of(s@),
        d@.len() == 32,
{
    let mut hasher = sha2::Sha256::new();
    hasher.update(s.as_bytes());
    hasher.finalize().to_vec()
}

/// Relies on `str::trim`: removes leading and trailing whitespace, depends
/// on the characters alone, and leaves empty input empty.
#[verifier::external_body]
fn trim_str(s: &str) -> (r: &str)
    ensures
        r@ == trimmed_of(s@),
        s@.len() == 0 ==> r@.len() == 0,
{
    s.trim()
}

/// The lowercase hexadecimal character for one value below 16.
pub open spec fn hex_digit_char(d: nat) -> char {
    if d == 0 {
        '0'
    } else if d == 1 {
        '1'
    } else if d == 2 {
        '2'
    } else if d == 3 {
        '3'
    } else if d == 4 {
        '4'
    } else if d == 5 {
        '5'
    } else if d == 6 {
        '6'
    } else if d == 7 {
        '7'
    } else if d == 8 {
        '8'
    } else if d == 9 {
        '9'
    } else if d == 10 {
        'a'
    } else if d == 11 {
        'b'
    } else if d == 12 {
        'c'
    } else if d == 13 {
        'd'
    } else if d == 14 {
        'e'
    } else {
        'f'
    }
}

/// Lowercase hexadecimal of a byte string: two digits per byte, high
/// nibble first.
pub open spec fn hex_of_bytes(bs: Seq<u8>) -> Seq<char>
    decreases bs.len(),
{
    if bs.len() == 0 {
        Seq::empty()
    } else {
        seq![
            hex_digit_char((bs[0] / 16) as nat),
            hex_digit_char((bs[0] % 16) as nat),
        ] + hex_of_bytes(bs.drop_first())
    }
}

/// The stored (and compared) form of a password: lowercase hex of its
/// SHA-256 digest.
pub open spec fn password_hash_text(s: Seq<char>) -> Seq<char> {
    hex_of_bytes(sha256_of(s))
}

/// Hex grows two digits at a time as bytes are appended.
proof fn lemma_hex_push(bs: Seq<u8>, b: u8)
    ensures
        hex_of_bytes(bs.push(b)) == hex_of_bytes(bs) + seq![
            hex_digit_char((b / 16) as nat),
            hex_digit_char((b % 16) as nat),
        ],
    decreases bs.len(),
{
    let pushed = bs.push(b);
    let pair = seq![hex_digit_char((b / 16) as nat), hex_digit_char((b % 16) as nat)];
    assert(pushed[0] == if bs.len() == 0 {
        b
    } else {
        bs[0]
    });
    if bs.len() == 0 {
        assert(pushed.drop_first() =~~= Seq::<u8>::empty());
        assert(hex_of_bytes(pushed.drop_first()) =~~= Seq::<char>::empty());
        assert(hex_of_bytes(pushed) =~~= hex_of_bytes(bs) + pair);
    } else {
        lemma_hex_push(bs.drop_first(), b);
        assert(pushed.drop_first() =~~= bs.drop_first().push(b));
        assert(hex_of_bytes(pushed) =~~= hex_of_bytes(bs) + pair);
    }
}

fn hex_digit_to_char(d: u8) -> (c: char)
    requires
        d < 16,
    ensures
        c == hex_digit_char(d as nat),
{
    match d {
        0 => '0',
        1 => '1',
        2 => '2',
        3 => '3',
        4 => '4',
        5 => '5',
        6 => '6',
        7 => '7',
        8 => '8',
        9 => '9',
        10 => 'a',
        11 => 'b',
        12 => 'c',
        13 => 'd',
        14 => 'e',
        _ => 'f',
    }
}

/// Lowercase hexadecimal of a byte string, two digits per byte.
fn bytes_to_hex(bs: &Vec<u8>) -> (out: Vec<char>)
    ensures
        out@ == hex_of_bytes(bs@),
{
    let mut out: Vec<char> = Vec::new();
    let mut i: usize = 0;
    proof {
        assert(bs@.take(0) =~~= Seq::<u8>::empty());
    }
    while i < bs.len()
        invariant
            i <= bs@.len(),
            out@ == hex_of_bytes(bs@.take(i as int)),
        decreases bs@.len() - i,
    {
        let b = bs[i];
        out.push(hex_digit_to_char(b / 16));
        out.push(hex_digit_to_char(b % 16));
        proof {
            lemma_hex_push(bs@.take(i as int), b);
            assert(bs@.take(i as int).push(b) =~~= bs@.take(i as int + 1));
            assert(out@ =~~= hex_of_bytes(bs@.take(i as int + 1)));
        }
        i += 1;
    }
    proof {
        assert(bs@.take(bs@.len() as int) =~~= bs@);
    }
    out
}

/// The hash text stored for a password: lowercase hex of its SHA-256 digest.
pub fn hash_password(password: &str) -> (h: String)
    ensures
        h@ == password_hash_text(password@),
{
    let digest = sha256_digest(password);
    let hex = bytes_to_hex(&digest);
    crate::text::chars_to_string(&hex)
}

/// Whether `entered` unlocks a store whose credential hash reads
/// `stored_hash`: true exactly when the entered password's hash text equals
/// the stored text.
pub fn password_matches(entered: &str, stored_hash: &str) -> (r: bool)
    ensures
        r == (password_hash_text(entered@) == stored_hash@),
{
    let h = hash_password(entered);
    let s = String::from_str(stored_hash);
    h == s
}

/// Whether a new password may be set: it must not be empty or all
/// whitespace.
pub fn password_acceptable(password: &str) -> (r: bool)
    ensures
        r == (trimmed_of(password@).len() != 0),
{
    let t = trim_str(password);
    !t.is_empty()
}

/// Whether a new password and its confirmation agree.
pub fn passwords_agree(password: &str, confirm: &str) -> (r: bool)
    ensures
        r == (password@ == confirm@),
{
    let a = String::from_str(password);
    let b = String::from_str(confirm);
    a == b
}

} // verus!
