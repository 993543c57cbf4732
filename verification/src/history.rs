//! Where the conversation history of a working directory is stored.
//!
//! Each working directory gets its own file, named by a stable 64-bit FNV-1a
//! hash of the directory path written as 16 lower-case hex digits. The hash is
//! computed here rather than with std's `DefaultHasher`, whose output may
//! change between Rust releases and would orphan existing history files.
//! Reading and writing the files is done by the application around this crate.
use vstd::prelude::*;
use vstd::string::StringSliceAdditionalSpecFns;

verus! {

broadcast use vstd::string::group_string_axioms;

/// FNV-1a 64-bit offset basis.
pub const FNV_OFFSET: u64 = 0xcbf2_9ce4_8422_2325;

/// FNV-1a 64-bit prime.
pub const FNV_PRIME: u64 = 0x0000_0100_0000_01b3;

/// FNV-1a over `bytes`: for each byte, xor it in, then multiply by the prime
/// modulo 2^64.
pub open spec fn fnv1a(bytes: Seq<u8>) -> u64
    decreases bytes.len(),
{
    if bytes.len() == 0 {
        FNV_OFFSET
    } else {
        (fnv1a(bytes.drop_last()) ^ (bytes.last() as u64)).wrapping_mul(FNV_PRIME)
    }
}

/// Lower-case hex digit for a value below 16.
pub open spec fn hex_char(d: u64) -> char {
    if d < 10 {
        ((48 + d) as u8) as char
    } else {
        ((87 + d) as u8) as char
    }
}

/// The 4-bit group of `h` that is printed at position `i` (0 = most significant).
pub open spec fn nibble(h: u64, i: int) -> u64 {
    (h >> ((60 - 4 * i) as u64)) & 0xf
}

/// `h` as 16 lower-case hex digits, zero-padded (`format!("{h:016x}")`).
pub open spec fn hex16(h: u64) -> Seq<char> {
    Seq::new(16, |i: int| hex_char(nibble(h, i)))
}

/// A lower-case hex digit: `0`-`9` or `a`-`f`.
pub open spec fn is_hex_digit(c: char) -> bool {
    ('0' <= c && c <= '9') || ('a' <= c && c <= 'f')
}

/// Every character of `hex16(h)` is a lower-case hex digit.
pub proof fn lemma_hex16_digits(h: u64)
    ensures
        hex16(h).len() == 16,
        forall|i: int| 0 <= i < 16 ==> is_hex_digit(#[trigger] hex16(h)[i]),
{
    assert forall|i: int| 0 <= i < 16 implies is_hex_digit(#[trigger] hex16(h)[i]) by {
        let sh = (60 - 4 * i) as u64;
        let d = nibble(h, i);
        assert(d < 16) by (bit_vector)
            requires
                d == (h >> sh) & 0xf,
        ;
        if d < 10 {
            assert(((48 + d) as u8) as char == hex_char(d));
            assert((((48 + d) as u8) as char) as u32 == 48 + d);
        } else {
            assert((((87 + d) as u8) as char) as u32 == 87 + d);
        }
    }
}

fn hex_digit(d: u64) -> (c: char)
    requires
        d < 16,
    ensures
        c == hex_char(d),
{
    if d < 10 {
        ((48 + d) as u8) as char
    } else {
        ((87 + d) as u8) as char
    }
}

/// FNV-1a 64-bit hash of `bytes`.
pub fn fnv1a_hash(bytes: &[u8]) -> (h: u64)
    ensures
        h == fnv1a(bytes@),
{
    let mut h: u64 = FNV_OFFSET;
    let mut i: usize = 0;
    while i < bytes.len()
        invariant
            i <= bytes@.len(),
            h == fnv1a(bytes@.take(i as int)),
        decreases bytes@.len() - i,
    {
        assert(bytes@.take(i + 1).drop_last() =~= bytes@.take(i as int));
        h = h ^ (bytes[i] as u64);
        h = h.wrapping_mul(FNV_PRIME);
        i = i + 1;
    }
    assert(bytes@.take(bytes@.len() as int) =~= bytes@);
    h
}

/// `h` as 16 lower-case hex digits.
pub fn hex16_string(h: u64) -> (r: String)
    ensures
        r@ == hex16(h),
{
    let mut r = String::new();
    let mut i: u64 = 0;
    while i < 16
        invariant
            i <= 16,
            r@ == hex16(h).take(i as int),
        decreases 16 - i,
    {
        let sh: u64 = 60 - 4 * i;
        let d = (h >> sh) & 0xf;
        assert(d < 16) by (bit_vector)
            requires
                d == (h >> sh) & 0xf,
        ;
        assert(d == nibble(h, i as int));
        let c = hex_digit(d);
        crate::text::push_char(&mut r, c);
        assert(hex16(h).take(i as int).push(c) =~= hex16(h).take(i + 1));
        i = i + 1;
    }
    assert(hex16(h).take(16) =~= hex16(h));
    r
}

/// The hash that names the history file of working directory `cwd`: FNV-1a
/// over its UTF-8 bytes, as 16 lower-case hex digits.
pub fn cwd_hash(cwd: &str) -> (r: String)
    ensures
        r@ == hex16(fnv1a(cwd.spec_bytes())),
        r@.len() == 16,
        forall|i: int| 0 <= i < 16 ==> is_hex_digit(#[trigger] r@[i]),
{
    let h = fnv1a_hash(cwd.as_bytes());
    proof {
        lemma_hex16_digits(h);
    }
    hex16_string(h)
}

/// What `Path::join` returns for `dir` and `name` (both UTF-8).
pub uninterp spec fn joined_path(dir: Seq<char>, name: Seq<char>) -> Seq<char>;

/// Calls `std::path::Path::join`; the result is named `joined_path` of the
/// arguments. Joining two UTF-8 paths gives a UTF-8 path, so the conversion
/// back to a `String` loses nothing.
#[verifier::external_body]
pub(crate) fn path_join(dir: &str, name: &str) -> (r: String)
    ensures
        r@ == joined_path(dir@, name@),
{
    std::path::Path::new(dir).join(name).to_string_lossy().into_owned()
}

/// The history file of `cwd` inside `history_dir`: `{history_dir}/{cwd_hash}.json`.
pub fn history_file(history_dir: &str, cwd: &str) -> (r: String)
    ensures
        r@ == joined_path(history_dir@, hex16(fnv1a(cwd.spec_bytes())) + ".json"@),
{
    let mut name = cwd_hash(cwd);
    crate::text::push_str(&mut name, ".json");
    path_join(history_dir, name.as_str())
}

} // verus!
