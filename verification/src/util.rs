//! Naming helpers: the current time as a decimal string, and a short
//! fingerprint of it that keeps generated database names apart.

use crypto::digest::Digest;
use crypto::sha1::Sha1;
use vstd::prelude::*;
use vstd::string::*;

verus! {

#[verifier::external_type_specification]
#[verifier::external_body]
pub struct ExSystemTime(std::time::SystemTime);

#[verifier::external_type_specification]
#[verifier::external_body]
pub struct ExSystemTimeError(std::time::SystemTimeError);

/// The character that writes the digit `d`, for `d` below ten.
pub open spec fn digit_char(d: nat) -> char {
    if d == 0 {
        '0'
    } else if d == 1 {
        '1'
    } else if d == 2 {
        '2'
    } else if d == 3 {
        '3'
    } else if d == 4 {
        '4'
    } else if d == 5 {
        '5'
    } else if d == 6 {
        '6'
    } else if d == 7 {
        '7'
    } else if d == 8 {
        '8'
    } else {
        '9'
    }
}

/// The decimal notation of `n`: no sign, no leading zero, `"0"` for zero.
pub open spec fn decimal(n: nat) -> Seq<char>
    decreases n,
{
    if n < 10 {
        seq![digit_char(n)]
    } else {
        decimal(n / 10).push(digit_char(n % 10))
    }
}

/// Ten to the power `k`.
pub open spec fn pow10(k: nat) -> nat
    decreases k,
{
    if k == 0 {
        1
    } else {
        10 * pow10((k - 1) as nat)
    }
}

/// A number below `10^k` is written with at most `k` digits, and every
/// number with at least one.
pub proof fn lemma_decimal_len(n: nat, k: nat)
    requires
        1 <= k,
        n < pow10(k),
    ensures
        1 <= decimal(n).len() <= k,
    decreases k,
{
    reveal_with_fuel(pow10, 2);
    if n >= 10 {
        assert(k >= 2);
        lemma_decimal_len(n / 10, (k - 1) as nat);
    }
}

/// Every 64-bit number is written with between one and twenty digits.
pub proof fn lemma_decimal_len_u64(n: u64)
    ensures
        1 <= decimal(n as nat).len() <= 20,
{
    reveal_with_fuel(pow10, 21);
    lemma_decimal_len(n as nat, 20);
}

/// The hexadecimal SHA-1 digest of a text, as the `crypto` crate renders it.
pub uninterp spec fn sha1_hex_of(text: Seq<char>) -> Seq<char>;

/// How many characters of a digest make up a short fingerprint.
pub const MINI_HASH_LEN: usize = 5;

/// The first five characters of a digest, or all of it when it is shorter.
pub open spec fn prefix_of(digest: Seq<char>) -> Seq<char> {
    if digest.len() <= MINI_HASH_LEN {
        digest
    } else {
        digest.subrange(0, MINI_HASH_LEN as int)
    }
}

/// The fingerprint that belongs to a time given in whole seconds since the
/// Unix epoch: the first five characters of the hexadecimal SHA-1 digest of
/// the decimal notation of the seconds.
pub open spec fn mini_hash_of(seconds: u64) -> Seq<char> {
    prefix_of(sha1_hex_of(decimal(seconds as nat)))
}

/// `std::time::SystemTime::now`: the system clock's current reading. Nothing
/// is claimed of it.
#[verifier::external_body]
fn now() -> (t: std::time::SystemTime) {
    std::time::SystemTime::now()
}

/// `std::time::SystemTime::duration_since`, measured from the Unix epoch.
/// Nothing is claimed of the result; it is an error when the clock reads a
/// time before the epoch.
#[verifier::external_body]
fn since_unix_epoch(t: &std::time::SystemTime) -> (r: Result<
    std::time::Duration,
    std::time::SystemTimeError,
>) {
    t.duration_since(std::time::UNIX_EPOCH)
}

/// `std::time::Duration::as_secs`: the whole seconds of a duration. Nothing
/// is claimed of the result.
#[verifier::external_body]
fn whole_seconds(d: &std::time::Duration) -> (s: u64) {
    d.as_secs()
}

/// `Sha1::new`, `Digest::input_str` and `Digest::result_str` of the `crypto`
/// crate, in that order on a fresh hasher: the SHA-1 digest of the text's
/// UTF-8 bytes, written as forty lower-case hexadecimal characters. The
/// digest is a function of the text alone. The hasher counts its input in
/// bits in 64 bits and panics beyond that, hence the bound on the length.
#[verifier::external_body]
fn sha1_hex(text: &str) -> (digest: String)
    requires
        text@.len() < 0x0800_0000_0000_0000,
    ensures
        digest@ == sha1_hex_of(text@),
        digest@.len() == 40,
{
    let mut hasher = Sha1::new();
    hasher.input_str(text);
    hasher.result_str()
}

/// The one-character string that writes a digit.
fn digit_str(d: u64) -> (s: &'static str)
    requires
        d < 10,
    ensures
        s@ == seq![digit_char(d as nat)],
{
    proof {
        reveal_strlit("0");
        reveal_strlit("1");
        reveal_strlit("2");
        reveal_strlit("3");
        reveal_strlit("4");
        reveal_strlit("5");
        reveal_strlit("6");
        reveal_strlit("7");
        reveal_strlit("8");
        reveal_strlit("9");
    }
    let s = if d == 0 {
        "0"
    } else if d == 1 {
        "1"
    } else if d == 2 {
        "2"
    } else if d == 3 {
        "3"
    } else if d == 4 {
        "4"
    } else if d == 5 {
        "5"
    } else if d == 6 {
        "6"
    } else if d == 7 {
        "7"
    } else if d == 8 {
        "8"
    } else {
        "9"
    };
    assert(s@ =~= seq![digit_char(d as nat)]);
    s
}

/// Writes a count of seconds in decimal notation.
pub fn epoch_at(seconds: u64) -> (text: String)
    ensures
        text@ == decimal(seconds as nat),
    decreases seconds,
{
    if seconds < 10 {
        String::from_str(digit_str(seconds))
    } else {
        let mut text = epoch_at(seconds / 10);
        text.append(digit_str(seconds % 10));
        text
    }
}

/// The current time in whole seconds since the Unix epoch, in decimal
/// notation; `None` when the system clock reads a time before the epoch.
pub fn epoch() -> (text: Option<String>)
    ensures
        text matches Some(t) ==> exists|seconds: u64| t@ == decimal(seconds as nat),
{
    epoch_from(clock_seconds())
}

/// What `epoch` makes of a reading of the clock. The reading is the count
/// of whole seconds since the Unix epoch, or `None` for a clock that reads
/// a time before the epoch. A count is written in decimal notation, with
/// no sign and no leading zero; no reading gives no text. The clock
/// decides which of the two `epoch` returns; this function says what each
/// of them comes to.
pub fn epoch_from(reading: Option<u64>) -> (text: Option<String>)
    ensures
        match reading {
            Some(seconds) => text matches Some(t) && t@ == decimal(seconds as nat),
            None => text is None,
        },
{
    match reading {
        Some(seconds) => Some(epoch_at(seconds)),
        None => None,
    }
}

/// The fingerprint of a given second: determined by the second alone,
/// whatever the clock reads.
pub fn mini_hash_at(seconds: u64) -> (unique: String)
    ensures
        unique@ == mini_hash_of(seconds),
        unique@.len() == MINI_HASH_LEN,
{
    let text = epoch_at(seconds);
    proof {
        lemma_decimal_len_u64(seconds);
    }
    let digest = sha1_hex(text.as_str());
    shorten(digest.as_str())
}

/// The fingerprint of the current second; `None` when the system clock
/// reads a time before the epoch.
pub fn mini_hash() -> (unique: Option<String>)
    ensures
        unique matches Some(u) ==> u@.len() == MINI_HASH_LEN && exists|seconds: u64|
            u@ == mini_hash_of(seconds),
{
    mini_hash_from(clock_seconds())
}

/// What `mini_hash` makes of a reading of the clock: the fingerprint of the
/// second read, or nothing for a clock that reads a time before the epoch.
pub fn mini_hash_from(reading: Option<u64>) -> (unique: Option<String>)
    ensures
        match reading {
            Some(seconds) => unique matches Some(u) && u@ == mini_hash_of(seconds) && u@.len()
                == MINI_HASH_LEN,
            None => unique is None,
        },
{
    match reading {
        Some(seconds) => Some(mini_hash_at(seconds)),
        None => None,
    }
}

/// Cuts a digest down to a short fingerprint.
pub fn shorten(digest: &str) -> (short: String)
    ensures
        short@ == prefix_of(digest@),
{
    let n = digest.unicode_len();
    if n <= MINI_HASH_LEN {
        String::from_str(digest)
    } else {
        String::from_str(digest.substring_char(0, MINI_HASH_LEN))
    }
}

/// Reads the clock: the whole seconds since the Unix epoch, or `None` when
/// the clock reads a time before the epoch. Nothing is known of the
/// reading beforehand.
fn clock_seconds() -> (reading: Option<u64>) {
    let t = now();
    match since_unix_epoch(&t) {
        Ok(d) => Some(whole_seconds(&d)),
        Err(_) => None,
    }
}

} // verus!
