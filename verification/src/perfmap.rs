//! Names of the throw-away hosts used to fetch the performance-map
//! configuration: a timestamp, its milliseconds and a random lowercase
//! alphanumeric suffix.
use vstd::prelude::*;
use rand::RngCore;
use crate::error::InspectError;
use crate::text;

verus! {

broadcast use vstd::string::group_string_axioms;

/// The ASCII digit for `d`, for `d` below ten.
pub open spec fn digit_char(d: nat) -> char {
    ((48 + d) as u8) as char
}

/// Decimal notation of a natural number, without leading zeros.
pub open spec fn nat_decimal(n: nat) -> Seq<char>
    decreases n,
{
    if n < 10 {
        seq![digit_char(n)]
    } else {
        nat_decimal(n / 10).push(digit_char(n % 10))
    }
}

/// Decimal notation of an integer, with a leading `-` when it is negative.
pub open spec fn int_decimal(i: int) -> Seq<char> {
    if i < 0 {
        seq!['-'] + nat_decimal((-i) as nat)
    } else {
        nat_decimal(i as nat)
    }
}

fn digit(d: u64) -> (c: char)
    requires
        d < 10,
    ensures
        c == digit_char(d as nat),
{
    let b: u8 = 48u8 + (d as u8);
    b as char
}

/// Decimal digits of `n`.
fn nat_digits(n: u64) -> (v: Vec<char>)
    ensures
        v@ == nat_decimal(n as nat),
{
    let mut m = n;
    let mut out: Vec<char> = Vec::new();
    while m >= 10
        invariant
            nat_decimal(n as nat) == nat_decimal(m as nat) + out@,
        decreases m,
    {
        let c = digit(m % 10);
        let ghost before = out@;
        out.insert(0, c);
        assert(nat_decimal(m as nat) == nat_decimal((m / 10) as nat).push(c));
        assert(nat_decimal(m as nat) + before =~= nat_decimal((m / 10) as nat) + out@);
        m = m / 10;
    }
    let c = digit(m);
    out.insert(0, c);
    out
}

/// Decimal notation of an unsigned number, as `Display` writes it.
pub fn u64_decimal(n: u64) -> (s: String)
    ensures
        s@ == nat_decimal(n as nat),
{
    let v = nat_digits(n);
    text::string_of(v.as_slice())
}

/// Decimal notation of a signed number, as `Display` writes it.
pub fn i64_decimal(i: i64) -> (s: String)
    ensures
        s@ == int_decimal(i as int),
{
    if i < 0 {
        let magnitude: u64 = (0i128 - (i as i128)) as u64;
        let mut s = text::owned("-");
        let d = u64_decimal(magnitude);
        s.append(d.as_str());
        proof {
            reveal_strlit("-");
        }
        assert(s@ =~= seq!['-'] + nat_decimal((-i) as nat));
        s
    } else {
        u64_decimal(i as u64)
    }
}

/// Name of the throw-away host: seconds, milliseconds below 1000, the random
/// suffix and `-perfmap`, each number in decimal.
pub open spec fn spec_perfmap_host(seconds: int, millis: nat, suffix: Seq<char>) -> Seq<char> {
    int_decimal(seconds) + nat_decimal(millis % 1000) + suffix + "-perfmap"@
}

/// Builds the throw-away host name from the time of day and the random suffix.
pub fn perfmap_host(seconds: i64, millis: u32, suffix: &str) -> (h: String)
    ensures
        h@ == spec_perfmap_host(seconds as int, millis as nat, suffix@),
{
    let mut h = i64_decimal(seconds);
    let ms = u64_decimal((millis % 1000) as u64);
    h.append(ms.as_str());
    h.append(suffix);
    h.append("-perfmap");
    h
}

/// `std::time::SystemTime`, a reading of the system clock.
#[verifier::external_type_specification]
#[verifier::external_body]
pub struct ExSystemTime(std::time::SystemTime);

/// Calls `std::time::SystemTime::now`, which reads the system clock; nothing is
/// claimed of the reading.
#[verifier::external_body]
fn system_now() -> std::time::SystemTime {
    std::time::SystemTime::now()
}

/// Calls `SystemTime::duration_since(UNIX_EPOCH)` and returns the duration as
/// its whole seconds and the nanoseconds past them, or `None` when the reading
/// is before the epoch. Claimed only: the nanoseconds are below one billion,
/// as `Duration::subsec_nanos` documents.
#[verifier::external_body]
fn since_unix_epoch(t: &std::time::SystemTime) -> (d: Option<(u64, u32)>)
    ensures
        d matches Some((_, nanos)) ==> nanos < 1_000_000_000,
{
    match t.duration_since(std::time::UNIX_EPOCH) {
        Ok(d) => Some((d.as_secs(), d.subsec_nanos())),
        Err(_) => None,
    }
}

/// Calls `chrono::DateTime::from_timestamp` and returns the instant as its
/// `timestamp` and `timestamp_subsec_nanos`, or `None` when chrono refuses the
/// pair. Claimed: a built instant gives back the seconds and nanoseconds it was
/// built from (chrono's documented round trip, which its source computes); and
/// chrono builds every instant from the epoch up to 8e12 seconds (about the year
/// 255000, below its last year 262142) with nanoseconds below one billion, as
/// its source refuses only days outside its calendar and invalid nanoseconds.
#[verifier::external_body]
fn utc_instant(seconds: i64, nanos: u32) -> (t: Option<(i64, u32)>)
    ensures
        t matches Some((s, n)) ==> s == seconds && n == nanos,
        0 <= seconds <= 8_000_000_000_000 && nanos < 1_000_000_000 ==> t is Some,
{
    match chrono::DateTime::from_timestamp(seconds, nanos) {
        Some(dt) => Some((dt.timestamp(), dt.timestamp_subsec_nanos())),
        None => None,
    }
}

/// Name of the throw-away host for a clock reading of `secs` seconds and
/// `nanos` nanoseconds past the Unix epoch: `ClockUnavailable` when the reading
/// does not fit a signed second count or is past the dates chrono holds;
/// otherwise the seconds, the milliseconds of the nanoseconds, and the suffix.
pub fn perfmap_host_at(secs: u64, nanos: u32, suffix: &str) -> (h: Result<String, InspectError>)
    ensures
        secs > 9_223_372_036_854_775_807 ==> h is Err,
        h matches Ok(name) ==> name@ == spec_perfmap_host(
            secs as int,
            (nanos / 1_000_000) as nat,
            suffix@,
        ),
        h matches Err(e) ==> e is ClockUnavailable,
        secs <= 8_000_000_000_000 && nanos < 1_000_000_000 ==> h is Ok,
{
    if secs > 9_223_372_036_854_775_807u64 {
        return Err(InspectError::ClockUnavailable);
    }
    match utc_instant(secs as i64, nanos) {
        Some((seconds, subsec_nanos)) => {
            let millis = subsec_nanos / 1_000_000;
            Ok(perfmap_host(seconds, millis, suffix))
        },
        None => Err(InspectError::ClockUnavailable),
    }
}

/// Name of a fresh throw-away host at the current UTC time, ending with the
/// given random suffix; `ClockUnavailable` when the clock reads before the Unix
/// epoch or past the dates that chrono holds.
pub fn gen_perfmaphost(suffix: &str) -> (h: Result<String, InspectError>)
    ensures
        h matches Ok(name) ==> exists|secs: u64, nanos: u32|
            secs <= 9_223_372_036_854_775_807 && nanos < 1_000_000_000 && name@
                == #[trigger] spec_perfmap_host(secs as int, (nanos / 1_000_000) as nat, suffix@),
        h matches Err(e) ==> e is ClockUnavailable,
{
    let now = system_now();
    match since_unix_epoch(&now) {
        Some((secs, nanos)) => perfmap_host_at(secs, nanos, suffix),
        None => Err(InspectError::ClockUnavailable),
    }
}

/// Byte of the lowercase alphanumeric alphabet `a..z0..9` at position `i`.
pub open spec fn alphabet_byte(i: int) -> u8 {
    if i < 26 {
        (97 + i) as u8
    } else {
        (48 + (i - 26)) as u8
    }
}

/// Whether `b` is an ASCII lowercase letter or digit.
pub open spec fn is_lower_alnum(b: u8) -> bool {
    (97 <= b <= 122) || (48 <= b <= 57)
}

/// What a random word draws: its six high bits select a letter of the alphabet,
/// and values past the alphabet's end are rejected.
pub open spec fn spec_pick(word: u32) -> Option<u8> {
    if (word >> 26u32) < 36 {
        Some(alphabet_byte((word >> 26u32) as int))
    } else {
        None
    }
}

/// Accepted draws give the same character exactly when their six high bits
/// agree: the 36 accepted values of the high bits are carried one to one onto
/// the 36 characters, so each character is drawn by as many words as any other.
pub proof fn lemma_pick_one_to_one(w1: u32, w2: u32)
    requires
        spec_pick(w1) is Some,
        spec_pick(w2) is Some,
    ensures
        spec_pick(w1) == spec_pick(w2) <==> (w1 >> 26u32) == (w2 >> 26u32),
{
}

/// Uniform distribution over the 36 ASCII characters `a..z0..9`.
#[derive(Debug, Clone, Copy)]
pub struct LowerCaseAlphanumeric;

/// Fills four bytes from `rand::rngs::OsRng` with `RngCore::try_fill_bytes`
/// and reads them as a little-endian word; the generator's error is passed on.
/// The word is random: nothing is claimed of it.
#[verifier::external_body]
fn os_random_word() -> Result<u32, rand::Error> {
    let mut bytes = [0u8; 4];
    rand::rngs::OsRng.try_fill_bytes(&mut bytes)?;
    Ok(u32::from_le_bytes(bytes))
}

impl LowerCaseAlphanumeric {
    /// The letter that a random word draws, or `None` when it is rejected.
    pub fn pick(&self, word: u32) -> (r: Option<u8>)
        ensures
            r == spec_pick(word),
    {
        let var = word >> 26u32;
        if var < 36 {
            if var < 26 {
                Some(97u8 + (var as u8))
            } else {
                Some(48u8 + ((var - 26) as u8))
            }
        } else {
            None
        }
    }

    /// Draws once from the operating system's random source and appends the
    /// letter, if the word was accepted, to `suffix`; on a failure of the
    /// source the suffix is unchanged. Lowercase alphanumeric text stays so,
    /// and grows by at most one character.
    pub fn draw_into(&self, suffix: &mut String) -> (r: Result<(), InspectError>)
        ensures
            r is Ok ==> exists|word: u32| final(suffix)@ == with_draw(old(suffix)@, spec_pick(word)),
            r matches Err(e) ==> e is RandomSource && final(suffix)@ == old(suffix)@,
            is_lower_alnum_text(old(suffix)@) ==> is_lower_alnum_text(final(suffix)@),
            final(suffix)@.len() == old(suffix)@.len() || final(suffix)@.len() == old(suffix)@.len() + 1,
    {
        match self.try_sample() {
            Ok(letter) => {
                proof {
                    let w = choose|w: u32| letter == spec_pick(w);
                    if is_lower_alnum_text(suffix@) {
                        lemma_with_draw(suffix@, w);
                    }
                }
                extend_suffix(suffix, letter);
                Ok(())
            },
            Err(e) => Err(e),
        }
    }

    /// One draw from the operating system's random source: a letter, `None`
    /// when the word was rejected and another draw is needed, or the source's
    /// failure.
    pub fn try_sample(&self) -> (r: Result<Option<u8>, InspectError>)
        ensures
            r matches Ok(letter) ==> exists|word: u32| letter == spec_pick(word),
            r matches Err(e) ==> e is RandomSource,
    {
        match os_random_word() {
            Ok(word) => Ok(self.pick(word)),
            Err(e) => Err(InspectError::RandomSource(e)),
        }
    }
}

/// `s` followed by the character of the drawn byte, if there is one.
pub open spec fn with_draw(s: Seq<char>, letter: Option<u8>) -> Seq<char> {
    match letter {
        Some(b) => s.push(b as char),
        None => s,
    }
}

/// Every character of `s` is an ASCII lowercase letter or digit.
pub open spec fn is_lower_alnum_text(s: Seq<char>) -> bool {
    forall|i: int| 0 <= i < s.len() ==> ('a' <= #[trigger] s[i] <= 'z' || '0' <= s[i] <= '9')
}

/// Appends the character of a drawn byte to a suffix; a rejected draw leaves
/// it as it is.
pub fn extend_suffix(suffix: &mut String, letter: Option<u8>)
    ensures
        final(suffix)@ == with_draw(old(suffix)@, letter),
{
    if let Some(b) = letter {
        suffix.push(b as char);
    }
}

/// A draw appended to lowercase alphanumeric text keeps it lowercase
/// alphanumeric, and a rejected draw adds nothing.
pub proof fn lemma_with_draw(s: Seq<char>, word: u32)
    requires
        is_lower_alnum_text(s),
    ensures
        is_lower_alnum_text(with_draw(s, spec_pick(word))),
        with_draw(s, spec_pick(word)).len() == s.len() + (if spec_pick(word) is Some { 1int } else { 0int }),
{
    lemma_pick_alphabet(word);
    let t = with_draw(s, spec_pick(word));
    assert forall|i: int| 0 <= i < t.len() implies ('a' <= #[trigger] t[i] <= 'z' || '0' <= t[i] <= '9') by {
        if i < s.len() {
            assert(t[i] == s[i]);
        }
    }
}

/// Every drawn byte is a lowercase letter or a digit, and exactly the words
/// below `36 << 26` are accepted.
pub proof fn lemma_pick_alphabet(word: u32)
    ensures
        spec_pick(word) is Some <==> word < 2415919104,
        spec_pick(word) matches Some(b) ==> is_lower_alnum(b),
{
    assert((word >> 26u32) < 36 <==> word < 2415919104u32) by (bit_vector);
}

} // verus!
