//! Monetary amounts, normalized to millisatoshis, with a textual codec.
//!
//! Rendering always emits the canonical form `"<millisatoshis>msat"`.
//! Parsing scans a leading run of decimal digits and then matches a unit
//! suffix (`msat`, `sat`, `btc`) case-insensitively against the end of the
//! string; characters between the digit run and the suffix are tolerated.
//! The digit run is folded into a `u64` with wrap-around on overflow.

use vstd::prelude::*;
use vstd::arithmetic::div_mod::{
    lemma_add_mod_noop, lemma_fundamental_div_mod, lemma_mod_multiples_vanish,
};

verus! {

/// Millisatoshis per satoshi.
pub const MSAT_PER_SAT: u64 = 1_000;

/// Millisatoshis per bitcoin.
pub const MSAT_PER_BTC: u64 = 100_000_000_000;

/// One more than `u64::MAX`: the modulus of wrap-around `u64` arithmetic.
pub open spec fn u64_modulus() -> nat {
    0x1_0000_0000_0000_0000
}

/// Reduce a mathematical integer into `u64` range by wrapping.
pub open spec fn wrap64(n: nat) -> u64 {
    (n % u64_modulus()) as u64
}

/// A monetary quantity, held as a count of millisatoshis.
#[derive(Copy, Clone, Debug, PartialEq, Eq, Structural)]
pub struct Amount {
    pub msat: u64,
}

/// Failure of the textual parser: the input ends in no recognized unit suffix.
#[derive(Copy, Clone, Debug, PartialEq, Eq, Structural)]
pub enum ParseError {
    UnrecognizedSuffix,
}

// ---------------------------------------------------------------------------
// The codec's specification
// ---------------------------------------------------------------------------
/// Is `c` a decimal digit?
pub open spec fn is_digit_char(c: char) -> bool {
    48 <= c as u32 <= 57
}

/// The numeric value of a decimal digit character.
pub open spec fn digit_val(c: char) -> u64
    recommends
        is_digit_char(c),
{
    (c as u32 - 48) as u64
}

/// The decimal digit character for a value below ten.
pub open spec fn digit_char(d: nat) -> char
    recommends
        d < 10,
{
    if d == 0 {
        '0'
    } else if d == 1 {
        '1'
    } else if d == 2 {
        '2'
    } else if d == 3 {
        '3'
    } else if d == 4 {
        '4'
    } else if d == 5 {
        '5'
    } else if d == 6 {
        '6'
    } else if d == 7 {
        '7'
    } else if d == 8 {
        '8'
    } else {
        '9'
    }
}

/// The value of a digit string, folded most-significant first, wrapping on
/// overflow as the executable fold does.
pub open spec fn digits_val(s: Seq<char>) -> u64
    decreases s.len(),
{
    if s.len() == 0 {
        0u64
    } else {
        wrap64(digits_val(s.drop_last()) as nat * 10 + digit_val(s.last()) as nat)
    }
}

/// The length of the leading run of decimal digits.
pub open spec fn digit_run(s: Seq<char>) -> int
    decreases s.len(),
{
    if s.len() == 0 || !is_digit_char(s[0]) {
        0
    } else {
        1 + digit_run(s.drop_first())
    }
}

/// The leading run of decimal digits itself.
pub open spec fn digit_prefix(s: Seq<char>) -> Seq<char> {
    s.take(digit_run(s))
}

/// ASCII lower-casing on a character's scalar value.
pub open spec fn lower32(c: u32) -> u32 {
    if 65 <= c <= 90 {
        (c + 32) as u32
    } else {
        c
    }
}

/// Does `s` end with `suffix`, compared character-wise after ASCII
/// lower-casing?
pub open spec fn ends_with_ic(s: Seq<char>, suffix: Seq<char>) -> bool {
    &&& s.len() >= suffix.len()
    &&& forall|j: int|
        0 <= j < suffix.len() ==> lower32(
            s[s.len() - suffix.len() + j] as u32,
        ) == lower32(suffix[j] as u32)
}

pub open spec fn msat_suffix() -> Seq<char> {
    seq!['m', 's', 'a', 't']
}

pub open spec fn sat_suffix() -> Seq<char> {
    seq!['s', 'a', 't']
}

pub open spec fn btc_suffix() -> Seq<char> {
    seq!['b', 't', 'c']
}

/// What the parser returns on a text: the digit run's value, scaled by the
/// unit suffix (checked in the order msat, sat, btc), or nothing when no
/// suffix matches.
pub open spec fn amount_of_text(s: Seq<char>) -> Option<Amount> {
    let v = digits_val(digit_prefix(s));
    if ends_with_ic(s, msat_suffix()) {
        Some(Amount { msat: v })
    } else if ends_with_ic(s, sat_suffix()) {
        Some(Amount { msat: wrap64(v as nat * MSAT_PER_SAT as nat) })
    } else if ends_with_ic(s, btc_suffix()) {
        Some(Amount { msat: wrap64(v as nat * MSAT_PER_BTC as nat) })
    } else {
        None
    }
}

/// The decimal digit string of `n`, most significant digit first.
pub open spec fn dec_digits(n: nat) -> Seq<char>
    decreases n,
{
    if n < 10 {
        seq![digit_char(n)]
    } else {
        dec_digits(n / 10).push(digit_char(n % 10))
    }
}

/// The canonical rendering of an amount: its millisatoshis, then `msat`.
pub open spec fn amount_text(msat: u64) -> Seq<char> {
    dec_digits(msat as nat) + msat_suffix()
}

// ---------------------------------------------------------------------------
// Construction
// ---------------------------------------------------------------------------
impl Amount {
    /// Construct from a count of millisatoshis.
    pub fn from_msat(msat: u64) -> (r: Amount)
        ensures
            r.msat == msat,
    {
        Amount { msat }
    }

    /// Construct from a count of satoshis.
    pub fn from_sat(sat: u64) -> (r: Amount)
        requires
            MSAT_PER_SAT * sat <= u64::MAX,
        ensures
            r.msat == MSAT_PER_SAT * sat,
    {
        Amount { msat: MSAT_PER_SAT * sat }
    }

    /// Construct from a count of bitcoins.
    pub fn from_btc(btc: u64) -> (r: Amount)
        requires
            MSAT_PER_BTC * btc <= u64::MAX,
        ensures
            r.msat == MSAT_PER_BTC * btc,
    {
        Amount { msat: MSAT_PER_BTC * btc }
    }

    /// The quantity in millisatoshis.
    pub fn msat(&self) -> (r: u64)
        ensures
            r == self.msat,
    {
        self.msat
    }
}

// ---------------------------------------------------------------------------
// Rendering
// ---------------------------------------------------------------------------
/// The one-character string for a digit value.
fn digit_str(d: u64) -> (r: &'static str)
    requires
        d < 10,
    ensures
        r@ == seq![digit_char(d as nat)],
{
    proof {
        reveal_strlit("0");
        reveal_strlit("1");
        reveal_strlit("2");
        reveal_strlit("3");
        reveal_strlit("4");
        reveal_strlit("5");
        reveal_strlit("6");
        reveal_strlit("7");
        reveal_strlit("8");
        reveal_strlit("9");
    }
    let r = if d == 0 {
        "0"
    } else if d == 1 {
        "1"
    } else if d == 2 {
        "2"
    } else if d == 3 {
        "3"
    } else if d == 4 {
        "4"
    } else if d == 5 {
        "5"
    } else if d == 6 {
        "6"
    } else if d == 7 {
        "7"
    } else if d == 8 {
        "8"
    } else {
        "9"
    };
    proof {
        assert(r@ =~= seq![digit_char(d as nat)]);
    }
    r
}

/// Append the decimal digits of `n` to `out`.
fn push_digits(n: u64, out: &mut String)
    ensures
        final(out)@ == old(out)@ + dec_digits(n as nat),
    decreases n,
{
    if n >= 10 {
        push_digits(n / 10, out);
    }
    out.append(digit_str(n % 10));
    proof {
        assert(final(out)@ =~= old(out)@ + dec_digits(n as nat));
    }
}

impl Amount {
    /// Render to the canonical text `"<millisatoshis>msat"`.
    pub fn render(&self) -> (r: String)
        ensures
            r@ == amount_text(self.msat),
    {
        let mut out = String::new();
        push_digits(self.msat, &mut out);
        out.append("msat");
        proof {
            reveal_strlit("msat");
            assert(out@ =~= amount_text(self.msat));
        }
        out
    }
}

// ---------------------------------------------------------------------------
// Parsing
// ---------------------------------------------------------------------------
/// ASCII lower-casing of a character's scalar value.
fn lower_code(c: char) -> (r: u32)
    ensures
        r == lower32(c as u32),
{
    let u = c as u32;
    if 65 <= u && u <= 90 {
        u + 32
    } else {
        u
    }
}

/// Does `s` (of character length `n`) end with `suffix`, compared
/// case-insensitively in ASCII?
fn ends_with_suffix_ic(s: &str, n: usize, suffix: &str) -> (r: bool)
    requires
        n == s@.len(),
    ensures
        r == ends_with_ic(s@, suffix@),
{
    let m = suffix.unicode_len();
    if n < m {
        return false;
    }
    let start = n - m;
    let mut j: usize = 0;
    loop
        invariant
            n == s@.len(),
            m == suffix@.len(),
            m <= n,
            start == n - m,
            j <= m,
            forall|k: int|
                0 <= k < j ==> lower32(s@[start + k] as u32) == lower32(suffix@[k] as u32),
        ensures
            j <= m,
            forall|k: int|
                0 <= k < j ==> lower32(s@[start + k] as u32) == lower32(suffix@[k] as u32),
            j < m ==> lower32(s@[start + j] as u32) != lower32(suffix@[j as int] as u32),
        decreases m - j,
    {
        if j >= m {
            break;
        }
        if lower_code(s.get_char(start + j)) != lower_code(suffix.get_char(j)) {
            break;
        }
        j += 1;
    }
    j == m
}

/// The leading digit run of `s` is exactly `i` characters long when the first
/// `i` characters are digits and the next one (if any) is not.
proof fn lemma_digit_run_is(s: Seq<char>, i: int)
    requires
        0 <= i <= s.len(),
        forall|j: int| 0 <= j < i ==> is_digit_char(s[j]),
        i == s.len() || !is_digit_char(s[i]),
    ensures
        digit_run(s) == i,
    decreases s.len(),
{
    if i == 0 {
        assert(s.len() == 0 || !is_digit_char(s[0]));
    } else {
        assert(is_digit_char(s[0]));
        let t = s.drop_first();
        assert(forall|j: int| 0 <= j < i - 1 ==> is_digit_char(#[trigger] t[j]));
        assert(i - 1 == t.len() || !is_digit_char(t[i - 1]));
        lemma_digit_run_is(t, i - 1);
    }
}

/// One step of the wrapping decimal fold agrees with the specification fold.
proof fn lemma_fold_step(acc: u64, d: u64)
    requires
        d < 10,
    ensures
        vstd::wrapping::u64_specs::wrapping_add(
            vstd::wrapping::u64_specs::wrapping_mul(acc, 10),
            d,
        ) == wrap64(acc as nat * 10 + d as nat),
{
    let m = u64_modulus() as int;
    let p = acc as int * 10;
    lemma_add_mod_noop(p, d as int, m);
    assert(d as int % m == d as int);
    let q = p % m;
    assert(q + d < 2 * m);
    if q + d as int >= m {
        lemma_mod_multiples_vanish(1, q + d - m, m);
        assert((q + d) % m == q + d - m);
    }
}

/// Parse an amount from text.
///
/// Succeeds exactly on the strings whose end matches one of the unit
/// suffixes `msat`, `sat`, `btc` (in that order of precedence,
/// case-insensitively); the value is the leading digit run scaled by the
/// unit, wrapping on `u64` overflow. A missing digit run parses as zero.
pub fn parse(s: &str) -> (r: Result<Amount, ParseError>)
    ensures
        match amount_of_text(s@) {
            Some(a) => r == Ok::<Amount, ParseError>(a),
            None => r == Err::<Amount, ParseError>(ParseError::UnrecognizedSuffix),
        },
{
    let n = s.unicode_len();
    let mut i: usize = 0;
    let mut acc: u64 = 0;
    loop
        invariant
            n == s@.len(),
            i <= n,
            forall|j: int| 0 <= j < i ==> is_digit_char(s@[j]),
            acc == digits_val(s@.take(i as int)),
        ensures
            i <= n,
            forall|j: int| 0 <= j < i ==> is_digit_char(s@[j]),
            acc == digits_val(s@.take(i as int)),
            i == n || !is_digit_char(s@[i as int]),
        decreases n - i,
    {
        if i >= n {
            break;
        }
        let c = s.get_char(i);
        let u = c as u32;
        if !(48 <= u && u <= 57) {
            break;
        }
        let d = (u - 48) as u64;
        proof {
            lemma_fold_step(acc, d);
            assert(s@.take(i + 1).drop_last() =~= s@.take(i as int));
            assert(s@.take(i + 1).last() == s@[i as int]);
        }
        acc = acc.wrapping_mul(10).wrapping_add(d);
        i += 1;
    }
    proof {
        lemma_digit_run_is(s@, i as int);
        assert(digit_prefix(s@) == s@.take(i as int));
    }
    if ends_with_suffix_ic(s, n, "msat") {
        proof {
            reveal_strlit("msat");
            assert("msat"@ =~= msat_suffix());
        }
        Ok(Amount { msat: acc })
    } else if ends_with_suffix_ic(s, n, "sat") {
        proof {
            reveal_strlit("msat");
            reveal_strlit("sat");
            assert("msat"@ =~= msat_suffix());
            assert("sat"@ =~= sat_suffix());
        }
        Ok(Amount { msat: acc.wrapping_mul(MSAT_PER_SAT) })
    } else if ends_with_suffix_ic(s, n, "btc") {
        proof {
            reveal_strlit("msat");
            reveal_strlit("sat");
            reveal_strlit("btc");
            assert("msat"@ =~= msat_suffix());
            assert("sat"@ =~= sat_suffix());
            assert("btc"@ =~= btc_suffix());
        }
        Ok(Amount { msat: acc.wrapping_mul(MSAT_PER_BTC) })
    } else {
        proof {
            reveal_strlit("msat");
            reveal_strlit("sat");
            reveal_strlit("btc");
            assert("msat"@ =~= msat_suffix());
            assert("sat"@ =~= sat_suffix());
            assert("btc"@ =~= btc_suffix());
        }
        Err(ParseError::UnrecognizedSuffix)
    }
}

// ---------------------------------------------------------------------------
// The round-trip law
// ---------------------------------------------------------------------------
/// Every character of a rendered digit string is a decimal digit.
proof fn lemma_dec_digits_are_digits(n: nat)
    ensures
        dec_digits(n).len() >= 1,
        forall|j: int| 0 <= j < dec_digits(n).len() ==> is_digit_char(#[trigger] dec_digits(n)[j]),
    decreases n,
{
    if n >= 10 {
        lemma_dec_digits_are_digits(n / 10);
    }
}

/// Folding the decimal digit string of `n` yields `n` again.
proof fn lemma_digits_val_of_dec_digits(n: u64)
    ensures
        digits_val(dec_digits(n as nat)) == n,
    decreases n,
{
    if n < 10 {
        let s = dec_digits(n as nat);
        assert(s == seq![digit_char(n as nat)]);
        assert(s.drop_last() =~= Seq::<char>::empty());
        assert(s.last() == digit_char(n as nat));
        assert(digits_val(Seq::<char>::empty()) == 0);
        assert(digits_val(s) == wrap64(digit_val(digit_char(n as nat)) as nat));
        assert(digit_val(digit_char(n as nat)) == n);
        assert(wrap64(n as nat) == n);
    } else {
        let q = (n / 10) as u64;
        let d = (n % 10) as u64;
        lemma_digits_val_of_dec_digits(q);
        lemma_fundamental_div_mod(n as int, 10);
        let s = dec_digits(n as nat);
        assert(s == dec_digits(q as nat).push(digit_char(d as nat)));
        assert(s.drop_last() =~= dec_digits(q as nat));
        assert(s.last() == digit_char(d as nat));
        assert(digit_val(digit_char(d as nat)) == d);
        assert(digits_val(s) == wrap64(q as nat * 10 + d as nat));
        assert(q as nat * 10 + d as nat == n as nat);
        assert(wrap64(n as nat) == n);
    }
}

/// The codec round-trips: parsing the canonical rendering of any
/// millisatoshi count gives that count back.
pub proof fn lemma_render_parse_round_trip(n: u64)
    ensures
        amount_of_text(amount_text(n)) == Some(Amount { msat: n }),
{
    let dd = dec_digits(n as nat);
    let t = amount_text(n);
    lemma_dec_digits_are_digits(n as nat);
    assert(!is_digit_char('m'));
    assert(forall|j: int| 0 <= j < dd.len() ==> is_digit_char(#[trigger] t[j]));
    assert(t[dd.len() as int] == 'm');
    lemma_digit_run_is(t, dd.len() as int);
    assert(digit_prefix(t) =~= dd);
    lemma_digits_val_of_dec_digits(n);
    assert(ends_with_ic(t, msat_suffix())) by {
        assert(forall|j: int|
            0 <= j < 4 ==> t[t.len() - 4 + j] == #[trigger] msat_suffix()[j]);
    }
}

} // verus!
