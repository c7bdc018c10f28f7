//! Character-level building blocks.
//!
//! The verified code works on `Vec<char>` and `Seq<char>`; the few places
//! where behaviour is delegated to the standard library (Unicode case
//! folding, the `White_Space` property) are isolated in small trusted
//! wrappers here, and everything else is proved.

use vstd::prelude::*;
use vstd::string::*;

verus! {

// ---------------------------------------------------------------------------
// Whitespace
// ---------------------------------------------------------------------------

/// Whether `c` has the Unicode `White_Space` property, as reported by
/// `char::is_whitespace`.
pub uninterp spec fn is_space_char(c: char) -> bool;

/// Relies on `char::is_whitespace`: a property of the character alone.
/// The ASCII controls tab through carriage return, the space, the next
/// line and the no-break space all carry `White_Space`; the visible ASCII
/// characters do not.
#[verifier::external_body]
pub fn char_is_space(c: char) -> (r: bool)
    ensures
        r == is_space_char(c),
        (c == ' ' || c == '\t' || c == '\n' || c == '\u{0b}' || c == '\u{0c}' || c == '\r' || c
            == '\u{85}' || c == '\u{a0}') ==> r,
        ('!' <= c && c <= '~') ==> !r,
{
    c.is_whitespace()
}

// ---------------------------------------------------------------------------
// Unicode lowercasing
// ---------------------------------------------------------------------------

/// The character sequence that `str::to_lowercase` yields for `s`.
pub uninterp spec fn lower_of(s: Seq<char>) -> Seq<char>;

/// Relies on `str::to_lowercase`: the result depends on the characters
/// alone, and the lowercase form of the empty string is empty.
#[verifier::external_body]
pub fn lowercase(s: &str) -> (r: String)
    ensures
        r@ == lower_of(s@),
        s@.len() == 0 ==> r@.len() == 0,
{
    s.to_lowercase()
}

// ---------------------------------------------------------------------------
// Conversions between &str, Vec<char> and String
// ---------------------------------------------------------------------------

/// The characters of `s`, in order.
pub fn chars_of(s: &str) -> (r: Vec<char>)
    ensures
        r@ == s@,
{
    let n: usize = s.unicode_len();
    let mut v: Vec<char> = Vec::new();
    let mut i: usize = 0;
    while i < n
        invariant
            i <= n,
            n == s@.len(),
            v@ =~= s@.subrange(0, i as int),
        decreases n - i,
    {
        v.push(s.get_char(i));
        i = i + 1;
    }
    proof {
        assert(v@ =~= s@);
    }
    v
}

/// Relies on `String::push`: appends exactly one character.
#[verifier::external_body]
pub fn push_char(s: &mut String, c: char)
    ensures
        final(s)@ == old(s)@.push(c),
{
    s.push(c);
}

/// The string holding exactly the characters of `v`.
pub fn string_of(v: &Vec<char>) -> (r: String)
    ensures
        r@ == v@,
{
    let mut s = String::new();
    let mut i: usize = 0;
    while i < v.len()
        invariant
            i <= v.len(),
            s@ =~= v@.subrange(0, i as int),
        decreases v.len() - i,
    {
        push_char(&mut s, v[i]);
        i = i + 1;
    }
    proof {
        assert(s@ =~= v@);
    }
    s
}

/// Equality of a string against another, by their character sequences.
pub fn str_eq(a: &str, b: &str) -> (r: bool)
    ensures
        r == (a@ == b@),
{
    let an: usize = a.unicode_len();
    let bn: usize = b.unicode_len();
    if an != bn {
        proof {
            assert(a@ != b@);
        }
        return false;
    }
    let mut i: usize = 0;
    while i < an
        invariant
            i <= an,
            an == a@.len(),
            an == b@.len(),
            forall|j: int| 0 <= j < i ==> a@[j] == b@[j],
        decreases an - i,
    {
        if a.get_char(i) != b.get_char(i) {
            return false;
        }
        i = i + 1;
    }
    proof {
        assert(a@ =~= b@);
    }
    true
}

// ---------------------------------------------------------------------------
// Decimal digits
// ---------------------------------------------------------------------------

/// Does `c` stand for a decimal digit?
pub open spec fn spec_is_digit(c: char) -> bool {
    '0' <= c && c <= '9'
}

/// Executable check that `c` is an ASCII decimal digit.
pub fn is_digit(c: char) -> (r: bool)
    ensures
        r == spec_is_digit(c),
{
    '0' <= c && c <= '9'
}

/// The digit character for a value below ten.
pub open spec fn digit_char(d: int) -> char
    recommends
        0 <= d < 10,
{
    if d == 0 {
        '0'
    } else if d == 1 {
        '1'
    } else if d == 2 {
        '2'
    } else if d == 3 {
        '3'
    } else if d == 4 {
        '4'
    } else if d == 5 {
        '5'
    } else if d == 6 {
        '6'
    } else if d == 7 {
        '7'
    } else if d == 8 {
        '8'
    } else {
        '9'
    }
}

fn digit_exec(d: u64) -> (r: char)
    requires
        d < 10,
    ensures
        r == digit_char(d as int),
{
    if d == 0 {
        '0'
    } else if d == 1 {
        '1'
    } else if d == 2 {
        '2'
    } else if d == 3 {
        '3'
    } else if d == 4 {
        '4'
    } else if d == 5 {
        '5'
    } else if d == 6 {
        '6'
    } else if d == 7 {
        '7'
    } else if d == 8 {
        '8'
    } else {
        '9'
    }
}

/// The decimal representation of `n`, most significant digit first.
pub open spec fn spec_dec(n: nat) -> Seq<char>
    decreases n,
{
    if n < 10 {
        seq![digit_char(n as int)]
    } else {
        spec_dec(n / 10).push(digit_char((n % 10) as int))
    }
}

/// The decimal representation of `n` as characters.
pub fn dec_chars_u64(n: u64) -> (r: Vec<char>)
    ensures
        r@ == spec_dec(n as nat),
{
    let mut v: Vec<char> = Vec::new();
    let mut m: u64 = n;
    let d0: u64 = m % 10;
    v.insert(0, digit_exec(d0));
    proof {
        assert(v@ =~= seq![digit_char((n as nat % 10) as int)]);
        if n < 10 {
            assert(v@ =~= spec_dec(n as nat));
        } else {
            assert(spec_dec(n as nat) == spec_dec(n as nat / 10).push(
                digit_char((n as nat % 10) as int),
            ));
            assert(spec_dec(n as nat) =~= spec_dec(n as nat / 10) + v@);
        }
    }
    m = m / 10;
    while m > 0
        invariant
            m > 0 ==> spec_dec(n as nat) =~= spec_dec(m as nat) + v@,
            m == 0 ==> v@ =~= spec_dec(n as nat),
        decreases m,
    {
        let d: u64 = m % 10;
        let m2: u64 = m / 10;
        let mut v2 = v;
        v2.insert(0, digit_exec(d));
        proof {
            assert(v2@ =~= seq![digit_char((m as nat % 10) as int)] + v@);
            if m < 10 {
                assert(m2 == 0);
                assert(spec_dec(m as nat) =~= seq![digit_char((m as nat % 10) as int)]);
                assert(v2@ =~= spec_dec(n as nat));
            } else {
                assert(m2 > 0);
                assert(spec_dec(m as nat) == spec_dec(m as nat / 10).push(
                    digit_char((m as nat % 10) as int),
                ));
                assert(spec_dec(m as nat) =~= spec_dec(m2 as nat) + seq![
                    digit_char((m as nat % 10) as int),
                ]);
                assert(spec_dec(n as nat) =~= spec_dec(m2 as nat) + v2@);
            }
        }
        v = v2;
        m = m2;
    }
    v
}

/// The decimal representation of `n` as a string.
pub fn fmt_u64(n: u64) -> (r: String)
    ensures
        r@ == spec_dec(n as nat),
{
    let v = dec_chars_u64(n);
    string_of(&v)
}

// ---------------------------------------------------------------------------
// Decimal parsing
// ---------------------------------------------------------------------------

/// The value of a digit string, most significant digit first.
pub open spec fn dec_value(s: Seq<char>) -> int
    decreases s.len(),
{
    if s.len() == 0 {
        0
    } else {
        dec_value(s.drop_last()) * 10 + (s.last() as int - '0' as int)
    }
}

/// `s` with one leading `+` sign removed, if present.
pub open spec fn sign_stripped(s: Seq<char>) -> Seq<char> {
    if s.len() > 0 && s[0] == '+' {
        s.skip(1)
    } else {
        s
    }
}

/// Does every character of `s` stand for a decimal digit?
pub open spec fn all_digits(s: Seq<char>) -> bool {
    forall|i: int| 0 <= i < s.len() ==> spec_is_digit(#[trigger] s[i])
}

/// Is `s` a well-formed unsigned decimal numeral (std's `u64` grammar:
/// an optional `+` sign followed by at least one digit), with a value that
/// fits in a `u64`?
pub open spec fn is_u64_numeral(s: Seq<char>) -> bool {
    &&& sign_stripped(s).len() > 0
    &&& all_digits(sign_stripped(s))
    &&& dec_value(sign_stripped(s)) <= u64::MAX
}

/// The value a well-formed unsigned numeral denotes.
pub open spec fn u64_numeral_value(s: Seq<char>) -> int {
    dec_value(sign_stripped(s))
}

/// `s` with one leading `+` or `-` sign removed, if present.
pub open spec fn int_sign_stripped(s: Seq<char>) -> Seq<char> {
    if s.len() > 0 && (s[0] == '+' || s[0] == '-') {
        s.skip(1)
    } else {
        s
    }
}

/// Does `s` start with a minus sign?
pub open spec fn is_negative_numeral(s: Seq<char>) -> bool {
    s.len() > 0 && s[0] == '-'
}

/// Is `s` a well-formed signed decimal numeral (std's `i64` grammar) with a
/// value that fits in an `i64`?
pub open spec fn is_i64_numeral(s: Seq<char>) -> bool {
    &&& int_sign_stripped(s).len() > 0
    &&& all_digits(int_sign_stripped(s))
    &&& (if is_negative_numeral(s) {
        dec_value(int_sign_stripped(s)) <= 0x8000_0000_0000_0000
    } else {
        dec_value(int_sign_stripped(s)) <= i64::MAX
    })
}

/// The value a well-formed signed numeral denotes.
pub open spec fn i64_numeral_value(s: Seq<char>) -> int {
    if is_negative_numeral(s) {
        -dec_value(int_sign_stripped(s))
    } else {
        dec_value(int_sign_stripped(s))
    }
}

/// Parses the character sequence as `i64::from_str` would: `Some` exactly
/// on well-formed signed numerals whose value fits.
pub fn parse_i64_chars(v: &Vec<char>) -> (r: Option<i64>)
    ensures
        r matches Some(n) ==> is_i64_numeral(v@) && n == i64_numeral_value(v@),
        r is None ==> !is_i64_numeral(v@),
{
    let mut negative: bool = false;
    let mut digits: Vec<char> = Vec::new();
    let mut start: usize = 0;
    if v.len() > 0 && (v[0] == '+' || v[0] == '-') {
        negative = v[0] == '-';
        start = 1;
    }
    proof {
        assert(negative == is_negative_numeral(v@));
        assert(int_sign_stripped(v@) =~= v@.subrange(start as int, v@.len() as int));
    }
    let mut i: usize = start;
    while i < v.len()
        invariant
            start <= i <= v.len(),
            digits@ =~= v@.subrange(start as int, i as int),
        decreases v.len() - i,
    {
        digits.push(v[i]);
        i = i + 1;
    }
    proof {
        assert(digits@ =~= int_sign_stripped(v@));
    }
    if digits.len() == 0 {
        return None;
    }
    if digits[0] == '+' {
        proof {
            assert(!spec_is_digit(int_sign_stripped(v@)[0]));
            assert(!all_digits(int_sign_stripped(v@)));
        }
        return None;
    }
    proof {
        assert(sign_stripped(digits@) =~= digits@);
    }
    let magnitude = match parse_u64_chars(&digits) {
        Some(m) => m,
        None => {
            proof {
                if all_digits(int_sign_stripped(v@)) {
                    if dec_value(digits@) <= u64::MAX {
                        assert(is_u64_numeral(digits@));
                    }
                    assert(dec_value(int_sign_stripped(v@)) > u64::MAX);
                }
            }
            return None;
        },
    };
    proof {
        lemma_dec_value_nonneg(digits@);
    }
    if negative {
        if magnitude > 0x8000_0000_0000_0000u64 {
            return None;
        }
        if magnitude == 0x8000_0000_0000_0000u64 {
            return Some(i64::MIN);
        }
        let m: i64 = magnitude as i64;
        proof {
            assert(magnitude as i64 == magnitude as int) by (bit_vector)
                requires
                    magnitude < 0x8000_0000_0000_0000u64,
            ;
        }
        Some(0i64 - m)
    } else {
        if magnitude > 0x7fff_ffff_ffff_ffffu64 {
            return None;
        }
        let m: i64 = magnitude as i64;
        proof {
            assert(magnitude as i64 == magnitude as int) by (bit_vector)
                requires
                    magnitude <= 0x7fff_ffff_ffff_ffffu64,
            ;
        }
        Some(m)
    }
}

/// Parses the character sequence as `u64::from_str` would, after the sign:
/// `Some` exactly on well-formed numerals whose value fits.
pub fn parse_u64_chars(v: &Vec<char>) -> (r: Option<u64>)
    ensures
        r matches Some(n) ==> is_u64_numeral(v@) && n == u64_numeral_value(v@),
        r is None ==> !is_u64_numeral(v@),
{
    let mut start: usize = 0;
    if v.len() > 0 && v[0] == '+' {
        start = 1;
    }
    if start >= v.len() {
        return None;
    }
    let mut acc: u64 = 0;
    let mut i: usize = start;
    while i < v.len()
        invariant
            start <= i <= v.len(),
            start <= 1,
            (v@.len() > 0 && v@[0] == '+') <==> start == 1,
            acc as int == dec_value(v@.subrange(start as int, i as int)),
            forall|j: int| start <= j < i ==> spec_is_digit(#[trigger] v@[j]),
        decreases v.len() - i,
    {
        proof {
            assert(sign_stripped(v@) =~= v@.subrange(start as int, v@.len() as int));
        }
        let c = v[i];
        if !is_digit(c) {
            proof {
                assert(sign_stripped(v@)[i - start] == v@[i as int]);
                assert(!spec_is_digit(sign_stripped(v@)[i - start]));
                assert(!all_digits(sign_stripped(v@)));
            }
            return None;
        }
        let dig: u64 = char_digit_value(c);
        let m = match acc.checked_mul(10) {
            Some(x) => x,
            None => {
                proof {
                    assert(acc * 10 + dig > u64::MAX);
                    lemma_dec_value_overflow(v@, start as int, i as int, acc as int, dig as int);
                    assert(!is_u64_numeral(v@));
                }
                return None;
            },
        };
        let a = match m.checked_add(dig) {
            Some(x) => x,
            None => {
                proof {
                    lemma_dec_value_overflow(v@, start as int, i as int, acc as int, dig as int);
                    assert(!is_u64_numeral(v@));
                }
                return None;
            },
        };
        proof {
            assert(v@.subrange(start as int, i + 1).drop_last() =~= v@.subrange(
                start as int,
                i as int,
            ));
            assert(v@.subrange(start as int, i + 1).last() == v@[i as int]);
        }
        acc = a;
        i = i + 1;
    }
    proof {
        assert(sign_stripped(v@) =~= v@.subrange(start as int, v@.len() as int));
        assert(dec_value(sign_stripped(v@)) == acc as int);
        lemma_dec_value_nonneg(sign_stripped(v@));
        assert(is_u64_numeral(v@));
    }
    Some(acc)
}

fn char_digit_value(c: char) -> (r: u64)
    requires
        spec_is_digit(c),
    ensures
        r == c as int - '0' as int,
        r < 10,
{
    if c == '0' {
        0
    } else if c == '1' {
        1
    } else if c == '2' {
        2
    } else if c == '3' {
        3
    } else if c == '4' {
        4
    } else if c == '5' {
        5
    } else if c == '6' {
        6
    } else if c == '7' {
        7
    } else if c == '8' {
        8
    } else {
        9
    }
}

proof fn lemma_dec_value_nonneg(s: Seq<char>)
    requires
        forall|i: int| 0 <= i < s.len() ==> spec_is_digit(#[trigger] s[i]),
    ensures
        dec_value(s) >= 0,
    decreases s.len(),
{
    if s.len() > 0 {
        lemma_dec_value_nonneg(s.drop_last());
    }
}

/// A longer digit prefix denotes at least ten times the value, so once the
/// accumulator overflows the whole numeral is out of range.
proof fn lemma_dec_value_prefix_le(s: Seq<char>, i: int)
    requires
        0 <= i <= s.len(),
        forall|j: int| 0 <= j < s.len() ==> spec_is_digit(#[trigger] s[j]),
    ensures
        dec_value(s.take(i)) <= dec_value(s),
    decreases s.len() - i,
{
    if i < s.len() {
        assert(s.take(i + 1).drop_last() =~= s.take(i));
        assert(s.take(i + 1).last() == s[i]);
        assert(dec_value(s.take(i + 1)) == dec_value(s.take(i)) * 10 + (s[i] as int
            - '0' as int));
        lemma_dec_value_nonneg(s.take(i));
        assert(dec_value(s.take(i)) <= dec_value(s.take(i + 1)));
        lemma_dec_value_prefix_le(s, i + 1);
    } else {
        assert(s.take(i) =~= s);
    }
}

proof fn lemma_dec_value_overflow(s: Seq<char>, start: int, i: int, acc: int, dig: int)
    requires
        0 <= start <= i < s.len(),
        forall|j: int| start <= j < i + 1 ==> spec_is_digit(#[trigger] s[j]),
        acc == dec_value(s.subrange(start, i)),
        dig == s[i] as int - '0' as int,
        acc * 10 + dig > u64::MAX,
    ensures
        !(dec_value(s.subrange(start, s.len() as int)) <= u64::MAX) || !(forall|j: int|
            0 <= j < s.subrange(start, s.len() as int).len() ==> spec_is_digit(
                #[trigger] s.subrange(start, s.len() as int)[j],
            )),
{
    let d = s.subrange(start, s.len() as int);
    if forall|j: int| 0 <= j < d.len() ==> spec_is_digit(#[trigger] d[j]) {
        assert(d.take(i + 1 - start) =~= s.subrange(start, i + 1));
        assert(s.subrange(start, i + 1).drop_last() =~= s.subrange(start, i));
        assert(s.subrange(start, i + 1).last() == s[i]);
        assert(dec_value(s.subrange(start, i + 1)) == acc * 10 + dig);
        lemma_dec_value_prefix_le(d, i + 1 - start);
        assert(dec_value(d) >= acc * 10 + dig);
    }
}

// ---------------------------------------------------------------------------
// Trimming
// ---------------------------------------------------------------------------

/// `s` with leading whitespace removed.
pub open spec fn trim_start_spec(s: Seq<char>) -> Seq<char>
    decreases s.len(),
{
    if s.len() > 0 && is_space_char(s[0]) {
        trim_start_spec(s.skip(1))
    } else {
        s
    }
}

/// `s` with trailing whitespace removed.
pub open spec fn trim_end_spec(s: Seq<char>) -> Seq<char>
    decreases s.len(),
{
    if s.len() > 0 && is_space_char(s.last()) {
        trim_end_spec(s.drop_last())
    } else {
        s
    }
}

/// `s` with both leading and trailing whitespace removed; what `str::trim`
/// leaves.
pub open spec fn trim_spec(s: Seq<char>) -> Seq<char> {
    trim_end_spec(trim_start_spec(s))
}

proof fn lemma_trim_start_at(s: Seq<char>, lo: int)
    requires
        0 <= lo <= s.len(),
        forall|j: int| 0 <= j < lo ==> is_space_char(#[trigger] s[j]),
        lo == s.len() || !is_space_char(s[lo]),
    ensures
        trim_start_spec(s) =~= s.skip(lo),
    decreases lo,
{
    if lo == 0 {
        assert(s.skip(0) =~= s);
    } else {
        assert(is_space_char(s[0]));
        let t = s.skip(1);
        assert(forall|j: int| 0 <= j < lo - 1 ==> is_space_char(#[trigger] t[j]));
        lemma_trim_start_at(t, lo - 1);
        assert(t.skip(lo - 1) =~= s.skip(lo));
    }
}

proof fn lemma_trim_end_at(s: Seq<char>, hi: int)
    requires
        0 <= hi <= s.len(),
        forall|j: int| hi <= j < s.len() ==> is_space_char(#[trigger] s[j]),
        hi == 0 || !is_space_char(s[hi - 1]),
    ensures
        trim_end_spec(s) =~= s.take(hi),
    decreases s.len() - hi,
{
    if hi == s.len() {
        assert(s.take(hi) =~= s);
    } else {
        assert(is_space_char(s.last()));
        let t = s.drop_last();
        assert(forall|j: int| hi <= j < t.len() ==> is_space_char(#[trigger] t[j]));
        lemma_trim_end_at(t, hi);
        assert(t.take(hi) =~= s.take(hi));
    }
}

/// The characters of `v` with surrounding whitespace removed.
pub fn trim_chars(v: &Vec<char>) -> (r: Vec<char>)
    ensures
        r@ == trim_spec(v@),
{
    let n = v.len();
    let mut lo: usize = 0;
    while lo < n && char_is_space(v[lo])
        invariant
            lo <= n,
            n == v@.len(),
            forall|j: int| 0 <= j < lo ==> is_space_char(#[trigger] v@[j]),
        decreases n - lo,
    {
        lo = lo + 1;
    }
    let mut hi: usize = n;
    while hi > lo && char_is_space(v[hi - 1])
        invariant
            lo <= hi <= n,
            n == v@.len(),
            forall|j: int| 0 <= j < lo ==> is_space_char(#[trigger] v@[j]),
            lo == n || !is_space_char(v@[lo as int]),
            forall|j: int| hi <= j < n ==> is_space_char(#[trigger] v@[j]),
        decreases hi,
    {
        hi = hi - 1;
    }
    let mut r: Vec<char> = Vec::new();
    let mut i: usize = lo;
    while i < hi
        invariant
            lo <= i <= hi <= n,
            n == v@.len(),
            r@ =~= v@.subrange(lo as int, i as int),
        decreases hi - i,
    {
        r.push(v[i]);
        i = i + 1;
    }
    proof {
        lemma_trim_start_at(v@, lo as int);
        let t = v@.skip(lo as int);
        if hi == lo {
            lemma_trim_end_at(t, 0);
        } else {
            assert(!is_space_char(t[hi - lo - 1]));
            lemma_trim_end_at(t, hi - lo as int);
        }
        assert(t.take(hi - lo as int) =~= v@.subrange(lo as int, hi as int));
        assert(r@ =~= trim_spec(v@));
    }
    r
}

// ---------------------------------------------------------------------------
// ASCII lowercasing
// ---------------------------------------------------------------------------

/// The ASCII-lowercase form of one character; other characters unchanged.
pub open spec fn ascii_lower_char(c: char) -> char {
    if 'A' <= c && c <= 'Z' {
        ((c as u32) + 32) as char
    } else {
        c
    }
}

/// The ASCII-lowercase form of a character sequence.
pub open spec fn ascii_lower_seq(s: Seq<char>) -> Seq<char> {
    s.map_values(|c: char| ascii_lower_char(c))
}

fn ascii_lower_exec(c: char) -> (r: char)
    ensures
        r == ascii_lower_char(c),
{
    let u: u32 = c as u32;
    if 65 <= u && u <= 90 {
        let w: u32 = u + 32;
        let b: u8 = w as u8;
        proof {
            assert(w as u8 as u32 == w) by (bit_vector)
                requires
                    w < 256,
            ;
        }
        b as char
    } else {
        c
    }
}

/// The characters of `v`, ASCII-lowercased.
pub fn ascii_lower_chars(v: &Vec<char>) -> (r: Vec<char>)
    ensures
        r@ == ascii_lower_seq(v@),
{
    let mut r: Vec<char> = Vec::new();
    let mut i: usize = 0;
    while i < v.len()
        invariant
            i <= v.len(),
            r@ =~= ascii_lower_seq(v@).take(i as int),
        decreases v.len() - i,
    {
        r.push(ascii_lower_exec(v[i]));
        i = i + 1;
    }
    proof {
        assert(r@ =~= ascii_lower_seq(v@));
    }
    r
}

// ---------------------------------------------------------------------------
// HTML escaping
// ---------------------------------------------------------------------------

/// The HTML escape of one character: `&`, `<` and `>` become entities.
pub open spec fn escape_char(c: char) -> Seq<char> {
    if c == '&' {
        seq!['&', 'a', 'm', 'p', ';']
    } else if c == '<' {
        seq!['&', 'l', 't', ';']
    } else if c == '>' {
        seq!['&', 'g', 't', ';']
    } else {
        seq![c]
    }
}

/// The HTML escape of a character sequence.
pub open spec fn escape_seq(s: Seq<char>) -> Seq<char>
    decreases s.len(),
{
    if s.len() == 0 {
        Seq::empty()
    } else {
        escape_seq(s.drop_last()) + escape_char(s.last())
    }
}

/// Escapes `&`, `<` and `>` for safe interpolation into HTML text.
pub fn escape_html(v: &Vec<char>) -> (r: Vec<char>)
    ensures
        r@ == escape_seq(v@),
{
    let mut r: Vec<char> = Vec::new();
    let mut i: usize = 0;
    while i < v.len()
        invariant
            i <= v.len(),
            r@ =~= escape_seq(v@.take(i as int)),
        decreases v.len() - i,
    {
        let c = v[i];
        if c == '&' {
            r.push('&');
            r.push('a');
            r.push('m');
            r.push('p');
            r.push(';');
        } else if c == '<' {
            r.push('&');
            r.push('l');
            r.push('t');
            r.push(';');
        } else if c == '>' {
            r.push('&');
            r.push('g');
            r.push('t');
            r.push(';');
        } else {
            r.push(c);
        }
        proof {
            assert(v@.take(i + 1).drop_last() =~= v@.take(i as int));
            assert(v@.take(i + 1).last() == v@[i as int]);
            assert(r@ =~= escape_seq(v@.take(i + 1)));
        }
        i = i + 1;
    }
    proof {
        assert(v@.take(v@.len() as int) =~= v@);
    }
    r
}

} // verus!
