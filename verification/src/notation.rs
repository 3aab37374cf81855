//! The textual notation of intervals: parsing and formatting tokens such
//! as `"M3"`, `"d5"`, `"AA2"` and `"P8"`.
//!
//! A token is a run of quality characters followed by a 1-based size
//! number; the number may exceed 7 to express compound intervals, so
//! `"m9"` is a minor second one octave up.  A token with no quality run
//! is read as a plain semitone count.  The formatter is the exact
//! inverse on every interval `build` can produce.

use crate::error::{IntervalError, ResonataError};
use crate::intervals::{spec_build, spec_from_semitones, Interval, MAX_SEMITONES};
use crate::quality::Quality;
use crate::size::{size_from_ordinal, size_ordinal, Size};
use vstd::prelude::*;
use vstd::string::StrSliceExecFns;
use vstd::string::StringExecFns;

verus! {

/// Whether a character can open an interval token: the five quality
/// letters.
pub open spec fn is_quality_char(c: char) -> bool {
    c == 'A' || c == 'd' || c == 'M' || c == 'm' || c == 'P'
}

/// Whether a character is a decimal digit.
pub open spec fn is_digit_char(c: char) -> bool {
    48 <= (c as u32) <= 57
}

/// The value of a decimal digit character.
pub open spec fn digit_val(c: char) -> int {
    (c as u32) - 48
}

/// The character for a decimal digit value between 0 and 9.
pub open spec fn digit_char(d: int) -> char {
    if d == 0 {
        '0'
    } else if d == 1 {
        '1'
    } else if d == 2 {
        '2'
    } else if d == 3 {
        '3'
    } else if d == 4 {
        '4'
    } else if d == 5 {
        '5'
    } else if d == 6 {
        '6'
    } else if d == 7 {
        '7'
    } else if d == 8 {
        '8'
    } else {
        '9'
    }
}

/// The numeric value of a digit sequence, most significant digit first.
pub open spec fn digits_value(t: Seq<char>) -> int
    decreases t.len(),
{
    if t.len() == 0 {
        0
    } else {
        digits_value(t.drop_last()) * 10 + digit_val(t.last())
    }
}

/// Whether every character of a sequence is a decimal digit.
pub open spec fn all_digits(t: Seq<char>) -> bool {
    forall|i: int| 0 <= i < t.len() ==> is_digit_char(#[trigger] t[i])
}

/// What parsing an unsigned digit run yields: its value, when the run is
/// non-empty, all digits, and no larger than `bound`.
pub open spec fn spec_parse_digits(t: Seq<char>, bound: int) -> Option<int> {
    if t.len() > 0 && all_digits(t) && digits_value(t) <= bound {
        Some(digits_value(t))
    } else {
        None
    }
}

/// The value of a digit sequence is never negative.
pub proof fn lemma_digits_value_nonneg(t: Seq<char>)
    requires
        all_digits(t),
    ensures
        digits_value(t) >= 0,
    decreases t.len(),
{
    if t.len() > 0 {
        assert(all_digits(t.drop_last())) by {
            assert(forall|i: int|
                0 <= i < t.len() - 1 ==> #[trigger] t.drop_last()[i] == t[i]);
        }
        lemma_digits_value_nonneg(t.drop_last());
    }
}

/// Reads an unsigned decimal number from a whole string: `Some` of its
/// value when the string is a non-empty digit run whose value is at most
/// `bound`, `None` otherwise.
fn parse_digits(s: &str, bound: u32) -> (r: Option<u32>)
    ensures
        r matches Some(v) ==> spec_parse_digits(s@, bound as int) == Some(v as int),
        r is None ==> spec_parse_digits(s@, bound as int) is None,
{
    let len = s.unicode_len();
    if len == 0 {
        return None;
    }
    let mut acc: u64 = 0;
    let mut over = false;
    let mut i: usize = 0;
    while i < len
        invariant
            0 <= i <= len,
            len == s@.len(),
            forall|j: int| 0 <= j < i ==> is_digit_char(#[trigger] s@[j]),
            !over ==> acc == digits_value(s@.subrange(0, i as int)) && acc <= bound,
            over ==> digits_value(s@.subrange(0, i as int)) > bound,
            bound <= u32::MAX,
        decreases len - i,
    {
        let c = s.get_char(i);
        let u = c as u32;
        if u < 48 || u > 57 {
            assert(!is_digit_char(s@[i as int]));
            return None;
        }
        let d = (u - 48) as u64;
        proof {
            assert(s@.subrange(0, i + 1) =~= s@.subrange(0, i as int).push(s@[i as int]));
            assert(s@.subrange(0, i + 1).drop_last() =~= s@.subrange(0, i as int));
            if over {
                lemma_digits_value_nonneg(s@.subrange(0, i as int));
            }
        }
        if !over {
            acc = acc * 10 + d;
            if acc > bound as u64 {
                over = true;
            }
        }
        i = i + 1;
    }
    proof {
        assert(s@.subrange(0, len as int) =~= s@);
    }
    if over {
        None
    } else {
        Some(acc as u32)
    }
}

/// What parsing an unsigned token yields: an optional leading `+`, then
/// a digit run whose value is at most `bound`.
pub open spec fn spec_parse_unsigned(t: Seq<char>, bound: int) -> Option<int> {
    if t.len() >= 1 && t[0] == '+' {
        spec_parse_digits(t.skip(1), bound)
    } else {
        spec_parse_digits(t, bound)
    }
}

/// Reads an unsigned decimal token, allowing one leading `+` as the
/// machine's number parser does.
fn parse_unsigned(s: &str, bound: u32) -> (r: Option<u32>)
    ensures
        r matches Some(v) ==> spec_parse_unsigned(s@, bound as int) == Some(v as int),
        r is None ==> spec_parse_unsigned(s@, bound as int) is None,
{
    let len = s.unicode_len();
    if len >= 1 && s.get_char(0) == '+' {
        let rest = s.substring_char(1, len);
        parse_digits(rest, bound)
    } else {
        parse_digits(s, bound)
    }
}

/// What parsing a signed token yields: an optional sign, then a digit
/// run; the value must fit a 32-bit signed integer.
pub open spec fn spec_parse_signed(t: Seq<char>) -> Option<int> {
    if t.len() >= 1 && t[0] == '-' {
        match spec_parse_digits(t.skip(1), 0x8000_0000) {
            Some(v) => Some(-v),
            None => None,
        }
    } else {
        spec_parse_unsigned(t, 0x7fff_ffff)
    }
}

/// Reads a signed decimal token into a 32-bit integer.
pub(crate) fn parse_signed(s: &str) -> (r: Option<i32>)
    ensures
        r matches Some(v) ==> spec_parse_signed(s@) == Some(v as int),
        r is None ==> spec_parse_signed(s@) is None,
{
    let len = s.unicode_len();
    if len >= 1 && s.get_char(0) == '-' {
        let rest = s.substring_char(1, len);
        match parse_digits(rest, 0x8000_0000u32) {
            Some(v) => Some((-(v as i64)) as i32),
            None => None,
        }
    } else {
        match parse_unsigned(s, 0x7fff_ffffu32) {
            Some(v) => Some(v as i32),
            None => None,
        }
    }
}

/// Whether a character separates the items of a list token: a comma or
/// one of the machine's simple whitespace characters.
pub open spec fn is_separator_char(c: char) -> bool {
    c == ' ' || c == ',' || c == '\t' || c == '\n' || c == '\r'
}

/// The length of the leading run of non-separator characters.
pub open spec fn token_run_len(t: Seq<char>) -> int
    decreases t.len(),
{
    if t.len() == 0 || is_separator_char(t[0]) {
        0
    } else {
        1 + token_run_len(t.skip(1))
    }
}

/// A non-empty token's run is at least one character and at most the
/// whole sequence.
pub proof fn lemma_token_run_len_bounds(t: Seq<char>)
    ensures
        0 <= token_run_len(t) <= t.len(),
    decreases t.len(),
{
    if t.len() == 0 || is_separator_char(t[0]) {
    } else {
        lemma_token_run_len_bounds(t.skip(1));
    }
}

/// The token run is the unique cut: everything before it is a
/// non-separator and the character at it, if any, is a separator.
pub proof fn lemma_token_run_len_unique(t: Seq<char>, k: int)
    requires
        0 <= k <= t.len(),
        forall|i: int| 0 <= i < k ==> !is_separator_char(#[trigger] t[i]),
        k < t.len() ==> is_separator_char(t[k]),
    ensures
        token_run_len(t) == k,
    decreases k,
{
    if k == 0 {
    } else {
        let u = t.skip(1);
        assert(forall|i: int| 0 <= i < k - 1 ==> #[trigger] u[i] == t[i + 1]);
        lemma_token_run_len_unique(u, k - 1);
    }
}

/// The tokens of a list: the maximal runs of non-separator characters,
/// in order.
pub open spec fn spec_tokens(t: Seq<char>) -> Seq<Seq<char>>
    decreases t.len(),
    via spec_tokens_decreases
{
    if t.len() == 0 {
        Seq::empty()
    } else if is_separator_char(t[0]) {
        spec_tokens(t.skip(1))
    } else {
        seq![t.take(token_run_len(t))] + spec_tokens(t.skip(token_run_len(t)))
    }
}

#[via_fn]
proof fn spec_tokens_decreases(t: Seq<char>) {
    if t.len() != 0 && !is_separator_char(t[0]) {
        lemma_token_run_len_bounds(t);
        lemma_token_run_len_bounds(t.skip(1));
        assert(token_run_len(t) == 1 + token_run_len(t.skip(1)));
    }
}

/// Whether a character separates list items.
fn separator_char_exec(c: char) -> (r: bool)
    ensures
        r == is_separator_char(c),
{
    c == ' ' || c == ',' || c == '\t' || c == '\n' || c == '\r'
}

/// Splits a list into its comma- or whitespace-separated tokens.
pub(crate) fn split_tokens(s: &str) -> (r: Vec<String>)
    ensures
        r.deep_view() == spec_tokens(s@),
{
    let len = s.unicode_len();
    let mut out: Vec<String> = Vec::new();
    let mut i: usize = 0;
    proof {
        assert(s@.skip(0) =~= s@);
        assert(out.deep_view() + spec_tokens(s@) =~= spec_tokens(s@));
    }
    while i < len
        invariant
            0 <= i <= len,
            len == s@.len(),
            spec_tokens(s@) == out.deep_view() + spec_tokens(s@.skip(i as int)),
        decreases len - i,
    {
        let c = s.get_char(i);
        if separator_char_exec(c) {
            proof {
                assert(s@.skip(i as int)[0] == s@[i as int]);
                assert(s@.skip(i as int).skip(1) =~= s@.skip(i + 1));
            }
            i = i + 1;
        } else {
            let start = i;
            let mut j = i + 1;
            while j < len && !separator_char_exec(s.get_char(j))
                invariant
                    start < j <= len,
                    len == s@.len(),
                    forall|m: int| start <= m < j ==> !is_separator_char(#[trigger] s@[m]),
                decreases len - j,
            {
                j = j + 1;
            }
            let token = s.substring_char(start, j);
            proof {
                let rest = s@.skip(start as int);
                assert(forall|m: int|
                    0 <= m < rest.len() ==> #[trigger] rest[m] == s@[m + start]);
                lemma_token_run_len_unique(rest, j - start);
                assert(token@ =~= rest.take(j - start));
                assert(rest.skip(j - start) =~= s@.skip(j as int));
            }
            let ghost prev = out.deep_view();
            out.push(String::from_str(token));
            proof {
                assert(out.deep_view() =~= prev.push(token@));
                assert(out.deep_view() + spec_tokens(s@.skip(j as int)) =~= prev + (seq![token@]
                    + spec_tokens(s@.skip(j as int))));
            }
            i = j;
        }
    }
    proof {
        assert(s@.skip(len as int) =~= Seq::<char>::empty());
        assert(out.deep_view() + spec_tokens(s@.skip(len as int)) =~= out.deep_view());
    }
    out
}

/// The run of quality letters a token opens with.
pub open spec fn quality_run_len(s: Seq<char>) -> int
    decreases s.len(),
{
    if s.len() == 0 || !is_quality_char(s[0]) {
        0
    } else {
        1 + quality_run_len(s.skip(1))
    }
}

/// The run length is the unique cut: everything before it is a quality
/// letter and the character at it, if any, is not.
pub proof fn lemma_quality_run_len_unique(s: Seq<char>, k: int)
    requires
        0 <= k <= s.len(),
        forall|i: int| 0 <= i < k ==> is_quality_char(#[trigger] s[i]),
        k < s.len() ==> !is_quality_char(s[k]),
    ensures
        quality_run_len(s) == k,
    decreases k,
{
    if k == 0 {
    } else {
        assert(is_quality_char(s[0]));
        let t = s.skip(1);
        assert(forall|i: int| 0 <= i < k - 1 ==> #[trigger] t[i] == s[i + 1]);
        lemma_quality_run_len_unique(t, k - 1);
    }
}

/// The run length never exceeds the token length, and everything before
/// it is a quality letter while the character at it, if any, is not.
pub proof fn lemma_quality_run_len_bounds(s: Seq<char>)
    ensures
        0 <= quality_run_len(s) <= s.len(),
        forall|i: int| 0 <= i < quality_run_len(s) ==> is_quality_char(#[trigger] s[i]),
        quality_run_len(s) < s.len() ==> !is_quality_char(s[quality_run_len(s)]),
    decreases s.len(),
{
    if s.len() == 0 || !is_quality_char(s[0]) {
    } else {
        let t = s.skip(1);
        lemma_quality_run_len_bounds(t);
        assert(forall|i: int| 0 <= i < t.len() ==> #[trigger] t[i] == s[i + 1]);
        let k = quality_run_len(s);
        assert(k == 1 + quality_run_len(t));
        assert forall|i: int| 0 <= i < k implies is_quality_char(#[trigger] s[i]) by {
            if i >= 1 {
                assert(is_quality_char(t[i - 1]));
            }
        }
        if k < s.len() {
            assert(s[k] == t[k - 1]);
        }
    }
}

/// Whether every character of a sequence equals the given one.
pub open spec fn all_eq(t: Seq<char>, c: char) -> bool {
    forall|i: int| 0 <= i < t.len() ==> #[trigger] t[i] == c
}

/// What parsing a quality token yields.  The single letters `m`, `M` and
/// `P` name minor, major and perfect; a uniform run of `d` or `A` names
/// a diminished or augmented quality whose degree is the run length, up
/// to 127.  Anything else, including a mixed run, is rejected.
pub open spec fn spec_parse_quality(t: Seq<char>) -> Result<Quality, ResonataError> {
    if t.len() == 1 && t[0] == 'm' {
        Ok(Quality::Minor)
    } else if t.len() == 1 && t[0] == 'M' {
        Ok(Quality::Major)
    } else if t.len() == 1 && t[0] == 'P' {
        Ok(Quality::Perfect)
    } else if t.len() >= 1 && all_eq(t, 'd') && t.len() <= 127 {
        Ok(Quality::Diminished(t.len() as u8))
    } else if t.len() >= 1 && all_eq(t, 'A') && t.len() <= 127 {
        Ok(Quality::Augmented(t.len() as u8))
    } else {
        Err(ResonataError::IntervalError(IntervalError::InvalidIntervalQuality))
    }
}

/// The notation of a quality: its letter, repeated degree-many times for
/// the altered qualities and once otherwise.
pub open spec fn quality_chars(q: Quality) -> Seq<char> {
    match q {
        Quality::Diminished(n) => Seq::new(n as nat, |i: int| 'd'),
        Quality::Augmented(n) => Seq::new(n as nat, |i: int| 'A'),
        Quality::Minor => seq!['m'],
        Quality::Major => seq!['M'],
        Quality::Perfect => seq!['P'],
    }
}

impl Quality {
    /// Reads a quality token: `"m"`, `"M"`, `"P"`, or a uniform run of
    /// `d` or `A` whose length is the degree.  An empty or mixed token
    /// fails with `InvalidIntervalQuality`.
    pub fn from_str(s: &str) -> (r: Result<Quality, ResonataError>)
        ensures
            r == spec_parse_quality(s@),
    {
        let len = s.unicode_len();
        if len == 0 {
            return Err(ResonataError::IntervalError(IntervalError::InvalidIntervalQuality));
        }
        let first = s.get_char(0);
        if len == 1 && first == 'm' {
            return Ok(Quality::Minor);
        }
        if len == 1 && first == 'M' {
            return Ok(Quality::Major);
        }
        if len == 1 && first == 'P' {
            return Ok(Quality::Perfect);
        }
        if first != 'd' && first != 'A' {
            assert(!all_eq(s@, 'd') && !all_eq(s@, 'A'));
            return Err(ResonataError::IntervalError(IntervalError::InvalidIntervalQuality));
        }
        assert(first == s@[0]);
        let mut i: usize = 1;
        while i < len
            invariant
                1 <= i <= len,
                len == s@.len(),
                first == s@[0],
                forall|j: int| 0 <= j < i ==> #[trigger] s@[j] == s@[0],
            decreases len - i,
        {
            if s.get_char(i) != first {
                assert(s@[i as int] != s@[0]);
                return Err(ResonataError::IntervalError(IntervalError::InvalidIntervalQuality));
            }
            assert(s@[i as int] == s@[0]);
            i = i + 1;
        }
        assert(all_eq(s@, s@[0]));
        if len > 127 {
            return Err(ResonataError::IntervalError(IntervalError::InvalidIntervalQuality));
        }
        if first == 'd' {
            Ok(Quality::Diminished(len as u8))
        } else {
            Ok(Quality::Augmented(len as u8))
        }
    }

    /// The notation of the quality: `m`, `M` or `P`, or the letter `d` or
    /// `A` repeated degree-many times.
    pub fn to_string(&self) -> (r: String)
        ensures
            r@ == quality_chars(*self),
    {
        proof {
            reveal_strlit("m");
            reveal_strlit("M");
            reveal_strlit("P");
            reveal_strlit("d");
            reveal_strlit("A");
            reveal_strlit("");
        }
        match self {
            Quality::Minor => {
                let r = String::from_str("m");
                assert(r@ =~= quality_chars(*self));
                r
            },
            Quality::Major => {
                let r = String::from_str("M");
                assert(r@ =~= quality_chars(*self));
                r
            },
            Quality::Perfect => {
                let r = String::from_str("P");
                assert(r@ =~= quality_chars(*self));
                r
            },
            Quality::Diminished(n) => {
                let r = repeat_letter("d", *n);
                assert(r@ =~= quality_chars(*self));
                r
            },
            Quality::Augmented(n) => {
                let r = repeat_letter("A", *n);
                assert(r@ =~= quality_chars(*self));
                r
            },
        }
    }
}

/// A string of `n` copies of a one-character string.
pub(crate) fn repeat_letter(letter: &str, n: u8) -> (r: String)
    requires
        letter@.len() == 1,
    ensures
        r@ == Seq::new(n as nat, |i: int| letter@[0]),
{
    let mut out = String::new();
    let mut i: u8 = 0;
    while i < n
        invariant
            0 <= i <= n,
            letter@.len() == 1,
            out@ =~= Seq::new(i as nat, |j: int| letter@[0]),
        decreases n - i,
    {
        out.append(letter);
        proof {
            assert(out@ =~= Seq::new((i + 1) as nat, |j: int| letter@[0]));
        }
        i = i + 1;
    }
    out
}

/// The decimal notation of a number between 1 and 9999, most significant
/// digit first and without leading zeroes.
pub open spec fn dec_chars(v: int) -> Seq<char> {
    if v < 10 {
        seq![digit_char(v)]
    } else if v < 100 {
        seq![digit_char(v / 10), digit_char(v % 10)]
    } else if v < 1000 {
        seq![digit_char(v / 100), digit_char((v / 10) % 10), digit_char(v % 10)]
    } else {
        seq![
            digit_char(v / 1000),
            digit_char((v / 100) % 10),
            digit_char((v / 10) % 10),
            digit_char(v % 10),
        ]
    }
}

/// The one-character string of a decimal digit value.
pub(crate) fn digit_str(d: u32) -> (r: &'static str)
    requires
        d <= 9,
    ensures
        r@ =~= seq![digit_char(d as int)],
{
    proof {
        reveal_strlit("0");
        reveal_strlit("1");
        reveal_strlit("2");
        reveal_strlit("3");
        reveal_strlit("4");
        reveal_strlit("5");
        reveal_strlit("6");
        reveal_strlit("7");
        reveal_strlit("8");
        reveal_strlit("9");
    }
    match d {
        0 => "0",
        1 => "1",
        2 => "2",
        3 => "3",
        4 => "4",
        5 => "5",
        6 => "6",
        7 => "7",
        8 => "8",
        _ => "9",
    }
}

/// The decimal string of a number between 1 and 9999.
fn number_string(v: u32) -> (r: String)
    requires
        1 <= v <= 9999,
    ensures
        r@ == dec_chars(v as int),
{
    let mut out = String::new();
    if v >= 1000 {
        out.append(digit_str(v / 1000));
        out.append(digit_str((v / 100) % 10));
        out.append(digit_str((v / 10) % 10));
        out.append(digit_str(v % 10));
        assert(out@ =~= dec_chars(v as int));
    } else if v >= 100 {
        out.append(digit_str(v / 100));
        out.append(digit_str((v / 10) % 10));
        out.append(digit_str(v % 10));
        assert(out@ =~= dec_chars(v as int));
    } else if v >= 10 {
        out.append(digit_str(v / 10));
        out.append(digit_str(v % 10));
        assert(out@ =~= dec_chars(v as int));
    } else {
        out.append(digit_str(v));
        assert(out@ =~= dec_chars(v as int));
    }
    out
}

/// What parsing a size token yields: `U` or the digits `2` through `7`.
pub open spec fn spec_parse_size(t: Seq<char>) -> Result<Size, ResonataError> {
    if t.len() == 1 && t[0] == 'U' {
        Ok(Size::Unison)
    } else if t.len() == 1 && t[0] == '2' {
        Ok(Size::Second)
    } else if t.len() == 1 && t[0] == '3' {
        Ok(Size::Third)
    } else if t.len() == 1 && t[0] == '4' {
        Ok(Size::Fourth)
    } else if t.len() == 1 && t[0] == '5' {
        Ok(Size::Fifth)
    } else if t.len() == 1 && t[0] == '6' {
        Ok(Size::Sixth)
    } else if t.len() == 1 && t[0] == '7' {
        Ok(Size::Seventh)
    } else {
        Err(ResonataError::IntervalError(IntervalError::InvalidIntervalFormat))
    }
}

/// The one-character notation of a size: `U` for a unison and the
/// 1-based ordinal digit otherwise.
pub open spec fn size_char(s: Size) -> char {
    match s {
        Size::Unison => 'U',
        Size::Second => '2',
        Size::Third => '3',
        Size::Fourth => '4',
        Size::Fifth => '5',
        Size::Sixth => '6',
        Size::Seventh => '7',
    }
}

impl Size {
    /// Reads a size token: `"U"` for a unison, or one digit `"2"`
    /// through `"7"`.  Anything else fails with `InvalidIntervalFormat`.
    pub fn from_str(s: &str) -> (r: Result<Size, ResonataError>)
        ensures
            r == spec_parse_size(s@),
    {
        let len = s.unicode_len();
        if len != 1 {
            return Err(ResonataError::IntervalError(IntervalError::InvalidIntervalFormat));
        }
        let c = s.get_char(0);
        match c {
            'U' => Ok(Size::Unison),
            '2' => Ok(Size::Second),
            '3' => Ok(Size::Third),
            '4' => Ok(Size::Fourth),
            '5' => Ok(Size::Fifth),
            '6' => Ok(Size::Sixth),
            '7' => Ok(Size::Seventh),
            _ => Err(ResonataError::IntervalError(IntervalError::InvalidIntervalFormat)),
        }
    }

    /// The one-character notation of the size.
    pub fn to_string(&self) -> (r: String)
        ensures
            r@ == seq![size_char(*self)],
    {
        proof {
            reveal_strlit("U");
            reveal_strlit("2");
            reveal_strlit("3");
            reveal_strlit("4");
            reveal_strlit("5");
            reveal_strlit("6");
            reveal_strlit("7");
        }
        let r = match self {
            Size::Unison => String::from_str("U"),
            Size::Second => String::from_str("2"),
            Size::Third => String::from_str("3"),
            Size::Fourth => String::from_str("4"),
            Size::Fifth => String::from_str("5"),
            Size::Sixth => String::from_str("6"),
            Size::Seventh => String::from_str("7"),
        };
        assert(r@ =~= seq![size_char(*self)]);
        r
    }
}

/// What parsing an interval token yields.  The token splits at the end
/// of its leading run of quality letters.  With no quality run the whole
/// token is read as a signed semitone count.  Otherwise the run is read
/// as a quality and the rest as a 1-based size number (`U` counts as 1);
/// a number `n` names the size with ordinal `(n - 1) % 7` raised by
/// `(n - 1) / 7` octaves, and 0 is rejected.
pub open spec fn spec_parse_interval(s: Seq<char>) -> Result<Interval, ResonataError> {
    let k = quality_run_len(s);
    let rest = s.skip(k);
    if k == 0 {
        match spec_parse_signed(s) {
            Some(v) => if 0 <= v <= MAX_SEMITONES as int {
                Ok(spec_from_semitones(v))
            } else {
                Err(
                    ResonataError::IntervalError(
                        IntervalError::InvalidIntervalSize(clip_to_i16(v)),
                    ),
                )
            },
            None => Err(ResonataError::IntervalError(IntervalError::InvalidIntervalFormat)),
        }
    } else {
        match spec_parse_quality(s.take(k)) {
            Ok(q) => if rest.len() == 1 && rest[0] == 'U' {
                spec_build(q, Size::Unison, 0u8)
            } else {
                match spec_parse_unsigned(rest, 255) {
                    Some(n) => if n == 0 {
                        Err(
                            ResonataError::IntervalError(IntervalError::InvalidIntervalSize(0i16)),
                        )
                    } else {
                        spec_build(q, size_from_ordinal((n - 1) % 7), (((n - 1) / 7) as u8))
                    },
                    None => Err(
                        ResonataError::IntervalError(IntervalError::InvalidIntervalFormat),
                    ),
                }
            },
            Err(e) => Err(e),
        }
    }
}

/// Whether a character is one of the five quality letters.
fn quality_char_exec(c: char) -> (r: bool)
    ensures
        r == is_quality_char(c),
{
    c == 'A' || c == 'd' || c == 'M' || c == 'm' || c == 'P'
}

/// A value clamped to the signed 16-bit range, the width the size error
/// carries.
pub open spec fn clip_to_i16(v: int) -> i16 {
    if v < -0x8000 {
        (-0x8000) as i16
    } else if v > 0x7fff {
        0x7fff as i16
    } else {
        v as i16
    }
}

/// The notation of an interval: the quality letters, then the 1-based
/// size number, seven higher per octave.  A perfect unison prints as
/// `"P1"`, a minor ninth as `"m9"`.
pub open spec fn spec_format_interval(i: Interval) -> Seq<char> {
    quality_chars(i.quality) + dec_chars(size_ordinal(i.size) + 1 + 7 * (i.octaves as int))
}

impl Interval {
    /// Reads an interval token: a run of quality letters followed by a
    /// 1-based size number, compound numbers allowed, or a bare semitone
    /// count.  `"M3"` is a major third, `"d12"` a diminished fifth one
    /// octave up, `"4"` the major third four semitones span.
    pub fn from_str(s: &str) -> (r: Result<Interval, ResonataError>)
        ensures
            r == spec_parse_interval(s@),
    {
        let len = s.unicode_len();
        let mut k: usize = 0;
        while k < len && quality_char_exec(s.get_char(k))
            invariant
                0 <= k <= len,
                len == s@.len(),
                forall|j: int| 0 <= j < k ==> is_quality_char(#[trigger] s@[j]),
            decreases len - k,
        {
            k = k + 1;
        }
        proof {
            lemma_quality_run_len_unique(s@, k as int);
        }
        if k == 0 {
            return match parse_signed(s) {
                Some(v) => {
                    if 0 <= v && v <= MAX_SEMITONES {
                        Interval::from_semitones(v)
                    } else {
                        let clipped: i16 = if v < -0x8000 {
                            -0x8000
                        } else if v > 0x7fff {
                            0x7fff
                        } else {
                            v as i16
                        };
                        Err(
                            ResonataError::IntervalError(
                                IntervalError::InvalidIntervalSize(clipped),
                            ),
                        )
                    }
                },
                None => Err(ResonataError::IntervalError(IntervalError::InvalidIntervalFormat)),
            };
        }
        let qpart = s.substring_char(0, k);
        let rest = s.substring_char(k, len);
        proof {
            assert(qpart@ =~= s@.take(k as int));
            assert(rest@ =~= s@.skip(k as int));
        }
        let quality = match Quality::from_str(qpart) {
            Ok(q) => q,
            Err(e) => {
                return Err(e);
            },
        };
        if rest.unicode_len() == 1 && rest.get_char(0) == 'U' {
            return Interval::build(quality, Size::Unison, 0);
        }
        match parse_unsigned(rest, 255) {
            Some(n) => {
                if n == 0 {
                    Err(ResonataError::IntervalError(IntervalError::InvalidIntervalSize(0)))
                } else {
                    let m = n - 1;
                    let size = Size::from_u8((m % 7) as u8);
                    let octaves = (m / 7) as u8;
                    Interval::build(quality, size, octaves)
                }
            },
            None => Err(ResonataError::IntervalError(IntervalError::InvalidIntervalFormat)),
        }
    }

    /// The notation of the interval: quality letters, then the 1-based
    /// size number, seven higher per octave.
    pub fn to_string(&self) -> (r: String)
        ensures
            r@ == spec_format_interval(*self),
    {
        let mut out = self.quality.to_string();
        let number: u32 = self.size.ordinal() as u32 + 1 + 7 * self.octaves as u32;
        let digits = number_string(number);
        out.append(digits.as_str());
        out
    }
}

/// A digit character is a digit, carries its value, and is none of the
/// quality letters, `U`, `+` or `-`.
proof fn lemma_digit_char_facts(d: int)
    requires
        0 <= d <= 9,
    ensures
        is_digit_char(digit_char(d)),
        digit_val(digit_char(d)) == d,
        !is_quality_char(digit_char(d)),
        digit_char(d) != 'U',
        digit_char(d) != '+',
        digit_char(d) != '-',
{
}

/// The decimal notation of a number between 1 and 9999 is a non-empty
/// digit run whose value is the number.
proof fn lemma_dec_chars_value(v: int)
    requires
        1 <= v <= 9999,
    ensures
        dec_chars(v).len() >= 1,
        all_digits(dec_chars(v)),
        digits_value(dec_chars(v)) == v,
{
    let t = dec_chars(v);
    assert(digits_value(Seq::<char>::empty()) == 0);
    if v < 10 {
        lemma_digit_char_facts(v);
        assert(t.drop_last() =~= Seq::<char>::empty());
        assert(digits_value(t) == digits_value(t.drop_last()) * 10 + digit_val(t.last()));
    } else if v < 100 {
        lemma_digit_char_facts(v / 10);
        lemma_digit_char_facts(v % 10);
        assert(t.drop_last() =~= seq![digit_char(v / 10)]);
        assert(t.drop_last().drop_last() =~= Seq::<char>::empty());
        assert(digits_value(t.drop_last()) == digits_value(t.drop_last().drop_last()) * 10
            + digit_val(t.drop_last().last()));
        assert(digits_value(t) == digits_value(t.drop_last()) * 10 + digit_val(t.last()));
    } else if v < 1000 {
        lemma_digit_char_facts(v / 100);
        lemma_digit_char_facts((v / 10) % 10);
        lemma_digit_char_facts(v % 10);
        assert(t.drop_last() =~= seq![digit_char(v / 100), digit_char((v / 10) % 10)]);
        assert(t.drop_last().drop_last() =~= seq![digit_char(v / 100)]);
        assert(t.drop_last().drop_last().drop_last() =~= Seq::<char>::empty());
        assert((v / 100) * 10 + (v / 10) % 10 == v / 10) by (nonlinear_arith)
            requires
                100 <= v < 1000,
        ;
        assert(digits_value(t.drop_last().drop_last()) == digits_value(
            t.drop_last().drop_last().drop_last(),
        ) * 10 + digit_val(t.drop_last().drop_last().last()));
        assert(digits_value(t.drop_last()) == digits_value(t.drop_last().drop_last()) * 10
            + digit_val(t.drop_last().last()));
        assert(digits_value(t) == digits_value(t.drop_last()) * 10 + digit_val(t.last()));
    } else {
        lemma_digit_char_facts(v / 1000);
        lemma_digit_char_facts((v / 100) % 10);
        lemma_digit_char_facts((v / 10) % 10);
        lemma_digit_char_facts(v % 10);
        assert(t.drop_last() =~= seq![
            digit_char(v / 1000),
            digit_char((v / 100) % 10),
            digit_char((v / 10) % 10),
        ]);
        assert(t.drop_last().drop_last() =~= seq![
            digit_char(v / 1000),
            digit_char((v / 100) % 10),
        ]);
        assert(t.drop_last().drop_last().drop_last() =~= seq![digit_char(v / 1000)]);
        assert(t.drop_last().drop_last().drop_last().drop_last() =~= Seq::<char>::empty());
        assert((v / 1000) * 10 + (v / 100) % 10 == v / 100) by (nonlinear_arith)
            requires
                1000 <= v <= 9999,
        ;
        assert((v / 100) * 10 + (v / 10) % 10 == v / 10) by (nonlinear_arith)
            requires
                1000 <= v <= 9999,
        ;
        let t3 = t.drop_last().drop_last().drop_last();
        assert(digits_value(t3) == digits_value(t3.drop_last()) * 10 + digit_val(t3.last()));
        assert(digits_value(t.drop_last().drop_last()) == digits_value(t3) * 10 + digit_val(
            t.drop_last().drop_last().last(),
        ));
        assert(digits_value(t.drop_last()) == digits_value(t.drop_last().drop_last()) * 10
            + digit_val(t.drop_last().last()));
        assert(digits_value(t) == digits_value(t.drop_last()) * 10 + digit_val(t.last()));
    }
}

/// The notation round-trip law: for every interval `build` can produce,
/// parsing its notation gives back exactly the same interval, down to
/// its spelling.
pub proof fn lemma_notation_round_trip(x: Interval)
    requires
        crate::intervals::interval_wf(x),
    ensures
        spec_parse_interval(spec_format_interval(x)) == Ok::<Interval, ResonataError>(x),
{
    let qc = quality_chars(x.quality);
    let v = size_ordinal(x.size) + 1 + 7 * (x.octaves as int);
    let dc = dec_chars(v);
    let s = spec_format_interval(x);
    assert(s == qc + dc);

    // The octave count is bounded by the semitone range, so the size
    // number has at most three digits.
    assert(x.octaves <= 21);
    assert(1 <= v <= 154);
    lemma_dec_chars_value(v);
    assert forall|i: int| 0 <= i < dc.len() implies !is_quality_char(#[trigger] dc[i]) by {
        assert(is_digit_char(dc[i]));
    }

    // The quality run of the token is exactly the quality letters.
    let k = qc.len() as int;
    assert(k >= 1);
    assert(forall|i: int| 0 <= i < k ==> #[trigger] s[i] == qc[i]);
    assert forall|i: int| 0 <= i < k implies is_quality_char(#[trigger] s[i]) by {
        match x.quality {
            Quality::Diminished(n) => assert(qc[i] == 'd'),
            Quality::Augmented(n) => assert(qc[i] == 'A'),
            _ => {},
        }
    }
    assert(s[k] == dc[0]);
    lemma_quality_run_len_unique(s, k);
    assert(s.take(k) =~= qc);
    assert(s.skip(k) =~= dc);

    // The quality letters read back as the quality itself.
    assert(spec_parse_quality(qc) == Ok::<Quality, ResonataError>(x.quality)) by {
        match x.quality {
            Quality::Diminished(n) => {
                assert(all_eq(qc, 'd'));
                assert(qc[0] == 'd');
                assert(1 <= n <= 127);
            },
            Quality::Augmented(n) => {
                assert(all_eq(qc, 'A'));
                assert(qc[0] == 'A');
                assert(1 <= n <= 127);
            },
            _ => {},
        }
    }

    // The digits read back as the size number, which recovers the size
    // ordinal and the octave count.
    assert(dc[0] != 'U' && dc[0] != '+') by {
        assert(is_digit_char(dc[0]));
        lemma_digit_char_facts(digit_val(dc[0]));
    }
    assert(spec_parse_unsigned(dc, 255) == Some(v));
    let ord = size_ordinal(x.size);
    assert((v - 1) % 7 == ord && (v - 1) / 7 == x.octaves as int) by (nonlinear_arith)
        requires
            v == ord + 1 + 7 * (x.octaves as int),
            0 <= ord < 7,
            0 <= x.octaves as int,
    ;
    assert(size_from_ordinal(ord) == x.size);
    crate::intervals::lemma_wf_iff_buildable(x);
}

} // verus!
