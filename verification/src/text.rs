//! Text primitives: comparison, trimming, case folding, decimal numbers.

use vstd::prelude::*;
use vstd::string::*;

use crate::collections;

verus! {

/// `str::eq`: two string slices are equal when they hold the same characters.
pub assume_specification[ <str as PartialEq>::eq ](a: &str, b: &str) -> (r: bool)
    ensures
        r == (a@ == b@),
;

/// Whether `a` and `b` hold the same characters.
pub(crate) fn same_text(a: &str, b: &str) -> (r: bool)
    ensures
        r == (a@ == b@),
{
    *a == *b
}

/// Whether both options are absent or both hold the same characters.
pub(crate) fn same_optional_text(a: &Option<String>, b: &Option<String>) -> (r: bool)
    ensures
        r == (optional_text(*a) == optional_text(*b)),
{
    match (a, b) {
        (None, None) => true,
        (Some(x), Some(y)) => same_text(x.as_str(), y.as_str()),
        _ => false,
    }
}

/// The characters of an optional string.
pub open spec fn optional_text(v: Option<String>) -> Option<Seq<char>> {
    match v {
        Some(s) => Some(s@),
        None => None,
    }
}

// ---------------------------------------------------------------------------
// Trimming
// ---------------------------------------------------------------------------

/// The Unicode `White_Space` property.
pub open spec fn is_white_space(c: char) -> bool {
    let u = c as u32;
    ||| 0x09 <= u <= 0x0d
    ||| u == 0x20
    ||| u == 0x85
    ||| u == 0xa0
    ||| u == 0x1680
    ||| 0x2000 <= u <= 0x200a
    ||| u == 0x2028
    ||| u == 0x2029
    ||| u == 0x202f
    ||| u == 0x205f
    ||| u == 0x3000
}

/// `s` without its leading white space.
pub open spec fn trim_start(s: Seq<char>) -> Seq<char>
    decreases s.len(),
{
    if s.len() > 0 && is_white_space(s.first()) {
        trim_start(s.drop_first())
    } else {
        s
    }
}

/// `s` without its trailing white space.
pub open spec fn trim_end(s: Seq<char>) -> Seq<char>
    decreases s.len(),
{
    if s.len() > 0 && is_white_space(s.last()) {
        trim_end(s.drop_last())
    } else {
        s
    }
}

/// `s` without its leading and trailing white space.
pub open spec fn trim(s: Seq<char>) -> Seq<char> {
    trim_end(trim_start(s))
}

/// `str::trim`: the slice without leading and trailing white space, where white
/// space is the Unicode `White_Space` property.
pub assume_specification[ str::trim ](s: &str) -> (r: &str)
    ensures
        r@ == trim(s@),
;

/// A raw setting as the configuration reads it: trimmed, and absent when nothing
/// is left.
pub open spec fn setting(raw: Option<Seq<char>>) -> Option<Seq<char>> {
    match raw {
        Some(s) => if trim(s).len() == 0 {
            None
        } else {
            Some(trim(s))
        },
        None => None,
    }
}

/// Trim a raw value and treat empty as absent.
pub fn trimmed(v: Option<String>) -> (r: Option<String>)
    ensures
        optional_text(r) == setting(optional_text(v)),
{
    match v {
        None => None,
        Some(v) => {
            let t = v.as_str().trim();
            if t.is_empty() {
                None
            } else {
                Some(t.to_owned())
            }
        },
    }
}

proof fn lemma_trim_start_edge(s: Seq<char>)
    ensures
        trim_start(s).len() <= s.len(),
        trim_start(s).len() > 0 ==> !is_white_space(trim_start(s).first()),
        trim_start(s).len() > 0 ==> trim_start(s).last() == s.last(),
    decreases s.len(),
{
    if s.len() > 0 && is_white_space(s.first()) {
        lemma_trim_start_edge(s.drop_first());
    }
}

proof fn lemma_trim_end_edge(s: Seq<char>)
    ensures
        trim_end(s).len() <= s.len(),
        trim_end(s).len() > 0 ==> !is_white_space(trim_end(s).last()),
        trim_end(s).len() > 0 ==> trim_end(s).first() == s.first(),
    decreases s.len(),
{
    if s.len() > 0 && is_white_space(s.last()) {
        lemma_trim_end_edge(s.drop_last());
    }
}

/// Trimming a trimmed text changes nothing, and what is left neither starts nor
/// ends with white space.
pub proof fn trim_is_idempotent(s: Seq<char>)
    ensures
        trim(trim(s)) == trim(s),
        trim(s).len() > 0 ==> !is_white_space(trim(s).first()) && !is_white_space(trim(s).last()),
{
    lemma_trim_start_edge(s);
    lemma_trim_end_edge(trim_start(s));
}

proof fn lemma_trim_start_padding(pad: Seq<char>, s: Seq<char>)
    requires
        forall|i: int| 0 <= i < pad.len() ==> is_white_space(#[trigger] pad[i]),
    ensures
        trim_start(pad + s) == trim_start(s),
    decreases pad.len(),
{
    if pad.len() == 0 {
        assert(pad + s =~= s);
    } else {
        assert((pad + s).drop_first() =~= pad.drop_first() + s);
        lemma_trim_start_padding(pad.drop_first(), s);
    }
}

proof fn lemma_trim_end_padding(s: Seq<char>, pad: Seq<char>)
    requires
        forall|i: int| 0 <= i < pad.len() ==> is_white_space(#[trigger] pad[i]),
    ensures
        trim_end(s + pad) == trim_end(s),
    decreases pad.len(),
{
    if pad.len() == 0 {
        assert(s + pad =~= s);
    } else {
        assert((s + pad).drop_last() =~= s + pad.drop_last());
        lemma_trim_end_padding(s, pad.drop_last());
    }
}

proof fn lemma_trim_start_of_white(s: Seq<char>)
    requires
        forall|i: int| 0 <= i < s.len() ==> is_white_space(#[trigger] s[i]),
    ensures
        trim_start(s).len() == 0,
    decreases s.len(),
{
    if s.len() > 0 {
        lemma_trim_start_of_white(s.drop_first());
    }
}

proof fn lemma_trim_start_append(s: Seq<char>, pad: Seq<char>)
    requires
        forall|i: int| 0 <= i < pad.len() ==> is_white_space(#[trigger] pad[i]),
    ensures
        trim_end(trim_start(s + pad)) == trim_end(trim_start(s)),
    decreases s.len(),
{
    if s.len() == 0 {
        assert(s + pad =~= pad);
        lemma_trim_start_of_white(pad);
    } else if is_white_space(s.first()) {
        assert((s + pad).drop_first() =~= s.drop_first() + pad);
        lemma_trim_start_append(s.drop_first(), pad);
    } else {
        lemma_trim_end_padding(s, pad);
    }
}

/// White space around a raw setting never changes what the configuration reads.
pub proof fn padding_never_changes_a_setting(before: Seq<char>, s: Seq<char>, after: Seq<char>)
    requires
        forall|i: int| 0 <= i < before.len() ==> is_white_space(#[trigger] before[i]),
        forall|i: int| 0 <= i < after.len() ==> is_white_space(#[trigger] after[i]),
    ensures
        setting(Some(before + s + after)) == setting(Some(s)),
{
    assert(before + s + after =~= before + (s + after));
    lemma_trim_start_padding(before, s + after);
    lemma_trim_start_append(s, after);
}

// ---------------------------------------------------------------------------
// Case folding
// ---------------------------------------------------------------------------

/// The lower-case letter of an ASCII capital; any other character unchanged.
pub open spec fn ascii_lower(c: char) -> char {
    if 'A' <= c <= 'Z' {
        ((c as u32) + 32) as char
    } else {
        c
    }
}

/// What `str::to_lowercase` gives for a text that is not all ASCII.
pub uninterp spec fn unicode_lowercase(s: Seq<char>) -> Seq<char>;

/// A text in lower case.
pub open spec fn lowercase(s: Seq<char>) -> Seq<char> {
    if vstd::utf8::is_ascii_chars(s) {
        s.map_values(|c: char| ascii_lower(c))
    } else {
        unicode_lowercase(s)
    }
}

/// `str::to_lowercase`: on ASCII text the mapping of `A`-`Z` to `a`-`z`. Beyond
/// ASCII it follows the Unicode tables; it is a function of the text alone, and
/// what it gives there is left to its name.
#[verifier::external_body]
pub(crate) fn to_lowercase(s: &str) -> (r: String)
    ensures
        vstd::utf8::is_ascii_chars(s@) ==> r@ == s@.map_values(|c: char| ascii_lower(c)),
        !vstd::utf8::is_ascii_chars(s@) ==> r@ == unicode_lowercase(s@),
{
    s.to_lowercase()
}

// ---------------------------------------------------------------------------
// Unsigned numbers
// ---------------------------------------------------------------------------

/// Why a text is not an unsigned number of some type.
#[derive(Debug, Clone, Copy, PartialEq, Eq, Structural)]
pub enum NumberError {
    /// The text is empty.
    Empty,
    /// A character is not a digit, or no digit follows the sign.
    InvalidDigit,
    /// The number is larger than the type can hold.
    TooLarge,
}

impl NumberError {
    /// What the error says.
    pub open spec fn says(self) -> Seq<char> {
        match self {
            NumberError::Empty => "cannot parse integer from empty string"@,
            NumberError::InvalidDigit => "invalid digit found in string"@,
            NumberError::TooLarge => "number too large to fit in target type"@,
        }
    }

    /// What the error says.
    pub fn message(self) -> (r: &'static str)
        ensures
            r@ == self.says(),
    {
        match self {
            NumberError::Empty => "cannot parse integer from empty string",
            NumberError::InvalidDigit => "invalid digit found in string",
            NumberError::TooLarge => "number too large to fit in target type",
        }
    }
}

/// Whether every character is an ASCII digit.
pub open spec fn all_digits(s: Seq<char>) -> bool {
    forall|i: int| 0 <= i < s.len() ==> '0' <= #[trigger] s[i] <= '9'
}

/// The value of a run of decimal digits.
pub open spec fn digits_value(s: Seq<char>) -> nat
    decreases s.len(),
{
    if s.len() == 0 {
        0
    } else {
        digits_value(s.drop_last()) * 10 + ((s.last() as u32) - ('0' as u32)) as nat
    }
}

/// A text without the `+` that it may start with.
pub open spec fn unsigned_part(s: Seq<char>) -> Seq<char> {
    if s.len() > 0 && s.first() == '+' {
        s.drop_first()
    } else {
        s
    }
}

/// The number that a text stands for: an optional `+` and then at least one
/// digit and nothing else, no larger than `max`.
pub open spec fn unsigned_of(s: Seq<char>, max: nat) -> Option<nat> {
    let digits = unsigned_part(s);
    if digits.len() > 0 && all_digits(digits) && digits_value(digits) <= max {
        Some(digits_value(digits))
    } else {
        None
    }
}

/// The digits that a text starts with.
pub open spec fn leading_digits(s: Seq<char>) -> Seq<char>
    decreases s.len(),
{
    if s.len() > 0 && '0' <= s.first() <= '9' {
        seq![s.first()] + leading_digits(s.drop_first())
    } else {
        Seq::empty()
    }
}

/// What is wrong with a text that is no number up to `max`. Where a character that is
/// no digit stands behind digits that are already too large, both errors apply, and
/// `both` says which one it is.
pub open spec fn rejection(s: Seq<char>, max: nat, both: NumberError) -> NumberError {
    let digits = unsigned_part(s);
    if s.len() == 0 {
        NumberError::Empty
    } else if digits.len() > 0 && all_digits(digits) {
        NumberError::TooLarge
    } else if digits_value(leading_digits(digits)) <= max {
        NumberError::InvalidDigit
    } else {
        both
    }
}

/// What `str::parse` into the unsigned type with that largest value tells of a text to
/// which both [`NumberError::InvalidDigit`] and [`NumberError::TooLarge`] apply.
pub uninterp spec fn mixed_rejection(s: Seq<char>, max: nat) -> NumberError;

/// What is wrong with a text that is no number up to `max`.
pub open spec fn number_error(s: Seq<char>, max: nat) -> NumberError {
    rejection(s, max, mixed_rejection(s, max))
}

/// `str::parse` into `u16`: accepts an optional `+` and decimal digits within range,
/// and otherwise tells by `ParseIntError::kind` what is wrong. Of a text with a
/// character that is no digit behind digits that are already too large, which of the
/// two errors is told is left to the name.
#[verifier::external_body]
fn parse_u16(s: &str) -> (r: Result<u16, NumberError>)
    ensures
        match unsigned_of(s@, u16::MAX as nat) {
            Some(n) => r == Ok::<u16, NumberError>(n as u16),
            None => r == Err::<u16, NumberError>(
                rejection(s@, u16::MAX as nat, mixed_rejection(s@, u16::MAX as nat)),
            ),
        },
{
    match s.parse::<u16>() {
        Ok(n) => Ok(n),
        Err(e) => match e.kind() {
            std::num::IntErrorKind::Empty => Err(NumberError::Empty),
            std::num::IntErrorKind::PosOverflow => Err(NumberError::TooLarge),
            _ => Err(NumberError::InvalidDigit),
        },
    }
}

/// `str::parse` into `u32`: accepts an optional `+` and decimal digits within range,
/// and otherwise tells by `ParseIntError::kind` what is wrong. Of a text with a
/// character that is no digit behind digits that are already too large, which of the
/// two errors is told is left to the name.
#[verifier::external_body]
fn parse_u32(s: &str) -> (r: Result<u32, NumberError>)
    ensures
        match unsigned_of(s@, u32::MAX as nat) {
            Some(n) => r == Ok::<u32, NumberError>(n as u32),
            None => r == Err::<u32, NumberError>(
                rejection(s@, u32::MAX as nat, mixed_rejection(s@, u32::MAX as nat)),
            ),
        },
{
    match s.parse::<u32>() {
        Ok(n) => Ok(n),
        Err(e) => match e.kind() {
            std::num::IntErrorKind::Empty => Err(NumberError::Empty),
            std::num::IntErrorKind::PosOverflow => Err(NumberError::TooLarge),
            _ => Err(NumberError::InvalidDigit),
        },
    }
}

/// `str::parse` into `u64`: accepts an optional `+` and decimal digits within range,
/// and otherwise tells by `ParseIntError::kind` what is wrong. Of a text with a
/// character that is no digit behind digits that are already too large, which of the
/// two errors is told is left to the name.
#[verifier::external_body]
fn parse_u64(s: &str) -> (r: Result<u64, NumberError>)
    ensures
        match unsigned_of(s@, u64::MAX as nat) {
            Some(n) => r == Ok::<u64, NumberError>(n as u64),
            None => r == Err::<u64, NumberError>(
                rejection(s@, u64::MAX as nat, mixed_rejection(s@, u64::MAX as nat)),
            ),
        },
{
    match s.parse::<u64>() {
        Ok(n) => Ok(n),
        Err(e) => match e.kind() {
            std::num::IntErrorKind::Empty => Err(NumberError::Empty),
            std::num::IntErrorKind::PosOverflow => Err(NumberError::TooLarge),
            _ => Err(NumberError::InvalidDigit),
        },
    }
}

/// `str::parse` into `usize`: accepts an optional `+` and decimal digits within range,
/// and otherwise tells by `ParseIntError::kind` what is wrong. Of a text with a
/// character that is no digit behind digits that are already too large, which of the
/// two errors is told is left to the name.
#[verifier::external_body]
fn parse_usize(s: &str) -> (r: Result<usize, NumberError>)
    ensures
        match unsigned_of(s@, usize::MAX as nat) {
            Some(n) => r == Ok::<usize, NumberError>(n as usize),
            None => r == Err::<usize, NumberError>(
                rejection(s@, usize::MAX as nat, mixed_rejection(s@, usize::MAX as nat)),
            ),
        },
{
    match s.parse::<usize>() {
        Ok(n) => Ok(n),
        Err(e) => match e.kind() {
            std::num::IntErrorKind::Empty => Err(NumberError::Empty),
            std::num::IntErrorKind::PosOverflow => Err(NumberError::TooLarge),
            _ => Err(NumberError::InvalidDigit),
        },
    }
}

/// An unsigned integer type that a setting can be parsed into.
pub trait Unsigned: Sized {
    /// The largest value of the type.
    spec fn largest() -> nat;

    /// The value of the type that stands for `n`.
    spec fn of_nat(n: nat) -> Self;

    /// Parse a text that is neither trimmed nor padded.
    fn parse_text(s: &str) -> (r: Result<Self, NumberError>)
        ensures
            match unsigned_of(s@, Self::largest()) {
                Some(n) => r == Ok::<Self, NumberError>(Self::of_nat(n)),
                None => r == Err::<Self, NumberError>(number_error(s@, Self::largest())),
            },
    ;
}

impl Unsigned for u16 {
    open spec fn largest() -> nat {
        u16::MAX as nat
    }

    open spec fn of_nat(n: nat) -> u16 {
        n as u16
    }

    fn parse_text(s: &str) -> (r: Result<u16, NumberError>) {
        parse_u16(s)
    }
}

impl Unsigned for u32 {
    open spec fn largest() -> nat {
        u32::MAX as nat
    }

    open spec fn of_nat(n: nat) -> u32 {
        n as u32
    }

    fn parse_text(s: &str) -> (r: Result<u32, NumberError>) {
        parse_u32(s)
    }
}

impl Unsigned for u64 {
    open spec fn largest() -> nat {
        u64::MAX as nat
    }

    open spec fn of_nat(n: nat) -> u64 {
        n as u64
    }

    fn parse_text(s: &str) -> (r: Result<u64, NumberError>) {
        parse_u64(s)
    }
}

impl Unsigned for usize {
    open spec fn largest() -> nat {
        usize::MAX as nat
    }

    open spec fn of_nat(n: nat) -> usize {
        n as usize
    }

    fn parse_text(s: &str) -> (r: Result<usize, NumberError>) {
        parse_usize(s)
    }
}

/// The character of a digit below ten.
pub open spec fn digit_char(d: nat) -> char {
    (('0' as u32) + d) as char
}

/// A number in decimal, without leading zeros.
pub open spec fn decimal(n: nat) -> Seq<char>
    decreases n,
{
    if n < 10 {
        seq![digit_char(n)]
    } else {
        decimal(n / 10).push(digit_char(n % 10))
    }
}

/// A number is given back by the value of its decimal digits.
pub proof fn decimal_is_faithful(n: nat)
    ensures
        decimal(n).len() > 0,
        all_digits(decimal(n)),
        digits_value(decimal(n)) == n,
    decreases n,
{
    if n < 10 {
        let s = decimal(n);
        assert(s.drop_last() =~= Seq::<char>::empty());
        assert(digits_value(s.drop_last()) == 0);
        assert(s.last() == digit_char(n));
    } else {
        decimal_is_faithful(n / 10);
        let s = decimal(n);
        assert(s.drop_last() =~= decimal(n / 10));
        assert(s.last() == digit_char(n % 10));
    }
}

fn digit_text(d: u64) -> (r: &'static str)
    requires
        d < 10,
    ensures
        r@ == seq![digit_char(d as nat)],
{
    proof {
        reveal_strlit("0");
        reveal_strlit("1");
        reveal_strlit("2");
        reveal_strlit("3");
        reveal_strlit("4");
        reveal_strlit("5");
        reveal_strlit("6");
        reveal_strlit("7");
        reveal_strlit("8");
        reveal_strlit("9");
    }
    if d == 0 {
        "0"
    } else if d == 1 {
        "1"
    } else if d == 2 {
        "2"
    } else if d == 3 {
        "3"
    } else if d == 4 {
        "4"
    } else if d == 5 {
        "5"
    } else if d == 6 {
        "6"
    } else if d == 7 {
        "7"
    } else if d == 8 {
        "8"
    } else {
        "9"
    }
}

/// Write a number in decimal.
pub(crate) fn to_decimal(n: u64) -> (r: String)
    ensures
        r@ == decimal(n as nat),
    decreases n,
{
    if n < 10 {
        digit_text(n).to_owned()
    } else {
        let mut r = to_decimal(n / 10);
        r.append(digit_text(n % 10));
        proof {
            assert(r@ =~= decimal(n as nat));
        }
        r
    }
}

// ---------------------------------------------------------------------------
// Order
// ---------------------------------------------------------------------------

/// Lexicographic order by code point.
pub open spec fn precedes(a: Seq<char>, b: Seq<char>) -> bool
    decreases a.len(),
{
    if b.len() == 0 {
        false
    } else if a.len() == 0 {
        true
    } else {
        a.first() < b.first() || (a.first() == b.first() && precedes(
            a.drop_first(),
            b.drop_first(),
        ))
    }
}

/// Whether `a` comes before `b`, by code point.
pub(crate) fn text_precedes(a: &str, b: &str) -> (r: bool)
    ensures
        r == precedes(a@, b@),
{
    let n: usize = a.unicode_len();
    let m: usize = b.unicode_len();
    let mut i: usize = 0;
    proof {
        assert(a@.skip(0) =~= a@);
        assert(b@.skip(0) =~= b@);
    }
    while i < n && i < m
        invariant
            n == a@.len(),
            m == b@.len(),
            i <= n,
            i <= m,
            precedes(a@, b@) == precedes(a@.skip(i as int), b@.skip(i as int)),
        decreases n - i,
    {
        let x = a.get_char(i);
        let y = b.get_char(i);
        proof {
            assert(a@.skip(i as int).drop_first() =~= a@.skip(i + 1));
            assert(b@.skip(i as int).drop_first() =~= b@.skip(i + 1));
        }
        if x != y {
            return x < y;
        }
        i = i + 1;
    }
    i < m
}

/// The order of texts is irreflexive.
pub(crate) proof fn lemma_precedes_irreflexive(a: Seq<char>)
    ensures
        !precedes(a, a),
    decreases a.len(),
{
    if a.len() > 0 {
        lemma_precedes_irreflexive(a.drop_first());
    }
}

/// The order of texts is transitive.
pub(crate) proof fn lemma_precedes_transitive(a: Seq<char>, b: Seq<char>, c: Seq<char>)
    requires
        precedes(a, b),
        precedes(b, c),
    ensures
        precedes(a, c),
    decreases a.len(),
{
    if a.len() > 0 && a.first() == b.first() && b.first() == c.first() {
        lemma_precedes_transitive(a.drop_first(), b.drop_first(), c.drop_first());
    }
}

/// Any two different texts are ordered.
pub(crate) proof fn lemma_precedes_total(a: Seq<char>, b: Seq<char>)
    ensures
        a == b || precedes(a, b) || precedes(b, a),
    decreases a.len(),
{
    if a.len() > 0 && b.len() > 0 {
        if a.first() == b.first() {
            lemma_precedes_total(a.drop_first(), b.drop_first());
            if a.drop_first() == b.drop_first() {
                assert(a =~= seq![a.first()] + a.drop_first());
                assert(b =~= seq![b.first()] + b.drop_first());
            }
        }
    } else if a.len() == 0 && b.len() == 0 {
        assert(a =~= b);
    }
}

/// Texts in order: each one precedes those behind it.
pub open spec fn is_ordered(s: Seq<Seq<char>>) -> bool {
    forall|i: int, j: int| 0 <= i < j < s.len() ==> #[trigger] precedes(s[i], s[j])
}

/// The order of texts as a relation.
pub open spec fn at_most() -> spec_fn(Seq<char>, Seq<char>) -> bool {
    |a: Seq<char>, b: Seq<char>| a == b || precedes(a, b)
}

/// The members of a finite set of texts, in order.
pub open spec fn ordered(s: Set<Seq<char>>) -> Seq<Seq<char>> {
    s.to_sorted_seq(at_most())
}

/// The characters of each text.
pub open spec fn texts(v: Seq<String>) -> Seq<Seq<char>> {
    v.map_values(|s: String| s@)
}

proof fn lemma_text_order_is_total()
    ensures
        vstd::relations::total_ordering(at_most()),
{
    let leq = at_most();
    assert forall|a: Seq<char>, b: Seq<char>| #[trigger] leq(a, b) && #[trigger] leq(b, a) implies a
        == b by {
        if a != b {
            lemma_precedes_transitive(a, b, a);
            lemma_precedes_irreflexive(a);
        }
    }
    assert forall|a: Seq<char>, b: Seq<char>, c: Seq<char>|
        #[trigger] leq(a, b) && #[trigger] leq(b, c) implies leq(a, c) by {
        if a != b && b != c {
            lemma_precedes_transitive(a, b, c);
        }
    }
    assert forall|a: Seq<char>, b: Seq<char>| #[trigger] leq(a, b) || #[trigger] leq(b, a) by {
        lemma_precedes_total(a, b);
    }
}

/// The ordered listing of a set of texts is the only one.
pub(crate) proof fn lemma_ordered(q: Seq<Seq<char>>, s: Set<Seq<char>>)
    requires
        is_ordered(q),
        q.to_set() == s,
    ensures
        q == ordered(s),
{
    lemma_text_order_is_total();
    assert forall|i: int, j: int| 0 <= i < q.len() && 0 <= j < q.len() && i != j implies q[i]
        != q[j] by {
        if i < j {
            assert(precedes(q[i], q[j]));
        } else {
            assert(precedes(q[j], q[i]));
        }
        lemma_precedes_irreflexive(q[i]);
    }
    let leq = at_most();
    assert forall|i: int, j: int| 0 <= i < j < q.len() implies #[trigger] leq(q[i], q[j]) by {
        assert(precedes(q[i], q[j]));
    }
    collections::lemma_sorted_listing(q, s, leq);
}

/// The ordered listing of a finite set of texts holds its members, each once.
pub(crate) proof fn lemma_ordered_members(s: Set<Seq<char>>)
    requires
        s.finite(),
    ensures
        is_ordered(ordered(s)),
        ordered(s).no_duplicates(),
        ordered(s).to_set() == s,
        forall|x: Seq<char>| #[trigger] ordered(s).contains(x) <==> s.contains(x),
        ordered(s).len() == s.len(),
{
    let leq = at_most();
    let q = ordered(s);
    lemma_text_order_is_total();
    collections::lemma_sorted_listing_members(s, leq);
    assert forall|i: int, j: int| 0 <= i < j < q.len() implies #[trigger] precedes(
        q[i],
        q[j],
    ) by {
        assert(leq(q[i], q[j]));
    }
}

/// Whether a list holds a text.
pub(crate) fn contains_text(v: &Vec<String>, s: &str) -> (r: bool)
    ensures
        r == texts(v@).contains(s@),
{
    let mut i: usize = 0;
    while i < v.len()
        invariant
            i <= v.len(),
            forall|j: int| 0 <= j < i ==> (#[trigger] v@[j])@ != s@,
        decreases v.len() - i,
    {
        if same_text(v[i].as_str(), s) {
            proof {
                assert(texts(v@)[i as int] == s@);
            }
            return true;
        }
        i = i + 1;
    }
    proof {
        assert forall|j: int| 0 <= j < texts(v@).len() implies texts(v@)[j] != s@ by {
            assert(v@[j]@ != s@);
        }
    }
    false
}

/// Put a text in its place in an ordered list, unless it is there already.
pub(crate) fn insert_text(v: &mut Vec<String>, s: &str)
    requires
        is_ordered(texts(old(v)@)),
    ensures
        is_ordered(texts(final(v)@)),
        texts(final(v)@).to_set() == texts(old(v)@).to_set().insert(s@),
{
    let ghost before = texts(v@);
    let mut i: usize = 0;
    while i < v.len() && text_precedes(v[i].as_str(), s)
        invariant
            i <= v.len(),
            texts(v@) == before,
            is_ordered(before),
            forall|j: int| 0 <= j < i ==> #[trigger] precedes(before[j], s@),
        decreases v.len() - i,
    {
        i = i + 1;
    }
    if i < v.len() && same_text(v[i].as_str(), s) {
        proof {
            assert(before[i as int] == s@);
            assert(before.to_set().contains(s@));
            assert(before.to_set() =~= before.to_set().insert(s@));
        }
    } else {
        v.insert(i, s.to_owned());
        proof {
            let after = texts(v@);
            assert(after =~= before.insert(i as int, s@));
            assert forall|a: int, b: int| 0 <= a < b < after.len() implies #[trigger] precedes(
                after[a],
                after[b],
            ) by {
                if a == i {
                    let next = before[i as int];
                    lemma_precedes_total(next, s@);
                    assert(precedes(s@, next));
                    if b - 1 > i {
                        assert(precedes(next, before[b - 1]));
                        lemma_precedes_transitive(s@, next, before[b - 1]);
                    }
                } else if b == i {
                    assert(precedes(before[a], s@));
                } else {
                    let x = if a < i {
                        a
                    } else {
                        a - 1
                    };
                    let y = if b < i {
                        b
                    } else {
                        b - 1
                    };
                    assert(precedes(before[x], before[y]));
                }
            }
            assert(after.to_set() =~= before.to_set().insert(s@)) by {
                assert forall|x: Seq<char>|
                    after.to_set().contains(x) == before.to_set().insert(s@).contains(x) by {
                    if before.contains(x) {
                        let j = choose|j: int| 0 <= j < before.len() && before[j] == x;
                        if j < i {
                            assert(after[j] == x);
                        } else {
                            assert(after[j + 1] == x);
                        }
                    }
                    assert(after[i as int] == s@);
                    if after.contains(x) && x != s@ {
                        let j = choose|j: int| 0 <= j < after.len() && after[j] == x;
                        if j < i {
                            assert(before[j] == x);
                        } else {
                            assert(before[j - 1] == x);
                        }
                    }
                }
            }
        }
    }
}

// ---------------------------------------------------------------------------
// Laws
// ---------------------------------------------------------------------------

/// A raw setting counts for what stands between the white space around it.
pub proof fn setting_is_what_white_space_surrounds(
    before: Seq<char>,
    kept: Seq<char>,
    after: Seq<char>,
)
    requires
        forall|i: int| 0 <= i < before.len() ==> is_white_space(#[trigger] before[i]),
        forall|i: int| 0 <= i < after.len() ==> is_white_space(#[trigger] after[i]),
        kept.len() > 0,
        !is_white_space(kept[0]),
        !is_white_space(kept[kept.len() - 1]),
    ensures
        setting(Some(before + kept + after)) == Some(kept),
{
    padding_never_changes_a_setting(before, kept, after);
    assert(trim_start(kept) == kept);
    assert(trim_end(kept) == kept);
}

/// A raw setting that is unset, or nothing but white space, is absent.
pub proof fn blank_setting_is_absent(s: Seq<char>)
    requires
        forall|i: int| 0 <= i < s.len() ==> is_white_space(#[trigger] s[i]),
    ensures
        setting(Some(s)) is None,
        setting(None) is None,
{
    lemma_trim_start_of_white(s);
    assert(trim_end(trim_start(s)) == trim_start(s));
}

/// Texts are ordered by their first different character, and a text comes before any
/// longer text that starts with it.
pub proof fn order_is_lexicographic(
    common: Seq<char>,
    x: char,
    y: char,
    a: Seq<char>,
    b: Seq<char>,
)
    ensures
        x != y ==> (precedes(common + seq![x] + a, common + seq![y] + b) <==> x < y),
        precedes(common, common + a) <==> a.len() > 0,
        !precedes(common + a, common),
    decreases common.len(),
{
    let p = common + seq![x] + a;
    let q = common + seq![y] + b;
    if common.len() == 0 {
        assert(p[0] == x);
        assert(q[0] == y);
        assert(common + a =~= a);
    } else {
        let rest = common.drop_first();
        order_is_lexicographic(rest, x, y, a, b);
        assert(p.drop_first() =~= rest + seq![x] + a);
        assert(q.drop_first() =~= rest + seq![y] + b);
        assert((common + a).drop_first() =~= rest + a);
        assert(p[0] == common[0] && q[0] == common[0] && (common + a)[0] == common[0]);
    }
}

/// The ordered listing of a finite set of texts holds each member once, and each text
/// in it comes before those behind it.
pub proof fn ordered_lists_each_member_once(s: Set<Seq<char>>)
    requires
        s.finite(),
    ensures
        ordered(s).len() == s.len(),
        forall|x: Seq<char>| #[trigger] ordered(s).contains(x) <==> s.contains(x),
        forall|i: int, j: int|
            0 <= i < j < ordered(s).len() ==> #[trigger] precedes(ordered(s)[i], ordered(s)[j]),
{
    lemma_ordered_members(s);
}

/// A decimal form has no leading zeros, so that each number has only one.
pub proof fn decimal_has_no_leading_zero(n: nat)
    ensures
        decimal(n).len() > 1 ==> decimal(n)[0] != '0',
        n > 0 ==> decimal(n)[0] != '0',
    decreases n,
{
    if n >= 10 {
        decimal_has_no_leading_zero(n / 10);
        decimal_is_faithful(n / 10);
        assert(decimal(n)[0] == decimal(n / 10)[0]);
    }
}

/// The characters of an optional string are those of the string, where there is one.
pub proof fn optional_text_is_the_text(s: String)
    ensures
        optional_text(Some(s)) == Some(s@),
        optional_text(None) == None::<Seq<char>>,
{
}

/// Each number error has its own words.
pub proof fn number_errors_have_their_words()
    ensures
        NumberError::Empty.says() == "cannot parse integer from empty string"@,
        NumberError::InvalidDigit.says() == "invalid digit found in string"@,
        NumberError::TooLarge.says() == "number too large to fit in target type"@,
{
}

/// The texts of some strings are their characters, one by one and in order.
pub proof fn texts_are_the_strings(v: Seq<String>, i: int)
    ensures
        texts(v).len() == v.len(),
        0 <= i < v.len() ==> texts(v)[i] == v[i]@,
{
}

/// Trimming a raw value gives its setting: what is left of it, where anything is.
pub proof fn trimmed_is_what_is_left(v: Option<String>, r: Option<String>)
    requires
        call_ensures(trimmed, (v,), r),
    ensures
        v is None ==> r is None,
        v is Some && trim(v->0@).len() == 0 ==> r is None,
        v is Some && trim(v->0@).len() > 0 ==> r is Some && r->0@ == trim(v->0@),
{
}

/// White space is the tab, line and page controls, the space, and the Unicode characters
/// with the `White_Space` property beyond ASCII.
pub proof fn white_space_characters(c: char)
    ensures
        c < '\u{80}' ==> (is_white_space(c) <==> c == '\t' || c == '\n' || c == '\u{b}' || c
            == '\u{c}' || c == '\r' || c == ' '),
        c >= '\u{80}' ==> (is_white_space(c) <==> c == '\u{85}' || c == '\u{a0}' || c
            == '\u{1680}' || '\u{2000}' <= c <= '\u{200a}' || c == '\u{2028}' || c == '\u{2029}'
            || c == '\u{202f}' || c == '\u{205f}' || c == '\u{3000}'),
{
}

/// In lower case an ASCII text keeps its length and its characters, but for capitals,
/// which become the small letters at the same place of the alphabet.
pub proof fn lower_case_of_ascii(s: Seq<char>, i: int)
    requires
        vstd::utf8::is_ascii_chars(s),
        0 <= i < s.len(),
    ensures
        lowercase(s).len() == s.len(),
        'A' <= s[i] <= 'Z' ==> 'a' <= lowercase(s)[i] <= 'z' && (lowercase(s)[i] as u32) - (
        'a' as u32) == (s[i] as u32) - ('A' as u32),
        !('A' <= s[i] <= 'Z') ==> lowercase(s)[i] == s[i],
{
}

/// A number reads back from its decimal form, with or without a plus sign, exactly when
/// it is in range; otherwise it is told to be too large.
pub proof fn number_reads_back(n: nat, max: nat)
    ensures
        n <= max ==> unsigned_of(decimal(n), max) == Some(n),
        n <= max ==> unsigned_of(seq!['+'] + decimal(n), max) == Some(n),
        n > max ==> unsigned_of(decimal(n), max) is None,
        n > max ==> unsigned_of(seq!['+'] + decimal(n), max) is None,
        n > max ==> number_error(decimal(n), max) == NumberError::TooLarge,
        n > max ==> number_error(seq!['+'] + decimal(n), max) == NumberError::TooLarge,
{
    decimal_is_faithful(n);
    let s = decimal(n);
    assert('0' <= s[0] <= '9');
    let signed = seq!['+'] + s;
    assert(signed.first() == '+');
    assert(signed.drop_first() =~= s);
}

/// Zeros in front do not change a number.
pub proof fn leading_zeros_do_not_count(s: Seq<char>, max: nat)
    requires
        s.len() > 0,
        s[0] != '+',
    ensures
        unsigned_of(seq!['0'] + s, max) == unsigned_of(s, max),
{
    let padded = seq!['0'] + s;
    assert(padded.first() == '0');
    assert(padded.drop_first() =~= s);
    if all_digits(padded) {
        assert forall|i: int| 0 <= i < s.len() implies '0' <= #[trigger] s[i] <= '9' by {
            assert(padded[i + 1] == s[i]);
        }
    }
    if all_digits(s) {
        assert forall|i: int| 0 <= i < padded.len() implies '0' <= #[trigger] padded[i] <= '9' by {
            if i > 0 {
                assert(padded[i] == s[i - 1]);
            }
        }
    }
    lemma_zero_in_front(s);
}

proof fn lemma_zero_in_front(s: Seq<char>)
    ensures
        digits_value(seq!['0'] + s) == digits_value(s),
    decreases s.len(),
{
    let padded = seq!['0'] + s;
    if s.len() == 0 {
        assert(padded.drop_last() =~= s);
        assert(padded.last() == '0');
    } else {
        lemma_zero_in_front(s.drop_last());
        assert(padded.drop_last() =~= seq!['0'] + s.drop_last());
        assert(padded.last() == s.last());
    }
}

/// Each digit behind a number makes it ten times as large and adds itself.
pub proof fn digits_count_by_ten(s: Seq<char>, d: char, max: nat)
    requires
        unsigned_of(s, max) is Some,
        '0' <= d <= '9',
        unsigned_of(s, max)->0 * 10 + ((d as u32) - ('0' as u32)) <= max,
    ensures
        unsigned_of(s.push(d), max) == Some(
            (unsigned_of(s, max)->0 * 10 + ((d as u32) - ('0' as u32))) as nat,
        ),
{
    let longer = s.push(d);
    assert(longer.first() == s.first());
    assert(longer.drop_first() =~= s.drop_first().push(d));
    assert(unsigned_part(longer) =~= unsigned_part(s).push(d));
    assert(unsigned_part(longer).drop_last() =~= unsigned_part(s));
}

/// A text with anything but digits behind an optional plus sign, or without digits, is no
/// number; and a number is never above its range.
pub proof fn only_digits_are_numbers(s: Seq<char>, max: nat, i: int)
    ensures
        unsigned_of(s, max) matches Some(n) ==> n <= max,
        0 <= i < s.len() && !('0' <= s[i] <= '9') && !(i == 0 && s[i] == '+') ==> unsigned_of(
            s,
            max,
        ) is None,
        s.len() == 0 ==> unsigned_of(s, max) is None,
        s.len() == 1 && s[0] == '+' ==> unsigned_of(s, max) is None,
{
    if 0 <= i < s.len() && !('0' <= s[i] <= '9') && !(i == 0 && s[i] == '+') {
        let digits = unsigned_part(s);
        if s.first() == '+' {
            assert(digits[i - 1] == s[i]);
        } else {
            assert(digits[i] == s[i]);
        }
    }
}

/// An empty text is told to be empty, and one with a character that is no digit behind
/// digits that are still in range is told to have an invalid digit.
pub proof fn refused_numbers_are_told_why(digits: Seq<char>, c: char, rest: Seq<char>, max: nat)
    requires
        all_digits(digits),
        digits_value(digits) <= max,
        !('0' <= c <= '9'),
        digits.len() > 0 || c != '+' || rest.len() == 0,
    ensures
        number_error(Seq::empty(), max) == NumberError::Empty,
        number_error(digits + seq![c] + rest, max) == NumberError::InvalidDigit,
{
    let s = digits + seq![c] + rest;
    assert(s[digits.len() as int] == c);
    if digits.len() > 0 {
        assert(s.first() == digits[0]);
        assert(unsigned_part(s) == s);
    } else {
        assert(s.first() == c);
        if c == '+' {
            assert(unsigned_part(s).len() == 0);
        }
    }
    lemma_leading_digits(digits, c, rest);
}

proof fn lemma_leading_digits(digits: Seq<char>, c: char, rest: Seq<char>)
    requires
        all_digits(digits),
        !('0' <= c <= '9'),
    ensures
        leading_digits(digits + seq![c] + rest) == digits,
        digits_value(leading_digits(Seq::empty())) == 0,
    decreases digits.len(),
{
    let s = digits + seq![c] + rest;
    if digits.len() == 0 {
        assert(s.first() == c);
        assert(leading_digits(s) =~= digits);
    } else {
        let shorter = digits.drop_first();
        assert forall|i: int| 0 <= i < shorter.len() implies '0' <= #[trigger] shorter[i] <= '9' by {
            assert(shorter[i] == digits[i + 1]);
        }
        lemma_leading_digits(shorter, c, rest);
        assert(s.first() == digits[0]);
        assert(s.drop_first() =~= shorter + seq![c] + rest);
        assert(leading_digits(s) =~= digits);
    }
}

} // verus!
