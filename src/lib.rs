//! Validation and decoding of 18-character Chinese resident identity numbers.
//!
//! An identity number is seventeen decimal digits followed by a check
//! character (a digit or `X`). Digits 0..6 are the administrative-division
//! code, digits 6..14 the birth date as `YYYYMMDD`, and the parity of digit 16
//! gives the holder's gender.
use chrono::Datelike;
use vstd::prelude::*;

verus! {

/// Number of characters in an identity number.
pub const LENGTH: usize = 18;

// ---------------------------------------------------------------------------
// Characters and case
// ---------------------------------------------------------------------------

pub open spec fn is_digit(c: char) -> bool {
    '0' <= c && c <= '9'
}

pub open spec fn digit_value(c: char) -> int {
    (c as u32) as int - ('0' as u32) as int
}

pub open spec fn is_ascii_char(c: char) -> bool {
    (c as u32) < 128
}

pub open spec fn ascii_upper(c: char) -> char {
    if 'a' <= c && c <= 'z' {
        ((c as u32) - 32) as char
    } else {
        c
    }
}

/// What Unicode upper-casing makes of a single non-ASCII character.
pub uninterp spec fn upper_of_char(c: char) -> Seq<char>;

/// Upper-case form of one character: ASCII letters map to their capitals,
/// other ASCII characters stay, and the rest follow the Unicode tables.
pub open spec fn upper_char(c: char) -> Seq<char> {
    if is_ascii_char(c) {
        seq![ascii_upper(c)]
    } else {
        upper_of_char(c)
    }
}

/// Upper-case form of a string: each character's upper-case form, in order.
pub open spec fn uppercase(s: Seq<char>) -> Seq<char>
    decreases s.len(),
{
    if s.len() == 0 {
        Seq::empty()
    } else {
        uppercase(s.drop_last()) + upper_char(s.last())
    }
}

/// Relies on `str::to_uppercase`, which maps every character on its own
/// through `char::to_uppercase` and joins the results.
#[verifier::external_body]
fn to_upper(s: &str) -> (r: String)
    ensures
        r@ == uppercase(s@),
        s@.len() == 1 && !is_ascii_char(s@[0]) ==> r@ == upper_of_char(s@[0]),
{
    s.to_uppercase()
}

/// Reads a decimal digit.
fn digit_of(c: char) -> (r: usize)
    requires
        is_digit(c),
    ensures
        r as int == digit_value(c),
        r <= 9,
{
    ((c as u32) - ('0' as u32)) as usize
}

// ---------------------------------------------------------------------------
// Gender
// ---------------------------------------------------------------------------

#[derive(Debug, Clone, Copy, PartialEq, Eq, Structural)]
pub enum Gender {
    Male,
    Female,
}

impl Gender {
    /// The customary one-character label.
    pub fn label(&self) -> (r: &'static str)
        ensures
            *self == Gender::Male ==> r@ == "男"@,
            *self == Gender::Female ==> r@ == "女"@,
    {
        match self {
            Gender::Male => "男",
            Gender::Female => "女",
        }
    }
}

/// Gender encoded by a (normalized) identity string: even sequence digit at
/// position 16 means female; anything else, including a missing or
/// non-digit character, reads as male.
pub open spec fn gender_of(s: Seq<char>) -> Gender {
    if s.len() > 16 && is_digit(s[16]) && digit_value(s[16]) % 2 == 0 {
        Gender::Female
    } else {
        Gender::Male
    }
}

// ---------------------------------------------------------------------------
// Identity number
// ---------------------------------------------------------------------------

/// A candidate identity number, held upper-cased and otherwise verbatim.
pub struct ChinaId(pub(crate) String);

impl View for ChinaId {
    type V = Seq<char>;

    closed spec fn view(&self) -> Seq<char> {
        self.0@
    }
}

impl ChinaId {
    /// Wraps `raw`, upper-cased. Never fails; see [`ChinaId::valid`].
    pub fn new(raw: &str) -> (r: ChinaId)
        ensures
            r@ == uppercase(raw@),
    {
        ChinaId(to_upper(raw))
    }

    /// The normalized text.
    pub fn as_str(&self) -> (r: &str)
        ensures
            r@ == self@,
    {
        self.0.as_str()
    }

    /// The administrative-division code: the first six characters.
    pub fn adcode(&self) -> (r: Result<&str, Error>)
        ensures
            self@.len() < 6 ==> (r matches Err(e) && e@ == ErrorKind::LengthMismatch(self@.len())),
            self@.len() >= 6 ==> (r matches Ok(c) && c@ == self@.subrange(0, 6)),
    {
        let s = self.0.as_str();
        let n = s.unicode_len();
        if n < 6 {
            Err(Error::LengthMismatch(n))
        } else {
            Ok(s.substring_char(0, 6))
        }
    }

    /// Checks length, digits, check character and birth date, in that order,
    /// and reports the first failure.
    pub fn valid(&self) -> (r: Result<(), Error>)
        ensures
            result_view(r) == validity(self@),
    {
        let s = self.0.as_str();
        let n = s.unicode_len();
        if n != LENGTH {
            return Err(Error::LengthMismatch(n));
        }
        let mut sum: usize = 0;
        let mut i: usize = 0;
        while i < LENGTH - 1
            invariant
                s@ == self@,
                s@.len() == 18,
                0 <= i <= 17,
                forall|k: int| 0 <= k < i ==> is_digit(#[trigger] s@[k]),
                first_non_digit(s@, 0) == first_non_digit(s@, i as int),
                sum as int == weighted_sum(s@, i as int),
                sum <= 90 * i,
            decreases 17 - i,
        {
            let c = s.get_char(i);
            if !('0' <= c && c <= '9') {
                return Err(Error::NotADigit(c, i));
            }
            let d = digit_of(c);
            let w = weight_at(i);
            assert(d * w <= 90) by (nonlinear_arith)
                requires
                    d <= 9,
                    w <= 10,
            ;
            sum = sum + d * w;
            i = i + 1;
        }
        let expected = check_char_at(sum % 11);
        let actual = s.get_char(LENGTH - 1);
        if expected != actual {
            return Err(Error::ChecksumMismatch(expected, actual));
        }
        assert(all_digits(date_text(self@))) by {
            assert forall|k: int| 0 <= k < 8 implies is_digit(#[trigger] date_text(self@)[k]) by {
                assert(is_digit(s@[k + 6]));
            }
        }
        match self.birthday() {
            Ok(_) => Ok(()),
            Err(e) => Err(e),
        }
    }

    /// The birth date held at positions 6..14.
    pub fn birthday(&self) -> (r: Result<BirthDate, Error>)
        ensures
            self@.len() < 14 || all_digits(date_text(self@)) ==> result_view(r)
                == birth_date_of(self@),
            self@.len() >= 14 ==> match r {
                Ok(d) => d.wf(),
                Err(e) => e@ == ErrorKind::InvalidBirthDate(date_text(self@)),
            },
    {
        let s = self.0.as_str();
        let n = s.unicode_len();
        if n < 14 {
            return Err(Error::LengthMismatch(n));
        }
        let text = s.substring_char(6, 14);
        match parse_ymd(text) {
            Some(d) => Ok(d),
            None => Err(Error::InvalidBirthDate(text.to_owned())),
        }
    }

    /// The gender digit's reading; total on any input.
    pub fn gender(&self) -> (g: Gender)
        ensures
            g == gender_of(self@),
    {
        let s = self.0.as_str();
        if s.unicode_len() > 16 {
            let c = s.get_char(16);
            if '0' <= c && c <= '9' {
                let d = digit_of(c);
                if d % 2 == 0 {
                    return Gender::Female;
                }
            }
        }
        Gender::Male
    }
}

// ---------------------------------------------------------------------------
// Birth date
// ---------------------------------------------------------------------------

/// A calendar date in the proleptic Gregorian calendar.
#[derive(Debug, Clone, Copy, PartialEq, Eq, Structural)]
pub struct BirthDate {
    pub year: i32,
    pub month: u32,
    pub day: u32,
}

pub open spec fn is_leap_year(y: int) -> bool {
    (y % 4 == 0 && y % 100 != 0) || y % 400 == 0
}

pub open spec fn days_in_month(y: int, m: int) -> int {
    if m == 2 {
        if is_leap_year(y) {
            29
        } else {
            28
        }
    } else if m == 4 || m == 6 || m == 9 || m == 11 {
        30
    } else {
        31
    }
}

pub open spec fn is_calendar_date(y: int, m: int, d: int) -> bool {
    1 <= m <= 12 && 1 <= d <= days_in_month(y, m)
}

impl BirthDate {
    /// The fields name a day that exists.
    pub open spec fn wf(self) -> bool {
        is_calendar_date(self.year as int, self.month as int, self.day as int)
    }
}

pub open spec fn all_digits(t: Seq<char>) -> bool {
    forall|i: int| 0 <= i < t.len() ==> is_digit(#[trigger] t[i])
}

/// Value of a run of decimal digits, most significant first.
pub open spec fn number_of(t: Seq<char>) -> int
    decreases t.len(),
{
    if t.len() == 0 {
        0
    } else {
        number_of(t.drop_last()) * 10 + digit_value(t.last())
    }
}

/// The date that eight digits `YYYYMMDD` name, if there is such a day.
pub open spec fn date_of_digits(t: Seq<char>) -> Option<BirthDate> {
    let y = number_of(t.subrange(0, 4));
    let m = number_of(t.subrange(4, 6));
    let d = number_of(t.subrange(6, 8));
    if is_calendar_date(y, m, d) {
        Some(BirthDate { year: y as i32, month: m as u32, day: d as u32 })
    } else {
        None
    }
}

/// The eight characters that hold the birth date.
pub open spec fn date_text(s: Seq<char>) -> Seq<char> {
    s.subrange(6, 14)
}

/// Relies on chrono's `NaiveDate::parse_from_str` with the pattern
/// `%Y%m%d`: on eight ASCII digits it reads a four-digit year, a two-digit
/// month and a two-digit day, and succeeds exactly when they name a day of
/// the proleptic Gregorian calendar; whatever the text, a `NaiveDate` is
/// always such a day.
#[verifier::external_body]
fn parse_ymd(text: &str) -> (r: Option<BirthDate>)
    ensures
        text@.len() == 8 && all_digits(text@) ==> r == date_of_digits(text@),
        r matches Some(d) ==> d.wf(),
{
    match chrono::NaiveDate::parse_from_str(text, "%Y%m%d") {
        Ok(d) => Some(BirthDate { year: d.year(), month: d.month(), day: d.day() }),
        Err(_) => None,
    }
}

// ---------------------------------------------------------------------------
// Checksum
// ---------------------------------------------------------------------------

/// Weight of the digit at position `i` (0..17) in the checksum.
pub open spec fn weight(i: int) -> int {
    if i == 0 || i == 10 {
        7
    } else if i == 1 || i == 11 {
        9
    } else if i == 2 || i == 12 {
        10
    } else if i == 3 || i == 13 {
        5
    } else if i == 4 || i == 14 {
        8
    } else if i == 5 || i == 15 {
        4
    } else if i == 6 || i == 16 {
        2
    } else if i == 7 {
        1
    } else if i == 8 {
        6
    } else {
        3
    }
}

/// Check character owed for a weighted sum whose remainder mod 11 is `k`.
pub open spec fn check_char(k: int) -> char {
    if k == 0 {
        '1'
    } else if k == 1 {
        '0'
    } else if k == 2 {
        'X'
    } else {
        ((12 - k) + ('0' as u32) as int) as char
    }
}

/// Sum of the first `n` digits, each times its weight.
pub open spec fn weighted_sum(s: Seq<char>, n: int) -> int
    decreases n,
{
    if n <= 0 {
        0
    } else {
        weighted_sum(s, n - 1) + digit_value(s[n - 1]) * weight(n - 1)
    }
}

/// Position of the first non-digit among positions `i..17`, or 17 if none.
pub open spec fn first_non_digit(s: Seq<char>, i: int) -> int
    decreases 17 - i,
{
    if i >= 17 {
        17
    } else if !is_digit(s[i]) {
        i
    } else {
        first_non_digit(s, i + 1)
    }
}

fn weight_at(i: usize) -> (w: usize)
    requires
        i < 17,
    ensures
        w as int == weight(i as int),
        w <= 10,
{
    match i {
        0 | 10 => 7,
        1 | 11 => 9,
        2 | 12 => 10,
        3 | 13 => 5,
        4 | 14 => 8,
        5 | 15 => 4,
        6 | 16 => 2,
        7 => 1,
        8 => 6,
        _ => 3,
    }
}

fn check_char_at(k: usize) -> (c: char)
    requires
        k < 11,
    ensures
        c == check_char(k as int),
{
    match k {
        0 => '1',
        1 => '0',
        2 => 'X',
        3 => '9',
        4 => '8',
        5 => '7',
        6 => '6',
        7 => '5',
        8 => '4',
        9 => '3',
        _ => '2',
    }
}

// ---------------------------------------------------------------------------
// Outcomes
// ---------------------------------------------------------------------------

/// A result with its error in mathematical form.
pub open spec fn result_view<T>(r: Result<T, Error>) -> Result<T, ErrorKind> {
    match r {
        Ok(v) => Ok(v),
        Err(e) => Err(e@),
    }
}

/// What reading the birth date of a normalized string gives.
pub open spec fn birth_date_of(s: Seq<char>) -> Result<BirthDate, ErrorKind> {
    if s.len() < 14 {
        Err(ErrorKind::LengthMismatch(s.len()))
    } else {
        match date_of_digits(date_text(s)) {
            Some(d) => Ok(d),
            None => Err(ErrorKind::InvalidBirthDate(date_text(s))),
        }
    }
}

/// What validating a normalized string gives: the length first, then the
/// first non-digit among the leading seventeen, then the check character,
/// then the birth date.
pub open spec fn validity(s: Seq<char>) -> Result<(), ErrorKind> {
    if s.len() != 18 {
        Err(ErrorKind::LengthMismatch(s.len()))
    } else if first_non_digit(s, 0) < 17 {
        Err(ErrorKind::NotADigit(s[first_non_digit(s, 0)], first_non_digit(s, 0) as nat))
    } else if check_char(weighted_sum(s, 17) % 11) != s[17] {
        Err(ErrorKind::ChecksumMismatch(check_char(weighted_sum(s, 17) % 11), s[17]))
    } else {
        match birth_date_of(s) {
            Ok(_) => Ok(()),
            Err(e) => Err(e),
        }
    }
}

// ---------------------------------------------------------------------------
// Laws
// ---------------------------------------------------------------------------

proof fn lemma_uppercase_ascii(s: Seq<char>)
    requires
        forall|i: int| 0 <= i < s.len() ==> is_ascii_char(#[trigger] s[i]),
    ensures
        uppercase(s) == s.map_values(|c: char| ascii_upper(c)),
    decreases s.len(),
{
    if s.len() > 0 {
        lemma_uppercase_ascii(s.drop_last());
        assert(uppercase(s) =~= s.map_values(|c: char| ascii_upper(c)));
    }
}

proof fn lemma_digits_scan(s: Seq<char>, i: int)
    requires
        0 <= i <= 17,
        s.len() >= 17,
        forall|k: int| i <= k < 17 ==> is_digit(#[trigger] s[k]),
    ensures
        first_non_digit(s, i) == 17,
    decreases 17 - i,
{
    if i < 17 {
        lemma_digits_scan(s, i + 1);
    }
}

proof fn lemma_weighted_sum_prefix(s: Seq<char>, t: Seq<char>, n: int)
    requires
        0 <= n <= s.len(),
        n <= t.len(),
        forall|k: int| 0 <= k < n ==> s[k] == t[k],
    ensures
        weighted_sum(s, n) == weighted_sum(t, n),
    decreases n,
{
    if n > 0 {
        lemma_weighted_sum_prefix(s, t, n - 1);
    }
}

/// Any string whose length is not 18 is rejected with its own length.
pub proof fn law_wrong_length(s: Seq<char>)
    requires
        s.len() != LENGTH,
    ensures
        validity(s) == Err::<(), ErrorKind>(ErrorKind::LengthMismatch(s.len())),
{
}

/// An input of seventeen digits and an ASCII check character is valid
/// exactly when the check character, read without regard to case, is the
/// one its weighted digit sum calls for, and its digits 6..14 form a date.
pub proof fn law_valid_iff_checksum_and_date(t: Seq<char>)
    requires
        t.len() == LENGTH,
        forall|k: int| 0 <= k < 17 ==> is_digit(#[trigger] t[k]),
        is_ascii_char(t[17]),
    ensures
        validity(uppercase(t)) is Ok <==> (check_char(weighted_sum(t, 17) % 11) == ascii_upper(
            t[17],
        ) && date_of_digits(date_text(t)) is Some),
{
    lemma_uppercase_ascii(t);
    let u = uppercase(t);
    assert forall|k: int| 0 <= k < 17 implies u[k] == t[k] && is_digit(#[trigger] u[k]) by {
        assert(is_digit(t[k]));
    }
    assert(u[17] == ascii_upper(t[17]));
    lemma_digits_scan(u, 0);
    lemma_weighted_sum_prefix(u, t, 17);
    assert(date_text(u) =~= date_text(t));
}

/// Writing the check character as `x` or as `X` makes no difference: both
/// normalize to the same text, which then validates the same way.
pub proof fn law_check_letter_case(p: Seq<char>)
    ensures
        uppercase(p.push('x')) == uppercase(p.push('X')),
        validity(uppercase(p.push('x'))) == validity(uppercase(p.push('X'))),
{
    assert(p.push('x').drop_last() =~= p);
    assert(p.push('X').drop_last() =~= p);
    assert(ascii_upper('x') == 'X');
    assert(ascii_upper('X') == 'X');
}

// ---------------------------------------------------------------------------
// Errors
// ---------------------------------------------------------------------------

/// Why an identity number is rejected.
#[derive(Debug, Clone, PartialEq, Eq)]
pub enum Error {
    /// The string does not have the length a field needs; holds the actual
    /// length in characters.
    LengthMismatch(usize),
    /// A character among the first seventeen is not a decimal digit; holds
    /// the character and its position.
    NotADigit(char, usize),
    /// The check character is wrong; holds the expected and the actual one.
    ChecksumMismatch(char, char),
    /// The eight characters at positions 6..14 are not a `YYYYMMDD` date;
    /// holds them.
    InvalidBirthDate(String),
}

/// Mathematical form of an [`Error`].
pub enum ErrorKind {
    LengthMismatch(nat),
    NotADigit(char, nat),
    ChecksumMismatch(char, char),
    InvalidBirthDate(Seq<char>),
}

impl View for Error {
    type V = ErrorKind;

    open spec fn view(&self) -> ErrorKind {
        match self {
            Error::LengthMismatch(n) => ErrorKind::LengthMismatch(*n as nat),
            Error::NotADigit(c, i) => ErrorKind::NotADigit(*c, *i as nat),
            Error::ChecksumMismatch(e, a) => ErrorKind::ChecksumMismatch(*e, *a),
            Error::InvalidBirthDate(t) => ErrorKind::InvalidBirthDate(t@),
        }
    }
}

} // verus!
