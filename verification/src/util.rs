//! The template engine, the field formatter, the width policy and the cache
//! handle.

use vstd::prelude::*;
use vstd::string::*;

use crate::config::Config;
use crate::record::{
    decode_record, decoded_record, encode_record, encoded_record, fresh, overwritten,
    recent_record, record_round_trip, written_then_read,
};
use crate::text::{chars_of, find_char, first_from, matches_at, push_copies, push_range, starts_at};

verus! {

/// What is left of `s` from position `i` on, once every occurrence of `token`
/// found by scanning left to right is replaced by `value`. The scan resumes
/// behind each occurrence, so occurrences do not overlap and the inserted
/// text is never scanned. An empty token occurs nowhere.
pub open spec fn replaced_from(s: Seq<char>, token: Seq<char>, value: Seq<char>, i: int) -> Seq<char>
    decreases s.len() - i,
{
    if i < 0 || i >= s.len() {
        Seq::empty()
    } else if token.len() > 0 && matches_at(s, token, i) {
        value + replaced_from(s, token, value, i + token.len())
    } else {
        seq![s[i]] + replaced_from(s, token, value, i + 1)
    }
}

/// `s` with every occurrence of `token` replaced by `value`.
pub open spec fn replaced(s: Seq<char>, token: Seq<char>, value: Seq<char>) -> Seq<char> {
    replaced_from(s, token, value, 0)
}

proof fn replaced_from_without_occurrence(
    s: Seq<char>,
    token: Seq<char>,
    value: Seq<char>,
    i: int,
)
    requires
        0 <= i <= s.len(),
        forall|j: int| i <= j < s.len() ==> !matches_at(s, token, j),
    ensures
        replaced_from(s, token, value, i) == s.subrange(i, s.len() as int),
    decreases s.len() - i,
{
    if i < s.len() {
        replaced_from_without_occurrence(s, token, value, i + 1);
        assert(seq![s[i]] + s.subrange(i + 1, s.len() as int) =~= s.subrange(i, s.len() as int));
    } else {
        assert(s.subrange(i, s.len() as int) =~= Seq::<char>::empty());
    }
}

/// Replacing a token that occurs nowhere changes nothing.
pub proof fn absent_token_changes_nothing(s: Seq<char>, token: Seq<char>, value: Seq<char>)
    requires
        forall|j: int| 0 <= j < s.len() ==> !matches_at(s, token, j),
    ensures
        replaced(s, token, value) == s,
{
    replaced_from_without_occurrence(s, token, value, 0);
    assert(s.subrange(0, s.len() as int) =~= s);
}

proof fn replaced_from_by_itself(s: Seq<char>, token: Seq<char>, i: int)
    requires
        0 <= i <= s.len(),
    ensures
        replaced_from(s, token, token, i) == s.subrange(i, s.len() as int),
    decreases s.len() - i,
{
    if i >= s.len() {
        assert(s.subrange(i, s.len() as int) =~= Seq::<char>::empty());
    } else if token.len() > 0 && matches_at(s, token, i) {
        replaced_from_by_itself(s, token, i + token.len());
        assert(token + s.subrange(i + token.len(), s.len() as int) =~= s.subrange(
            i,
            s.len() as int,
        ));
    } else {
        replaced_from_by_itself(s, token, i + 1);
        assert(seq![s[i]] + s.subrange(i + 1, s.len() as int) =~= s.subrange(i, s.len() as int));
    }
}

/// Replacing a token by itself changes nothing: what was put in is not
/// scanned again.
pub proof fn token_for_token_changes_nothing(s: Seq<char>, token: Seq<char>)
    ensures
        replaced(s, token, token) == s,
{
    replaced_from_by_itself(s, token, 0);
    assert(s.subrange(0, s.len() as int) =~= s);
}

/// Replaces every occurrence of `from` in `fmtstr` by `to`, scanning from the
/// left and resuming behind each replacement. With an empty `from` the string
/// is left as it is.
pub fn replace_matches(fmtstr: &mut String, from: &str, to: &str)
    ensures
        final(fmtstr)@ == replaced(old(fmtstr)@, from@, to@),
{
    let s: Vec<char> = chars_of(fmtstr.as_str());
    let token: Vec<char> = chars_of(from);
    let n: usize = s.len();
    let m: usize = token.len();
    let mut out: String = String::new();
    let mut i: usize = 0;
    while i < n
        invariant
            s@ == old(fmtstr)@,
            token@ == from@,
            n == s@.len(),
            m == token@.len(),
            i <= n,
            out@ + replaced_from(s@, token@, to@, i as int) == replaced(s@, token@, to@),
        decreases n - i,
    {
        if m > 0 && m <= n - i && starts_at(&s, &token, i) {
            out.append(to);
            i += m;
        } else {
            out.push(s[i]);
            i += 1;
        }
        assert(out@ + replaced_from(s@, token@, to@, i as int) =~= replaced(s@, token@, to@));
    }
    assert(out@ =~= replaced(s@, token@, to@));
    *fmtstr = out;
}

/// `text`, filled up with spaces on the right to at least `minw` characters.
pub open spec fn padded(text: Seq<char>, minw: nat) -> Seq<char> {
    if text.len() >= minw {
        text
    } else {
        text + Seq::new((minw - text.len()) as nat, |i: int| ' ')
    }
}

/// What is shown for a number that cannot fit `maxw` characters: `maxw` nines
/// and a plus sign, one character wider than the field.
pub open spec fn overflow_sentinel(maxw: nat) -> Seq<char> {
    Seq::new(maxw, |i: int| '9').push('+')
}

/// Whether the number rendered as `text` cannot be cut down to `maxw`
/// characters: the field is too long, and `text` has no decimal point before
/// position `maxw`, so cutting would drop integer digits.
pub open spec fn overflows(text: Seq<char>, minw: nat, maxw: nat) -> bool {
    padded(text, minw).len() > maxw && (first_from(text, '.', 0) >= text.len() || first_from(
        text,
        '.',
        0,
    ) >= maxw)
}

/// The field shown for the number rendered as `text` under a minimum and a
/// maximum width: padded to `minw`; if that is longer than `maxw`, the
/// overflow sentinel where the integer part does not fit, else the first
/// `maxw` characters, with a decimal point left dangling at the end moved out
/// and a space put in front in its place.
pub open spec fn fitted(text: Seq<char>, minw: nat, maxw: nat) -> Seq<char> {
    let field = padded(text, minw);
    if field.len() <= maxw {
        field
    } else if overflows(text, minw, maxw) {
        overflow_sentinel(maxw)
    } else if field[maxw - 1] == '.' {
        seq![' '] + field.subrange(0, maxw - 1)
    } else {
        field.subrange(0, maxw as int)
    }
}

/// Fits a rendered number into the field that `config` prescribes. `text` is
/// the number in fixed-point decimal notation, with the configured precision.
pub fn format_metric(text: &str, config: &Config) -> (out: String)
    ensures
        out@ == fitted(text@, config.policy().0 as nat, config.policy().1 as nat),
{
    let (minw, maxw, _) = config.render_policy();
    let chars: Vec<char> = chars_of(text);
    let n: usize = chars.len();
    let width: usize = if n < minw { minw } else { n };
    let mut out: String = String::new();
    if width <= maxw {
        push_range(&mut out, &chars, 0, n);
        push_copies(&mut out, ' ', width - n);
        assert(out@ =~= padded(text@, minw as nat));
        return out;
    }
    let dot: usize = find_char(&chars, '.');
    if dot >= n || dot >= maxw {
        push_copies(&mut out, '9', maxw);
        out.push('+');
        assert(out@ =~= overflow_sentinel(maxw as nat));
        return out;
    }
    let keep: usize = maxw - 1;
    if keep < n && chars[keep] == '.' {
        out.push(' ');
        push_range(&mut out, &chars, 0, keep);
        assert(out@ =~= seq![' '] + padded(text@, minw as nat).subrange(0, keep as int));
    } else {
        let upto: usize = if n < maxw { n } else { maxw };
        push_range(&mut out, &chars, 0, upto);
        push_copies(&mut out, ' ', maxw - upto);
        assert(out@ =~= padded(text@, minw as nat).subrange(0, maxw as int));
    }
    out
}

/// A field that does not overflow is never longer than the maximum width and,
/// where the maximum allows it, never shorter than the minimum: it has
/// exactly `maxw` characters where the padded text has more than that, and is
/// the padded text itself otherwise. An overflowing field has `maxw + 1`.
pub proof fn fitted_width(text: Seq<char>, minw: nat, maxw: nat)
    requires
        maxw >= 1,
    ensures
        overflows(text, minw, maxw) ==> fitted(text, minw, maxw).len() == maxw + 1,
        !overflows(text, minw, maxw) && padded(text, minw).len() > maxw ==> fitted(
            text,
            minw,
            maxw,
        ).len() == maxw,
        padded(text, minw).len() <= maxw ==> fitted(text, minw, maxw) == padded(text, minw)
            && fitted(text, minw, maxw).len() >= minw,
{
}

/// A field that was cut down never ends in a decimal point that stood at the
/// cut: where the last kept character would be the point, the field starts
/// with a space and goes on with the characters before the point.
pub proof fn fitted_no_dangling_point(text: Seq<char>, minw: nat, maxw: nat)
    requires
        maxw >= 1,
        padded(text, minw).len() > maxw,
        !overflows(text, minw, maxw),
        padded(text, minw)[maxw - 1] == '.',
    ensures
        fitted(text, minw, maxw)[0] == ' ',
        fitted(text, minw, maxw).len() == maxw,
        forall|i: int| 1 <= i < maxw ==> fitted(text, minw, maxw)[i] == text[i - 1],
{
}

/// The sixteen hexadecimal digits, letters in upper case.
pub open spec fn hex_digit(v: nat) -> char {
    seq!['0', '1', '2', '3', '4', '5', '6', '7', '8', '9', 'A', 'B', 'C', 'D', 'E', 'F'][v as int]
}

/// A colour with the given channels in the notation `#RRGGBB`.
pub open spec fn hex_colour(red: u8, green: u8, blue: u8) -> Seq<char> {
    seq![
        '#',
        hex_digit(red as nat / 16),
        hex_digit(red as nat % 16),
        hex_digit(green as nat / 16),
        hex_digit(green as nat % 16),
        hex_digit(blue as nat / 16),
        hex_digit(blue as nat % 16),
    ]
}

fn hex_char(v: u8) -> (ch: char)
    requires
        v < 16,
    ensures
        ch == hex_digit(v as nat),
{
    match v {
        0 => '0',
        1 => '1',
        2 => '2',
        3 => '3',
        4 => '4',
        5 => '5',
        6 => '6',
        7 => '7',
        8 => '8',
        9 => '9',
        10 => 'A',
        11 => 'B',
        12 => 'C',
        13 => 'D',
        14 => 'E',
        _ => 'F',
    }
}

/// Writes a gradient colour, given by its three 8-bit channels, as `#RRGGBB`
/// with upper-case digits.
pub fn gradient(red: u8, green: u8, blue: u8) -> (out: String)
    ensures
        out@ == hex_colour(red, green, blue),
{
    let mut out: String = String::new();
    out.push('#');
    out.push(hex_char(red / 16));
    out.push(hex_char(red % 16));
    out.push(hex_char(green / 16));
    out.push(hex_char(green % 16));
    out.push(hex_char(blue / 16));
    out.push(hex_char(blue % 16));
    assert(out@ =~= hex_colour(red, green, blue));
    out
}

/// Why a width or precision could not be read as a number.
#[derive(Debug, Clone, Copy, PartialEq, Eq, Structural)]
pub enum ParseError {
    /// The text is empty.
    Empty,
    /// The text holds something that is no decimal digit.
    InvalidDigit,
    /// The number is too large for a `usize`.
    PosOverflow,
    /// The number is too small for a `usize`.
    NegOverflow,
    /// The number is zero where zero is not allowed.
    Zero,
    /// Any other failure that the standard library may report.
    Other,
}

/// What the standard library makes of `s` when asked for a `usize`.
pub uninterp spec fn parsed_usize(s: Seq<char>) -> Result<usize, ParseError>;

/// Whether `s` consists of the digits `0` to `9` only.
pub open spec fn all_digits(s: Seq<char>) -> bool {
    forall|i: int| 0 <= i < s.len() ==> '0' <= #[trigger] s[i] <= '9'
}

/// The number that the digits of `s` denote in base ten.
pub open spec fn decimal_value(s: Seq<char>) -> nat
    decreases s.len(),
{
    if s.len() == 0 {
        0
    } else {
        (decimal_value(s.drop_last()) * 10 + (s.last() as nat - '0' as nat)) as nat
    }
}

/// Calls `str::parse::<usize>` and reports a failure by its kind. The result
/// is the named one. Stated besides: the failure is `Empty` exactly for the
/// empty text, and a non-empty run of decimal digits whose value fits a
/// `usize` gives that value.
#[verifier::external_body]
fn parse_usize(s: &str) -> (r: Result<usize, ParseError>)
    ensures
        r == parsed_usize(s@),
        r is Ok ==> s@.len() > 0,
        r matches Err(e) ==> (e == ParseError::Empty <==> s@.len() == 0),
        r is Err ==> !(s@.len() > 0 && all_digits(s@) && decimal_value(s@) <= usize::MAX),
        r matches Ok(v) ==> (all_digits(s@) ==> v == decimal_value(s@)),
{
    match s.parse::<usize>() {
        Ok(v) => Ok(v),
        Err(e) => Err(
            match e.kind() {
                std::num::IntErrorKind::Empty => ParseError::Empty,
                std::num::IntErrorKind::InvalidDigit => ParseError::InvalidDigit,
                std::num::IntErrorKind::PosOverflow => ParseError::PosOverflow,
                std::num::IntErrorKind::NegOverflow => ParseError::NegOverflow,
                std::num::IntErrorKind::Zero => ParseError::Zero,
                _ => ParseError::Other,
            },
        ),
    }
}

/// The part of `s` before the first `ch`; all of `s` where there is none.
pub open spec fn before(s: Seq<char>, ch: char) -> Seq<char> {
    s.subrange(0, first_from(s, ch, 0))
}

/// The part of `s` behind the first `ch`; empty where there is none.
pub open spec fn behind(s: Seq<char>, ch: char) -> Seq<char> {
    let at = first_from(s, ch, 0);
    if at < s.len() {
        s.subrange(at + 1, s.len() as int)
    } else {
        Seq::empty()
    }
}

/// The minimum width as written in the policy `s`: what stands before the
/// first colon of the part before the first point.
pub open spec fn min_part(s: Seq<char>) -> Seq<char> {
    before(before(s, '.'), ':')
}

/// The maximum width as written in the policy `s`: what stands behind the
/// first colon of the part before the first point.
pub open spec fn max_part(s: Seq<char>) -> Seq<char> {
    behind(before(s, '.'), ':')
}

/// The precision as written in the policy `s`: what stands behind the first
/// point.
pub open spec fn precision_part(s: Seq<char>) -> Seq<char> {
    behind(s, '.')
}

/// Whether a field is left empty or is a run of decimal digits whose value
/// fits a `usize`.
pub open spec fn plain_field(s: Seq<char>) -> bool {
    s.len() == 0 || (all_digits(s) && decimal_value(s) <= usize::MAX)
}

/// The value of a plain field: its default where it is empty, else the
/// number that its digits denote.
pub open spec fn field_value(s: Seq<char>, default: usize) -> usize {
    if s.len() == 0 {
        default
    } else {
        decimal_value(s) as usize
    }
}

/// A field that was left empty takes its default; any other outcome stands.
pub open spec fn field_or(parsed: Result<usize, ParseError>, default: usize) -> Result<
    usize,
    ParseError,
> {
    match parsed {
        Err(ParseError::Empty) => Ok(default),
        other => other,
    }
}

/// The policy made of three parsed fields: minimum width (default 0), maximum
/// width (default unbounded) and precision (default 0). The first field that
/// failed, in this order, decides the error.
pub open spec fn extras_of(
    minw: Result<usize, ParseError>,
    maxw: Result<usize, ParseError>,
    precision: Result<usize, ParseError>,
) -> Result<(usize, usize, usize), ParseError> {
    match (field_or(minw, 0), field_or(maxw, usize::MAX), field_or(precision, 0)) {
        (Ok(a), Ok(b), Ok(c)) => Ok((a, b, c)),
        (Err(e), _, _) => Err(e),
        (_, Err(e), _) => Err(e),
        (_, _, Err(e)) => Err(e),
    }
}

fn default_if_empty(parsed: Result<usize, ParseError>, default: usize) -> (r: Result<
    usize,
    ParseError,
>)
    ensures
        r == field_or(parsed, default),
{
    match parsed {
        Err(ParseError::Empty) => Ok(default),
        other => other,
    }
}

/// Puts three parsed fields together, filling in the defaults.
pub fn combine_extras(
    minw: Result<usize, ParseError>,
    maxw: Result<usize, ParseError>,
    precision: Result<usize, ParseError>,
) -> (r: Result<(usize, usize, usize), ParseError>)
    ensures
        r == extras_of(minw, maxw, precision),
        !(r matches Err(ParseError::Empty)),
{
    let a: usize = match default_if_empty(minw, 0) {
        Ok(v) => v,
        Err(e) => { return Err(e); },
    };
    let b: usize = match default_if_empty(maxw, usize::MAX) {
        Ok(v) => v,
        Err(e) => { return Err(e); },
    };
    let c: usize = match default_if_empty(precision, 0) {
        Ok(v) => v,
        Err(e) => { return Err(e); },
    };
    Ok((a, b, c))
}

/// Reads a policy written as `MIN:MAX.PRECISION`. The precision is what
/// follows the first point; of what stands before it, the maximum is what
/// follows the first colon and the minimum what precedes it. Each part may be
/// left out and then takes its default. Where every part is left out or made
/// of digits that fit, the policy is made of their values; in general each
/// part is read as the standard library reads a `usize`.
pub fn extras_parser(s: &str) -> (r: Result<(usize, usize, usize), ParseError>)
    ensures
        r == extras_of(
            parsed_usize(min_part(s@)),
            parsed_usize(max_part(s@)),
            parsed_usize(precision_part(s@)),
        ),
        plain_field(min_part(s@)) && plain_field(max_part(s@)) && plain_field(precision_part(s@))
            ==> r == Ok::<(usize, usize, usize), ParseError>(
            (
                field_value(min_part(s@), 0),
                field_value(max_part(s@), usize::MAX),
                field_value(precision_part(s@), 0),
            ),
        ),
        r is Err ==> !(plain_field(min_part(s@)) && plain_field(max_part(s@)) && plain_field(
            precision_part(s@),
        )),
        !(r matches Err(ParseError::Empty)),
{
    let chars: Vec<char> = chars_of(s);
    let n: usize = chars.len();
    let dot: usize = find_char(&chars, '.');
    let widths: &str = s.substring_char(0, dot);
    let precision: &str = if dot < n {
        s.substring_char(dot + 1, n)
    } else {
        s.substring_char(n, n)
    };
    assert(precision@ =~= behind(s@, '.'));
    let wchars: Vec<char> = chars_of(widths);
    let wn: usize = wchars.len();
    let colon: usize = find_char(&wchars, ':');
    let minw: &str = widths.substring_char(0, colon);
    let maxw: &str = if colon < wn {
        widths.substring_char(colon + 1, wn)
    } else {
        widths.substring_char(wn, wn)
    };
    assert(maxw@ =~= behind(widths@, ':'));
    combine_extras(parse_usize(minw), parse_usize(maxw), parse_usize(precision))
}

/// The metric families that keep a previous sample.
#[derive(Debug, Clone, Copy, PartialEq, Eq, Structural)]
pub enum CacheMod {
    Cpu,
    Load,
    Net,
}

impl CacheMod {
    /// The ending of the family's cache file name.
    pub open spec fn suffix(self) -> Seq<char> {
        match self {
            CacheMod::Cpu => "cpu"@,
            CacheMod::Load => "load"@,
            CacheMod::Net => "net"@,
        }
    }

    /// Returns the ending of the family's cache file name.
    pub fn extension(self) -> (s: &'static str)
        ensures
            s@ == self.suffix(),
    {
        match self {
            CacheMod::Cpu => "cpu",
            CacheMod::Load => "load",
            CacheMod::Net => "net",
        }
    }
}

/// The name of the cache file of one client and one metric family.
pub open spec fn cache_file_name(client: Seq<char>, module: CacheMod) -> Seq<char> {
    client.push('.') + module.suffix()
}

/// Returns the name of the cache file of `client` and `module` inside the
/// cache directory.
pub fn file_name(client: &str, module: CacheMod) -> (name: String)
    ensures
        name@ == cache_file_name(client@, module),
{
    let mut name: String = String::from_str(client);
    name.push('.');
    name.append(module.extension());
    assert(name@ =~= cache_file_name(client@, module));
    name
}

/// The freshness window of a rate sampled every `status_interval` seconds, in
/// nanoseconds: one interval and one second of slack.
pub open spec fn sample_window(status_interval: u64) -> int {
    (status_interval + 1) * 1_000_000_000
}

/// Returns the freshness window of a rate sampled every `status_interval`
/// seconds, in nanoseconds.
pub fn max_sample_age(status_interval: u64) -> (window: u128)
    ensures
        window == sample_window(status_interval),
{
    (status_interval as u128 + 1) * 1_000_000_000
}

/// The cache file of one metric family, as it was found when it was opened.
/// Times are in nanoseconds since the Unix epoch, ages in nanoseconds.
#[derive(Debug)]
pub struct Cache {
    /// The file's name inside the cache directory.
    pub file_name: String,
    /// When the file was last modified.
    pub mtime: u128,
    /// How old a sample may be and still be used.
    pub max_age: u128,
    /// What the file holds.
    pub content: Vec<u8>,
}

impl Cache {
    /// Whether the file is in one of its two sound states: empty, or exactly
    /// one record long.
    pub open spec fn intact(&self) -> bool {
        self.content@.len() == 0 || self.content@.len() == 16
    }

    /// The previous sample that may be used at `now`.
    pub open spec fn recent(&self, now: u128) -> Option<(u64, u64)> {
        recent_record(self.content@, self.mtime as int, self.max_age as int, now as int)
    }

    /// Describes the cache file of `module` for the client named in `config`,
    /// last modified at `mtime` and holding `content`.
    pub fn init(
        config: &Config,
        module: CacheMod,
        max_age: u128,
        mtime: u128,
        content: Vec<u8>,
    ) -> (cache: Cache)
        requires
            config.client_pid is Some,
        ensures
            cache.file_name@ == cache_file_name(config.client_pid->Some_0@, module),
            cache.mtime == mtime,
            cache.max_age == max_age,
            cache.content@ == content@,
    {
        let file_name: String = match &config.client_pid {
            Some(client) => file_name(client.as_str(), module),
            None => String::new(),
        };
        Cache { file_name, mtime, max_age, content }
    }

    /// Whether the file holds nothing, which means that there is no sample yet.
    pub fn is_empty(&self) -> (empty: bool)
        ensures
            empty == (self.content@.len() == 0),
    {
        self.content.len() == 0
    }

    /// Whether the file was modified recently enough for its sample to be used
    /// at `now`.
    pub fn is_hot(&self, now: u128) -> (hot: bool)
        ensures
            hot == fresh(self.mtime as int, self.max_age as int, now as int),
    {
        self.mtime >= now || now - self.mtime <= self.max_age
    }

    /// The stored sample, whatever its age: none where the file is empty or
    /// holds less than one record.
    pub fn get(&self) -> (record: Option<(u64, u64)>)
        ensures
            record == decoded_record(self.content@),
    {
        if self.is_empty() {
            return None;
        }
        decode_record(&self.content)
    }

    /// The stored sample, if there is one and it is fresh at `now`.
    pub fn get_recent(&self, now: u128) -> (record: Option<(u64, u64)>)
        ensures
            record == self.recent(now),
    {
        if !self.is_hot(now) {
            return None;
        }
        self.get()
    }

    /// Records the sample `(a, b)` taken at `now` and returns the sixteen
    /// bytes to write at the beginning of the file.
    pub fn update(&mut self, a: u64, b: u64, now: u128) -> (record: Vec<u8>)
        ensures
            record@ == encoded_record(a, b),
            final(self).content@ == overwritten(old(self).content@, encoded_record(a, b)),
            final(self).mtime == now,
            final(self).max_age == old(self).max_age,
            final(self).file_name == old(self).file_name,
            final(self).recent(now) == Some((a, b)),
            old(self).content@.len() <= 16 ==> final(self).intact(),
    {
        let record: Vec<u8> = encode_record(a, b);
        let mut content: Vec<u8> = encode_record(a, b);
        let n: usize = self.content.len();
        let mut i: usize = 16;
        proof {
            record_round_trip(a, b);
        }
        while i < n
            invariant
                n == self.content@.len(),
                16 <= i,
                i <= n || n < 16,
                self.content@ == old(self).content@,
                n <= 16 ==> content@ == encoded_record(a, b),
                n > 16 ==> content@ == encoded_record(a, b) + self.content@.subrange(16, i as int),
            decreases n - i,
        {
            content.push(self.content[i]);
            i += 1;
            assert(content@ =~= encoded_record(a, b) + self.content@.subrange(16, i as int));
        }
        assert(content@ =~= overwritten(old(self).content@, encoded_record(a, b)));
        self.content = content;
        self.mtime = now;
        proof {
            written_then_read(
                old(self).content@,
                a,
                b,
                now as int,
                self.max_age as int,
                now as int,
            );
        }
        record
    }

    /// Takes note of how the write of a record went, and says whether the
    /// file is to be cut to length zero: after a write that succeeded nothing
    /// changes and nothing is to be cut; after one that failed the stored
    /// sample is forgotten and the file is to be cut, so that what may be a
    /// partial record is never read as a sample.
    pub fn settle(&mut self, written: bool) -> (truncate: bool)
        ensures
            truncate == !written,
            written ==> *final(self) == *old(self),
            !written ==> final(self).content@.len() == 0,
            !written ==> forall|now: u128| final(self).recent(now) == None::<(u64, u64)>,
            old(self).intact() ==> final(self).intact(),
            final(self).mtime == old(self).mtime,
            final(self).max_age == old(self).max_age,
            final(self).file_name == old(self).file_name,
    {
        if written {
            false
        } else {
            self.discard();
            true
        }
    }

    /// Forgets the stored sample: the file is to be cut to length zero, which
    /// reads as no sample.
    pub fn discard(&mut self)
        ensures
            final(self).content@.len() == 0,
            final(self).intact(),
            final(self).mtime == old(self).mtime,
            final(self).max_age == old(self).max_age,
            final(self).file_name == old(self).file_name,
            forall|now: u128| final(self).recent(now) == None::<(u64, u64)>,
    {
        self.content = Vec::new();
    }
}

/// A template in which first a colour token and then a value token were
/// replaced: the colour as it is, the value fitted into its field.
pub open spec fn rendered(
    template: Seq<char>,
    colour_token: Seq<char>,
    colour: Seq<char>,
    value_token: Seq<char>,
    text: Seq<char>,
    policy: (usize, usize, usize),
) -> Seq<char> {
    replaced(
        replaced(template, colour_token, colour),
        value_token,
        fitted(text, policy.0 as nat, policy.1 as nat),
    )
}

/// Renders one metric into the template: every `colour_token` becomes
/// `colour`, then every `value_token` becomes `text` fitted into its field.
pub fn render_metric(
    fmtstr: &mut String,
    colour_token: &str,
    colour: &str,
    value_token: &str,
    text: &str,
    config: &Config,
)
    ensures
        final(fmtstr)@ == rendered(
            old(fmtstr)@,
            colour_token@,
            colour@,
            value_token@,
            text@,
            config.policy(),
        ),
{
    replace_matches(fmtstr, colour_token, colour);
    let field: String = format_metric(text, config);
    replace_matches(fmtstr, value_token, field.as_str());
}

} // verus!
