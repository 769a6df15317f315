//! Filename templates: compiling a template into a regular expression, and
//! recovering a timestamp from the groups that it captures in a filename.
use vstd::prelude::*;
use vstd::std_specs::iter::IteratorSpec;
use vstd::string::StrSliceExecFns;

use crate::timestamp::{is_calendar_date, is_clock_time, Timestamp};

verus! {

/// Declares regex::Regex, a compiled regular expression, which is carried
/// through opaquely.
#[verifier::external_type_specification]
#[verifier::external_body]
pub struct ExRegex(regex::Regex);

/// Declares regex::Error, the error of a pattern that does not compile,
/// which is only told apart from success.
#[verifier::external_type_specification]
#[verifier::external_body]
pub struct ExRegexError(regex::Error);

/// Whether the regex engine accepts a pattern.
pub uninterp spec fn regex_accepts(source: Seq<char>) -> bool;

/// Whether the regular expression `source` matches somewhere in `haystack`.
pub uninterp spec fn regex_matches(source: Seq<char>, haystack: Seq<char>) -> bool;

/// The text of the group named `group` in the leftmost match of `source`
/// in `haystack`, `None` where it took no part or does not exist.
pub uninterp spec fn group_text(source: Seq<char>, haystack: Seq<char>, group: Seq<char>) -> Option<Seq<char>>;

/// A compiled regular expression together with the text it was compiled
/// from. Only `compile_regex` builds one.
#[derive(Debug)]
pub struct Matcher {
    source: String,
    regex: regex::Regex,
}

impl Matcher {
    /// The text of the regular expression.
    pub closed spec fn source_spec(&self) -> Seq<char> {
        self.source@
    }
}

/// Relies on regex::Regex::new, which succeeds exactly when the pattern is
/// valid and fits the default size limit, a property of the pattern alone.
/// The compiled regex is kept beside its source text.
#[verifier::external_body]
fn compile_regex(source: &str) -> (r: Result<Matcher, regex::Error>)
    ensures
        r is Ok <==> regex_accepts(source@),
        r matches Ok(m) ==> m.source_spec() == source@,
{
    match regex::Regex::new(source) {
        Ok(regex) => Ok(Matcher { source: source.to_string(), regex }),
        Err(e) => Err(e),
    }
}

pub open spec fn text_of(o: Option<String>) -> Option<Seq<char>> {
    match o {
        Some(s) => Some(s@),
        None => None,
    }
}

/// Relies on regex::Regex::captures and Captures::name: `None` where the
/// haystack holds no match, else for each name the text of that group in the
/// leftmost match, or `None` where the group took no part or does not exist.
#[verifier::external_body]
fn capture_groups(m: &Matcher, haystack: &str, names: &Vec<&str>) -> (r: Option<Vec<Option<String>>>)
    ensures
        r is Some <==> regex_matches(m.source_spec(), haystack@),
        r matches Some(v) ==> v@.len() == names@.len() && forall|i: int| 0 <= i < v@.len()
            ==> text_of(#[trigger] v@[i]) == group_text(m.source_spec(), haystack@, names@[i]@),
{
    m.regex.captures(haystack).map(|caps| names.iter().map(|n| caps.name(n).map(|x| x.as_str().to_string())).collect())
}

/// Why a filename yields no timestamp.
#[derive(Clone, Copy, Debug, PartialEq, Eq, Structural)]
pub enum ExtractError {
    /// The template does not compile to a valid regular expression.
    Pattern,
    /// The filename does not match the template.
    NoMatch,
    /// A captured number is not a decimal that fits its field.
    InvalidNumber,
    /// The captured fields name no existing day or time of day.
    InvalidDate,
}

/// The placeholders a template may hold.
#[derive(Clone, Copy, Debug, PartialEq, Eq, Structural)]
pub enum Placeholder {
    Name,
    Year,
    MonthAbbr,
    MonthAbr,
    Month,
    Day,
    Hour,
    Minutes,
    Seconds,
    TimeZone,
}

impl Placeholder {
    pub open spec fn text_spec(self) -> Seq<char> {
        match self {
            Placeholder::Name => seq!['{', 'n', 'a', 'm', 'e', '}'],
            Placeholder::Year => seq!['{', 'y', 'e', 'a', 'r', '}'],
            Placeholder::MonthAbbr => seq!['{', 'm', 'o', 'n', 't', 'h', '_', 'a', 'b', 'b', 'r', '}'],
            Placeholder::MonthAbr => seq!['{', 'm', 'o', 'n', 't', 'h', '_', 'a', 'b', 'r', '}'],
            Placeholder::Month => seq!['{', 'm', 'o', 'n', 't', 'h', '}'],
            Placeholder::Day => seq!['{', 'd', 'a', 'y', '}'],
            Placeholder::Hour => seq!['{', 'h', 'o', 'u', 'r', '}'],
            Placeholder::Minutes => seq!['{', 'm', 'i', 'n', 'u', 't', 'e', 's', '}'],
            Placeholder::Seconds => seq!['{', 's', 'e', 'c', 'o', 'n', 'd', 's', '}'],
            Placeholder::TimeZone => seq!['{', 'T', 'Z', '}'],
        }
    }

    /// The placeholder as it is written in a template.
    pub fn text(&self) -> (r: &'static str)
        ensures
            r@ == self.text_spec(),
    {
        match self {
            Placeholder::Name => {
                proof { reveal_strlit("{name}"); }
                "{name}"
            },
            Placeholder::Year => {
                proof { reveal_strlit("{year}"); }
                "{year}"
            },
            Placeholder::MonthAbbr => {
                proof { reveal_strlit("{month_abbr}"); }
                "{month_abbr}"
            },
            Placeholder::MonthAbr => {
                proof { reveal_strlit("{month_abr}"); }
                "{month_abr}"
            },
            Placeholder::Month => {
                proof { reveal_strlit("{month}"); }
                "{month}"
            },
            Placeholder::Day => {
                proof { reveal_strlit("{day}"); }
                "{day}"
            },
            Placeholder::Hour => {
                proof { reveal_strlit("{hour}"); }
                "{hour}"
            },
            Placeholder::Minutes => {
                proof { reveal_strlit("{minutes}"); }
                "{minutes}"
            },
            Placeholder::Seconds => {
                proof { reveal_strlit("{seconds}"); }
                "{seconds}"
            },
            Placeholder::TimeZone => {
                proof { reveal_strlit("{TZ}"); }
                "{TZ}"
            },
        }
    }

    pub open spec fn group_spec(self) -> Seq<char> {
        match self {
            Placeholder::Name => "(?P<name>.+)"@,
            Placeholder::Year => "(?P<year>\\d{4})"@,
            Placeholder::MonthAbbr => "(?P<month_abbr>[a-zA-Z]{3})"@,
            Placeholder::MonthAbr => "(?P<month_abbr>[a-zA-Z]{3})"@,
            Placeholder::Month => "(?P<month>\\d{1,2})"@,
            Placeholder::Day => "(?P<day>\\d{1,2})"@,
            Placeholder::Hour => "(?P<hour>\\d{1,2})"@,
            Placeholder::Minutes => "(?P<minutes>\\d{1,2})"@,
            Placeholder::Seconds => "(?P<seconds>\\d{1,2})"@,
            Placeholder::TimeZone => "(?P<timezone>[+-]\\d{2}:\\d{2})"@,
        }
    }

    pub open spec fn plain_group_spec(self) -> Seq<char> {
        match self {
            Placeholder::Name => "(?:.+)"@,
            Placeholder::Year => "(?:\\d{4})"@,
            Placeholder::MonthAbbr => "(?:[a-zA-Z]{3})"@,
            Placeholder::MonthAbr => "(?:[a-zA-Z]{3})"@,
            Placeholder::Month => "(?:\\d{1,2})"@,
            Placeholder::Day => "(?:\\d{1,2})"@,
            Placeholder::Hour => "(?:\\d{1,2})"@,
            Placeholder::Minutes => "(?:\\d{1,2})"@,
            Placeholder::Seconds => "(?:\\d{1,2})"@,
            Placeholder::TimeZone => "(?:[+-]\\d{2}:\\d{2})"@,
        }
    }

    /// The same pattern as `group`, without a capture.
    pub fn plain_group(&self) -> (r: &'static str)
        ensures
            r@ == self.plain_group_spec(),
    {
        match self {
            Placeholder::Name => "(?:.+)",
            Placeholder::Year => "(?:\\d{4})",
            Placeholder::MonthAbbr => "(?:[a-zA-Z]{3})",
            Placeholder::MonthAbr => "(?:[a-zA-Z]{3})",
            Placeholder::Month => "(?:\\d{1,2})",
            Placeholder::Day => "(?:\\d{1,2})",
            Placeholder::Hour => "(?:\\d{1,2})",
            Placeholder::Minutes => "(?:\\d{1,2})",
            Placeholder::Seconds => "(?:\\d{1,2})",
            Placeholder::TimeZone => "(?:[+-]\\d{2}:\\d{2})",
        }
    }

    /// Both placeholders fill the same capture group.
    pub open spec fn same_group(self, other: Placeholder) -> bool {
        self == other || (self is MonthAbbr || self is MonthAbr) && (other is MonthAbbr || other is MonthAbr)
    }

    /// Whether both placeholders fill the same capture group.
    pub fn shares_group(&self, other: &Placeholder) -> (r: bool)
        ensures
            r == self.same_group(*other),
    {
        match (self, other) {
            (Placeholder::Name, Placeholder::Name) => true,
            (Placeholder::Year, Placeholder::Year) => true,
            (Placeholder::MonthAbbr, Placeholder::MonthAbbr) => true,
            (Placeholder::MonthAbbr, Placeholder::MonthAbr) => true,
            (Placeholder::MonthAbr, Placeholder::MonthAbbr) => true,
            (Placeholder::MonthAbr, Placeholder::MonthAbr) => true,
            (Placeholder::Month, Placeholder::Month) => true,
            (Placeholder::Day, Placeholder::Day) => true,
            (Placeholder::Hour, Placeholder::Hour) => true,
            (Placeholder::Minutes, Placeholder::Minutes) => true,
            (Placeholder::Seconds, Placeholder::Seconds) => true,
            (Placeholder::TimeZone, Placeholder::TimeZone) => true,
            _ => false,
        }
    }

    /// The named capture group that the placeholder compiles to.
    pub fn group(&self) -> (r: &'static str)
        ensures
            r@ == self.group_spec(),
    {
        match self {
            Placeholder::Name => "(?P<name>.+)",
            Placeholder::Year => "(?P<year>\\d{4})",
            Placeholder::MonthAbbr => "(?P<month_abbr>[a-zA-Z]{3})",
            Placeholder::MonthAbr => "(?P<month_abbr>[a-zA-Z]{3})",
            Placeholder::Month => "(?P<month>\\d{1,2})",
            Placeholder::Day => "(?P<day>\\d{1,2})",
            Placeholder::Hour => "(?P<hour>\\d{1,2})",
            Placeholder::Minutes => "(?P<minutes>\\d{1,2})",
            Placeholder::Seconds => "(?P<seconds>\\d{1,2})",
            Placeholder::TimeZone => "(?P<timezone>[+-]\\d{2}:\\d{2})",
        }
    }
}

/// `p` occurs in `t` starting at index `i`.
pub open spec fn occurs_at(t: Seq<char>, i: int, p: Seq<char>) -> bool {
    0 <= i && i + p.len() <= t.len() && t.subrange(i, i + p.len()) == p
}

/// The placeholder that starts at index `i` of a template, if any.
pub open spec fn token_at(t: Seq<char>, i: int) -> Option<Placeholder> {
    if occurs_at(t, i, Placeholder::Name.text_spec()) {
        Some(Placeholder::Name)
    } else if occurs_at(t, i, Placeholder::Year.text_spec()) {
        Some(Placeholder::Year)
    } else if occurs_at(t, i, Placeholder::MonthAbbr.text_spec()) {
        Some(Placeholder::MonthAbbr)
    } else if occurs_at(t, i, Placeholder::MonthAbr.text_spec()) {
        Some(Placeholder::MonthAbr)
    } else if occurs_at(t, i, Placeholder::Month.text_spec()) {
        Some(Placeholder::Month)
    } else if occurs_at(t, i, Placeholder::Day.text_spec()) {
        Some(Placeholder::Day)
    } else if occurs_at(t, i, Placeholder::Hour.text_spec()) {
        Some(Placeholder::Hour)
    } else if occurs_at(t, i, Placeholder::Minutes.text_spec()) {
        Some(Placeholder::Minutes)
    } else if occurs_at(t, i, Placeholder::Seconds.text_spec()) {
        Some(Placeholder::Seconds)
    } else if occurs_at(t, i, Placeholder::TimeZone.text_spec()) {
        Some(Placeholder::TimeZone)
    } else {
        None
    }
}

/// A placeholder of the same group as `p` starts at or after index `from`.
pub open spec fn group_repeats(t: Seq<char>, from: int, p: Placeholder) -> bool {
    exists|k: int| from <= k < t.len() && (#[trigger] token_at(t, k) matches Some(q) && p.same_group(q))
}

/// What a placeholder at index `i` compiles to: its capture group, or, where
/// the same group comes again later in the template, the same pattern
/// without a capture, so that the last occurrence captures.
pub open spec fn placeholder_regex(t: Seq<char>, i: int, p: Placeholder) -> Seq<char> {
    if group_repeats(t, i + p.text_spec().len(), p) {
        p.plain_group_spec()
    } else {
        p.group_spec()
    }
}

/// Characters with a meaning of their own in a regular expression.
pub open spec fn is_meta_character(c: char) -> bool {
    c == '\\' || c == '.' || c == '+' || c == '*' || c == '?' || c == '(' || c == ')' || c == '|'
        || c == '[' || c == ']' || c == '{' || c == '}' || c == '^' || c == '$' || c == '#'
        || c == '&' || c == '-' || c == '~'
}

/// A literal character as regular-expression text that matches just it.
pub open spec fn escaped(c: char) -> Seq<char> {
    if is_meta_character(c) {
        seq!['\\', c]
    } else {
        seq![c]
    }
}

/// The regular expression for the template text from index `i` on, read left
/// to right: each placeholder becomes its capture group, every other
/// character stands for itself.
pub open spec fn compile_from(t: Seq<char>, i: int) -> Seq<char>
    decreases t.len() - i,
{
    if i < 0 || i >= t.len() {
        Seq::empty()
    } else {
        match token_at(t, i) {
            Some(p) => placeholder_regex(t, i, p) + compile_from(t, i + p.text_spec().len()),
            None => escaped(t[i]) + compile_from(t, i + 1),
        }
    }
}

pub open spec fn compile(t: Seq<char>) -> Seq<char> {
    compile_from(t, 0)
}

broadcast use vstd::string::group_string_axioms;

/// The characters of `s`, in order.
fn chars_of(s: &str) -> (r: Vec<char>)
    ensures
        r@ == s@,
{
    let n = s.unicode_len();
    let mut it = s.chars();
    let mut v: Vec<char> = Vec::new();
    let mut i: usize = 0;
    while i < n
        invariant
            i <= n,
            n == s@.len(),
            v@.len() == i,
            v@ + it.remaining() == s@,
        decreases n - i,
    {
        let c = it.next().unwrap();
        v.push(c);
        i = i + 1;
    }
    v
}

fn occurs_at_exec(t: &Vec<char>, t_len: usize, i: usize, p: &str) -> (r: bool)
    requires
        t_len == t@.len(),
        i <= t_len,
    ensures
        r == occurs_at(t@, i as int, p@),
{
    let p_len = p.unicode_len();
    if p_len > t_len - i {
        return false;
    }
    let mut k: usize = 0;
    while k < p_len
        invariant
            k <= p_len,
            i + p_len <= t_len,
            p_len == p@.len(),
            t_len == t@.len(),
            t@.subrange(i as int, i + k) == p@.subrange(0, k as int),
        decreases p_len - k,
    {
        if t[i + k] != p.get_char(k) {
            assert(t@.subrange(i as int, i + p_len)[k as int] != p@[k as int]);
            return false;
        }
        assert(t@.subrange(i as int, i + k + 1) == t@.subrange(i as int, i + k).push(t@[i + k]));
        assert(p@.subrange(0, k + 1) == p@.subrange(0, k as int).push(p@[k as int]));
        k = k + 1;
    }
    assert(p@.subrange(0, p_len as int) == p@);
    true
}

fn token_at_exec(t: &Vec<char>, t_len: usize, i: usize) -> (r: Option<Placeholder>)
    requires
        t_len == t@.len(),
        i <= t_len,
    ensures
        r == token_at(t@, i as int),
{
    let order = [
        Placeholder::Name,
        Placeholder::Year,
        Placeholder::MonthAbbr,
        Placeholder::MonthAbr,
        Placeholder::Month,
        Placeholder::Day,
        Placeholder::Hour,
        Placeholder::Minutes,
        Placeholder::Seconds,
        Placeholder::TimeZone,
    ];
    let mut k: usize = 0;
    while k < 10
        invariant
            k <= 10,
            t_len == t@.len(),
            i <= t_len,
            order@ == seq![
                Placeholder::Name,
                Placeholder::Year,
                Placeholder::MonthAbbr,
                Placeholder::MonthAbr,
                Placeholder::Month,
                Placeholder::Day,
                Placeholder::Hour,
                Placeholder::Minutes,
                Placeholder::Seconds,
                Placeholder::TimeZone,
            ],
            forall|j: int| 0 <= j < k ==> !occurs_at(t@, i as int, (#[trigger] order@[j]).text_spec()),
        decreases 10 - k,
    {
        let p = order[k];
        if occurs_at_exec(t, t_len, i, p.text()) {
            return Some(p);
        }
        k = k + 1;
    }
    None
}

fn append_escaped(out: &mut String, t: &str, t_len: usize, i: usize)
    requires
        t_len == t@.len(),
        i < t_len,
    ensures
        final(out)@ == old(out)@ + escaped(t@[i as int]),
{
    let c = t.get_char(i);
    let single = t.substring_char(i, i + 1);
    assert(single@ =~= seq![c]);
    if c == '\\' || c == '.' || c == '+' || c == '*' || c == '?' || c == '(' || c == ')' || c == '|'
        || c == '[' || c == ']' || c == '{' || c == '}' || c == '^' || c == '$' || c == '#'
        || c == '&' || c == '-' || c == '~' {
        proof { reveal_strlit("\\"); }
        out.append("\\");
        out.append(single);
        assert(final(out)@ =~= old(out)@ + seq!['\\', c]);
    } else {
        out.append(single);
    }
}

/// The placeholder starting at each index of a template.
fn tokens_of(t: &Vec<char>) -> (r: Vec<Option<Placeholder>>)
    ensures
        r@.len() == t@.len(),
        forall|k: int| 0 <= k < t@.len() ==> #[trigger] r@[k] == token_at(t@, k),
{
    let t_len = t.len();
    let mut r: Vec<Option<Placeholder>> = Vec::new();
    let mut k: usize = 0;
    while k < t_len
        invariant
            k <= t_len,
            t_len == t@.len(),
            r@.len() == k,
            forall|j: int| 0 <= j < k ==> #[trigger] r@[j] == token_at(t@, j),
        decreases t_len - k,
    {
        r.push(token_at_exec(t, t_len, k));
        k = k + 1;
    }
    r
}

fn group_repeats_exec(t: Ghost<Seq<char>>, tokens: &Vec<Option<Placeholder>>, from: usize, p: Placeholder) -> (r: bool)
    requires
        tokens@.len() == t@.len(),
        forall|k: int| 0 <= k < t@.len() ==> #[trigger] tokens@[k] == token_at(t@, k),
    ensures
        r == group_repeats(t@, from as int, p),
{
    let t_len = tokens.len();
    let mut k: usize = from;
    while k < t_len
        invariant
            t_len == t@.len(),
            tokens@.len() == t@.len(),
            forall|k: int| 0 <= k < t@.len() ==> #[trigger] tokens@[k] == token_at(t@, k),
            from <= k || t_len <= k,
            forall|j: int| from <= j < k && j < t_len ==> !(#[trigger] token_at(t@, j) matches Some(q) && p.same_group(q)),
        decreases t_len - k,
    {
        match tokens[k] {
            Some(q) => {
                if p.shares_group(&q) {
                    assert(token_at(t@, k as int) == Some(q));
                    return true;
                }
            },
            None => {},
        }
        k = k + 1;
    }
    false
}

/// Compiles a template into the text of a regular expression: every
/// placeholder becomes its named capture group and every other character is
/// matched literally.
pub fn compile_template(template: &str) -> (r: String)
    ensures
        r@ == compile(template@),
{
    let chars = chars_of(template);
    let t_len = chars.len();
    let tokens = tokens_of(&chars);
    let mut out = String::new();
    let mut i: usize = 0;
    while i < t_len
        invariant
            i <= t_len,
            t_len == template@.len(),
            chars@ == template@,
            tokens@.len() == template@.len(),
            forall|k: int| 0 <= k < template@.len() ==> #[trigger] tokens@[k] == token_at(template@, k),
            out@ + compile_from(template@, i as int) == compile(template@),
        decreases t_len - i,
    {
        let ghost before = out@;
        match tokens[i] {
            Some(p) => {
                let n = p.text().unicode_len();
                if i + n <= t_len && group_repeats_exec(Ghost(template@), &tokens, i + n, p) {
                    out.append(p.plain_group());
                } else {
                    out.append(p.group());
                }
                assert(out@ + compile_from(template@, i + n) =~= before + compile_from(template@, i as int));
                i = i + n;
            },
            None => {
                append_escaped(&mut out, template, t_len, i);
                assert(out@ + compile_from(template@, i + 1) =~= before + compile_from(template@, i as int));
                i = i + 1;
            },
        }
    }
    assert(out@ =~= out@ + compile_from(template@, i as int));
    out
}

pub open spec fn is_ascii_digit(c: char) -> bool {
    '0' <= c && c <= '9'
}

pub open spec fn all_digits(s: Seq<char>) -> bool {
    forall|i: int| 0 <= i < s.len() ==> is_ascii_digit(#[trigger] s[i])
}

/// The number that a string of decimal digits writes.
pub open spec fn decimal_value(s: Seq<char>) -> int
    decreases s.len(),
{
    if s.len() == 0 {
        0
    } else {
        decimal_value(s.drop_last()) * 10 + (s.last() as int - '0' as int)
    }
}

/// A captured number: a non-empty run of ASCII digits whose value is at most `max`.
pub open spec fn number_in(s: Seq<char>, max: int) -> Option<int> {
    if s.len() > 0 && all_digits(s) && decimal_value(s) <= max {
        Some(decimal_value(s))
    } else {
        None
    }
}

proof fn lemma_decimal_value_nonneg(s: Seq<char>)
    requires
        all_digits(s),
    ensures
        decimal_value(s) >= 0,
    decreases s.len(),
{
    if s.len() > 0 {
        assert(all_digits(s.drop_last())) by {
            assert forall|i: int| 0 <= i < s.drop_last().len() implies is_ascii_digit(#[trigger] s.drop_last()[i]) by {
                assert(s.drop_last()[i] == s[i]);
            }
        }
        lemma_decimal_value_nonneg(s.drop_last());
    }
}

/// Reads a decimal number of at most `max`, or `None` where `s` is empty,
/// holds a character other than an ASCII digit, or writes a larger number.
pub fn parse_number(s: &str, max: u32) -> (r: Option<u32>)
    ensures
        r matches Some(v) ==> number_in(s@, max as int) == Some(v as int),
        r is None ==> number_in(s@, max as int) is None,
{
    let n = s.unicode_len();
    if n == 0 {
        return None;
    }
    let cap: u64 = max as u64 + 1;
    let mut acc: u64 = 0;
    let mut i: usize = 0;
    while i < n
        invariant
            i <= n,
            n == s@.len(),
            cap == max + 1,
            all_digits(s@.subrange(0, i as int)),
            acc as int == if decimal_value(s@.subrange(0, i as int)) < cap { decimal_value(s@.subrange(0, i as int)) } else { cap as int },
        decreases n - i,
    {
        let c = s.get_char(i);
        if !('0' <= c && c <= '9') {
            assert(!all_digits(s@));
            return None;
        }
        let d: u64 = (c as u32 - '0' as u32) as u64;
        let ghost pre = s@.subrange(0, i as int);
        let ghost next = s@.subrange(0, i + 1);
        assert(next.drop_last() =~= pre);
        assert(next.last() == c);
        assert(all_digits(next)) by {
            assert forall|j: int| 0 <= j < next.len() implies is_ascii_digit(#[trigger] next[j]) by {
                if j < i {
                    assert(next[j] == pre[j]);
                }
            }
        }
        proof { lemma_decimal_value_nonneg(pre); }
        assert(decimal_value(next) == decimal_value(pre) * 10 + d);
        let v = acc * 10 + d;
        acc = if v < cap { v } else { cap };
        proof {
            if decimal_value(pre) >= cap {
                assert(decimal_value(pre) * 10 + d >= cap) by (nonlinear_arith)
                    requires decimal_value(pre) >= cap, d >= 0;
            }
        }
        i = i + 1;
    }
    assert(s@.subrange(0, n as int) =~= s@);
    if acc < cap {
        Some(acc as u32)
    } else {
        None
    }
}

pub open spec fn ascii_lower(c: char) -> char {
    if 'A' <= c && c <= 'Z' {
        ((c as u8) + 32) as char
    } else {
        c
    }
}

/// The month that a three-letter English abbreviation names, in any case.
pub open spec fn month_of_abbr(s: Seq<char>) -> Option<int> {
    if s.len() != 3 {
        None
    } else {
        let w = seq![ascii_lower(s[0]), ascii_lower(s[1]), ascii_lower(s[2])];
        if w == seq!['j', 'a', 'n'] { Some(1) }
        else if w == seq!['f', 'e', 'b'] { Some(2) }
        else if w == seq!['m', 'a', 'r'] { Some(3) }
        else if w == seq!['a', 'p', 'r'] { Some(4) }
        else if w == seq!['m', 'a', 'y'] { Some(5) }
        else if w == seq!['j', 'u', 'n'] { Some(6) }
        else if w == seq!['j', 'u', 'l'] { Some(7) }
        else if w == seq!['a', 'u', 'g'] { Some(8) }
        else if w == seq!['s', 'e', 'p'] { Some(9) }
        else if w == seq!['o', 'c', 't'] { Some(10) }
        else if w == seq!['n', 'o', 'v'] { Some(11) }
        else if w == seq!['d', 'e', 'c'] { Some(12) }
        else { None }
    }
}

fn lower(c: char) -> (r: char)
    ensures
        r == ascii_lower(c),
{
    if 'A' <= c && c <= 'Z' {
        ((c as u8) + 32) as char
    } else {
        c
    }
}

/// The month that a three-letter abbreviation names, ignoring case.
pub fn month_from_abbr(s: &str) -> (r: Option<u32>)
    ensures
        r matches Some(m) ==> month_of_abbr(s@) == Some(m as int),
        r is None ==> month_of_abbr(s@) is None,
{
    if s.unicode_len() != 3 {
        return None;
    }
    let a = lower(s.get_char(0));
    let b = lower(s.get_char(1));
    let c = lower(s.get_char(2));
    let ghost w = seq![a, b, c];
    assert(w == seq![ascii_lower(s@[0]), ascii_lower(s@[1]), ascii_lower(s@[2])]);
    let r = if a == 'j' && b == 'a' && c == 'n' { Some(1) }
        else if a == 'f' && b == 'e' && c == 'b' { Some(2) }
        else if a == 'm' && b == 'a' && c == 'r' { Some(3) }
        else if a == 'a' && b == 'p' && c == 'r' { Some(4) }
        else if a == 'm' && b == 'a' && c == 'y' { Some(5) }
        else if a == 'j' && b == 'u' && c == 'n' { Some(6) }
        else if a == 'j' && b == 'u' && c == 'l' { Some(7) }
        else if a == 'a' && b == 'u' && c == 'g' { Some(8) }
        else if a == 's' && b == 'e' && c == 'p' { Some(9) }
        else if a == 'o' && b == 'c' && c == 't' { Some(10) }
        else if a == 'n' && b == 'o' && c == 'v' { Some(11) }
        else if a == 'd' && b == 'e' && c == 'c' { Some(12) }
        else { None };
    proof {
        if r is None {
            assert(w != seq!['j', 'a', 'n'] && w != seq!['f', 'e', 'b'] && w != seq!['m', 'a', 'r']
                && w != seq!['a', 'p', 'r'] && w != seq!['m', 'a', 'y'] && w != seq!['j', 'u', 'n']
                && w != seq!['j', 'u', 'l'] && w != seq!['a', 'u', 'g'] && w != seq!['s', 'e', 'p']
                && w != seq!['o', 'c', 't'] && w != seq!['n', 'o', 'v'] && w != seq!['d', 'e', 'c']) by {
                if w == seq!['j', 'a', 'n'] { assert(w[0] == 'j' && w[1] == 'a' && w[2] == 'n'); }
                if w == seq!['f', 'e', 'b'] { assert(w[0] == 'f' && w[1] == 'e' && w[2] == 'b'); }
                if w == seq!['m', 'a', 'r'] { assert(w[0] == 'm' && w[1] == 'a' && w[2] == 'r'); }
                if w == seq!['a', 'p', 'r'] { assert(w[0] == 'a' && w[1] == 'p' && w[2] == 'r'); }
                if w == seq!['m', 'a', 'y'] { assert(w[0] == 'm' && w[1] == 'a' && w[2] == 'y'); }
                if w == seq!['j', 'u', 'n'] { assert(w[0] == 'j' && w[1] == 'u' && w[2] == 'n'); }
                if w == seq!['j', 'u', 'l'] { assert(w[0] == 'j' && w[1] == 'u' && w[2] == 'l'); }
                if w == seq!['a', 'u', 'g'] { assert(w[0] == 'a' && w[1] == 'u' && w[2] == 'g'); }
                if w == seq!['s', 'e', 'p'] { assert(w[0] == 's' && w[1] == 'e' && w[2] == 'p'); }
                if w == seq!['o', 'c', 't'] { assert(w[0] == 'o' && w[1] == 'c' && w[2] == 't'); }
                if w == seq!['n', 'o', 'v'] { assert(w[0] == 'n' && w[1] == 'o' && w[2] == 'v'); }
                if w == seq!['d', 'e', 'c'] { assert(w[0] == 'd' && w[1] == 'e' && w[2] == 'c'); }
            }
        } else {
            assert(w =~= seq!['j', 'a', 'n'] || w =~= seq!['f', 'e', 'b'] || w =~= seq!['m', 'a', 'r']
                || w =~= seq!['a', 'p', 'r'] || w =~= seq!['m', 'a', 'y'] || w =~= seq!['j', 'u', 'n']
                || w =~= seq!['j', 'u', 'l'] || w =~= seq!['a', 'u', 'g'] || w =~= seq!['s', 'e', 'p']
                || w =~= seq!['o', 'c', 't'] || w =~= seq!['n', 'o', 'v'] || w =~= seq!['d', 'e', 'c']);
        }
    }
    r
}

/// What a template's groups captured in a filename, `None` for a group that
/// took no part in the match.
#[derive(Clone, Debug)]
pub struct CapturedFields {
    pub year: Option<String>,
    pub month: Option<String>,
    pub month_abbr: Option<String>,
    pub day: Option<String>,
    pub hour: Option<String>,
    pub minutes: Option<String>,
    pub seconds: Option<String>,
}

/// A numeric field: its default where nothing was captured, else the
/// captured number if it is at most `max`.
pub open spec fn field_value(g: Option<Seq<char>>, max: int, default: int) -> Option<int> {
    match g {
        Some(s) => number_in(s, max),
        None => Some(default),
    }
}

/// The month: the captured number where there is one, else the captured
/// abbreviation where it names a month, else January.
pub open spec fn month_value(number: Option<Seq<char>>, abbr: Option<Seq<char>>) -> Option<int> {
    match number {
        Some(s) => number_in(s, u32::MAX as int),
        None => match abbr {
            Some(a) => match month_of_abbr(a) {
                Some(m) => Some(m),
                None => Some(1),
            },
            None => Some(1),
        },
    }
}

/// The timestamp that captured texts give: year 2022, January, the first
/// day and midnight stand in for what was not captured.
pub open spec fn timestamp_from(
    year: Option<Seq<char>>,
    month: Option<Seq<char>>,
    month_abbr: Option<Seq<char>>,
    day: Option<Seq<char>>,
    hour: Option<Seq<char>>,
    minutes: Option<Seq<char>>,
    seconds: Option<Seq<char>>,
) -> Result<Timestamp, ExtractError> {
    let y = field_value(year, i32::MAX as int, 2022);
    let mo = month_value(month, month_abbr);
    let d = field_value(day, u32::MAX as int, 1);
    let h = field_value(hour, u32::MAX as int, 0);
    let mi = field_value(minutes, u32::MAX as int, 0);
    let s = field_value(seconds, u32::MAX as int, 0);
    if y is None || mo is None || d is None || h is None || mi is None || s is None {
        Err(ExtractError::InvalidNumber)
    } else if is_calendar_date(y->0, mo->0, d->0) && is_clock_time(h->0, mi->0, s->0) {
        Ok(Timestamp {
            year: y->0 as i32,
            month: mo->0 as u32,
            day: d->0 as u32,
            hour: h->0 as u32,
            minute: mi->0 as u32,
            second: s->0 as u32,
        })
    } else {
        Err(ExtractError::InvalidDate)
    }
}

/// What a template gives for a filename: `Pattern` where it compiles to no
/// valid regular expression, `NoMatch` where that expression does not match
/// the filename, else the timestamp that its groups capture.
pub open spec fn extract(template: Seq<char>, filename: Seq<char>) -> Result<Timestamp, ExtractError> {
    let src = compile(template);
    if !regex_accepts(src) {
        Err(ExtractError::Pattern)
    } else if !regex_matches(src, filename) {
        Err(ExtractError::NoMatch)
    } else {
        timestamp_from(
            group_text(src, filename, "year"@),
            group_text(src, filename, "month"@),
            group_text(src, filename, "month_abbr"@),
            group_text(src, filename, "day"@),
            group_text(src, filename, "hour"@),
            group_text(src, filename, "minutes"@),
            group_text(src, filename, "seconds"@),
        )
    }
}

impl CapturedFields {
    pub open spec fn timestamp_spec(self) -> Result<Timestamp, ExtractError> {
        timestamp_from(
            text_of(self.year),
            text_of(self.month),
            text_of(self.month_abbr),
            text_of(self.day),
            text_of(self.hour),
            text_of(self.minutes),
            text_of(self.seconds),
        )
    }

    /// Builds the timestamp from the captured fields.
    pub fn timestamp(&self) -> (r: Result<Timestamp, ExtractError>)
        ensures
            r == self.timestamp_spec(),
            r matches Ok(t) ==> t.wf(),
    {
        let y = field(&self.year, i32::MAX as u32, 2022);
        let mo = match &self.month {
            Some(s) => parse_number(s.as_str(), u32::MAX),
            None => match &self.month_abbr {
                Some(a) => match month_from_abbr(a.as_str()) {
                    Some(m) => Some(m),
                    None => Some(1),
                },
                None => Some(1),
            },
        };
        let d = field(&self.day, u32::MAX, 1);
        let h = field(&self.hour, u32::MAX, 0);
        let mi = field(&self.minutes, u32::MAX, 0);
        let s = field(&self.seconds, u32::MAX, 0);
        match (y, mo, d, h, mi, s) {
            (Some(y), Some(mo), Some(d), Some(h), Some(mi), Some(s)) => {
                match Timestamp::new(y as i32, mo, d, h, mi, s) {
                    Some(t) => Ok(t),
                    None => Err(ExtractError::InvalidDate),
                }
            },
            _ => Err(ExtractError::InvalidNumber),
        }
    }
}

fn field(g: &Option<String>, max: u32, default: u32) -> (r: Option<u32>)
    ensures
        r matches Some(v) ==> field_value(text_of(*g), max as int, default as int) == Some(v as int),
        r is None ==> field_value(text_of(*g), max as int, default as int) is None,
{
    match g {
        Some(s) => parse_number(s.as_str(), max),
        None => Some(default),
    }
}

/// The names of the capture groups that the timestamp is read from, in the
/// order of the fields of `CapturedFields`.
fn group_names() -> (r: Vec<&'static str>)
    ensures
        r@.len() == 7,
        r@[0]@ == "year"@,
        r@[1]@ == "month"@,
        r@[2]@ == "month_abbr"@,
        r@[3]@ == "day"@,
        r@[4]@ == "hour"@,
        r@[5]@ == "minutes"@,
        r@[6]@ == "seconds"@,
{
    vec!["year", "month", "month_abbr", "day", "hour", "minutes", "seconds"]
}

/// A template such as `backup-{year}-{month}-{day}.tar`.
#[derive(Clone, Debug)]
pub struct RetentionFilePattern(pub String);

impl RetentionFilePattern {
    /// The text of the regular expression that the template compiles to.
    pub fn regex_source(&self) -> (r: String)
        ensures
            r@ == compile(self.0@),
    {
        compile_template(self.0.as_str())
    }

    /// Compiles the template into a regular expression.
    pub fn build_regex(&self) -> (r: Result<Matcher, ExtractError>)
        ensures
            r is Ok <==> regex_accepts(compile(self.0@)),
            r matches Ok(m) ==> m.source_spec() == compile(self.0@),
            r matches Err(e) ==> e == ExtractError::Pattern,
    {
        let source = self.regex_source();
        match compile_regex(source.as_str()) {
            Ok(m) => Ok(m),
            Err(_) => Err(ExtractError::Pattern),
        }
    }

    /// Recovers the timestamp that `filename` carries under this template.
    pub fn parse(&self, filename: &str) -> (r: Result<Timestamp, ExtractError>)
        ensures
            r == extract(self.0@, filename@),
            r matches Ok(t) ==> t.wf(),
    {
        let m = match self.build_regex() {
            Ok(m) => m,
            Err(e) => return Err(e),
        };
        let names = group_names();
        let mut groups = match capture_groups(&m, filename, &names) {
            Some(v) => v,
            None => return Err(ExtractError::NoMatch),
        };
        let ghost g = groups@;
        let seconds = groups.pop().unwrap();
        let minutes = groups.pop().unwrap();
        let hour = groups.pop().unwrap();
        let day = groups.pop().unwrap();
        let month_abbr = groups.pop().unwrap();
        let month = groups.pop().unwrap();
        let year = groups.pop().unwrap();
        let fields = CapturedFields { year, month, month_abbr, day, hour, minutes, seconds };
        assert(g[0] == fields.year && g[1] == fields.month && g[2] == fields.month_abbr
            && g[3] == fields.day && g[4] == fields.hour && g[5] == fields.minutes && g[6] == fields.seconds);
        assert(text_of(g[0]) == group_text(m.source_spec(), filename@, names@[0]@));
        assert(text_of(g[1]) == group_text(m.source_spec(), filename@, names@[1]@));
        assert(text_of(g[2]) == group_text(m.source_spec(), filename@, names@[2]@));
        assert(text_of(g[3]) == group_text(m.source_spec(), filename@, names@[3]@));
        assert(text_of(g[4]) == group_text(m.source_spec(), filename@, names@[4]@));
        assert(text_of(g[5]) == group_text(m.source_spec(), filename@, names@[5]@));
        assert(text_of(g[6]) == group_text(m.source_spec(), filename@, names@[6]@));
        fields.timestamp()
    }
}

/// A file name together with the timestamp recovered from it.
#[derive(Clone, Debug)]
pub struct RetentionFile {
    pub filename: String,
    pub date: Timestamp,
}

impl RetentionFile {
    /// Pairs `filename` with the timestamp that `pattern` recovers from it.
    pub fn new(filename: String, pattern: &RetentionFilePattern) -> (r: Result<RetentionFile, ExtractError>)
        ensures
            r == (match extract(pattern.0@, filename@) {
                Ok(date) => Ok::<RetentionFile, ExtractError>(RetentionFile { filename, date }),
                Err(e) => Err(e),
            }),
            r matches Ok(f) ==> f.date.wf(),
    {
        match pattern.parse(filename.as_str()) {
            Ok(date) => Ok(RetentionFile { filename, date }),
            Err(e) => Err(e),
        }
    }
}

/// What each name gives under a template, in order: the files that carry a
/// timestamp, and the names that do not, each with its error.
pub open spec fn split_parsed(template: Seq<char>, names: Seq<String>) -> (Seq<RetentionFile>, Seq<(String, ExtractError)>)
    decreases names.len(),
{
    if names.len() == 0 {
        (Seq::empty(), Seq::empty())
    } else {
        let (files, failures) = split_parsed(template, names.drop_last());
        let name = names.last();
        match extract(template, name@) {
            Ok(date) => (files.push(RetentionFile { filename: name, date }), failures),
            Err(e) => (files, failures.push((name, e))),
        }
    }
}

/// Parses every name under `pattern`, keeping the files that carry a
/// timestamp apart from the names that do not.
pub fn parse_all(names: &Vec<String>, pattern: &RetentionFilePattern) -> (r: (Vec<RetentionFile>, Vec<(String, ExtractError)>))
    ensures
        (r.0@, r.1@) == split_parsed(pattern.0@, names@),
        forall|i: int| 0 <= i < r.0@.len() ==> (#[trigger] r.0@[i]).date.wf(),
{
    let mut files: Vec<RetentionFile> = Vec::new();
    let mut failures: Vec<(String, ExtractError)> = Vec::new();
    let mut i: usize = 0;
    while i < names.len()
        invariant
            i <= names@.len(),
            (files@, failures@) == split_parsed(pattern.0@, names@.take(i as int)),
            forall|k: int| 0 <= k < files@.len() ==> (#[trigger] files@[k]).date.wf(),
        decreases names@.len() - i,
    {
        assert(names@.take(i + 1).drop_last() == names@.take(i as int));
        let name = names[i].clone();
        match RetentionFile::new(name, pattern) {
            Ok(f) => files.push(f),
            Err(e) => failures.push((names[i].clone(), e)),
        }
        i = i + 1;
    }
    assert(names@.take(names@.len() as int) == names@);
    (files, failures)
}

} // verus!
