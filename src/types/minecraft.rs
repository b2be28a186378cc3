//! Minecraft's two version grammars: releases (`1.18.2`, `1.19`) and
//! snapshots (`22w28a`), with parsing, rendering and a total order in which
//! every snapshot comes after every release.

use crate::decimal::{
    all_class_digits, all_digits, decimal, digit_run, digits_value, in_digit_class, is_canonical,
    is_digit, lemma_decimal_of_digits, lemma_digit_run, parse_u16, push_decimal, regex_digit,
};
use crate::order::{
    compare_str, compare_u16, flip, int_cmp, is_total_order, lemma_str_cmp_equal, lemma_str_cmp_flip, lemma_str_cmp_trans,
    str_cmp,
};
use std::cmp::Ordering;
use std::num::ParseIntError;
use vstd::prelude::*;
use vstd::string::{StrSliceExecFns, StringExecFns};

verus! {

/// A decoded Minecraft version.
///
/// Every snapshot orders after every release, whatever the numbers.
#[derive(Debug, Clone, Eq, Ord, Hash)]
pub enum Minecraft {
    /// A release (`x.y` or `x.y.z`).
    Release {
        /// `x` in `x.y.z`
        major: u16,
        /// `y` in `x.y.z`
        minor: u16,
        /// `z` in `x.y.z`; `None` when the version gives no patch component
        patch: Option<u16>,
    },
    /// A snapshot (`AAwBBx`).
    Snapshot {
        /// `AA` in `AAwBBx`
        year: u16,
        /// `BB` in `AAwBBx`
        week: u16,
        /// `x` in `AAwBBx`: one or more word characters
        specifier: String,
    },
}

/// What a `Minecraft` value denotes.
pub enum VersionModel {
    Release { major: u16, minor: u16, patch: Option<u16> },
    Snapshot { year: u16, week: u16, specifier: Seq<char> },
}

impl View for Minecraft {
    type V = VersionModel;

    open spec fn view(&self) -> VersionModel {
        match self {
            Minecraft::Release { major, minor, patch } => VersionModel::Release {
                major: *major,
                minor: *minor,
                patch: *patch,
            },
            Minecraft::Snapshot { year, week, specifier } => VersionModel::Snapshot {
                year: *year,
                week: *week,
                specifier: specifier@,
            },
        }
    }
}

/// Why a string is not a Minecraft version.
#[non_exhaustive]
#[derive(Debug)]
pub enum MinecraftVersionError {
    /// The string matches neither the release nor the snapshot grammar.
    NoSupportedPattern {
        /// The string that was given
        version: String,
    },
    /// A numeric component has a digit other than `0`-`9`, or does not fit
    /// in 16 bits.
    InvalidComponent {
        /// Why the component did not convert
        source: ParseIntError,
    },
}

// ---------------------------------------------------------------------------
// Grammar

/// Whether `c` is in the `regex` crate's `\w` class: Unicode letters,
/// marks, decimal digits, connector punctuation and joiners.
pub uninterp spec fn regex_word(c: char) -> bool;

/// Relies on the `regex` crate's `\w` class (`\p{Alphabetic}`, `\p{M}`,
/// `\d`, `\p{Pc}`, `\p{Join_Control}`): whether `c` is in it. ASCII letters,
/// digits and `_` are; `.` is not.
#[verifier::external_body]
fn in_word_class(c: char) -> (r: bool)
    ensures
        r == regex_word(c),
        (is_digit(c) || ('a' <= c && c <= 'z') || ('A' <= c && c <= 'Z') || c == '_') ==> r,
        c == '.' ==> !r,
{
    let mut buf = [0u8; 4];
    regex::Regex::new(r"\A\w\z").unwrap().is_match(c.encode_utf8(&mut buf))
}

/// A non-empty run of `\w` characters.
pub open spec fn all_word(s: Seq<char>) -> bool {
    s.len() > 0 && forall|i: int| 0 <= i < s.len() ==> regex_word(#[trigger] s[i])
}

/// The captures of `^(\d+)\.(\d+)(?:\.(\d+))?$` on `s`, if it matches.
pub open spec fn release_captures(s: Seq<char>) -> Option<(Seq<char>, Seq<char>, Option<Seq<char>>)> {
    let i = digit_run(s) as int;
    if i == 0 || i >= s.len() || s[i] != '.' {
        None
    } else {
        let rest = s.subrange(i + 1, s.len() as int);
        let j = digit_run(rest) as int;
        if j == 0 {
            None
        } else if j == rest.len() {
            Some((s.take(i), rest, None))
        } else if rest[j] != '.' {
            None
        } else {
            let c = rest.subrange(j + 1, rest.len() as int);
            if all_class_digits(c) {
                Some((s.take(i), rest.take(j), Some(c)))
            } else {
                None
            }
        }
    }
}

/// The captures of `^(\d+)w(\d+)(\w+)$` on `s`, if it matches. The week
/// takes as many digits as it can while leaving at least one character to
/// the specifier.
pub open spec fn snapshot_captures(s: Seq<char>) -> Option<(Seq<char>, Seq<char>, Seq<char>)> {
    let i = digit_run(s) as int;
    if i == 0 || i >= s.len() || s[i] != 'w' {
        None
    } else {
        let rest = s.subrange(i + 1, s.len() as int);
        let k = digit_run(rest) as int;
        let w = if k == rest.len() { k - 1 } else { k };
        if w <= 0 || !all_word(rest.skip(w)) {
            None
        } else {
            Some((s.take(i), rest.take(w), rest.skip(w)))
        }
    }
}

/// `s` has the shape of a release or of a snapshot.
pub open spec fn matches_grammar(s: Seq<char>) -> bool {
    release_captures(s) is Some || snapshot_captures(s) is Some
}

/// A captured component that converts to `u16`: ASCII digits only, with a
/// value of at most 65535.
pub open spec fn fits_u16(d: Seq<char>) -> bool {
    all_digits(d) && digits_value(d) <= u16::MAX
}

/// The version that `s` denotes: `None` when it matches neither grammar or
/// a numeric component does not convert to `u16`. The release grammar is
/// tried first.
pub open spec fn parse_spec(s: Seq<char>) -> Option<VersionModel> {
    match release_captures(s) {
        Some((a, b, c)) => {
            if fits_u16(a) && fits_u16(b) && (c matches Some(p) ==> fits_u16(p)) {
                Some(
                    VersionModel::Release {
                        major: digits_value(a) as u16,
                        minor: digits_value(b) as u16,
                        patch: match c {
                            Some(p) => Some(digits_value(p) as u16),
                            None => None,
                        },
                    },
                )
            } else {
                None
            }
        },
        None => match snapshot_captures(s) {
            Some((y, w, x)) => {
                if fits_u16(y) && fits_u16(w) {
                    Some(
                        VersionModel::Snapshot {
                            year: digits_value(y) as u16,
                            week: digits_value(w) as u16,
                            specifier: x,
                        },
                    )
                } else {
                    None
                }
            },
            None => None,
        },
    }
}

/// The numeric components that the grammar captures in `s` carry no
/// superfluous leading zero.
pub open spec fn canonical_components(s: Seq<char>) -> bool {
    &&& release_captures(s) matches Some((a, b, c)) ==> is_canonical(a) && is_canonical(b) && (
    c matches Some(p) ==> is_canonical(p))
    &&& release_captures(s) is None ==> (snapshot_captures(s) matches Some((y, w, x))
        ==> is_canonical(y) && is_canonical(w))
}

/// The text of a version.
pub open spec fn display(v: VersionModel) -> Seq<char> {
    match v {
        VersionModel::Release { major, minor, patch } => {
            let base = decimal(major as nat) + seq!['.'] + decimal(minor as nat);
            match patch {
                Some(p) => base + seq!['.'] + decimal(p as nat),
                None => base,
            }
        },
        VersionModel::Snapshot { year, week, specifier } => decimal(year as nat) + seq!['w']
            + decimal(week as nat) + specifier,
    }
}

// ---------------------------------------------------------------------------
// Order

/// The rank of a kind of version: releases first, then snapshots.
pub open spec fn priority(v: VersionModel) -> int {
    match v {
        VersionModel::Release { .. } => 1,
        VersionModel::Snapshot { .. } => 2,
    }
}

/// An absent patch orders before every explicit patch, `0` included.
pub open spec fn patch_rank(p: Option<u16>) -> int {
    match p {
        Some(x) => x as int,
        None => -1,
    }
}

/// The order of versions: by kind; releases by major, minor, then patch;
/// snapshots by year, week, then specifier as a string.
pub open spec fn version_cmp(a: VersionModel, b: VersionModel) -> Ordering {
    match (a, b) {
        (
            VersionModel::Release { major: x1, minor: y1, patch: z1 },
            VersionModel::Release { major: x2, minor: y2, patch: z2 },
        ) => if x1 != x2 {
            int_cmp(x1 as int, x2 as int)
        } else if y1 != y2 {
            int_cmp(y1 as int, y2 as int)
        } else {
            int_cmp(patch_rank(z1), patch_rank(z2))
        },
        (
            VersionModel::Snapshot { year: y1, week: w1, specifier: s1 },
            VersionModel::Snapshot { year: y2, week: w2, specifier: s2 },
        ) => if y1 != y2 {
            int_cmp(y1 as int, y2 as int)
        } else if w1 != w2 {
            int_cmp(w1 as int, w2 as int)
        } else {
            str_cmp(s1, s2)
        },
        _ => int_cmp(priority(a), priority(b)),
    }
}

// ---------------------------------------------------------------------------
// Scanning helpers

/// The number of leading ASCII digits of `s`.
fn count_digits(s: &str) -> (r: usize)
    ensures
        r == digit_run(s@),
{
    let n = s.unicode_len();
    let mut i: usize = 0;
    while i < n && in_digit_class(s.get_char(i))
        invariant
            n == s@.len(),
            i <= n,
            forall|k: int| 0 <= k < i ==> regex_digit(#[trigger] s@[k]),
        decreases n - i,
    {
        i = i + 1;
    }
    proof {
        lemma_digit_run(s@);
        let d = digit_run(s@) as int;
        if (i as int) < d {
            assert(regex_digit(s@[i as int]));
        } else if d < i {
            assert(regex_digit(s@[d]));
        }
    }
    i
}

/// Whether `s` is a non-empty run of word characters.
fn is_word(s: &str) -> (r: bool)
    ensures
        r == all_word(s@),
{
    let n = s.unicode_len();
    if n == 0 {
        return false;
    }
    let mut i: usize = 0;
    while i < n
        invariant
            n == s@.len(),
            i <= n,
            forall|k: int| 0 <= k < i ==> regex_word(#[trigger] s@[k]),
        decreases n - i,
    {
        let c = s.get_char(i);
        if !in_word_class(c) {
            return false;
        }
        i = i + 1;
    }
    true
}

/// Whether `s` is a non-empty run of `\d` characters.
fn is_digits(s: &str) -> (r: bool)
    ensures
        r == all_class_digits(s@),
{
    let n = count_digits(s);
    proof {
        lemma_digit_run(s@);
        if all_class_digits(s@) && n < s@.len() {
            assert(regex_digit(s@[n as int]));
        }
    }
    n > 0 && n == s.unicode_len()
}

fn component(s: &str) -> (r: Result<u16, MinecraftVersionError>)
    requires
        all_class_digits(s@),
    ensures
        r is Ok <==> fits_u16(s@),
        r matches Ok(v) ==> v as nat == digits_value(s@),
        r matches Err(e) ==> e is InvalidComponent,
{
    match parse_u16(s) {
        Ok(v) => Ok(v),
        Err(e) => Err(MinecraftVersionError::InvalidComponent { source: e }),
    }
}

fn compare_patch(a: Option<u16>, b: Option<u16>) -> (r: Ordering)
    ensures
        r == int_cmp(patch_rank(a), patch_rank(b)),
{
    match (a, b) {
        (None, None) => Ordering::Equal,
        (None, Some(_)) => Ordering::Less,
        (Some(_), None) => Ordering::Greater,
        (Some(x), Some(y)) => compare_u16(x, y),
    }
}

// ---------------------------------------------------------------------------
// Operations

impl Minecraft {
    /// Parses a version, trying the release grammar first and then the
    /// snapshot grammar.
    pub fn new(from: &str) -> (r: Result<Minecraft, MinecraftVersionError>)
        ensures
            match parse_spec(from@) {
                Some(v) => r matches Ok(m) && m@ == v,
                None => r is Err,
            },
            r matches Err(e) ==> (e is NoSupportedPattern <==> !matches_grammar(from@)),
            r matches Err(MinecraftVersionError::NoSupportedPattern { version }) ==> version@
                == from@,
    {
        let s = Ghost(from@);
        let n = from.unicode_len();
        let i = count_digits(from);
        proof {
            lemma_digit_run(from@);
        }
        if i > 0 && i < n && from.get_char(i) == '.' {
            // release: major '.' minor [ '.' patch ]
            let head = from.substring_char(0, i);
            let rest = from.substring_char(i + 1, n);
            let j = count_digits(rest);
            proof {
                lemma_digit_run(rest@);
                assert(head@ =~= s@.take(i as int));
            }
            let rn = rest.unicode_len();
            if j > 0 && j == rn {
                assert(rest@.take(j as int) =~= rest@);
                let major = component(head)?;
                let minor = component(rest)?;
                return Ok(Minecraft::Release { major, minor, patch: None });
            }
            if j > 0 && rest.get_char(j) == '.' {
                let tail = rest.substring_char(j + 1, rn);
                if is_digits(tail) {
                    let mid = rest.substring_char(0, j);
                    let major = component(head)?;
                    let minor = component(mid)?;
                    let patch = component(tail)?;
                    return Ok(Minecraft::Release { major, minor, patch: Some(patch) });
                }
            }
        }
        if i > 0 && i < n && from.get_char(i) == 'w' {
            // snapshot: year 'w' week specifier
            let head = from.substring_char(0, i);
            let rest = from.substring_char(i + 1, n);
            let rn = rest.unicode_len();
            let k = count_digits(rest);
            proof {
                lemma_digit_run(rest@);
                assert(head@ =~= s@.take(i as int));
            }
            let w = if k == rn {
                if k == 0 {
                    0
                } else {
                    k - 1
                }
            } else {
                k
            };
            if w > 0 {
                let spec_part = rest.substring_char(w, rn);
                if is_word(spec_part) {
                    let week_part = rest.substring_char(0, w);
                    assert(spec_part@ =~= rest@.skip(w as int));
                    assert forall|t: int| 0 <= t < week_part@.len() implies regex_digit(
                        #[trigger] week_part@[t],
                    ) by {
                        assert(week_part@[t] == rest@[t]);
                    }
                    let year = component(head)?;
                    let week = component(week_part)?;
                    return Ok(
                        Minecraft::Snapshot {
                            year,
                            week,
                            specifier: spec_part.to_owned(),
                        },
                    );
                }
            }
        }
        Err(MinecraftVersionError::NoSupportedPattern { version: from.to_owned() })
    }

    /// The rank of this version's kind: 1 for a release, 2 for a snapshot.
    pub fn order_priority(&self) -> (r: usize)
        ensures
            r == priority(self@),
    {
        match self {
            Minecraft::Release { .. } => 1,
            Minecraft::Snapshot { .. } => 2,
        }
    }

    /// Three-way comparison in the order of versions.
    pub fn compare(&self, other: &Minecraft) -> (r: Ordering)
        ensures
            r == version_cmp(self@, other@),
    {
        let p = self.order_priority();
        let q = other.order_priority();
        if p != q {
            return if p < q {
                Ordering::Less
            } else {
                Ordering::Greater
            };
        }
        match (self, other) {
            (
                Minecraft::Release { major: x1, minor: y1, patch: z1 },
                Minecraft::Release { major: x2, minor: y2, patch: z2 },
            ) => {
                if *x1 != *x2 {
                    compare_u16(*x1, *x2)
                } else if *y1 != *y2 {
                    compare_u16(*y1, *y2)
                } else {
                    compare_patch(*z1, *z2)
                }
            },
            (
                Minecraft::Snapshot { year: y1, week: w1, specifier: s1 },
                Minecraft::Snapshot { year: y2, week: w2, specifier: s2 },
            ) => {
                if *y1 != *y2 {
                    compare_u16(*y1, *y2)
                } else if *w1 != *w2 {
                    compare_u16(*w1, *w2)
                } else {
                    compare_str(s1.as_str(), s2.as_str())
                }
            },
            _ => {
                // the ranks are equal, so the kinds are
                proof {
                    assert(false);
                }
                Ordering::Equal
            },
        }
    }

    /// The text of this version: `x.y`, `x.y.z` or `AAwBBx`.
    pub fn to_string(&self) -> (r: String)
        ensures
            r@ == display(self@),
    {
        proof {
            reveal_strlit(".");
            reveal_strlit("w");
        }
        let mut out = String::new();
        match self {
            Minecraft::Release { major, minor, patch } => {
                push_decimal(&mut out, *major);
                out.append(".");
                push_decimal(&mut out, *minor);
                match patch {
                    Some(p) => {
                        out.append(".");
                        push_decimal(&mut out, *p);
                    },
                    None => {},
                }
            },
            Minecraft::Snapshot { year, week, specifier } => {
                push_decimal(&mut out, *year);
                out.append("w");
                push_decimal(&mut out, *week);
                out.append(specifier.as_str());
            },
        }
        assert(out@ =~= display(self@));
        out
    }
}

impl PartialEq for Minecraft {
    fn eq(&self, other: &Minecraft) -> (r: bool)
        ensures
            r == (self@ == other@),
    {
        match (self, other) {
            (
                Minecraft::Release { major: x1, minor: y1, patch: z1 },
                Minecraft::Release { major: x2, minor: y2, patch: z2 },
            ) => {
                let same_patch = matches!(compare_patch(*z1, *z2), Ordering::Equal);
                *x1 == *x2 && *y1 == *y2 && same_patch
            },
            (
                Minecraft::Snapshot { year: y1, week: w1, specifier: s1 },
                Minecraft::Snapshot { year: y2, week: w2, specifier: s2 },
            ) => {
                let same_specifier = *s1 == *s2;
                *y1 == *y2 && *w1 == *w2 && same_specifier
            },
            _ => false,
        }
    }
}

impl vstd::std_specs::cmp::PartialEqSpecImpl for Minecraft {
    open spec fn obeys_eq_spec() -> bool {
        true
    }

    open spec fn eq_spec(&self, other: &Minecraft) -> bool {
        self@ == other@
    }
}

impl PartialOrd for Minecraft {
    fn partial_cmp(&self, other: &Minecraft) -> (r: Option<Ordering>)
        ensures
            r == Some(version_cmp(self@, other@)),
    {
        Some(self.compare(other))
    }
}

impl vstd::std_specs::cmp::PartialOrdSpecImpl for Minecraft {
    open spec fn obeys_partial_cmp_spec() -> bool {
        true
    }

    open spec fn partial_cmp_spec(&self, other: &Minecraft) -> Option<Ordering> {
        Some(version_cmp(self@, other@))
    }
}

impl Default for Minecraft {
    /// Release 1.19.
    fn default() -> (r: Minecraft)
        ensures
            r@ == (VersionModel::Release { major: 1, minor: 19, patch: None }),
    {
        Minecraft::Release { major: 1, minor: 19, patch: None }
    }
}

// ---------------------------------------------------------------------------
// Laws

/// Rendering a parsed version gives back the string it was parsed from,
/// whenever its numeric components carry no superfluous leading zero.
pub proof fn lemma_display_parse(s: Seq<char>)
    requires
        parse_spec(s) is Some,
        canonical_components(s),
    ensures
        display(parse_spec(s)->0) == s,
{
    lemma_digit_run(s);
    let i = digit_run(s) as int;
    let rest = s.subrange(i + 1, s.len() as int);
    lemma_digit_run(rest);
    let a = s.take(i);
    lemma_decimal_of_digits(a);
    if let Some((a0, b, c)) = release_captures(s) {
        let j = digit_run(rest) as int;
        if j == rest.len() {
            lemma_decimal_of_digits(rest);
            assert(display(parse_spec(s)->0) =~= s);
        } else {
            let mid = rest.take(j);
            let tail = rest.subrange(j + 1, rest.len() as int);
            lemma_decimal_of_digits(mid);
            lemma_decimal_of_digits(tail);
            assert(display(parse_spec(s)->0) =~= s);
        }
    } else {
        let k = digit_run(rest) as int;
        let w = if k == rest.len() {
            k - 1
        } else {
            k
        };
        let week = rest.take(w);
        lemma_decimal_of_digits(week);
        assert(display(parse_spec(s)->0) =~= s);
    }
}

/// Every snapshot orders after every release.
pub proof fn lemma_snapshot_after_release(r: VersionModel, s: VersionModel)
    requires
        r is Release,
        s is Snapshot,
    ensures
        version_cmp(r, s) == Ordering::Less,
        version_cmp(s, r) == Ordering::Greater,
{
}

/// The order of versions is a strict total order: it says `Equal` exactly
/// of equal versions, swapping the arguments flips it, and it is transitive.
pub proof fn lemma_version_order_total()
    ensures
        is_total_order(|a: VersionModel, b: VersionModel| version_cmp(a, b)),
{
    let c = |a: VersionModel, b: VersionModel| version_cmp(a, b);
    assert forall|a: VersionModel, b: VersionModel|
        (#[trigger] c(a, b) == Ordering::Equal) == (a == b) by {
        lemma_str_cmp_equal(a->specifier, b->specifier);
        if a is Release && b is Release && a->patch != b->patch {
            assert(patch_rank(a->patch) != patch_rank(b->patch));
        }
    }
    assert forall|a: VersionModel, b: VersionModel| #[trigger] c(b, a) == flip(c(a, b)) by {
        lemma_str_cmp_flip(a->specifier, b->specifier);
    }
    assert forall|a: VersionModel, b: VersionModel, d: VersionModel|
        #[trigger] c(a, b) == Ordering::Less && #[trigger] c(b, d) == Ordering::Less implies c(a, d)
            == Ordering::Less by {
        if a is Snapshot && b is Snapshot && d is Snapshot {
            let (x, y, z) = (a->specifier, b->specifier, d->specifier);
            lemma_str_cmp_equal(x, y);
            lemma_str_cmp_equal(y, z);
            if str_cmp(x, y) == Ordering::Less && str_cmp(y, z) == Ordering::Less {
                lemma_str_cmp_trans(x, y, z);
            }
        }
    }
}

} // verus!
