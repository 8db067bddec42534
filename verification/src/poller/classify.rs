//! Tag classification: which tags are tracked at all, which name a
//! version (and which version, variant and build), which are publisher
//! aliases, and which can be assumed immutable.
use vstd::prelude::*;
use crate::text::{
    all_digits, all_digits_exec, chars_of, contains_exec, contains_sub, count_char, count_char_exec, ends_with, is_last_index,
    find_first, find_last, first_index, is_alnum, is_digit, is_first_index, is_lower_hex,
    is_segment, last_index, lemma_first_index, lemma_no_first_index,
    starts_with, starts_with_exec, string_of, sub_vec, vec_eq,
};

verus! {

// ---------------------------------------------------------------------
// The model
// ---------------------------------------------------------------------

pub open spec fn digit_val(c: char) -> int {
    c as int - '0' as int
}

/// The number written by the decimal digits `s`.
pub open spec fn digits_value(s: Seq<char>) -> int
    decreases s.len(),
{
    if s.len() == 0 {
        0
    } else {
        digits_value(s.drop_last()) * 10 + digit_val(s.last())
    }
}

/// `YYYYMMDD` optionally followed by `HH`, `HHMM` or `HHMMSS`, every
/// component in range.
pub open spec fn spec_is_date_like(s: Seq<char>) -> bool {
    &&& (s.len() == 8 || s.len() == 10 || s.len() == 12 || s.len() == 14)
    &&& all_digits(s)
    &&& 1990 <= digits_value(s.subrange(0, 4)) <= 2099
    &&& 1 <= digits_value(s.subrange(4, 6)) <= 12
    &&& 1 <= digits_value(s.subrange(6, 8)) <= 31
    &&& (s.len() < 10 || digits_value(s.subrange(8, 10)) <= 23)
    &&& (s.len() < 12 || digits_value(s.subrange(10, 12)) <= 59)
    &&& (s.len() < 14 || digits_value(s.subrange(12, 14)) <= 59)
}

pub open spec fn strip_g(s: Seq<char>) -> Seq<char> {
    if s.len() > 0 && s[0] == 'g' {
        s.drop_first()
    } else {
        s
    }
}

/// A segment that looks like a commit hash or CI run id: 7 to 40 lower-case
/// hex characters with at least one digit, optionally `g`-prefixed, that is
/// not a date.
pub open spec fn spec_is_commit_ish(seg: Seq<char>) -> bool {
    let hex = strip_g(seg);
    &&& 7 <= hex.len() <= 40
    &&& forall|k: int| 0 <= k < hex.len() ==> is_lower_hex(#[trigger] hex[k])
    &&& exists|k: int| 0 <= k < hex.len() && is_digit(#[trigger] hex[k])
    &&& !spec_is_date_like(hex)
}

pub open spec fn excluded_prefixes() -> Seq<Seq<char>> {
    seq!["pr-"@, "commit-"@, "sha-"@, "sha256-"@, "nightly-"@, "bionic-"@, "version-"@]
}

pub open spec fn arch_names() -> Seq<Seq<char>> {
    seq![
        "amd64"@,
        "arm64"@,
        "arm"@,
        "armv6"@,
        "armv7"@,
        "arm64v8"@,
        "arm32v6"@,
        "arm32v7"@,
        "armhf"@,
        "i386"@,
        "386"@,
        "ppc64le"@,
        "s390x"@,
        "riscv64"@,
    ]
}

pub open spec fn has_excluded_prefix(s: Seq<char>) -> bool {
    exists|k: int| 0 <= k < excluded_prefixes().len() && starts_with(s, #[trigger] excluded_prefixes()[k])
}

/// `s` starts with an architecture name directly followed by `-`.
pub open spec fn has_arch_prefix(s: Seq<char>) -> bool {
    exists|k: int| 0 <= k < arch_names().len() && starts_with(s, (#[trigger] arch_names()[k]).push('-'))
}

pub open spec fn is_arch_name(seg: Seq<char>) -> bool {
    exists|k: int| 0 <= k < arch_names().len() && #[trigger] arch_names()[k] == seg
}

/// A `-`-delimited segment that marks the whole tag as a duplicate or a
/// per-commit build.
pub open spec fn flags_segment(seg: Seq<char>) -> bool {
    is_arch_name(seg) || seg == "version"@ || spec_is_commit_ish(seg)
}

pub open spec fn has_flagged_segment(s: Seq<char>) -> bool {
    exists|i: int, j: int| #[trigger] is_segment(s, '-', i, j) && flags_segment(s.subrange(i, j))
}

/// Tags excluded from tracking entirely.
pub open spec fn spec_is_excluded(s: Seq<char>) -> bool {
    ||| has_excluded_prefix(s)
    ||| contains_sub(s, "unstable"@)
    ||| has_arch_prefix(s)
    ||| has_flagged_segment(s)
}

/// linuxserver.io's build suffix: `ls` and a non-empty run of digits.
pub open spec fn spec_is_ls_build(s: Seq<char>) -> bool {
    &&& s.len() >= 3
    &&& s[0] == 'l'
    &&& s[1] == 's'
    &&& forall|k: int| 2 <= k < s.len() ==> is_digit(#[trigger] s[k])
}

pub open spec fn strip_v(s: Seq<char>) -> Seq<char> {
    if s.len() > 0 && s[0] == 'v' {
        s.drop_first()
    } else {
        s
    }
}

/// Everything before the first `-`, and what follows it if there is one.
pub open spec fn split_core(st: Seq<char>) -> (Seq<char>, Option<Seq<char>>) {
    match first_index(st, '-') {
        Some(d) => (st.take(d), Some(st.subrange(d + 1, st.len() as int))),
        None => (st, None),
    }
}

/// What follows the first dash, read as (variant, build number); `None`
/// when the tag is refused (an empty rest, or an empty variant in front of
/// a build number).
pub open spec fn split_rest(rest: Option<Seq<char>>) -> Option<(Option<Seq<char>>, Option<Seq<char>>)> {
    match rest {
        None => Some((None, None)),
        Some(r) => if r.len() == 0 {
            None
        } else if spec_is_ls_build(r) {
            Some((None, Some(r)))
        } else {
            match last_index(r, '-') {
                Some(e) => if spec_is_ls_build(r.subrange(e + 1, r.len() as int)) {
                    if e == 0 {
                        None
                    } else {
                        Some((Some(r.take(e)), Some(r.subrange(e + 1, r.len() as int))))
                    }
                } else {
                    Some((Some(r), None))
                },
                None => Some((Some(r), None)),
            }
        },
    }
}

pub open spec fn is_version_char(c: char) -> bool {
    is_digit(c) || c == '.'
}

pub open spec fn is_glue_mark(c: char) -> bool {
    c == '_' || c == '+' || c == '~'
}

/// `g` is where the leading run of digits and dots of `s` ends.
pub open spec fn is_version_end(s: Seq<char>, g: int) -> bool {
    &&& 0 <= g <= s.len()
    &&& forall|k: int| 0 <= k < g ==> is_version_char(#[trigger] s[k])
    &&& (g == s.len() || !is_version_char(s[g]))
}

/// `t` is where the leading run of glue marks (`_`, `+`, `~`) of `s` ends.
pub open spec fn is_marks_end(s: Seq<char>, t: int) -> bool {
    &&& 0 <= t <= s.len()
    &&& forall|k: int| 0 <= k < t ==> is_glue_mark(#[trigger] s[k])
    &&& (t == s.len() || !is_glue_mark(s[t]))
}

pub open spec fn version_end(s: Seq<char>) -> int {
    choose|g: int| is_version_end(s, g)
}

pub open spec fn marks_end(s: Seq<char>) -> int {
    choose|t: int| is_marks_end(s, t)
}

/// Every `.`-separated piece of `s` is non-empty and made of characters of
/// `class`.
pub open spec fn segments_in_class(s: Seq<char>, class: CharClass) -> bool {
    forall|i: int, j: int|
        #[trigger] is_segment(s, '.', i, j) ==> i < j && forall|k: int|
            i <= k < j ==> in_class(class, #[trigger] s[k])
}

pub enum CharClass {
    Digit,
    Alnum,
}

pub open spec fn in_class(class: CharClass, c: char) -> bool {
    match class {
        CharClass::Digit => is_digit(c),
        CharClass::Alnum => is_alnum(c),
    }
}

/// What the glue (whatever follows the version's digits and dots in the
/// core) contributes to the build: `Some(None)` for no glue, `Some(Some(b))`
/// for glue `b` (marks trimmed), `None` when the tag is refused.
pub open spec fn spec_glue(glue: Seq<char>, ls: Option<Seq<char>>) -> Option<Option<Seq<char>>> {
    if glue.len() == 0 {
        Some(None)
    } else if ls is None {
        None
    } else {
        let body = glue.subrange(marks_end(glue), glue.len() as int);
        if segments_in_class(body, CharClass::Alnum) {
            Some(Some(body))
        } else {
            None
        }
    }
}

/// Two to four non-empty numeric components.
pub open spec fn is_version_core(v: Seq<char>) -> bool {
    1 <= count_char(v, '.') <= 3 && segments_in_class(v, CharClass::Digit)
}

pub open spec fn build_of(glue: Option<Seq<char>>, ls: Option<Seq<char>>) -> Option<Seq<char>> {
    match (glue, ls) {
        (Some(g), Some(l)) => Some(g + seq!['.'] + l),
        (Some(g), None) => Some(g),
        (None, Some(l)) => Some(l),
        (None, None) => None,
    }
}

pub struct TagVersionView {
    pub version: Seq<char>,
    pub variant: Option<Seq<char>>,
    pub build: Option<Seq<char>>,
}

/// The version, variant and build a tag names, if it names one.
pub open spec fn spec_parse_version(tag: Seq<char>) -> Option<TagVersionView> {
    let st = strip_v(tag);
    let core = split_core(st).0;
    match split_rest(split_core(st).1) {
        None => None,
        Some((variant, ls)) => {
            let g = version_end(core);
            let version = core.take(g);
            let glue = core.subrange(g, core.len() as int);
            match spec_glue(glue, ls) {
                None => None,
                Some(gl) => if is_version_core(version) {
                    Some(TagVersionView { version, variant, build: build_of(gl, ls) })
                } else {
                    None
                },
            }
        },
    }
}

/// An exact release: a version of three or more components, or one that
/// carries a build.
pub open spec fn spec_is_immutable(tag: Seq<char>) -> bool {
    match spec_parse_version(tag) {
        Some(v) => v.build is Some || count_char(v.version, '.') >= 2,
        None => false,
    }
}

pub open spec fn spec_publisher_alias(name: Seq<char>, tag: Seq<char>) -> bool {
    &&& starts_with(name, "linuxserver/"@)
    &&& spec_parse_version(tag) matches Some(v)
    &&& v.build is None
}

pub open spec fn opt_chars(o: Option<Vec<char>>) -> Option<Seq<char>> {
    match o {
        Some(v) => Some(v@),
        None => None,
    }
}

pub open spec fn opt_view(o: Option<String>) -> Option<Seq<char>> {
    match o {
        Some(s) => Some(s@),
        None => None,
    }
}

// ---------------------------------------------------------------------
// The version a tag names
// ---------------------------------------------------------------------

/// The version a tag names, the variant it names it for, and the build it
/// came from, when the tag is shaped like one.
#[derive(Debug, Clone, PartialEq, Eq)]
pub struct TagVersion {
    pub version: String,
    pub variant: Option<String>,
    /// Dot-separated build identifiers (`ls48`, `ubu2604.ls48`,
    /// `v2.0.14.ls475`), as semver would write them after a `+`.
    pub build: Option<String>,
}

impl View for TagVersion {
    type V = TagVersionView;

    open spec fn view(&self) -> TagVersionView {
        TagVersionView {
            version: self.version@,
            variant: opt_view(self.variant),
            build: opt_view(self.build),
        }
    }
}

pub open spec fn parsed_view(r: Option<TagVersion>) -> Option<TagVersionView> {
    match r {
        Some(v) => Some(v@),
        None => None,
    }
}

// ---------------------------------------------------------------------
// Lemmas
// ---------------------------------------------------------------------

proof fn lemma_version_end(s: Seq<char>, g: int)
    requires
        is_version_end(s, g),
    ensures
        version_end(s) == g,
{
    let h = choose|h: int| is_version_end(s, h);
    assert(is_version_end(s, h));
    if h < g {
        assert(is_version_char(s[h]));
    } else if g < h {
        assert(is_version_char(s[g]));
    }
}

proof fn lemma_marks_end(s: Seq<char>, t: int)
    requires
        is_marks_end(s, t),
    ensures
        marks_end(s) == t,
{
    let h = choose|h: int| is_marks_end(s, h);
    assert(is_marks_end(s, h));
    if h < t {
        assert(is_glue_mark(s[h]));
    } else if t < h {
        assert(is_glue_mark(s[t]));
    }
}

/// The pieces of a split determine each other: a segment that starts at or
/// after `start` (itself a segment start) and before the next separator
/// `i` is exactly `s[start..i]`.
proof fn lemma_segment_is_current(s: Seq<char>, sep: char, start: int, i: int, a: int, b: int)
    requires
        0 <= start <= i <= s.len(),
        i == s.len() || s[i] == sep,
        forall|k: int| start <= k < i ==> s[k] != sep,
        is_segment(s, sep, a, b),
        start <= a <= i,
    ensures
        a == start,
        b == i,
{
    if a > start {
        assert(s[a - 1] == sep);
    }
    if b < i {
        assert(s[b] == sep);
    }
    if b > i {
        assert(s[i] != sep);
    }
}

proof fn lemma_digits_value_step(s: Seq<char>, a: int, b: int)
    requires
        0 <= a <= b < s.len(),
    ensures
        digits_value(s.subrange(a, b + 1)) == digits_value(s.subrange(a, b)) * 10 + digit_val(
            s[b],
        ),
{
    assert(s.subrange(a, b + 1).drop_last() =~= s.subrange(a, b));
}

proof fn lemma_digits_value_empty(s: Seq<char>, a: int)
    requires
        0 <= a <= s.len(),
    ensures
        digits_value(s.subrange(a, a)) == 0,
{
}

/// A variant does not change what a tag names: appending `-x` to a tag
/// without a dash, for any non-empty suffix `x` that is not a
/// linuxserver.io build number and does not end in `-` and one, keeps the
/// version and the build and only sets the variant to `x`; so it does not
/// change whether the tag is immutable either.
pub proof fn lemma_variant_keeps_version(t: Seq<char>, x: Seq<char>)
    requires
        forall|k: int| 0 <= k < t.len() ==> t[k] != '-',
        x.len() > 0,
        !spec_is_ls_build(x),
        forall|e: int|
            0 <= e < x.len() && x[e] == '-' ==> !spec_is_ls_build(#[trigger] x.subrange(e + 1, x.len() as int)),
    ensures
        spec_parse_version(t + seq!['-'] + x) == match spec_parse_version(t) {
            Some(v) => Some(TagVersionView { variant: Some(x), ..v }),
            None => None,
        },
        spec_is_immutable(t + seq!['-'] + x) == spec_is_immutable(t),
{
    let s = t + seq!['-'] + x;
    let st = strip_v(t);
    let st2 = strip_v(s);
    assert(st2 =~= st + seq!['-'] + x) by {
        if t.len() > 0 && t[0] == 'v' {
            assert(s[0] == 'v');
        }
    }
    assert(forall|k: int| 0 <= k < st.len() ==> st[k] != '-') by {
        if t.len() > 0 && t[0] == 'v' {
            assert forall|k: int| 0 <= k < st.len() implies st[k] != '-' by {
                assert(st[k] == t[k + 1]);
            }
        }
    }
    lemma_no_first_index(st, '-');
    assert(is_first_index(st2, '-', st.len() as int));
    lemma_first_index(st2, '-', st.len() as int);
    assert(st2.take(st.len() as int) =~= st);
    assert(st2.subrange(st.len() as int + 1, st2.len() as int) =~= x);
    if let Some(e) = last_index(x, '-') {
        assert(is_last_index(x, '-', e));
        assert(!spec_is_ls_build(x.subrange(e + 1, x.len() as int)));
    }
}

proof fn lemma_version_end_exists(s: Seq<char>)
    ensures
        is_version_end(s, version_end(s)),
    decreases s.len(),
{
    if s.len() == 0 || !is_version_char(s[0]) {
        assert(is_version_end(s, 0));
    } else {
        lemma_version_end_exists(s.drop_first());
        let g = version_end(s.drop_first());
        assert forall|k: int| 0 <= k < g + 1 implies is_version_char(#[trigger] s[k]) by {
            if k > 0 {
                assert(s[k] == s.drop_first()[k - 1]);
            }
        }
        assert(is_version_end(s, g + 1));
    }
}

/// A linuxserver.io build number is the build, or ends it after a `.`.
pub open spec fn ends_in_ls_build(b: Seq<char>) -> bool {
    exists|l: Seq<char>|
        spec_is_ls_build(l) && (b == l || ends_with(b, seq!['.'] + l))
}

/// What a parsed tag is made of: a version of two to four non-empty
/// numeric components, a non-empty variant when there is one, and a build
/// that is a linuxserver.io build number or ends in one after a `.`.
pub proof fn lemma_parsed_shape(tag: Seq<char>)
    requires
        spec_parse_version(tag) is Some,
    ensures
        is_version_core(spec_parse_version(tag)->0.version),
        spec_parse_version(tag)->0.variant matches Some(v) ==> v.len() > 0,
        spec_parse_version(tag)->0.build matches Some(b) ==> ends_in_ls_build(b),
{
    let st = strip_v(tag);
    let core = split_core(st).0;
    let rest = split_core(st).1;
    let (variant, ls) = split_rest(rest)->0;
    let g = version_end(core);
    let glue = core.subrange(g, core.len() as int);
    let gl = spec_glue(glue, ls)->0;
    if let Some(r) = rest {
        if !spec_is_ls_build(r) {
            if let Some(e) = last_index(r, '-') {
                assert(is_last_index(r, '-', e));
            }
        }
    }
    assert(ls matches Some(l) ==> spec_is_ls_build(l));
    if let Some(b) = build_of(gl, ls) {
        let l = ls->0;
        match gl {
            Some(x) => {
                assert(b == x + seq!['.'] + l);
                assert(b.subrange(b.len() - (l.len() + 1), b.len() as int) =~= seq!['.'] + l);
                assert(ends_with(b, seq!['.'] + l));
            },
            None => {
                assert(b == l);
            },
        }
        assert(spec_is_ls_build(l));
    }
}

pub open spec fn with_variant(version: Seq<char>, variant: Option<Seq<char>>) -> Seq<char> {
    match variant {
        Some(x) => version + seq!['-'] + x,
        None => version,
    }
}

/// A parsed tag without a build is its version and variant again: the
/// version, then `-` and the variant when there is one, after an optional
/// leading `v`.
pub proof fn lemma_parse_round_trip(tag: Seq<char>)
    requires
        spec_parse_version(tag) matches Some(p) && p.build is None,
    ensures
        ({
            let p = spec_parse_version(tag)->0;
            let s = with_variant(p.version, p.variant);
            tag == s || tag == seq!['v'] + s
        }),
{
    let st = strip_v(tag);
    let core = split_core(st).0;
    let rest = split_core(st).1;
    let (variant, ls) = split_rest(rest)->0;
    lemma_version_end_exists(core);
    let g = version_end(core);
    let glue = core.subrange(g, core.len() as int);
    assert(ls is None);
    assert(glue.len() == 0);
    assert(core.take(g) =~= core);
    match first_index(st, '-') {
        Some(d) => {
            assert(is_first_index(st, '-', d));
            let r = rest->0;
            if !spec_is_ls_build(r) {
                if let Some(e) = last_index(r, '-') {
                    assert(is_last_index(r, '-', e));
                }
            }
            assert(variant == Some(r));
            assert(st =~= core + seq!['-'] + r);
        },
        None => {
            assert(core == st);
            assert(variant is None);
        },
    }
    if tag.len() > 0 && tag[0] == 'v' {
        assert(tag =~= seq!['v'] + st);
    }
}

proof fn lemma_arch_names_have_no_dash(k: int, m: int)
    requires
        0 <= k < arch_names().len(),
        0 <= m < arch_names()[k].len(),
    ensures
        arch_names()[k][m] != '-',
{
    reveal_strlit("amd64");
    reveal_strlit("arm64");
    reveal_strlit("arm");
    reveal_strlit("armv6");
    reveal_strlit("armv7");
    reveal_strlit("arm64v8");
    reveal_strlit("arm32v6");
    reveal_strlit("arm32v7");
    reveal_strlit("armhf");
    reveal_strlit("i386");
    reveal_strlit("386");
    reveal_strlit("ppc64le");
    reveal_strlit("s390x");
    reveal_strlit("riscv64");
}

/// A tag is excluded exactly when it starts with one of the excluded
/// prefixes, contains `unstable`, or has a `-`-separated segment that is
/// an architecture name, `version`, or commit-ish: an architecture prefix
/// is one such segment.
pub proof fn lemma_excluded_by_prefix_or_segment(s: Seq<char>)
    ensures
        spec_is_excluded(s) == (has_excluded_prefix(s) || contains_sub(s, "unstable"@)
            || has_flagged_segment(s)),
{
    if has_arch_prefix(s) {
        let k = choose|k: int| 0 <= k < arch_names().len() && starts_with(s, (#[trigger] arch_names()[k]).push('-'));
        let a = arch_names()[k];
        let p = a.push('-');
        assert(s.subrange(0, p.len() as int) == p);
        assert forall|m: int| 0 <= m < a.len() implies s[m] != '-' by {
            assert(s[m] == s.subrange(0, p.len() as int)[m]);
            lemma_arch_names_have_no_dash(k, m);
        }
        assert(s[a.len() as int] == s.subrange(0, p.len() as int)[a.len() as int]);
        assert(is_segment(s, '-', 0, a.len() as int));
        assert(s.subrange(0, a.len() as int) =~= a);
        assert(is_arch_name(s.subrange(0, a.len() as int)));
        assert(flags_segment(s.subrange(0, a.len() as int)));
    }
}

/// A tag with a commit-hash segment is not tracked: any `-`-separated
/// segment of 7 to 40 lower-case hex characters that holds a digit and is
/// not a date (a short or a full 40-character git SHA, a CI run id)
/// excludes the tag.
pub proof fn lemma_hash_segment_excludes(tag: Seq<char>, i: int, j: int)
    requires
        is_segment(tag, '-', i, j),
        7 <= j - i <= 40,
        forall|k: int| i <= k < j ==> is_lower_hex(#[trigger] tag[k]),
        exists|k: int| i <= k < j && is_digit(#[trigger] tag[k]),
        !spec_is_date_like(tag.subrange(i, j)),
    ensures
        spec_is_excluded(tag),
{
    let seg = tag.subrange(i, j);
    assert(strip_g(seg) == seg) by {
        assert(is_lower_hex(tag[i]));
    }
    assert forall|k: int| 0 <= k < seg.len() implies is_lower_hex(#[trigger] seg[k]) by {
        assert(seg[k] == tag[i + k]);
    }
    let d = choose|k: int| i <= k < j && is_digit(#[trigger] tag[k]);
    assert(seg[d - i] == tag[d]);
    assert(spec_is_commit_ish(seg));
    assert(flags_segment(seg));
    assert(has_flagged_segment(tag));
}

/// A tag that names no version is never excluded.
pub proof fn lemma_unversioned_never_excluded(name: Seq<char>, rules: Seq<crate::db::version_exclusion::VersionExclusion>, tag: Seq<char>)
    requires
        spec_parse_version(tag) is None,
    ensures
        !crate::db::version_exclusion::spec_excludes(name, rules, tag),
{
}

/// `0.0.0` names the version `0.0.0`, with no variant and no build.
pub proof fn lemma_parse_zero_version()
    ensures
        spec_parse_version("0.0.0"@) == Some(
            TagVersionView { version: "0.0.0"@, variant: None, build: None },
        ),
{
    reveal_strlit("0.0.0");
    let s = "0.0.0"@;
    assert(s.len() == 5);
    assert(s[0] == '0' && s[1] == '.' && s[2] == '0' && s[3] == '.' && s[4] == '0');
    assert(strip_v(s) == s);
    lemma_no_first_index(s, '-');
    assert(is_version_end(s, 5));
    lemma_version_end(s, 5);
    assert(s.take(5) =~= s);
    assert(s.subrange(5, 5) =~= Seq::<char>::empty());
    assert(count_char(s, '.') == 2) by {
        reveal_with_fuel(count_char, 6);
        assert(s.drop_last() =~= seq!['0', '.', '0', '.']);
        assert(s.drop_last().drop_last() =~= seq!['0', '.', '0']);
        assert(s.drop_last().drop_last().drop_last() =~= seq!['0', '.']);
        assert(s.drop_last().drop_last().drop_last().drop_last() =~= seq!['0']);
        assert(s.drop_last().drop_last().drop_last().drop_last().drop_last() =~= Seq::<char>::empty());
    }
    assert forall|i: int, j: int| #[trigger] is_segment(s, '.', i, j) implies i < j && forall|k: int|
        i <= k < j ==> in_class(CharClass::Digit, #[trigger] s[k]) by {
        if i == j {
            assert(i == 0 || s[i - 1] == '.');
            assert(j == 5 || s[j] == '.');
            if i > 0 && j < 5 {
                assert(s[i - 1] == '.' && s[i] == '.');
            }
        }
        assert forall|k: int| i <= k < j implies in_class(CharClass::Digit, #[trigger] s[k]) by {
            assert(s[k] != '.');
        }
    }
}

// ---------------------------------------------------------------------
// Executable classification
// ---------------------------------------------------------------------

fn digit_at(v: &Vec<char>, i: usize) -> (d: u32)
    requires
        i < v.len(),
        is_digit(v@[i as int]),
    ensures
        d == digit_val(v@[i as int]),
        d <= 9,
{
    (v[i] as u32) - ('0' as u32)
}

/// The value of the digits `v[i..i + 2]`.
fn two_digits(v: &Vec<char>, i: usize) -> (n: u32)
    requires
        i + 2 <= v.len(),
        forall|k: int| i <= k < i + 2 ==> is_digit(v@[k]),
    ensures
        n == digits_value(v@.subrange(i as int, i + 2)),
{
    let a = digit_at(v, i);
    let b = digit_at(v, i + 1);
    proof {
        lemma_digits_value_empty(v@, i as int);
        lemma_digits_value_step(v@, i as int, i as int);
        lemma_digits_value_step(v@, i as int, i + 1);
    }
    a * 10 + b
}

/// The value of the digits `v[0..4]`.
fn four_digits(v: &Vec<char>) -> (n: u32)
    requires
        4 <= v.len(),
        forall|k: int| 0 <= k < 4 ==> is_digit(v@[k]),
    ensures
        n == digits_value(v@.subrange(0, 4)),
{
    let a = digit_at(v, 0);
    let b = digit_at(v, 1);
    let c = digit_at(v, 2);
    let d = digit_at(v, 3);
    proof {
        lemma_digits_value_empty(v@, 0);
        lemma_digits_value_step(v@, 0, 0);
        lemma_digits_value_step(v@, 0, 1);
        lemma_digits_value_step(v@, 0, 2);
        lemma_digits_value_step(v@, 0, 3);
    }
    ((a * 10 + b) * 10 + c) * 10 + d
}

/// `YYYYMMDD` optionally followed by `HH`, `HHMM` or `HHMMSS`, every
/// component in range, over characters.
fn date_like_chars(s: &Vec<char>) -> (r: bool)
    ensures
        r == spec_is_date_like(s@),
{
    let n = s.len();
    if !(n == 8 || n == 10 || n == 12 || n == 14) {
        return false;
    }
    if !all_digits_exec(s) {
        return false;
    }
    let year = four_digits(s);
    let month = two_digits(s, 4);
    let day = two_digits(s, 6);
    if !(1990 <= year && year <= 2099) || !(1 <= month && month <= 12) || !(1 <= day && day <= 31) {
        return false;
    }
    let hour_ok = n < 10 || two_digits(s, 8) <= 23;
    let minute_ok = n < 12 || two_digits(s, 10) <= 59;
    let second_ok = n < 14 || two_digits(s, 12) <= 59;
    hour_ok && minute_ok && second_ok
}

/// `YYYYMMDD` optionally followed by `HH`, `HHMM` or `HHMMSS`, with every
/// component in range.
pub fn is_date_like(s: &str) -> (r: bool)
    ensures
        r == spec_is_date_like(s@),
{
    let v = chars_of(s);
    date_like_chars(&v)
}

fn commit_ish_chars(seg: &Vec<char>) -> (r: bool)
    ensures
        r == spec_is_commit_ish(seg@),
{
    let hex = if seg.len() > 0 && seg[0] == 'g' {
        sub_vec(seg, 1, seg.len())
    } else {
        sub_vec(seg, 0, seg.len())
    };
    proof {
        assert(hex@ =~= strip_g(seg@));
    }
    if !(7 <= hex.len() && hex.len() <= 40) {
        return false;
    }
    let mut i: usize = 0;
    let mut has_digit = false;
    while i < hex.len()
        invariant
            i <= hex.len(),
            hex@ == strip_g(seg@),
            forall|k: int| 0 <= k < i ==> is_lower_hex(#[trigger] hex@[k]),
            has_digit == exists|k: int| 0 <= k < i && is_digit(#[trigger] hex@[k]),
        decreases hex.len() - i,
    {
        let c = hex[i];
        if !(('0' <= c && c <= '9') || ('a' <= c && c <= 'f')) {
            assert(!is_lower_hex(hex@[i as int]));
            return false;
        }
        if '0' <= c && c <= '9' {
            has_digit = true;
        }
        i = i + 1;
    }
    has_digit && !date_like_chars(&hex)
}

/// A dash-delimited segment that looks like a commit hash or CI run id.
pub fn is_commit_ish(seg: &str) -> (r: bool)
    ensures
        r == spec_is_commit_ish(seg@),
{
    let v = chars_of(seg);
    commit_ish_chars(&v)
}

fn excluded_prefixes_exec() -> (r: Vec<Vec<char>>)
    ensures
        r@.len() == excluded_prefixes().len(),
        forall|k: int| 0 <= k < r@.len() ==> (#[trigger] r@[k])@ == excluded_prefixes()[k],
{
    let mut r: Vec<Vec<char>> = Vec::new();
    r.push(chars_of("pr-"));
    r.push(chars_of("commit-"));
    r.push(chars_of("sha-"));
    r.push(chars_of("sha256-"));
    r.push(chars_of("nightly-"));
    r.push(chars_of("bionic-"));
    r.push(chars_of("version-"));
    r
}

fn arch_names_exec() -> (r: Vec<Vec<char>>)
    ensures
        r@.len() == arch_names().len(),
        forall|k: int| 0 <= k < r@.len() ==> (#[trigger] r@[k])@ == arch_names()[k],
{
    let mut r: Vec<Vec<char>> = Vec::new();
    r.push(chars_of("amd64"));
    r.push(chars_of("arm64"));
    r.push(chars_of("arm"));
    r.push(chars_of("armv6"));
    r.push(chars_of("armv7"));
    r.push(chars_of("arm64v8"));
    r.push(chars_of("arm32v6"));
    r.push(chars_of("arm32v7"));
    r.push(chars_of("armhf"));
    r.push(chars_of("i386"));
    r.push(chars_of("386"));
    r.push(chars_of("ppc64le"));
    r.push(chars_of("s390x"));
    r.push(chars_of("riscv64"));
    r
}

fn is_arch_name_exec(seg: &Vec<char>, arch: &Vec<Vec<char>>) -> (r: bool)
    requires
        arch@.len() == arch_names().len(),
        forall|k: int| 0 <= k < arch@.len() ==> (#[trigger] arch@[k])@ == arch_names()[k],
    ensures
        r == is_arch_name(seg@),
{
    let mut k: usize = 0;
    while k < arch.len()
        invariant
            k <= arch.len(),
            arch@.len() == arch_names().len(),
            forall|m: int| 0 <= m < arch@.len() ==> (#[trigger] arch@[m])@ == arch_names()[m],
            forall|m: int| 0 <= m < k ==> #[trigger] arch_names()[m] != seg@,
        decreases arch.len() - k,
    {
        if vec_eq(&arch[k], seg) {
            assert(arch_names()[k as int] == seg@);
            return true;
        }
        k = k + 1;
    }
    false
}

fn flags_segment_exec(seg: &Vec<char>, arch: &Vec<Vec<char>>) -> (r: bool)
    requires
        arch@.len() == arch_names().len(),
        forall|k: int| 0 <= k < arch@.len() ==> (#[trigger] arch@[k])@ == arch_names()[k],
    ensures
        r == flags_segment(seg@),
{
    if is_arch_name_exec(seg, arch) {
        return true;
    }
    let version = chars_of("version");
    if vec_eq(seg, &version) {
        return true;
    }
    commit_ish_chars(seg)
}

/// Whether some `-`-delimited segment of `s` flags it.
fn has_flagged_segment_exec(s: &Vec<char>) -> (r: bool)
    ensures
        r == has_flagged_segment(s@),
{
    let arch = arch_names_exec();
    let mut start: usize = 0;
    let mut i: usize = 0;
    while i < s.len()
        invariant
            start <= i <= s.len(),
            start == 0 || s@[start - 1] == '-',
            forall|k: int| start <= k < i ==> s@[k] != '-',
            arch@.len() == arch_names().len(),
            forall|k: int| 0 <= k < arch@.len() ==> (#[trigger] arch@[k])@ == arch_names()[k],
            forall|a: int, b: int|
                #[trigger] is_segment(s@, '-', a, b) && a < start ==> !flags_segment(
                    s@.subrange(a, b),
                ),
        decreases s.len() - i,
    {
        if s[i] == '-' {
            let seg = sub_vec(s, start, i);
            assert(is_segment(s@, '-', start as int, i as int));
            if flags_segment_exec(&seg, &arch) {
                return true;
            }
            assert forall|a: int, b: int|
                #[trigger] is_segment(s@, '-', a, b) && a < i + 1 implies !flags_segment(
                s@.subrange(a, b),
            ) by {
                if a >= start {
                    lemma_segment_is_current(s@, '-', start as int, i as int, a, b);
                }
            }
            start = i + 1;
        }
        i = i + 1;
    }
    let seg = sub_vec(s, start, s.len());
    assert(is_segment(s@, '-', start as int, s@.len() as int));
    if flags_segment_exec(&seg, &arch) {
        return true;
    }
    assert forall|a: int, b: int| #[trigger] is_segment(s@, '-', a, b) implies !flags_segment(
        s@.subrange(a, b),
    ) by {
        if a >= start {
            lemma_segment_is_current(s@, '-', start as int, s@.len() as int, a, b);
        }
    }
    false
}

/// Tags excluded from tracking entirely: never stored, never fetched.
///
/// - `pr-*` / `commit-*` / `sha-*`: per-PR and per-commit CI artifacts
/// - `sha256-*`: cosign signature/attestation/SBOM artifacts
/// - `nightly-*` and anything containing `unstable`: nightly/unstable CI
///   builds; the bare `nightly` channel pointer is kept
/// - `bionic-*`: distro-prefixed duplicates of the main tags
/// - arch-prefixed or -suffixed tags (`amd64-*`, `*-arm64`, ...)
/// - `version-*` / `*-version-*`: linuxserver.io's mutable alias of the
///   newest `-lsN` build for an upstream version
/// - tags carrying a commit hash or CI run id segment; date-shaped digit
///   runs (`20200413`) are not hashes
pub fn is_excluded(tag: &str) -> (r: bool)
    ensures
        r == spec_is_excluded(tag@),
{
    let s = chars_of(tag);
    let prefixes = excluded_prefixes_exec();
    let mut k: usize = 0;
    while k < prefixes.len()
        invariant
            k <= prefixes.len(),
            s@ == tag@,
            prefixes@.len() == excluded_prefixes().len(),
            forall|m: int| 0 <= m < prefixes@.len() ==> (#[trigger] prefixes@[m])@ == excluded_prefixes()[m],
            forall|m: int| 0 <= m < k ==> !starts_with(s@, #[trigger] excluded_prefixes()[m]),
        decreases prefixes.len() - k,
    {
        if starts_with_exec(&s, &prefixes[k]) {
            assert(starts_with(s@, excluded_prefixes()[k as int]));
            return true;
        }
        k = k + 1;
    }
    let unstable = chars_of("unstable");
    if contains_exec(&s, &unstable) {
        return true;
    }
    let arch = arch_names_exec();
    let mut k: usize = 0;
    while k < arch.len()
        invariant
            k <= arch.len(),
            s@ == tag@,
            arch@.len() == arch_names().len(),
            forall|m: int| 0 <= m < arch@.len() ==> (#[trigger] arch@[m])@ == arch_names()[m],
            forall|m: int| 0 <= m < k ==> !starts_with(s@, (#[trigger] arch_names()[m]).push('-')),
        decreases arch.len() - k,
    {
        let a = &arch[k];
        let n = a.len();
        if starts_with_exec(&s, a) && n < s.len() && s[n] == '-' {
            assert(s@.subrange(0, n + 1) =~= arch_names()[k as int].push('-'));
            assert(starts_with(s@, arch_names()[k as int].push('-')));
            return true;
        }
        proof {
            let a_s = arch_names()[k as int];
            let p = a_s.push('-');
            assert(a@ == a_s);
            if starts_with(s@, p) {
                assert(s@.subrange(0, n as int) =~= p.subrange(0, n as int));
                assert(p.subrange(0, n as int) =~= a_s);
                assert(starts_with(s@, a@));
                assert(n < s@.len());
                assert(s@[n as int] == s@.subrange(0, p.len() as int)[n as int]);
                assert(false);
            }
        }
        k = k + 1;
    }
    has_flagged_segment_exec(&s)
}

fn ls_build_chars(s: &Vec<char>) -> (r: bool)
    ensures
        r == spec_is_ls_build(s@),
{
    if s.len() < 3 || s[0] != 'l' || s[1] != 's' {
        return false;
    }
    let mut i: usize = 2;
    while i < s.len()
        invariant
            2 <= i <= s.len(),
            forall|k: int| 2 <= k < i ==> is_digit(#[trigger] s@[k]),
        decreases s.len() - i,
    {
        if !('0' <= s[i] && s[i] <= '9') {
            return false;
        }
        i = i + 1;
    }
    true
}

fn in_class_exec(class: &CharClass, c: char) -> (r: bool)
    ensures
        r == in_class(*class, c),
{
    match class {
        CharClass::Digit => '0' <= c && c <= '9',
        CharClass::Alnum => ('0' <= c && c <= '9') || ('a' <= c && c <= 'z') || ('A' <= c && c
            <= 'Z'),
    }
}

/// Whether every `.`-separated piece of `s` is non-empty and made of
/// characters of `class`.
pub fn segments_in_class_exec(s: &Vec<char>, class: CharClass) -> (r: bool)
    ensures
        r == segments_in_class(s@, class),
{
    let mut start: usize = 0;
    let mut i: usize = 0;
    let mut bad = false;
    while i < s.len()
        invariant
            start <= i <= s.len(),
            start == 0 || s@[start - 1] == '.',
            forall|k: int| start <= k < i ==> s@[k] != '.',
            !bad ==> forall|k: int| start <= k < i ==> in_class(class, #[trigger] s@[k]),
            bad ==> exists|k: int| start <= k < i && !in_class(class, #[trigger] s@[k]),
            forall|a: int, b: int|
                #[trigger] is_segment(s@, '.', a, b) && a < start ==> a < b && forall|k: int|
                    a <= k < b ==> in_class(class, #[trigger] s@[k]),
        decreases s.len() - i,
    {
        if s[i] == '.' {
            assert(is_segment(s@, '.', start as int, i as int));
            if start == i || bad {
                return false;
            }
            assert forall|a: int, b: int| #[trigger] is_segment(s@, '.', a, b) && a < i + 1 implies a
                < b && forall|k: int| a <= k < b ==> in_class(class, #[trigger] s@[k]) by {
                if a >= start {
                    lemma_segment_is_current(s@, '.', start as int, i as int, a, b);
                }
            }
            start = i + 1;
        } else if !in_class_exec(&class, s[i]) {
            bad = true;
        }
        i = i + 1;
    }
    assert(is_segment(s@, '.', start as int, s@.len() as int));
    if start == s.len() || bad {
        return false;
    }
    assert forall|a: int, b: int| #[trigger] is_segment(s@, '.', a, b) implies a < b && forall|k: int|
        a <= k < b ==> in_class(class, #[trigger] s@[k]) by {
        if a >= start {
            lemma_segment_is_current(s@, '.', start as int, s@.len() as int, a, b);
        }
    }
    true
}

/// Where the leading run of digits and dots of `s` ends.
fn version_end_exec(s: &Vec<char>) -> (g: usize)
    ensures
        is_version_end(s@, g as int),
        version_end(s@) == g,
{
    let mut i: usize = 0;
    while i < s.len()
        invariant
            i <= s.len(),
            forall|k: int| 0 <= k < i ==> is_version_char(#[trigger] s@[k]),
        decreases s.len() - i,
    {
        if !(('0' <= s[i] && s[i] <= '9') || s[i] == '.') {
            proof {
                lemma_version_end(s@, i as int);
            }
            return i;
        }
        i = i + 1;
    }
    proof {
        lemma_version_end(s@, i as int);
    }
    i
}

/// Where the leading run of glue marks of `s` ends.
fn marks_end_exec(s: &Vec<char>) -> (t: usize)
    ensures
        is_marks_end(s@, t as int),
        marks_end(s@) == t,
{
    let mut i: usize = 0;
    while i < s.len()
        invariant
            i <= s.len(),
            forall|k: int| 0 <= k < i ==> is_glue_mark(#[trigger] s@[k]),
        decreases s.len() - i,
    {
        if !(s[i] == '_' || s[i] == '+' || s[i] == '~') {
            proof {
                lemma_marks_end(s@, i as int);
            }
            return i;
        }
        i = i + 1;
    }
    proof {
        lemma_marks_end(s@, i as int);
    }
    i
}

/// `g`, a dot, then `l`.
fn dotted(g: &Vec<char>, l: &Vec<char>) -> (r: Vec<char>)
    ensures
        r@ == g@ + seq!['.'] + l@,
{
    let mut r = sub_vec(g, 0, g.len());
    r.push('.');
    let mut i: usize = 0;
    while i < l.len()
        invariant
            i <= l.len(),
            r@ == g@ + seq!['.'] + l@.take(i as int),
        decreases l.len() - i,
    {
        r.push(l[i]);
        proof {
            assert(l@.take(i + 1) =~= l@.take(i as int).push(l@[i as int]));
        }
        i = i + 1;
    }
    assert(l@.take(l.len() as int) =~= l@);
    r
}

fn opt_string_of(o: &Option<Vec<char>>) -> (r: Option<String>)
    ensures
        opt_view(r) == opt_chars(*o),
{
    match o {
        Some(v) => Some(string_of(v)),
        None => None,
    }
}

/// The version a tag names, its variant and its build, when the tag is
/// shaped like one.
///
/// After an optional leading `v`, the core (everything before the first
/// `-`) must be two to four numeric components. Whatever follows the first
/// `-` is the variant, except a trailing linuxserver.io build number
/// (`-ls48`), which is build metadata, as is whatever the publisher glued
/// onto the core (`12.0ubu2604-ls48` is `12.0` with build `ubu2604.ls48`).
/// Glue is read only when a build number vouches for the tag's shape.
pub fn parse_version(tag: &str) -> (r: Option<TagVersion>)
    ensures
        parsed_view(r) == spec_parse_version(tag@),
{
    let t = chars_of(tag);
    let st = if t.len() > 0 && t[0] == 'v' {
        sub_vec(&t, 1, t.len())
    } else {
        sub_vec(&t, 0, t.len())
    };
    assert(st@ =~= strip_v(t@));
    let ghost split = split_core(st@);
    let (core, rest): (Vec<char>, Option<Vec<char>>) = match find_first(&st, '-') {
        Some(d) => (sub_vec(&st, 0, d), Some(sub_vec(&st, d + 1, st.len()))),
        None => (sub_vec(&st, 0, st.len()), None),
    };
    assert(core@ =~= split.0);
    assert(match rest {
        Some(r) => split.1 == Some(r@),
        None => split.1 is None,
    });
    let ghost parts = split_rest(split.1);
    let (variant, ls): (Option<Vec<char>>, Option<Vec<char>>) = match rest {
        None => (None, None),
        Some(r) => {
            if r.len() == 0 {
                return None;
            }
            if ls_build_chars(&r) {
                (None, Some(r))
            } else {
                match find_last(&r, '-') {
                    Some(e) => {
                        let tail = sub_vec(&r, e + 1, r.len());
                        if ls_build_chars(&tail) {
                            if e == 0 {
                                return None;
                            }
                            (Some(sub_vec(&r, 0, e)), Some(tail))
                        } else {
                            (Some(r), None)
                        }
                    },
                    None => (Some(r), None),
                }
            }
        },
    };
    assert(parts matches Some(p) && p.0 == opt_chars(variant) && p.1 == opt_chars(ls));
    let g = version_end_exec(&core);
    let version = sub_vec(&core, 0, g);
    let glue = sub_vec(&core, g, core.len());
    let ghost ls_view = opt_chars(ls);
    let glue_body: Option<Vec<char>> = if glue.len() == 0 {
        None
    } else {
        if ls.is_none() {
            return None;
        }
        let m = marks_end_exec(&glue);
        let body = sub_vec(&glue, m, glue.len());
        if !segments_in_class_exec(&body, CharClass::Alnum) {
            return None;
        }
        Some(body)
    };
    assert(spec_glue(glue@, ls_view) == Some(opt_chars(glue_body)));
    let dots = count_char_exec(&version, '.');
    if !(1 <= dots && dots <= 3) || !segments_in_class_exec(&version, CharClass::Digit) {
        return None;
    }
    let build: Option<String> = match (&glue_body, &ls) {
        (Some(b), Some(l)) => Some(string_of(&dotted(b, l))),
        (Some(b), None) => Some(string_of(b)),
        (None, Some(l)) => Some(string_of(l)),
        (None, None) => None,
    };
    let r = TagVersion { version: string_of(&version), variant: opt_string_of(&variant), build };
    proof {
        assert(version@ =~= core@.take(g as int));
        assert(glue@ =~= core@.subrange(g as int, core@.len() as int));
    }
    Some(r)
}

/// Why a publisher's tag is not a release even though it names a version:
/// linuxserver.io's versioned tags without a build number are retagged on
/// every rebuild.
pub const LINUXSERVER_ALIAS: &'static str = "linuxserver.io alias: releases are the -lsNN builds; \
    a versioned tag without one is the unsupported pseudo-semver tag, retagged on every rebuild";

/// Why a publisher's tag is not a release even though it names a version,
/// or `None` when it is one (or the publisher is not known). On a
/// `linuxserver/*` repo, a versioned tag without a build number is an
/// alias.
pub fn publisher_alias(name: &str, tag: &str) -> (r: Option<&'static str>)
    ensures
        r == if spec_publisher_alias(name@, tag@) {
            Some(LINUXSERVER_ALIAS)
        } else {
            None
        },
{
    let n = chars_of(name);
    let prefix = chars_of("linuxserver/");
    if !starts_with_exec(&n, &prefix) {
        return None;
    }
    match parse_version(tag) {
        Some(parsed) => if parsed.build.is_none() {
            Some(LINUXSERVER_ALIAS)
        } else {
            None
        },
        None => None,
    }
}

/// Whether a tag names an exact release and can be assumed immutable: it
/// names a version and either the version has at least three components or
/// the tag carries a build. Everything else floats.
pub fn is_immutable(tag: &str) -> (r: bool)
    ensures
        r == spec_is_immutable(tag@),
{
    match parse_version(tag) {
        Some(parsed) => {
            if parsed.build.is_some() {
                return true;
            }
            let v = chars_of(parsed.version.as_str());
            count_char_exec(&v, '.') >= 2
        },
        None => false,
    }
}

} // verus!
