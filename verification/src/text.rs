//! Character-level helpers shared by the tag classifier, the exclusion
//! rules and the formatters: a model of strings as `Seq<char>`, the
//! predicates the rules are written in, and executable counterparts.
use vstd::prelude::*;

verus! {

pub open spec fn is_digit(c: char) -> bool {
    '0' <= c && c <= '9'
}

/// A lower-case ASCII hex digit.
pub open spec fn is_lower_hex(c: char) -> bool {
    is_digit(c) || ('a' <= c && c <= 'f')
}

pub open spec fn is_alnum(c: char) -> bool {
    is_digit(c) || ('a' <= c && c <= 'z') || ('A' <= c && c <= 'Z')
}

pub open spec fn all_digits(s: Seq<char>) -> bool {
    forall|k: int| 0 <= k < s.len() ==> is_digit(#[trigger] s[k])
}

pub open spec fn starts_with(s: Seq<char>, p: Seq<char>) -> bool {
    p.len() <= s.len() && s.subrange(0, p.len() as int) == p
}

pub open spec fn ends_with(s: Seq<char>, p: Seq<char>) -> bool {
    p.len() <= s.len() && s.subrange(s.len() - p.len(), s.len() as int) == p
}

pub open spec fn occurs_at(s: Seq<char>, p: Seq<char>, i: int) -> bool {
    0 <= i && i + p.len() <= s.len() && s.subrange(i, i + p.len()) == p
}

pub open spec fn contains_sub(s: Seq<char>, p: Seq<char>) -> bool {
    exists|i: int| occurs_at(s, p, i)
}

/// `s[i..j]` is one of the pieces `s.split(sep)` yields.
pub open spec fn is_segment(s: Seq<char>, sep: char, i: int, j: int) -> bool {
    &&& 0 <= i <= j <= s.len()
    &&& (i == 0 || s[i - 1] == sep)
    &&& (j == s.len() || s[j] == sep)
    &&& forall|k: int| i <= k < j ==> s[k] != sep
}

pub open spec fn is_first_index(s: Seq<char>, c: char, i: int) -> bool {
    0 <= i < s.len() && s[i] == c && forall|j: int| 0 <= j < i ==> s[j] != c
}

pub open spec fn is_last_index(s: Seq<char>, c: char, i: int) -> bool {
    0 <= i < s.len() && s[i] == c && forall|j: int| i < j < s.len() ==> s[j] != c
}

/// The position of the first `c` in `s`.
pub open spec fn first_index(s: Seq<char>, c: char) -> Option<int> {
    if exists|i: int| is_first_index(s, c, i) {
        Some(choose|i: int| is_first_index(s, c, i))
    } else {
        None
    }
}

/// The position of the last `c` in `s`.
pub open spec fn last_index(s: Seq<char>, c: char) -> Option<int> {
    if exists|i: int| is_last_index(s, c, i) {
        Some(choose|i: int| is_last_index(s, c, i))
    } else {
        None
    }
}

/// How many times `c` occurs in `s`.
pub open spec fn count_char(s: Seq<char>, c: char) -> nat
    decreases s.len(),
{
    if s.len() == 0 {
        0
    } else {
        count_char(s.drop_last(), c) + if s.last() == c {
            1nat
        } else {
            0nat
        }
    }
}

pub proof fn lemma_first_index(s: Seq<char>, c: char, i: int)
    requires
        is_first_index(s, c, i),
    ensures
        first_index(s, c) == Some(i),
{
    let k = choose|k: int| is_first_index(s, c, k);
    assert(is_first_index(s, c, k));
    if k < i {
        assert(s[k] != c);
    } else if i < k {
        assert(s[i] != c);
    }
}

pub proof fn lemma_no_first_index(s: Seq<char>, c: char)
    requires
        forall|j: int| 0 <= j < s.len() ==> s[j] != c,
    ensures
        first_index(s, c) is None,
{
}

pub proof fn lemma_last_index(s: Seq<char>, c: char, i: int)
    requires
        is_last_index(s, c, i),
    ensures
        last_index(s, c) == Some(i),
{
    let k = choose|k: int| is_last_index(s, c, k);
    assert(is_last_index(s, c, k));
    if k < i {
        assert(s[i] != c);
    } else if i < k {
        assert(s[k] != c);
    }
}

pub proof fn lemma_count_char_step(s: Seq<char>, c: char, i: int)
    requires
        0 <= i < s.len(),
    ensures
        count_char(s.take(i + 1), c) == count_char(s.take(i), c) + if s[i] == c {
            1nat
        } else {
            0nat
        },
{
    assert(s.take(i + 1).drop_last() =~= s.take(i));
}

/// The characters of `s`, in order.
pub fn chars_of(s: &str) -> (v: Vec<char>)
    ensures
        v@ == s@,
{
    let mut v: Vec<char> = Vec::new();
    for c in it: s.chars()
        invariant
            v@ == it.seq().take(it.index()),
            it.seq() == s@,
    {
        v.push(c);
    }
    v
}

/// A `String` holding exactly the characters of `v`, through std's
/// `FromIterator<&char> for String`, which appends each character in turn.
#[verifier::external_body]
pub(crate) fn string_of(v: &Vec<char>) -> (s: String)
    ensures
        s@ == v@,
{
    v.iter().collect::<String>()
}

/// Appends `c` to `s` with std's `String::push`.
#[verifier::external_body]
pub(crate) fn push_char(s: &mut String, c: char)
    ensures
        final(s)@ == old(s)@.push(c),
{
    s.push(c)
}

/// A copy of `v[lo..hi]`.
pub fn sub_vec(v: &Vec<char>, lo: usize, hi: usize) -> (r: Vec<char>)
    requires
        lo <= hi <= v.len(),
    ensures
        r@ == v@.subrange(lo as int, hi as int),
{
    let mut r: Vec<char> = Vec::new();
    let mut i = lo;
    while i < hi
        invariant
            lo <= i <= hi <= v.len(),
            r@ == v@.subrange(lo as int, i as int),
        decreases hi - i,
    {
        r.push(v[i]);
        i = i + 1;
    }
    r
}

pub fn vec_eq(a: &Vec<char>, b: &Vec<char>) -> (r: bool)
    ensures
        r == (a@ == b@),
{
    if a.len() != b.len() {
        return false;
    }
    let mut i: usize = 0;
    while i < a.len()
        invariant
            a.len() == b.len(),
            i <= a.len(),
            forall|k: int| 0 <= k < i ==> a@[k] == b@[k],
        decreases a.len() - i,
    {
        if a[i] != b[i] {
            return false;
        }
        i = i + 1;
    }
    assert(a@ =~= b@);
    true
}

/// Whether `p` occurs in `s` at position `at`.
pub fn occurs_at_exec(s: &Vec<char>, p: &Vec<char>, at: usize) -> (r: bool)
    ensures
        r == occurs_at(s@, p@, at as int),
{
    if at > s.len() || p.len() > s.len() - at {
        return false;
    }
    let mut i: usize = 0;
    while i < p.len()
        invariant
            at + p.len() <= s.len(),
            i <= p.len(),
            forall|k: int| 0 <= k < i ==> s@[at + k] == p@[k],
        decreases p.len() - i,
    {
        if s[at + i] != p[i] {
            assert(s@.subrange(at as int, at + p.len())[i as int] != p@[i as int]);
            return false;
        }
        i = i + 1;
    }
    assert(s@.subrange(at as int, at + p.len()) =~= p@);
    true
}

pub fn starts_with_exec(s: &Vec<char>, p: &Vec<char>) -> (r: bool)
    ensures
        r == starts_with(s@, p@),
{
    occurs_at_exec(s, p, 0)
}

pub fn ends_with_exec(s: &Vec<char>, p: &Vec<char>) -> (r: bool)
    ensures
        r == ends_with(s@, p@),
{
    if p.len() > s.len() {
        return false;
    }
    occurs_at_exec(s, p, s.len() - p.len())
}

pub fn contains_exec(s: &Vec<char>, p: &Vec<char>) -> (r: bool)
    ensures
        r == contains_sub(s@, p@),
{
    if p.len() > s.len() {
        assert forall|i: int| !occurs_at(s@, p@, i) by {}
        return false;
    }
    let last = s.len() - p.len();
    let mut i: usize = 0;
    loop
        invariant
            last == s.len() - p.len(),
            i <= last,
            forall|k: int| 0 <= k < i ==> !occurs_at(s@, p@, k),
        ensures
            forall|k: int| 0 <= k <= last ==> !occurs_at(s@, p@, k),
        decreases last - i,
    {
        if occurs_at_exec(s, p, i) {
            return true;
        }
        if i == last {
            break;
        }
        i = i + 1;
    }
    assert forall|k: int| !occurs_at(s@, p@, k) by {
        if 0 <= k <= last {
        }
    }
    false
}

/// The position of the first `c` in `v`.
pub fn find_first(v: &Vec<char>, c: char) -> (r: Option<usize>)
    ensures
        match r {
            Some(i) => is_first_index(v@, c, i as int) && first_index(v@, c) == Some(i as int),
            None => first_index(v@, c) is None && forall|j: int| 0 <= j < v@.len() ==> v@[j] != c,
        },
{
    let mut i: usize = 0;
    while i < v.len()
        invariant
            i <= v.len(),
            forall|j: int| 0 <= j < i ==> v@[j] != c,
        decreases v.len() - i,
    {
        if v[i] == c {
            proof {
                lemma_first_index(v@, c, i as int);
            }
            return Some(i);
        }
        i = i + 1;
    }
    proof {
        lemma_no_first_index(v@, c);
    }
    None
}

/// The position of the last `c` in `v`.
pub fn find_last(v: &Vec<char>, c: char) -> (r: Option<usize>)
    ensures
        match r {
            Some(i) => is_last_index(v@, c, i as int) && last_index(v@, c) == Some(i as int),
            None => last_index(v@, c) is None && forall|j: int| 0 <= j < v@.len() ==> v@[j] != c,
        },
{
    let mut i: usize = v.len();
    while i > 0
        invariant
            i <= v.len(),
            forall|j: int| i <= j < v@.len() ==> v@[j] != c,
        decreases i,
    {
        if v[i - 1] == c {
            proof {
                lemma_last_index(v@, c, i - 1);
            }
            return Some(i - 1);
        }
        i = i - 1;
    }
    None
}

pub fn all_digits_exec(v: &Vec<char>) -> (r: bool)
    ensures
        r == all_digits(v@),
{
    let mut i: usize = 0;
    while i < v.len()
        invariant
            i <= v.len(),
            forall|k: int| 0 <= k < i ==> is_digit(v@[k]),
        decreases v.len() - i,
    {
        if !('0' <= v[i] && v[i] <= '9') {
            return false;
        }
        i = i + 1;
    }
    true
}

pub fn count_char_exec(v: &Vec<char>, c: char) -> (r: usize)
    ensures
        r == count_char(v@, c),
{
    let mut n: usize = 0;
    let mut i: usize = 0;
    while i < v.len()
        invariant
            i <= v.len(),
            n <= i,
            n == count_char(v@.take(i as int), c),
        decreases v.len() - i,
    {
        proof {
            lemma_count_char_step(v@, c, i as int);
        }
        if v[i] == c {
            n = n + 1;
        }
        i = i + 1;
    }
    assert(v@.take(v.len() as int) =~= v@);
    n
}

/// Whether `c` has the Unicode `White_Space` property, as std's
/// `char::is_whitespace` decides it.
pub uninterp spec fn is_white_space(c: char) -> bool;

/// std's `char::is_whitespace`; its result is named, not spelled out.
#[verifier::external_body]
pub(crate) fn char_is_whitespace(c: char) -> (r: bool)
    ensures
        r == is_white_space(c),
{
    c.is_whitespace()
}

/// `a` is where the leading whitespace of `s` ends.
pub open spec fn is_lead_end(s: Seq<char>, a: int) -> bool {
    &&& 0 <= a <= s.len()
    &&& forall|k: int| 0 <= k < a ==> is_white_space(#[trigger] s[k])
    &&& (a == s.len() || !is_white_space(s[a]))
}

/// `b` is where the trailing whitespace of `s` starts.
pub open spec fn is_trail_start(s: Seq<char>, b: int) -> bool {
    &&& 0 <= b <= s.len()
    &&& forall|k: int| b <= k < s.len() ==> is_white_space(#[trigger] s[k])
    &&& (b == 0 || !is_white_space(s[b - 1]))
}

/// `s` without its leading and trailing whitespace, as std's `str::trim`
/// documents it.
pub open spec fn spec_trim(s: Seq<char>) -> Seq<char> {
    let a = choose|a: int| is_lead_end(s, a);
    let b = choose|b: int| is_trail_start(s, b);
    if a < b {
        s.subrange(a, b)
    } else {
        Seq::empty()
    }
}

proof fn lemma_trim_bounds(s: Seq<char>, a: int, b: int)
    requires
        is_lead_end(s, a),
        is_trail_start(s, b),
    ensures
        spec_trim(s) == if a < b {
            s.subrange(a, b)
        } else {
            Seq::<char>::empty()
        },
{
    let a2 = choose|x: int| is_lead_end(s, x);
    let b2 = choose|x: int| is_trail_start(s, x);
    assert(is_lead_end(s, a2));
    assert(is_trail_start(s, b2));
    if a2 < a {
        assert(is_white_space(s[a2]));
    }
    if a < a2 {
        assert(is_white_space(s[a]));
    }
    if b2 < b {
        assert(is_white_space(s[b - 1]));
    }
    if b < b2 {
        assert(is_white_space(s[b2 - 1]));
    }
}

/// Trimming twice trims no more than trimming once.
pub proof fn lemma_trim_idempotent(s: Seq<char>)
    ensures
        spec_trim(spec_trim(s)) == spec_trim(s),
{
    let a = choose|a: int| is_lead_end(s, a);
    let b = choose|b: int| is_trail_start(s, b);
    lemma_lead_end_exists(s);
    lemma_trail_start_exists(s);
    lemma_trim_bounds(s, a, b);
    let t = spec_trim(s);
    if a < b {
        assert(is_lead_end(t, 0));
        assert(is_trail_start(t, t.len() as int));
        lemma_trim_bounds(t, 0, t.len() as int);
        assert(t.subrange(0, t.len() as int) =~= t);
    } else {
        assert(is_lead_end(t, 0));
        assert(is_trail_start(t, 0));
        lemma_trim_bounds(t, 0, 0);
    }
}

proof fn lemma_lead_end_exists(s: Seq<char>)
    ensures
        exists|a: int| is_lead_end(s, a),
    decreases s.len(),
{
    if s.len() == 0 {
        assert(is_lead_end(s, 0));
    } else if !is_white_space(s[0]) {
        assert(is_lead_end(s, 0));
    } else {
        lemma_lead_end_exists(s.drop_first());
        let a = choose|a: int| is_lead_end(s.drop_first(), a);
        assert forall|k: int| 0 <= k < a + 1 implies is_white_space(#[trigger] s[k]) by {
            if k > 0 {
                assert(s[k] == s.drop_first()[k - 1]);
            }
        }
        assert(is_lead_end(s, a + 1));
    }
}

proof fn lemma_trail_start_exists(s: Seq<char>)
    ensures
        exists|b: int| is_trail_start(s, b),
    decreases s.len(),
{
    if s.len() == 0 {
        assert(is_trail_start(s, 0));
    } else if !is_white_space(s.last()) {
        assert(is_trail_start(s, s.len() as int));
    } else {
        lemma_trail_start_exists(s.drop_last());
        let b = choose|b: int| is_trail_start(s.drop_last(), b);
        assert forall|k: int| b <= k < s.len() implies is_white_space(#[trigger] s[k]) by {
            if k < s.len() - 1 {
                assert(s[k] == s.drop_last()[k]);
            }
        }
        if b > 0 {
            assert(s[b - 1] == s.drop_last()[b - 1]);
        }
        assert(is_trail_start(s, b));
    }
}

/// `a` is where the leading run of positions marked in `white` ends.
pub open spec fn is_lead_end_in(white: Seq<bool>, a: int) -> bool {
    &&& 0 <= a <= white.len()
    &&& forall|k: int| 0 <= k < a ==> #[trigger] white[k]
    &&& (a == white.len() || !white[a])
}

/// `b` is where the trailing run of positions marked in `white` starts.
pub open spec fn is_trail_start_in(white: Seq<bool>, b: int) -> bool {
    &&& 0 <= b <= white.len()
    &&& forall|k: int| b <= k < white.len() ==> #[trigger] white[k]
    &&& (b == 0 || !white[b - 1])
}

/// `s` without the leading and trailing characters marked in `white`
/// (one mark per character).
pub open spec fn spec_trim_marked(s: Seq<char>, white: Seq<bool>) -> Seq<char> {
    let a = choose|a: int| is_lead_end_in(white, a);
    let b = choose|b: int| is_trail_start_in(white, b);
    if a < b {
        s.subrange(a, b)
    } else {
        Seq::empty()
    }
}

proof fn lemma_trim_marked_bounds(s: Seq<char>, white: Seq<bool>, a: int, b: int)
    requires
        is_lead_end_in(white, a),
        is_trail_start_in(white, b),
    ensures
        spec_trim_marked(s, white) == if a < b {
            s.subrange(a, b)
        } else {
            Seq::<char>::empty()
        },
{
    let a2 = choose|x: int| is_lead_end_in(white, x);
    let b2 = choose|x: int| is_trail_start_in(white, x);
    assert(is_lead_end_in(white, a2));
    assert(is_trail_start_in(white, b2));
    if a2 < a {
        assert(white[a2]);
    }
    if a < a2 {
        assert(white[a]);
    }
    if b2 < b {
        assert(white[b - 1]);
    }
    if b < b2 {
        assert(white[b2 - 1]);
    }
}

/// The characters of `v` without the leading and trailing ones marked in
/// `white`.
pub fn trim_marked(v: &Vec<char>, white: &Vec<bool>) -> (r: Vec<char>)
    requires
        white.len() == v.len(),
    ensures
        r@ == spec_trim_marked(v@, white@),
{
    let mut a: usize = 0;
    while a < v.len() && white[a]
        invariant
            a <= v.len(),
            white.len() == v.len(),
            forall|k: int| 0 <= k < a ==> #[trigger] white@[k],
        decreases v.len() - a,
    {
        a = a + 1;
    }
    let mut b: usize = v.len();
    while b > 0 && white[b - 1]
        invariant
            b <= v.len(),
            white.len() == v.len(),
            forall|k: int| b <= k < white@.len() ==> #[trigger] white@[k],
        decreases b,
    {
        b = b - 1;
    }
    proof {
        lemma_trim_marked_bounds(v@, white@, a as int, b as int);
    }
    if a < b {
        sub_vec(v, a, b)
    } else {
        Vec::new()
    }
}

/// Trimming by marks that say which characters are whitespace is trimming
/// whitespace.
proof fn lemma_trim_marked_is_trim(s: Seq<char>, white: Seq<bool>)
    requires
        white.len() == s.len(),
        forall|k: int| 0 <= k < s.len() ==> white[k] == is_white_space(#[trigger] s[k]),
    ensures
        spec_trim_marked(s, white) == spec_trim(s),
{
    lemma_lead_end_exists(s);
    lemma_trail_start_exists(s);
    let a = choose|a: int| is_lead_end(s, a);
    let b = choose|b: int| is_trail_start(s, b);
    assert forall|k: int| 0 <= k < a implies #[trigger] white[k] by {
        assert(is_white_space(s[k]));
    }
    assert forall|k: int| b <= k < white.len() implies #[trigger] white[k] by {
        assert(is_white_space(s[k]));
    }
    assert(is_lead_end_in(white, a));
    assert(is_trail_start_in(white, b));
    lemma_trim_bounds(s, a, b);
    lemma_trim_marked_bounds(s, white, a, b);
}

/// The characters of `v` without leading and trailing whitespace.
pub fn trim_chars(v: &Vec<char>) -> (r: Vec<char>)
    ensures
        r@ == spec_trim(v@),
{
    let mut white: Vec<bool> = Vec::new();
    let mut i: usize = 0;
    while i < v.len()
        invariant
            i <= v.len(),
            white.len() == i,
            forall|k: int| 0 <= k < i ==> white@[k] == is_white_space(#[trigger] v@[k]),
        decreases v.len() - i,
    {
        white.push(char_is_whitespace(v[i]));
        i = i + 1;
    }
    proof {
        lemma_trim_marked_is_trim(v@, white@);
    }
    trim_marked(v, &white)
}

/// Lexicographic order of character sequences by code point, which is the
/// order of their UTF-8 encodings byte by byte.
pub open spec fn chars_lt(a: Seq<char>, b: Seq<char>) -> bool
    decreases a.len(),
{
    if a.len() == 0 {
        b.len() > 0
    } else if b.len() == 0 {
        false
    } else if a[0] < b[0] {
        true
    } else if a[0] > b[0] {
        false
    } else {
        chars_lt(a.drop_first(), b.drop_first())
    }
}

pub proof fn lemma_chars_lt_irreflexive(a: Seq<char>)
    ensures
        !chars_lt(a, a),
    decreases a.len(),
{
    if a.len() > 0 {
        lemma_chars_lt_irreflexive(a.drop_first());
    }
}

pub proof fn lemma_chars_lt_trichotomy(a: Seq<char>, b: Seq<char>)
    ensures
        a == b || chars_lt(a, b) || chars_lt(b, a),
    decreases a.len(),
{
    if a.len() > 0 && b.len() > 0 && a[0] == b[0] {
        lemma_chars_lt_trichotomy(a.drop_first(), b.drop_first());
        if a.drop_first() == b.drop_first() {
            assert(a.len() == a.drop_first().len() + 1);
            assert(a.len() == b.len());
            assert forall|k: int| 0 <= k < a.len() implies a[k] == b[k] by {
                if k > 0 {
                    assert(a[k] == a.drop_first()[k - 1]);
                    assert(b[k] == b.drop_first()[k - 1]);
                }
            }
            assert(a =~= b);
        }
    } else if a.len() == 0 && b.len() == 0 {
        assert(a =~= b);
    }
}

pub proof fn lemma_chars_lt_transitive(a: Seq<char>, b: Seq<char>, c: Seq<char>)
    requires
        chars_lt(a, b),
        chars_lt(b, c),
    ensures
        chars_lt(a, c),
    decreases a.len(),
{
    if a.len() > 0 && b.len() > 0 && c.len() > 0 && a[0] == b[0] && b[0] == c[0] {
        lemma_chars_lt_transitive(a.drop_first(), b.drop_first(), c.drop_first());
    }
}

} // verus!
