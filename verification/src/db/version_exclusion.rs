//! Versions an admin has ruled out of version matching.
//!
//! A rule is a version as `classify::parse_version` reads it (`20.04.1`),
//! or a prefix with a trailing `*` (`14.3.*`) for a whole family of them.
//! Every tag naming an excluded version is left out of what consumers read;
//! the tags are still tracked. Some publishers need no admin:
//! `classify::publisher_alias` knows that a linuxserver.io tag without a
//! build number is an alias, not a release. An [`ExclusionSet`] applies
//! both.
use vstd::prelude::*;
use vstd::string::StringExecFns;
use std::collections::HashMap;
use crate::db::repo::Repo;
use crate::error::AppError;
use crate::poller::classify::{
    lemma_parse_zero_version, opt_view, parse_version, publisher_alias, segments_in_class, segments_in_class_exec,
    in_class, spec_parse_version, spec_publisher_alias, CharClass, LINUXSERVER_ALIAS,
};
use crate::text::{chars_of, ends_with, is_digit, is_segment, lemma_trim_idempotent, ends_with_exec, spec_trim, starts_with, starts_with_exec, string_of, sub_vec, trim_chars, vec_eq};

verus! {

broadcast use vstd::std_specs::hash::group_hash_axioms;

/// An admin's rule for one repo.
#[derive(Debug, Clone)]
pub struct VersionExclusion {
    pub id: u64,
    pub repo_id: u64,
    /// The rule as typed: an exact version or a `prefix.*` pattern.
    pub version: String,
    pub note: Option<String>,
    /// When the rule was added, in seconds since the Unix epoch.
    pub created_at: i64,
}

/// Whether the rule `rule` covers the version `version`: a rule ending in
/// `*` covers every version that starts with what precedes the `*`; any
/// other rule covers exactly the version it spells.
pub open spec fn spec_rule_matches(rule: Seq<char>, version: Seq<char>) -> bool {
    if rule.len() > 0 && rule.last() == '*' {
        starts_with(version, rule.drop_last())
    } else {
        rule == version
    }
}

impl VersionExclusion {
    /// A copy of the rule.
    pub fn duplicate(&self) -> (r: VersionExclusion)
        ensures
            r == *self,
    {
        VersionExclusion {
            id: self.id,
            repo_id: self.repo_id,
            version: self.version.clone(),
            note: match &self.note {
                Some(n) => Some(n.clone()),
                None => None,
            },
            created_at: self.created_at,
        }
    }

    /// Whether this rule covers `version` (as parsed from a tag).
    pub fn matches(&self, version: &str) -> (r: bool)
        ensures
            r == spec_rule_matches(self.version@, version@),
    {
        let rule = chars_of(self.version.as_str());
        let v = chars_of(version);
        if rule.len() > 0 && rule[rule.len() - 1] == '*' {
            let prefix = sub_vec(&rule, 0, rule.len() - 1);
            assert(prefix@ =~= rule@.drop_last());
            starts_with_exec(&v, &prefix)
        } else {
            vec_eq(&rule, &v)
        }
    }
}

/// The rules of one repo plus what its publisher's tags mean, ready to
/// test tags against.
#[derive(Debug, Clone)]
pub struct ExclusionSet {
    /// The repo name (`linuxserver/sonarr`), which decides the publisher.
    name: String,
    rules: Vec<VersionExclusion>,
}

/// Why a tag is excluded.
#[derive(Debug, Clone)]
pub enum Exclusion<'a> {
    /// An admin's rule.
    Rule(&'a VersionExclusion),
    /// A built-in publisher rule, with its explanation.
    Alias(&'static str),
}

/// `i` is the first of `rules` that covers `version`.
pub open spec fn is_first_match(rules: Seq<VersionExclusion>, version: Seq<char>, i: int) -> bool {
    &&& 0 <= i < rules.len()
    &&& spec_rule_matches(rules[i].version@, version)
    &&& forall|j: int| 0 <= j < i ==> !spec_rule_matches(#[trigger] rules[j].version@, version)
}

/// What excludes a tag under the rules `rules` of the repo `name`:
/// `Some(Some(i))` for the first admin rule `i` covering the tag's version,
/// else `Some(None)` when the publisher's alias rule applies, else `None`.
/// A tag that names no version is never excluded.
pub open spec fn spec_rule_for(name: Seq<char>, rules: Seq<VersionExclusion>, tag: Seq<char>) -> Option<
    Option<int>,
> {
    match spec_parse_version(tag) {
        None => None,
        Some(parsed) => if exists|i: int| is_first_match(rules, parsed.version, i) {
            Some(Some(choose|i: int| is_first_match(rules, parsed.version, i)))
        } else if spec_publisher_alias(name, tag) {
            Some(None)
        } else {
            None
        },
    }
}

pub open spec fn spec_excludes(name: Seq<char>, rules: Seq<VersionExclusion>, tag: Seq<char>) -> bool {
    spec_rule_for(name, rules, tag) is Some
}

proof fn lemma_first_match(rules: Seq<VersionExclusion>, version: Seq<char>, i: int)
    requires
        is_first_match(rules, version, i),
    ensures
        (choose|k: int| is_first_match(rules, version, k)) == i,
{
    let k = choose|k: int| is_first_match(rules, version, k);
    assert(is_first_match(rules, version, k));
    if k < i {
        assert(!spec_rule_matches(rules[k].version@, version));
    } else if i < k {
        assert(!spec_rule_matches(rules[i].version@, version));
    }
}

impl ExclusionSet {
    pub closed spec fn name_view(&self) -> Seq<char> {
        self.name@
    }

    pub closed spec fn rules_view(&self) -> Seq<VersionExclusion> {
        self.rules@
    }

    pub fn new(name: &str, rules: Vec<VersionExclusion>) -> (s: Self)
        ensures
            s.name_view() == name@,
            s.rules_view() == rules@,
    {
        Self { name: string_of(&chars_of(name)), rules }
    }

    /// The repo name the set was made for.
    pub fn name(&self) -> (n: &String)
        ensures
            n@ == self.name_view(),
    {
        &self.name
    }

    /// The admin's rules, in the order they are tried.
    pub fn rules(&self) -> (r: &Vec<VersionExclusion>)
        ensures
            r@ == self.rules_view(),
    {
        &self.rules
    }

    /// The admin's rules, taken out of the set.
    pub fn into_rules(self) -> (r: Vec<VersionExclusion>)
        ensures
            r@ == self.rules_view(),
    {
        self.rules
    }

    /// What excludes `tag`, if anything: an admin's rule first (the first
    /// that covers the tag's version), else the publisher's. A tag that
    /// names no version is never excluded.
    pub fn rule_for(&self, tag: &str) -> (r: Option<Exclusion<'_>>)
        ensures
            match (r, spec_rule_for(self.name_view(), self.rules_view(), tag@)) {
                (None, None) => true,
                (Some(Exclusion::Rule(rule)), Some(Some(i))) => *rule == self.rules_view()[i],
                (Some(Exclusion::Alias(why)), Some(None)) => why == LINUXSERVER_ALIAS,
                _ => false,
            },
    {
        let parsed = match parse_version(tag) {
            Some(p) => p,
            None => return None,
        };
        let ghost version = parsed.version@;
        let mut i: usize = 0;
        while i < self.rules.len()
            invariant
                i <= self.rules@.len(),
                version == parsed.version@,
                spec_parse_version(tag@) == Some(parsed@),
                forall|j: int| 0 <= j < i ==> !spec_rule_matches(#[trigger] self.rules@[j].version@, version),
            decreases self.rules.len() - i,
        {
            if self.rules[i].matches(parsed.version.as_str()) {
                proof {
                    assert(is_first_match(self.rules@, version, i as int));
                    lemma_first_match(self.rules@, version, i as int);
                    assert(spec_parse_version(tag@).unwrap().version == version);
                    assert(exists|k: int| is_first_match(self.rules@, version, k));
                    assert(spec_rule_for(self.name@, self.rules@, tag@) == Some(Some(i as int)));
                }
                let rule = &self.rules[i];
                assert(*rule == self.rules@[i as int]);
                return Some(Exclusion::Rule(rule));
            }
            i = i + 1;
        }
        assert(!exists|k: int| is_first_match(self.rules@, version, k));
        match publisher_alias(self.name.as_str(), tag) {
            Some(why) => Some(Exclusion::Alias(why)),
            None => None,
        }
    }

    /// Whether anything excludes `tag`.
    pub fn excludes(&self, tag: &str) -> (r: bool)
        ensures
            r == spec_excludes(self.name_view(), self.rules_view(), tag@),
    {
        self.rule_for(tag).is_some()
    }

    /// Whether this set can exclude anything at all: it has no rules and
    /// its publisher has no alias rule.
    pub fn is_empty(&self) -> (r: bool)
        ensures
            r == (self.rules_view().len() == 0 && !spec_publisher_alias(self.name_view(), "0.0.0"@)),
    {
        self.rules.len() == 0 && publisher_alias(self.name.as_str(), "0.0.0").is_none()
    }
}

/// A set that reports itself empty excludes nothing: with no rules and a
/// publisher that has no alias rule, no tag is excluded.
pub proof fn lemma_empty_set_excludes_nothing(set: ExclusionSet, tag: Seq<char>)
    requires
        set.rules_view().len() == 0,
        !spec_publisher_alias(set.name_view(), "0.0.0"@),
    ensures
        !spec_excludes(set.name_view(), set.rules_view(), tag),
{
    lemma_parse_zero_version();
    assert(!starts_with(set.name_view(), "linuxserver/"@));
}

/// What excludes a tag, spelled out: nothing when the tag names no
/// version; otherwise the first admin rule, in order, that covers the
/// version it names; failing that, the publisher's rule when it applies.
pub proof fn lemma_rule_for_is_first_match(name: Seq<char>, rules: Seq<VersionExclusion>, tag: Seq<char>)
    ensures
        spec_parse_version(tag) is None ==> spec_rule_for(name, rules, tag) is None,
        forall|i: int|
            spec_parse_version(tag) is Some && #[trigger] is_first_match(rules, spec_parse_version(tag)->0.version, i)
                ==> spec_rule_for(name, rules, tag) == Some(Some(i)),
        spec_parse_version(tag) matches Some(p) && (forall|i: int|
            0 <= i < rules.len() ==> !spec_rule_matches(#[trigger] rules[i].version@, p.version))
            ==> spec_rule_for(name, rules, tag) == if spec_publisher_alias(name, tag) {
            Some(None::<int>)
        } else {
            None
        },
{
    assert forall|i: int|
        spec_parse_version(tag) is Some && #[trigger] is_first_match(rules, spec_parse_version(tag)->0.version, i)
            implies spec_rule_for(name, rules, tag) == Some(Some(i)) by {
        lemma_first_match(rules, spec_parse_version(tag)->0.version, i);
    }
}

/// A repo's set can exclude something exactly when the repo has a rule or
/// its publisher is linuxserver.io.
pub proof fn lemma_set_excludes_something(name: Seq<char>, rules: Seq<VersionExclusion>)
    ensures
        !spec_set_is_empty(name, rules) == (rules.len() > 0 || starts_with(name, "linuxserver/"@)),
{
    lemma_parse_zero_version();
}

/// Non-empty runs of digits separated by single dots, however many.
pub open spec fn dotted_digits(core: Seq<char>) -> bool {
    &&& core.len() > 0
    &&& forall|k: int| 0 <= k < core.len() ==> is_digit(#[trigger] core[k]) || core[k] == '.'
    &&& core[0] != '.'
    &&& core.last() != '.'
    &&& forall|k: int| 0 <= k < core.len() - 1 ==> !(#[trigger] core[k] == '.' && core[k + 1] == '.')
}

/// Every rule that is, once trimmed, dotted digits (any number of
/// components, `4.0.19.2979` as well as `20.04`), or dotted digits followed
/// by `.*`, is accepted.
pub proof fn lemma_dotted_rules_are_valid(rule: Seq<char>, core: Seq<char>)
    requires
        dotted_digits(core),
        spec_trim(rule) == core || spec_trim(rule) == core + seq!['.', '*'],
    ensures
        spec_valid_rule(rule),
{
    let t = spec_trim(rule);
    if t == core + seq!['.', '*'] {
        assert(t.subrange(t.len() - 2, t.len() as int) =~= seq!['.', '*']);
        assert(t.subrange(0, t.len() - 2) =~= core);
    } else {
        assert(core.last() != '*');
        assert(!ends_with(core, seq!['.', '*'])) by {
            if ends_with(core, seq!['.', '*']) {
                assert(core.subrange(core.len() - 2, core.len() as int)[1] == core.last());
            }
        }
    }
    assert(strip_wildcard(t) == core);
    assert forall|i: int, j: int| #[trigger] is_segment(core, '.', i, j) implies i < j && forall|k: int|
        i <= k < j ==> in_class(CharClass::Digit, #[trigger] core[k]) by {
        if i == j {
            if j == core.len() {
                assert(core[i - 1] == '.');
            } else if i == 0 {
                assert(core[0] == '.');
            } else {
                assert(core[i - 1] == '.' && core[i] == '.');
            }
        }
    }
}

/// A rule that validation accepted is accepted again as it was returned,
/// unchanged: validating is idempotent.
pub proof fn lemma_validated_rule_is_stable(rule: Seq<char>)
    requires
        spec_valid_rule(rule),
    ensures
        spec_valid_rule(spec_trim(rule)),
        spec_trim(spec_trim(rule)) == spec_trim(rule),
{
    lemma_trim_idempotent(rule);
}

pub open spec fn rule_description(rule: VersionExclusion) -> Seq<char> {
    "Excluded by rule "@ + rule.version@ + match rule.note {
        Some(n) => ": "@ + n@,
        None => Seq::empty(),
    }
}

impl<'a> Exclusion<'a> {
    /// One line for a person, naming the rule.
    pub fn describe(&self) -> (d: String)
        ensures
            d@ == match *self {
                Exclusion::Rule(rule) => rule_description(*rule),
                Exclusion::Alias(why) => "Excluded: "@ + why@,
            },
    {
        match self {
            Exclusion::Rule(rule) => {
                let mut d = String::from_str("Excluded by rule ");
                d.append(rule.version.as_str());
                match &rule.note {
                    Some(n) => {
                        d.append(": ");
                        d.append(n.as_str());
                    },
                    None => {
                        assert(d@ =~= d@ + Seq::<char>::empty());
                    },
                }
                d
            },
            Exclusion::Alias(why) => {
                let mut d = String::from_str("Excluded: ");
                d.append(why);
                d
            },
        }
    }
}

/// `s` without a trailing `.*`.
pub open spec fn strip_wildcard(s: Seq<char>) -> Seq<char> {
    if ends_with(s, seq!['.', '*']) {
        s.subrange(0, s.len() - 2)
    } else {
        s
    }
}

/// A rule is acceptable when, trimmed and without a trailing `.*`, it is
/// dotted digits: non-empty numeric components separated by single dots.
pub open spec fn spec_valid_rule(rule: Seq<char>) -> bool {
    segments_in_class(strip_wildcard(spec_trim(rule)), CharClass::Digit)
}

pub open spec fn invalid_rule_message(trimmed: Seq<char>) -> Seq<char> {
    "'"@ + trimmed
        + "' is not a version: expected digits and dots like 20.04.1, or a prefix like 14.3.*"@
}

/// Check that a rule is a dotted numeric version, optionally ending in
/// `.*`, and return it trimmed. Anything else would never match a parsed
/// version.
pub fn validate_rule(rule: &str) -> (r: Result<String, AppError>)
    ensures
        match r {
            Ok(v) => spec_valid_rule(rule@) && v@ == spec_trim(rule@),
            Err(e) => !spec_valid_rule(rule@) && e == AppError::InvalidInput(
                e->InvalidInput_0,
            ) && e->InvalidInput_0@ == invalid_rule_message(spec_trim(rule@)),
        },
{
    let raw = chars_of(rule);
    let trimmed = trim_chars(&raw);
    let suffix = chars_of(".*");
    proof {
        reveal_strlit(".*");
        assert(suffix@ =~= seq!['.', '*']);
    }
    let core = if ends_with_exec(&trimmed, &suffix) {
        sub_vec(&trimmed, 0, trimmed.len() - 2)
    } else {
        sub_vec(&trimmed, 0, trimmed.len())
    };
    assert(core@ =~= strip_wildcard(trimmed@));
    let rendered = string_of(&trimmed);
    if !segments_in_class_exec(&core, CharClass::Digit) {
        let mut msg = String::from_str("'");
        msg.append(rendered.as_str());
        msg.append(
            "' is not a version: expected digits and dots like 20.04.1, or a prefix like 14.3.*",
        );
        return Err(AppError::InvalidInput(msg));
    }
    Ok(rendered)
}

/// A note as stored: trimmed, and absent when blank.
pub open spec fn spec_normalize_note(note: Option<Seq<char>>) -> Option<Seq<char>> {
    match note {
        Some(n) => if spec_trim(n).len() > 0 {
            Some(spec_trim(n))
        } else {
            None
        },
        None => None,
    }
}

/// The note of a rule being added: trimmed, and dropped when blank, so that
/// re-adding a rule without a note keeps the note it had.
pub fn normalize_note(note: Option<&str>) -> (r: Option<String>)
    ensures
        opt_view(r) == spec_normalize_note(
            match note {
                Some(n) => Some(n@),
                None => None,
            },
        ),
{
    match note {
        Some(n) => {
            let t = trim_chars(&chars_of(n));
            if t.len() > 0 {
                Some(string_of(&t))
            } else {
                None
            }
        },
        None => None,
    }
}

/// The rules of `rules` that belong to the repo `repo_id`, in order.
pub open spec fn rules_of(rules: Seq<VersionExclusion>, repo_id: u64) -> Seq<VersionExclusion> {
    rules.filter(|r: VersionExclusion| r.repo_id == repo_id)
}

/// Whether a set for the repo `name` with `rules` can exclude nothing.
pub open spec fn spec_set_is_empty(name: Seq<char>, rules: Seq<VersionExclusion>) -> bool {
    rules.len() == 0 && !spec_publisher_alias(name, "0.0.0"@)
}

pub open spec fn distinct_ids(repos: Seq<Repo>) -> bool {
    forall|i: int, j: int| 0 <= i < j < repos.len() ==> repos[i].id != repos[j].id
}

impl VersionExclusion {
    /// Every repo's exclusions, keyed by repo id, for filtering a feed that
    /// spans repos in one pass: each repo's set holds its rules in the
    /// order given. Repos that can exclude nothing are absent.
    pub fn group_by_repo(repos: &Vec<Repo>, rules: &Vec<VersionExclusion>) -> (m: HashMap<u64, ExclusionSet>)
        requires
            distinct_ids(repos@),
        ensures
            forall|k: u64|
                m@.contains_key(k) <==> exists|i: int|
                    0 <= i < repos@.len() && (#[trigger] repos@[i]).id == k && !spec_set_is_empty(
                        repos@[i].name@,
                        rules_of(rules@, k),
                    ),
            forall|i: int|
                0 <= i < repos@.len() && m@.contains_key(#[trigger] repos@[i].id) ==> m@[repos@[i].id].name_view()
                    == repos@[i].name@ && m@[repos@[i].id].rules_view() == rules_of(rules@, repos@[i].id),
    {
        let mut m: HashMap<u64, ExclusionSet> = HashMap::new();
        let mut i: usize = 0;
        while i < repos.len()
            invariant
                i <= repos@.len(),
                distinct_ids(repos@),
                forall|k: u64|
                    m@.contains_key(k) <==> exists|j: int|
                        0 <= j < i && (#[trigger] repos@[j]).id == k && !spec_set_is_empty(
                            repos@[j].name@,
                            rules_of(rules@, k),
                        ),
                forall|j: int|
                    0 <= j < i && m@.contains_key(#[trigger] repos@[j].id) ==> m@[repos@[j].id].name_view()
                        == repos@[j].name@ && m@[repos@[j].id].rules_view() == rules_of(rules@, repos@[j].id),
            decreases repos.len() - i,
        {
            let repo = &repos[i];
            let ghost pred = |r: VersionExclusion| r.repo_id == repo.id;
            let mut mine: Vec<VersionExclusion> = Vec::new();
            let mut k: usize = 0;
            while k < rules.len()
                invariant
                    k <= rules@.len(),
                    pred == (|r: VersionExclusion| r.repo_id == repo.id),
                    mine@ == rules@.take(k as int).filter(pred),
                decreases rules.len() - k,
            {
                proof {
                    assert(rules@.take(k + 1) =~= rules@.take(k as int).push(rules@[k as int]));
                    rules@.take(k as int).lemma_filter_push(rules@[k as int], pred);
                }
                if rules[k].repo_id == repo.id {
                    mine.push(rules[k].duplicate());
                }
                k = k + 1;
            }
            assert(rules@.take(rules.len() as int) =~= rules@);
            let set = ExclusionSet::new(repo.name.as_str(), mine);
            if !set.is_empty() {
                m.insert(repo.id, set);
            }
            proof {
                assert forall|j: int|
                    0 <= j < i + 1 && m@.contains_key(#[trigger] repos@[j].id) implies m@[repos@[j].id].name_view()
                        == repos@[j].name@ && m@[repos@[j].id].rules_view() == rules_of(rules@, repos@[j].id) by {
                    if j < i {
                        assert(repos@[j].id != repos@[i as int].id);
                    }
                }
            }
            i = i + 1;
        }
        m
    }
}

} // verus!
