//! Import-time automatic classification rules.
//!
//! A rule names a target category and a query; a query is a list of atoms
//! joined by ` OR `, each `field:matcher`.  A matcher is a case-insensitive
//! substring, or `/regex/flags` with the `i` flag for case-insensitive
//! matching.  Fields are `title`, `abstract`/`abstract_note`, `doi`,
//! `uri`/`url`, `type`/`item_type`, `venue`, `year` and `tags`/`tag`; other
//! fields are valid and match nothing.  A metadata record is filed under the
//! target of every rule whose query matches, each category once, in rule
//! order.

use vstd::prelude::*;
use crate::error::LocalrefError;
use crate::model::{opt_view, Metadata};
use crate::text::{
    chars_of, contains_chars, contains_seq, decimal, decimal_string, lower, lower_chars, owned,
    push_char, push_str, slice_range, split, split_chars, str_eq, string_of, trim, trim_chars,
};
use crate::types::{category_norm, category_ok, CategoryPath};

verus! {

// ---------------------------------------------------------------------------
// Regular expressions (the `regex` crate)
// ---------------------------------------------------------------------------

/// Whether `RegexBuilder::new(source).case_insensitive(ci).build()` succeeds.
pub uninterp spec fn regex_valid(source: Seq<char>, ci: bool) -> bool;

/// The message of the error that building the regex reports.
pub uninterp spec fn regex_error(source: Seq<char>, ci: bool) -> Seq<char>;

/// Whether the regex built from `source` matches somewhere in `text`.
pub uninterp spec fn regex_match(source: Seq<char>, ci: bool, text: Seq<char>) -> bool;

/// Build a regex (`regex::RegexBuilder`) to see whether the pattern is
/// accepted; on failure, the error's message.  Which patterns are accepted,
/// and the messages, are the crate's and are only named here.
#[verifier::external_body]
fn check_regex(source: &str, case_insensitive: bool) -> (r: Result<(), String>)
    ensures
        r is Ok <==> regex_valid(source@, case_insensitive),
        r matches Err(m) ==> m@ == regex_error(source@, case_insensitive),
{
    match regex::RegexBuilder::new(source).case_insensitive(case_insensitive).build() {
        Ok(_) => Ok(()),
        Err(error) => Err(error.to_string()),
    }
}

/// Build the regex and test it against `text` (`Regex::is_match`); `None`
/// when the pattern is not accepted.  Whether it matches is only named here.
#[verifier::external_body]
fn regex_is_match(source: &str, case_insensitive: bool, text: &str) -> (r: Option<bool>)
    ensures
        r is Some <==> regex_valid(source@, case_insensitive),
        r matches Some(b) ==> b == regex_match(source@, case_insensitive, text@),
{
    match regex::RegexBuilder::new(source).case_insensitive(case_insensitive).build() {
        Ok(regex) => Some(regex.is_match(text)),
        Err(_) => None,
    }
}

// ---------------------------------------------------------------------------
// Rules
// ---------------------------------------------------------------------------

/// One automatic classification rule.
#[derive(Clone, Debug, PartialEq, Eq)]
pub struct Rule {
    /// Human-readable rule name.
    pub name: String,
    /// Target category path relative to `Cat/`.
    pub target: String,
    /// Query expression matched against metadata.
    pub query: String,
}

/// Display-ready description of one parsed rule.
#[derive(Clone, Debug, PartialEq, Eq)]
pub struct RuleSummary {
    /// Human-readable rule name.
    pub name: String,
    /// Target category path relative to `Cat/`.
    pub target: String,
    /// Query expression matched against metadata.
    pub query: String,
}

/// A parsed set of import-time classification rules.
#[derive(Debug)]
pub struct RuleSet {
    rules: Vec<Rule>,
}

/// One atom of a query, parsed.
#[derive(Debug)]
pub enum Matcher {
    /// Case-insensitive substring: `needle` is already lower-cased.
    Substring { field: String, needle: String },
    /// Regular expression with its case-insensitivity flag.
    Regex { field: String, source: String, case_insensitive: bool },
}

/// How a query atom is refused.
#[derive(Debug, PartialEq, Eq)]
pub enum AtomFault {
    /// No `:` between field and pattern.
    NoColon,
    /// Blank field or blank pattern.
    Empty,
    /// `/` with nothing closing it.
    EmptyRegex,
    /// The regex does not build.
    BadRegex,
}

/// The atoms of a query: its ` OR `-separated pieces, trimmed, blank ones
/// dropped.
pub open spec fn or_atoms(q: Seq<char>) -> Seq<Seq<char>> {
    nonblank_pieces(split(q, " OR "@))
}

/// The trimmed pieces that are not empty.
pub open spec fn nonblank_pieces(ps: Seq<Seq<char>>) -> Seq<Seq<char>>
    decreases ps.len(),
{
    if ps.len() == 0 {
        Seq::empty()
    } else {
        let rest = nonblank_pieces(ps.drop_last());
        if trim(ps.last()).len() > 0 {
            rest.push(trim(ps.last()))
        } else {
            rest
        }
    }
}

/// Position of the first occurrence of `c` at or after `i` (`-1` when none).
pub open spec fn index_from(s: Seq<char>, c: char, i: int) -> int
    decreases s.len() - i,
{
    if i < 0 || i >= s.len() {
        -1
    } else if s[i] == c {
        i
    } else {
        index_from(s, c, i + 1)
    }
}

/// Position of the last occurrence of `c` before `j` (`-1` when none).
pub open spec fn last_index_before(s: Seq<char>, c: char, j: int) -> int
    decreases j,
{
    if j <= 0 || j > s.len() {
        -1
    } else if s[j - 1] == c {
        j - 1
    } else {
        last_index_before(s, c, j - 1)
    }
}

/// The field of an atom: the text before its first `:`, trimmed and
/// lower-cased.
pub open spec fn atom_field(a: Seq<char>) -> Seq<char> {
    lower(trim(a.take(index_from(a, ':', 0))))
}

/// The pattern of an atom: the text after its first `:`, trimmed.
pub open spec fn atom_pattern(a: Seq<char>) -> Seq<char> {
    trim(a.skip(index_from(a, ':', 0) + 1))
}

/// The closing `/` of a regex pattern.
pub open spec fn closing_slash(p: Seq<char>) -> int {
    last_index_before(p, '/', p.len() as int)
}

/// A pattern written as a regex.
pub open spec fn is_regex_pattern(p: Seq<char>) -> bool {
    p.len() > 0 && p[0] == '/'
}

/// The regex source of a regex pattern.
pub open spec fn regex_source(p: Seq<char>) -> Seq<char> {
    p.subrange(1, closing_slash(p))
}

/// Whether a regex pattern's flags ask for case-insensitive matching.
pub open spec fn regex_ci(p: Seq<char>) -> bool {
    p.skip(closing_slash(p) + 1).contains('i')
}

/// Why an atom is refused, if it is.
pub open spec fn atom_fault(a: Seq<char>) -> Option<AtomFault> {
    if index_from(a, ':', 0) < 0 {
        Some(AtomFault::NoColon)
    } else if atom_field(a).len() == 0 || atom_pattern(a).len() == 0 {
        Some(AtomFault::Empty)
    } else if is_regex_pattern(atom_pattern(a)) && closing_slash(atom_pattern(a)) == 0 {
        Some(AtomFault::EmptyRegex)
    } else if is_regex_pattern(atom_pattern(a)) && !regex_valid(
        regex_source(atom_pattern(a)),
        regex_ci(atom_pattern(a)),
    ) {
        Some(AtomFault::BadRegex)
    } else {
        None
    }
}

/// The error reported for a refused atom.
pub open spec fn atom_error(a: Seq<char>, e: LocalrefError) -> bool {
    match atom_fault(a) {
        Some(AtomFault::NoColon) => e matches LocalrefError::Unsupported(m) && m@
            == "rule query atoms must use field:pattern"@,
        Some(AtomFault::Empty) => e matches LocalrefError::Unsupported(m) && m@
            == "empty rule query atom"@,
        Some(AtomFault::EmptyRegex) => e matches LocalrefError::Unsupported(m) && m@
            == "empty regex rule"@,
        Some(AtomFault::BadRegex) => e matches LocalrefError::Rule(m) && m@ == regex_error(
            regex_source(atom_pattern(a)),
            regex_ci(atom_pattern(a)),
        ),
        None => false,
    }
}

/// A parsed matcher as plain values: whether it is a regex, its field, its
/// needle or regex source, and its case-insensitivity.
pub open spec fn matcher_view(m: Matcher) -> (bool, Seq<char>, Seq<char>, bool) {
    match m {
        Matcher::Substring { field, needle } => (false, field@, needle@, false),
        Matcher::Regex { field, source, case_insensitive } => (true, field@, source@, case_insensitive),
    }
}

/// The matcher of an accepted atom.
pub open spec fn atom_matcher(a: Seq<char>) -> (bool, Seq<char>, Seq<char>, bool) {
    let p = atom_pattern(a);
    if is_regex_pattern(p) {
        (true, atom_field(a), regex_source(p), regex_ci(p))
    } else {
        (false, atom_field(a), lower(p), false)
    }
}

/// Index of the first refused atom of a list (`-1` when all are accepted).
pub open spec fn first_fault(atoms: Seq<Seq<char>>, i: int) -> int
    decreases atoms.len() - i,
{
    if i < 0 || i >= atoms.len() {
        -1
    } else if atom_fault(atoms[i]) is Some {
        i
    } else {
        first_fault(atoms, i + 1)
    }
}

/// Text of a year (`i32::to_string`).
pub open spec fn year_text(y: i32) -> Seq<char> {
    if y < 0 {
        seq!['-'] + decimal((-y) as nat)
    } else {
        decimal(y as nat)
    }
}

/// The values of a metadata field that a matcher is tested against.
pub open spec fn field_values(m: Metadata, field: Seq<char>) -> Seq<Seq<char>> {
    let opt = |o: Option<String>| match o {
        Some(s) => seq![s@],
        None => Seq::<Seq<char>>::empty(),
    };
    if field == "title"@ {
        seq![m.title@]
    } else if field == "abstract"@ || field == "abstract_note"@ {
        opt(m.abstract_note)
    } else if field == "doi"@ {
        opt(m.doi)
    } else if field == "uri"@ || field == "url"@ {
        opt(m.uri)
    } else if field == "type"@ || field == "item_type"@ {
        seq![m.item_type@]
    } else if field == "venue"@ {
        opt(m.venue)
    } else if field == "year"@ {
        match m.year {
            Some(y) => seq![year_text(y)],
            None => Seq::empty(),
        }
    } else if field == "tags"@ || field == "tag"@ {
        m.tags.items@.map_values(|t: String| t@)
    } else {
        Seq::empty()
    }
}

/// Whether a matcher matches a value.
pub open spec fn value_hit(mv: (bool, Seq<char>, Seq<char>, bool), value: Seq<char>) -> bool {
    if mv.0 {
        regex_match(mv.2, mv.3, value)
    } else {
        contains_seq(lower(value), mv.2)
    }
}

/// Whether a matcher matches some value of its field.
pub open spec fn matcher_hits(mv: (bool, Seq<char>, Seq<char>, bool), m: Metadata) -> bool {
    exists|i: int|
        0 <= i < field_values(m, mv.1).len() && value_hit(mv, #[trigger] field_values(m, mv.1)[i])
}

/// Whether an accepted query matches: some atom's matcher matches.
pub open spec fn query_hits(q: Seq<char>, m: Metadata) -> bool {
    exists|i: int|
        0 <= i < or_atoms(q).len() && matcher_hits(atom_matcher(#[trigger] or_atoms(q)[i]), m)
}

/// Whether a query is accepted (no atom refused).
pub open spec fn query_ok(q: Seq<char>) -> bool {
    first_fault(or_atoms(q), 0) < 0
}

/// The error reported for a refused query: that of its first refused atom.
pub open spec fn query_error(q: Seq<char>, e: LocalrefError) -> bool {
    let i = first_fault(or_atoms(q), 0);
    0 <= i && atom_error(or_atoms(q)[i], e)
}

/// Split a query into its atoms.
pub fn split_or(query: &str) -> (r: Vec<String>)
    ensures
        r@.map_values(|a: String| a@) == or_atoms(query@),
{
    let q = chars_of(query);
    let sep = chars_of(" OR ");
    proof {
        reveal_strlit(" OR ");
    }
    let parts = split_chars(&q, &sep);
    let ghost ps = parts@.map_values(|p: Vec<char>| p@);
    let mut out: Vec<String> = Vec::new();
    let mut i: usize = 0;
    while i < parts.len()
        invariant
            i <= parts@.len(),
            ps == parts@.map_values(|p: Vec<char>| p@),
            out@.map_values(|a: String| a@) == nonblank_pieces(ps.take(i as int)),
        decreases parts.len() - i,
    {
        let t = trim_chars(&parts[i]);
        let ghost before = out@;
        proof {
            assert(ps.take(i + 1).drop_last() =~= ps.take(i as int));
            assert(ps.take(i + 1).last() == parts@[i as int]@);
        }
        if t.len() > 0 {
            out.push(string_of(&t));
            proof {
                assert(out@.map_values(|a: String| a@) =~= before.map_values(|a: String| a@).push(
                    t@,
                ));
            }
        }
        i = i + 1;
    }
    proof {
        assert(ps.take(parts@.len() as int) =~= ps);
    }
    out
}

/// Parse one atom into a matcher.
pub fn parse_atom(atom: &str) -> (r: Result<Matcher, LocalrefError>)
    ensures
        match r {
            Ok(m) => atom_fault(atom@) is None && matcher_view(m) == atom_matcher(atom@),
            Err(e) => atom_error(atom@, e),
        },
{
    let a = chars_of(atom);
    let mut c: usize = 0;
    while c < a.len() && a[c] != ':'
        invariant
            c <= a@.len(),
            index_from(a@, ':', 0) == index_from(a@, ':', c as int),
        decreases a.len() - c,
    {
        c = c + 1;
    }
    if c == a.len() {
        return Err(LocalrefError::Unsupported(owned("rule query atoms must use field:pattern")));
    }
    let field_part = slice_range(&a, 0, c);
    let field = lower_chars(&trim_chars(&field_part));
    let pattern = trim_chars(&slice_range(&a, c + 1, a.len()));
    proof {
        assert(field_part@ =~= a@.take(c as int));
        assert(a@.subrange(c + 1, a@.len() as int) =~= a@.skip(c + 1));
    }
    if field.len() == 0 || pattern.len() == 0 {
        return Err(LocalrefError::Unsupported(owned("empty rule query atom")));
    }
    if pattern[0] == '/' {
        let mut j: usize = pattern.len();
        while j > 0 && pattern[j - 1] != '/'
            invariant
                1 <= j <= pattern@.len(),
                pattern@[0] == '/',
                last_index_before(pattern@, '/', pattern@.len() as int) == last_index_before(
                    pattern@,
                    '/',
                    j as int,
                ),
            decreases j,
        {
            j = j - 1;
        }
        let last_slash = j - 1;
        if last_slash == 0 {
            return Err(LocalrefError::Unsupported(owned("empty regex rule")));
        }
        let source = string_of(&slice_range(&pattern, 1, last_slash));
        let flags = slice_range(&pattern, last_slash + 1, pattern.len());
        let mut ci = false;
        let mut k: usize = 0;
        while k < flags.len()
            invariant
                k <= flags@.len(),
                ci <==> flags@.take(k as int).contains('i'),
            decreases flags.len() - k,
        {
            proof {
                assert(flags@.take(k + 1) =~= flags@.take(k as int).push(flags@[k as int]));
                let next = flags@.take(k + 1);
                if next.contains('i') {
                    let j = choose|j: int| 0 <= j < next.len() && next[j] == 'i';
                    if j < k {
                        assert(flags@.take(k as int)[j] == 'i');
                    }
                }
                let prev = flags@.take(k as int);
                if prev.contains('i') {
                    let j = choose|j: int| 0 <= j < prev.len() && prev[j] == 'i';
                    assert(flags@.take(k + 1)[j] == 'i');
                }
                if flags@[k as int] == 'i' {
                    assert(flags@.take(k + 1)[k as int] == 'i');
                }
            }
            if flags[k] == 'i' {
                ci = true;
            }
            k = k + 1;
        }
        proof {
            assert(flags@.take(flags@.len() as int) =~= flags@);
            assert(flags@ =~= pattern@.skip(last_slash + 1));
        }
        match check_regex(source.as_str(), ci) {
            Ok(()) => {},
            Err(m) => {
                return Err(LocalrefError::Rule(m));
            },
        }
        Ok(Matcher::Regex { field: string_of(&field), source, case_insensitive: ci })
    } else {
        Ok(Matcher::Substring { field: string_of(&field), needle: string_of(&lower_chars(&pattern)) })
    }
}

/// Parse a query into its matchers.
pub fn parse_query(query: &str) -> (r: Result<Vec<Matcher>, LocalrefError>)
    ensures
        match r {
            Ok(ms) => query_ok(query@) && ms@.len() == or_atoms(query@).len() && forall|i: int|
                0 <= i < ms@.len() ==> matcher_view(#[trigger] ms@[i]) == atom_matcher(
                    or_atoms(query@)[i],
                ),
            Err(e) => !query_ok(query@) && query_error(query@, e),
        },
{
    let atoms = split_or(query);
    let ghost av = or_atoms(query@);
    let mut out: Vec<Matcher> = Vec::new();
    let mut i: usize = 0;
    while i < atoms.len()
        invariant
            i <= atoms@.len(),
            av == or_atoms(query@),
            atoms@.map_values(|a: String| a@) == av,
            out@.len() == i,
            forall|k: int| 0 <= k < i ==> matcher_view(#[trigger] out@[k]) == atom_matcher(av[k]),
            first_fault(av, 0) == first_fault(av, i as int),
        decreases atoms.len() - i,
    {
        proof {
            assert(av[i as int] == atoms@[i as int]@);
        }
        match parse_atom(atoms[i].as_str()) {
            Ok(m) => {
                out.push(m);
            },
            Err(e) => {
                return Err(e);
            },
        }
        i = i + 1;
    }
    Ok(out)
}

/// Text of a year.
pub fn year_string(y: i32) -> (r: String)
    ensures
        r@ == year_text(y),
{
    if y < 0 {
        let wide: i64 = y as i64;
        let magnitude: u64 = (0i64 - wide) as u64;
        let mut out = String::new();
        push_char(&mut out, '-');
        push_str(&mut out, decimal_string(magnitude).as_str());
        proof {
            assert(out@ =~= seq!['-'] + decimal((-y) as nat));
        }
        out
    } else {
        decimal_string(y as u64)
    }
}

/// The values of a metadata field that a matcher is tested against.
pub fn values_for_field(metadata: &Metadata, field: &str) -> (r: Vec<String>)
    ensures
        r@.map_values(|s: String| s@) == field_values(*metadata, field@),
{
    let mut out: Vec<String> = Vec::new();
    if str_eq(field, "title") {
        out.push(metadata.title.clone());
    } else if str_eq(field, "abstract") || str_eq(field, "abstract_note") {
        if let Some(s) = &metadata.abstract_note {
            out.push(s.clone());
        }
    } else if str_eq(field, "doi") {
        if let Some(s) = &metadata.doi {
            out.push(s.clone());
        }
    } else if str_eq(field, "uri") || str_eq(field, "url") {
        if let Some(s) = &metadata.uri {
            out.push(s.clone());
        }
    } else if str_eq(field, "type") || str_eq(field, "item_type") {
        out.push(metadata.item_type.clone());
    } else if str_eq(field, "venue") {
        if let Some(s) = &metadata.venue {
            out.push(s.clone());
        }
    } else if str_eq(field, "year") {
        if let Some(y) = metadata.year {
            out.push(year_string(y));
        }
    } else if str_eq(field, "tags") || str_eq(field, "tag") {
        let mut i: usize = 0;
        while i < metadata.tags.items.len()
            invariant
                i <= metadata.tags.items@.len(),
                out@.map_values(|s: String| s@) == metadata.tags.items@.take(i as int).map_values(
                    |t: String| t@,
                ),
            decreases metadata.tags.items.len() - i,
        {
            let ghost before = out@;
            out.push(metadata.tags.items[i].clone());
            proof {
                assert(out@.map_values(|s: String| s@) =~= before.map_values(|s: String| s@).push(
                    metadata.tags.items@[i as int]@,
                ));
                assert(metadata.tags.items@.take(i + 1) =~= metadata.tags.items@.take(i as int).push(
                    metadata.tags.items@[i as int],
                ));
                assert(out@.map_values(|s: String| s@) =~= metadata.tags.items@.take(
                    i + 1,
                ).map_values(|t: String| t@));
            }
            i = i + 1;
        }
        proof {
            assert(metadata.tags.items@.take(metadata.tags.items@.len() as int)
                =~= metadata.tags.items@);
        }
    }
    proof {
        assert(out@.map_values(|s: String| s@) =~= field_values(*metadata, field@));
    }
    out
}

impl Matcher {
    /// Whether this matcher matches some value of its field.
    pub fn matches(&self, metadata: &Metadata) -> (r: bool)
        requires
            matcher_view(*self).0 ==> regex_valid(matcher_view(*self).2, matcher_view(*self).3),
        ensures
            r == matcher_hits(matcher_view(*self), *metadata),
    {
        let (field, needle_or_source, is_regex, ci) = match self {
            Matcher::Substring { field, needle } => (field, needle, false, false),
            Matcher::Regex { field, source, case_insensitive } => (field, source, true, *case_insensitive),
        };
        let values = values_for_field(metadata, field.as_str());
        let ghost vals = field_values(*metadata, field@);
        let ghost mv = matcher_view(*self);
        let mut i: usize = 0;
        while i < values.len()
            invariant
                i <= values@.len(),
                values@.map_values(|s: String| s@) == vals,
                vals == field_values(*metadata, mv.1),
                mv == matcher_view(*self),
                mv.0 == is_regex,
                mv.2 == needle_or_source@,
                mv.3 == ci,
                is_regex ==> regex_valid(mv.2, mv.3),
                forall|k: int| 0 <= k < i ==> !value_hit(mv, #[trigger] vals[k]),
            decreases values.len() - i,
        {
            proof {
                assert(vals[i as int] == values@[i as int]@);
            }
            let hit = if is_regex {
                match regex_is_match(needle_or_source.as_str(), ci, values[i].as_str()) {
                    Some(b) => b,
                    None => false,
                }
            } else {
                let lowered = lower_chars(&chars_of(values[i].as_str()));
                contains_chars(&lowered, &chars_of(needle_or_source.as_str()))
            };
            if hit {
                return true;
            }
            i = i + 1;
        }
        false
    }
}

/// Whether the query matches the metadata; fails as the query's parse does.
pub fn query_matches(query: &str, metadata: &Metadata) -> (r: Result<bool, LocalrefError>)
    ensures
        match r {
            Ok(b) => query_ok(query@) && b == query_hits(query@, *metadata),
            Err(e) => !query_ok(query@) && query_error(query@, e),
        },
{
    let matchers = parse_query(query)?;
    let ghost atoms = or_atoms(query@);
    let mut i: usize = 0;
    while i < matchers.len()
        invariant
            i <= matchers@.len(),
            atoms == or_atoms(query@),
            query_ok(query@),
            matchers@.len() == atoms.len(),
            forall|k: int|
                0 <= k < matchers@.len() ==> matcher_view(#[trigger] matchers@[k]) == atom_matcher(
                    atoms[k],
                ),
            forall|k: int| 0 <= k < i ==> !matcher_hits(atom_matcher(#[trigger] atoms[k]), *metadata),
        decreases matchers.len() - i,
    {
        proof {
            lemma_accepted_atom(atoms, i as int);
        }
        if matchers[i].matches(metadata) {
            return Ok(true);
        }
        i = i + 1;
    }
    Ok(false)
}

proof fn lemma_first_fault_none(atoms: Seq<Seq<char>>, from: int, k: int)
    requires
        0 <= from <= k < atoms.len(),
        first_fault(atoms, from) < 0,
    ensures
        atom_fault(atoms[k]) is None,
    decreases k - from,
{
    if from < k {
        lemma_first_fault_none(atoms, from + 1, k);
    }
}

proof fn lemma_accepted_atom(atoms: Seq<Seq<char>>, k: int)
    requires
        0 <= k < atoms.len(),
        first_fault(atoms, 0) < 0,
    ensures
        atom_matcher(atoms[k]).0 ==> regex_valid(atom_matcher(atoms[k]).2, atom_matcher(atoms[k]).3),
{
    lemma_first_fault_none(atoms, 0, k);
}

/// The categories filed for the first `n` rules (assuming none of them
/// fails): each matching rule's target, normalised, once, in rule order.
pub open spec fn matched_targets(rules: Seq<Rule>, m: Metadata, n: int) -> Seq<Seq<char>>
    decreases n,
{
    if n <= 0 {
        Seq::empty()
    } else {
        let acc = matched_targets(rules, m, n - 1);
        let r = rules[n - 1];
        if query_hits(r.query@, m) && !acc.contains(category_norm(r.target@)) {
            acc.push(category_norm(r.target@))
        } else {
            acc
        }
    }
}

/// A rule fails on a record when its query is refused, or when it matches
/// and its target is not a valid category path.
pub open spec fn rule_fails(r: Rule, m: Metadata) -> bool {
    !query_ok(r.query@) || (query_hits(r.query@, m) && !category_ok(category_norm(r.target@)))
}

/// Index of the first rule that fails on a record (`-1` when none does).
pub open spec fn first_failing_rule(rules: Seq<Rule>, m: Metadata, i: int) -> int
    decreases rules.len() - i,
{
    if i < 0 || i >= rules.len() {
        -1
    } else if rule_fails(rules[i], m) {
        i
    } else {
        first_failing_rule(rules, m, i + 1)
    }
}

/// The error reported by a failing rule.
pub open spec fn rule_error(r: Rule, e: LocalrefError) -> bool {
    if !query_ok(r.query@) {
        query_error(r.query@, e)
    } else {
        e matches LocalrefError::InvalidPathComponent { component, reason } && component@
            == r.target@ && reason@ == "invalid category path"@
    }
}

/// A rule set is well formed when every target is a valid category path
/// and every query is accepted.
pub open spec fn rules_valid(rules: Seq<Rule>) -> bool {
    forall|i: int|
        0 <= i < rules.len() ==> category_ok(category_norm((#[trigger] rules[i]).target@))
            && query_ok(rules[i].query@)
}

/// Index of the first rule that is not valid (`-1` when all are).
pub open spec fn first_invalid_rule(rules: Seq<Rule>, i: int) -> int
    decreases rules.len() - i,
{
    if i < 0 || i >= rules.len() {
        -1
    } else if !category_ok(category_norm(rules[i].target@)) || !query_ok(rules[i].query@) {
        i
    } else {
        first_invalid_rule(rules, i + 1)
    }
}

/// The error reported for an invalid rule: its target first, then its query.
pub open spec fn invalid_rule_error(r: Rule, e: LocalrefError) -> bool {
    if !category_ok(category_norm(r.target@)) {
        e matches LocalrefError::InvalidPathComponent { component, reason } && component@
            == r.target@ && reason@ == "invalid category path"@
    } else {
        query_error(r.query@, e)
    }
}

impl RuleSet {
    /// The rules, in order.
    pub closed spec fn spec_rules(&self) -> Seq<Rule> {
        self.rules@
    }

    /// An empty rule set.
    pub fn new() -> (r: RuleSet)
        ensures
            r.spec_rules().len() == 0,
    {
        RuleSet { rules: Vec::new() }
    }

    /// A rule set from parsed rules, each checked in order: its target must
    /// be a valid category path and its query must parse.
    pub fn from_rules(rules: Vec<Rule>) -> (r: Result<RuleSet, LocalrefError>)
        ensures
            match r {
                Ok(set) => set.spec_rules() == rules@ && rules_valid(rules@),
                Err(e) => 0 <= first_invalid_rule(rules@, 0) && invalid_rule_error(
                    rules@[first_invalid_rule(rules@, 0)],
                    e,
                ),
            },
    {
        let mut i: usize = 0;
        while i < rules.len()
            invariant
                i <= rules@.len(),
                first_invalid_rule(rules@, 0) == first_invalid_rule(rules@, i as int),
                forall|k: int|
                    0 <= k < i ==> category_ok(category_norm((#[trigger] rules@[k]).target@))
                        && query_ok(rules@[k].query@),
            decreases rules.len() - i,
        {
            let rule = &rules[i];
            if CategoryPath::new(rule.target.as_str()).is_none() {
                return Err(
                    LocalrefError::InvalidPathComponent {
                        component: rule.target.clone(),
                        reason: owned("invalid category path"),
                    },
                );
            }
            parse_query(rule.query.as_str())?;
            i = i + 1;
        }
        Ok(RuleSet { rules })
    }

    /// Display-ready summaries of every rule.
    pub fn summaries(&self) -> (r: Vec<RuleSummary>)
        ensures
            r@.len() == self.spec_rules().len(),
            forall|i: int|
                0 <= i < r@.len() ==> (#[trigger] r@[i]).name == self.spec_rules()[i].name
                    && r@[i].target == self.spec_rules()[i].target && r@[i].query
                    == self.spec_rules()[i].query,
    {
        let mut out: Vec<RuleSummary> = Vec::new();
        let mut i: usize = 0;
        while i < self.rules.len()
            invariant
                i <= self.rules@.len(),
                out@.len() == i,
                forall|k: int|
                    0 <= k < i ==> (#[trigger] out@[k]).name == self.rules@[k].name
                        && out@[k].target == self.rules@[k].target && out@[k].query
                        == self.rules@[k].query,
            decreases self.rules.len() - i,
        {
            let rule = &self.rules[i];
            out.push(
                RuleSummary {
                    name: rule.name.clone(),
                    target: rule.target.clone(),
                    query: rule.query.clone(),
                },
            );
            i = i + 1;
        }
        out
    }

    /// The categories a metadata record is filed under: the targets of the
    /// matching rules, each once, in rule order.  Fails at the first rule
    /// whose query is refused or whose matching target is invalid.
    pub fn match_metadata(&self, metadata: &Metadata) -> (r: Result<Vec<CategoryPath>, LocalrefError>)
        ensures
            ({
                let rules = self.spec_rules();
                let f = first_failing_rule(rules, *metadata, 0);
                match r {
                    Ok(cats) => f < 0 && cats@.map_values(|c: CategoryPath| c@) == matched_targets(
                        rules,
                        *metadata,
                        rules.len() as int,
                    ),
                    Err(e) => 0 <= f && rule_error(rules[f], e),
                }
            }),
    {
        let mut out: Vec<CategoryPath> = Vec::new();
        let mut i: usize = 0;
        while i < self.rules.len()
            invariant
                i <= self.rules@.len(),
                first_failing_rule(self.rules@, *metadata, 0) == first_failing_rule(
                    self.rules@,
                    *metadata,
                    i as int,
                ),
                out@.map_values(|c: CategoryPath| c@) == matched_targets(
                    self.rules@,
                    *metadata,
                    i as int,
                ),
            decreases self.rules.len() - i,
        {
            let rule = &self.rules[i];
            let hit = query_matches(rule.query.as_str(), metadata)?;
            let ghost acc = out@.map_values(|c: CategoryPath| c@);
            if hit {
                let category = match CategoryPath::new(rule.target.as_str()) {
                    Some(c) => c,
                    None => {
                        return Err(
                            LocalrefError::InvalidPathComponent {
                                component: rule.target.clone(),
                                reason: owned("invalid category path"),
                            },
                        );
                    },
                };
                let mut seen = false;
                let mut k: usize = 0;
                while k < out.len()
                    invariant
                        k <= out@.len(),
                        acc == out@.map_values(|c: CategoryPath| c@),
                        seen <==> exists|j: int| 0 <= j < k && acc[j] == category@,
                    decreases out.len() - k,
                {
                    if str_eq(out[k].as_str(), category.as_str()) {
                        seen = true;
                    }
                    proof {
                        assert(acc[k as int] == out@[k as int]@);
                    }
                    k = k + 1;
                }
                proof {
                    if acc.contains(category@) {
                        let j = choose|j: int| 0 <= j < acc.len() && acc[j] == category@;
                        assert(0 <= j < k && acc[j] == category@);
                    }
                }
                if !seen {
                    out.push(category);
                    proof {
                        assert(out@.map_values(|c: CategoryPath| c@) =~= acc.push(
                            category_norm(rule.target@),
                        ));
                    }
                }
            }
            i = i + 1;
        }
        Ok(out)
    }
}

/// The field names a matcher can read differ from one another.
proof fn lemma_field_names_distinct()
    ensures
        "title"@ != "abstract"@ && "title"@ != "abstract_note"@ && "title"@ != "doi"@,
        "title"@ != "uri"@ && "title"@ != "url"@ && "title"@ != "type"@ && "title"@ != "item_type"@,
        "title"@ != "venue"@ && "title"@ != "year"@ && "title"@ != "tags"@ && "title"@ != "tag"@,
        "abstract"@ != "doi"@ && "abstract"@ != "uri"@ && "abstract"@ != "url"@,
        "abstract"@ != "type"@ && "abstract"@ != "item_type"@ && "abstract"@ != "venue"@,
        "abstract"@ != "year"@ && "abstract"@ != "tags"@ && "abstract"@ != "tag"@,
        "abstract_note"@ != "doi"@ && "abstract_note"@ != "uri"@ && "abstract_note"@ != "url"@,
        "abstract_note"@ != "type"@ && "abstract_note"@ != "item_type"@,
        "abstract_note"@ != "venue"@ && "abstract_note"@ != "year"@,
        "abstract_note"@ != "tags"@ && "abstract_note"@ != "tag"@,
        "doi"@ != "uri"@ && "doi"@ != "url"@ && "doi"@ != "type"@ && "doi"@ != "item_type"@,
        "doi"@ != "venue"@ && "doi"@ != "year"@ && "doi"@ != "tags"@ && "doi"@ != "tag"@,
        "uri"@ != "type"@ && "uri"@ != "item_type"@ && "uri"@ != "venue"@ && "uri"@ != "year"@,
        "uri"@ != "tags"@ && "uri"@ != "tag"@,
        "url"@ != "type"@ && "url"@ != "item_type"@ && "url"@ != "venue"@ && "url"@ != "year"@,
        "url"@ != "tags"@ && "url"@ != "tag"@,
        "type"@ != "venue"@ && "type"@ != "year"@ && "type"@ != "tags"@ && "type"@ != "tag"@,
        "item_type"@ != "venue"@ && "item_type"@ != "year"@ && "item_type"@ != "tags"@,
        "item_type"@ != "tag"@,
        "venue"@ != "year"@ && "venue"@ != "tags"@ && "venue"@ != "tag"@,
        "year"@ != "tags"@ && "year"@ != "tag"@,
{
    reveal_strlit("title");
    reveal_strlit("abstract");
    reveal_strlit("abstract_note");
    reveal_strlit("doi");
    reveal_strlit("uri");
    reveal_strlit("url");
    reveal_strlit("type");
    reveal_strlit("item_type");
    reveal_strlit("venue");
    reveal_strlit("year");
    reveal_strlit("tags");
    reveal_strlit("tag");
    assert("title"@.len() == 5 && "abstract"@.len() == 8 && "abstract_note"@.len() == 13);
    assert("doi"@.len() == 3 && "uri"@.len() == 3 && "url"@.len() == 3 && "tag"@.len() == 3);
    assert("type"@.len() == 4 && "year"@.len() == 4 && "tags"@.len() == 4);
    assert("item_type"@.len() == 9 && "venue"@.len() == 5);
    assert("doi"@[0] != "uri"@[0] && "doi"@[0] != "url"@[0] && "doi"@[0] != "tag"@[0]);
    assert("uri"@[2] != "url"@[2] && "uri"@[0] != "tag"@[0] && "url"@[0] != "tag"@[0]);
    assert("type"@[0] != "year"@[0] && "type"@[1] != "tags"@[1] && "year"@[0] != "tags"@[0]);
    assert("title"@[0] != "venue"@[0]);
}

/// The values a matcher on each field is tested against: the title; the
/// abstract (`abstract`, `abstract_note`), DOI (`doi`), URI (`uri`, `url`)
/// or venue (`venue`) when the record has one; the item type (`type`,
/// `item_type`); the year's decimal text when there is a year; every tag
/// (`tags`, `tag`); and nothing for any other field.
pub proof fn law_rule_field_values(m: Metadata, field: Seq<char>)
    ensures
        field_values(m, "title"@) == seq![m.title@],
        field_values(m, "abstract"@) == field_values(m, "abstract_note"@),
        m.abstract_note matches Some(a) ==> field_values(m, "abstract"@) == seq![a@],
        m.abstract_note is None ==> field_values(m, "abstract"@).len() == 0,
        m.doi matches Some(d) ==> field_values(m, "doi"@) == seq![d@],
        m.doi is None ==> field_values(m, "doi"@).len() == 0,
        field_values(m, "uri"@) == field_values(m, "url"@),
        m.uri matches Some(u) ==> field_values(m, "uri"@) == seq![u@],
        m.uri is None ==> field_values(m, "uri"@).len() == 0,
        field_values(m, "type"@) == seq![m.item_type@],
        field_values(m, "item_type"@) == seq![m.item_type@],
        m.venue matches Some(v) ==> field_values(m, "venue"@) == seq![v@],
        m.venue is None ==> field_values(m, "venue"@).len() == 0,
        m.year matches Some(y) ==> field_values(m, "year"@) == seq![year_text(y)],
        m.year is None ==> field_values(m, "year"@).len() == 0,
        field_values(m, "tags"@) == field_values(m, "tag"@),
        field_values(m, "tags"@).len() == m.tags.items@.len(),
        forall|i: int|
            0 <= i < m.tags.items@.len() ==> #[trigger] field_values(m, "tags"@)[i]
                == m.tags.items@[i]@,
        field != "title"@ && field != "abstract"@ && field != "abstract_note"@ && field != "doi"@
            && field != "uri"@ && field != "url"@ && field != "type"@ && field != "item_type"@
            && field != "venue"@ && field != "year"@ && field != "tags"@ && field != "tag"@
            ==> field_values(m, field).len() == 0,
{
    lemma_field_names_distinct();
}

/// A substring matcher on a field hits a record exactly when one of the
/// field's values, ASCII lower-cased, contains the (lower-cased) needle; so
/// a `doi:` rule hits whenever the record's DOI contains it.
pub proof fn law_substring_matcher_hits(m: Metadata, field: Seq<char>, needle: Seq<char>)
    ensures
        matcher_hits((false, field, needle, false), m) <==> exists|i: int|
            0 <= i < field_values(m, field).len() && contains_seq(
                lower(#[trigger] field_values(m, field)[i]),
                needle,
            ),
        m.doi matches Some(d) ==> (matcher_hits((false, "doi"@, needle, false), m) <==> contains_seq(
            lower(d@),
            needle,
        )),
{
    lemma_field_names_distinct();
    let mv = (false, field, needle, false);
    let vs = field_values(m, field);
    if matcher_hits(mv, m) {
        let i = choose|i: int| 0 <= i < vs.len() && value_hit(mv, #[trigger] vs[i]);
        assert(contains_seq(lower(vs[i]), needle));
    }
    if exists|i: int| 0 <= i < vs.len() && contains_seq(lower(#[trigger] vs[i]), needle) {
        let i = choose|i: int| 0 <= i < vs.len() && contains_seq(lower(#[trigger] vs[i]), needle);
        assert(value_hit(mv, field_values(m, mv.1)[i]));
    }
    if let Some(d) = m.doi {
        assert(field_values(m, "doi"@) == seq![d@]);
        if contains_seq(lower(d@), needle) {
            let dv = (false, "doi"@, needle, false);
            assert(value_hit(dv, field_values(m, dv.1)[0]));
        }
    }
}

/// The first `:` at or after `j` is at `k` when none comes between.
proof fn lemma_index_from_first(s: Seq<char>, j: int, k: int)
    requires
        0 <= j <= k < s.len(),
        s[k] == ':',
        forall|i: int| j <= i < k ==> s[i] != ':',
    ensures
        index_from(s, ':', j) == k,
    decreases k - j,
{
    if j < k {
        lemma_index_from_first(s, j + 1, k);
    }
}

/// An atom `field:pattern` (the field holding no `:`) is read as that
/// field, trimmed and lower-cased, and that pattern, trimmed: a pattern
/// that does not start with `/` gives a substring matcher whose needle is
/// the pattern lower-cased, one that does gives a regex matcher.
pub proof fn law_atom_reads_field_and_pattern(field: Seq<char>, pattern: Seq<char>)
    requires
        !field.contains(':'),
    ensures
        atom_field(field + seq![':'] + pattern) == lower(trim(field)),
        atom_pattern(field + seq![':'] + pattern) == trim(pattern),
        trim(pattern).len() > 0 && trim(pattern)[0] != '/' ==> atom_matcher(
            field + seq![':'] + pattern,
        ) == (false, lower(trim(field)), lower(trim(pattern)), false),
        trim(pattern).len() > 0 && trim(pattern)[0] == '/' ==> atom_matcher(
            field + seq![':'] + pattern,
        ).0,
{
    let a = field + seq![':'] + pattern;
    assert forall|i: int| 0 <= i < field.len() implies a[i] != ':' by {
        assert(a[i] == field[i]);
    }
    lemma_index_from_first(a, 0, field.len() as int);
    assert(a.take(field.len() as int) =~= field);
    assert(a.skip(field.len() as int + 1) =~= pattern);
}

} // verus!
