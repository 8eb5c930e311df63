//! Match predicates over candidate addresses: a regular expression, a
//! prefix or suffix word (optionally case-folded), or a run of repeated
//! leading characters. A predicate is validated and compiled once, before
//! any worker starts, and is read-only afterwards.

use vstd::prelude::*;
use crate::text::{ends_with_chars, leading_run, leading_run_count, starts_with_chars};

verus! {

/// The case-folded form of a character sequence, as `str::to_lowercase`
/// computes it: a function of the characters alone.
pub uninterp spec fn fold_case(s: Seq<char>) -> Seq<char>;

/// Relies on `str::to_lowercase`: the folded text is a function of the
/// characters of `s` alone, the same on both sides of a comparison.
#[verifier::external_body]
fn to_lower(s: &str) -> (r: String)
    ensures
        r@ == fold_case(s@),
{
    s.to_lowercase()
}

/// What a compiled regular expression holds: its source pattern.
pub uninterp spec fn pattern_of(re: fancy_regex::Regex) -> Seq<char>;

/// Whether `fancy_regex` accepts `pat` as a well-formed pattern.
pub uninterp spec fn regex_compiles(pat: Seq<char>) -> bool;

/// The outcome of an unanchored search for `pat` anywhere in `text`:
/// `None` when the engine signals an internal error (such as exceeding its
/// backtrack limit), otherwise whether some match exists. The engine is
/// deterministic, so the outcome is a function of pattern and text alone.
pub uninterp spec fn regex_outcome(pat: Seq<char>, text: Seq<char>) -> Option<bool>;

#[verifier::external_type_specification]
#[verifier::external_body]
pub struct ExRegex(fancy_regex::Regex);

/// Relies on `fancy_regex::Regex::new`: compilation succeeds exactly on the
/// well-formed patterns, and the compiled value holds its source pattern.
#[verifier::external_body]
fn compile_regex(pat: &str) -> (r: Result<fancy_regex::Regex, String>)
    ensures
        r is Ok <==> regex_compiles(pat@),
        r matches Ok(re) ==> pattern_of(re) == pat@,
{
    match fancy_regex::Regex::new(pat) {
        Ok(re) => Ok(re),
        Err(e) => Err(format!("{}", e)),
    }
}

/// Relies on `Clone for fancy_regex::Regex`: a clone is a compiled form of
/// the same pattern.
#[verifier::external_body]
fn clone_regex(re: &fancy_regex::Regex) -> (r: fancy_regex::Regex)
    ensures
        pattern_of(r) == pattern_of(*re),
{
    re.clone()
}

/// Relies on `fancy_regex::Regex::find`: an unanchored search whose outcome
/// is a function of the pattern and the text; an engine fault is handed back
/// with its message instead of being folded into a non-match. Keying the
/// outcome on the pattern alone relies on every regex here being built with
/// default options: each comes from `Regex::new`, or from a clone of such a
/// value, never from a builder with its own limits.
#[verifier::external_body]
fn search_regex(re: &fancy_regex::Regex, text: &str) -> (r: Result<bool, String>)
    ensures
        r is Ok <==> regex_outcome(pattern_of(*re), text@) is Some,
        r matches Ok(b) ==> Some(b) == regex_outcome(pattern_of(*re), text@),
{
    match re.find(text) {
        Ok(m) => Ok(m.is_some()),
        Err(e) => Err(format!("{}", e)),
    }
}

/// The rule a run is configured with, as plain data, before compilation.
pub enum PredicateConfig {
    Regex { pattern: String },
    Prefix { word: String, ignore_case: bool },
    Suffix { word: String, ignore_case: bool },
    Repeating { min_count: usize },
}

impl PredicateConfig {
    /// A configuration is valid when its pattern, if any, compiles.
    pub open spec fn valid(&self) -> bool {
        self matches PredicateConfig::Regex { pattern } ==> regex_compiles(pattern@)
    }

    /// What a valid configuration accepts, before compilation.
    pub open spec fn accepts(&self, address: Seq<char>) -> bool {
        match *self {
            PredicateConfig::Regex { pattern } => regex_outcome(pattern@, address) == Some(true),
            PredicateConfig::Prefix { word, ignore_case } => if ignore_case {
                fold_case(word@).is_prefix_of(fold_case(address))
            } else {
                word@.is_prefix_of(address)
            },
            PredicateConfig::Suffix { word, ignore_case } => if ignore_case {
                fold_case(word@).is_suffix_of(fold_case(address))
            } else {
                word@.is_suffix_of(address)
            },
            PredicateConfig::Repeating { min_count } => address.len() > 0 && leading_run(address)
                >= min_count,
        }
    }
}

/// A validated, compiled match rule, shared read-only by the workers.
pub enum MatchPredicate {
    Regex { source: String, regex: fancy_regex::Regex },
    Prefix { word: String, ignore_case: bool },
    Suffix { word: String, ignore_case: bool },
    Repeating { min_count: usize },
}

impl MatchPredicate {
    /// A compiled pattern holds the source it was configured with.
    pub open spec fn wf(&self) -> bool {
        *self matches MatchPredicate::Regex { source, regex } ==> pattern_of(regex) == source@
    }

    /// The configuration this predicate is the compiled form of.
    pub open spec fn implements(&self, config: PredicateConfig) -> bool {
        match *self {
            MatchPredicate::Regex { source, regex } => config matches PredicateConfig::Regex {
                pattern,
            } && pattern@ == source@,
            MatchPredicate::Prefix { word, ignore_case } => config
                matches PredicateConfig::Prefix { word: w, ignore_case: i } && w@ == word@ && i
                == ignore_case,
            MatchPredicate::Suffix { word, ignore_case } => config
                matches PredicateConfig::Suffix { word: w, ignore_case: i } && w@ == word@ && i
                == ignore_case,
            MatchPredicate::Repeating { min_count } => config
                matches PredicateConfig::Repeating { min_count: m } && m == min_count,
        }
    }

    /// What the predicate accepts: the pure meaning of `matches`.
    pub open spec fn accepts(&self, address: Seq<char>) -> bool {
        match *self {
            MatchPredicate::Regex { source, regex } => regex_outcome(source@, address) == Some(
                true,
            ),
            MatchPredicate::Prefix { word, ignore_case } => if ignore_case {
                fold_case(word@).is_prefix_of(fold_case(address))
            } else {
                word@.is_prefix_of(address)
            },
            MatchPredicate::Suffix { word, ignore_case } => if ignore_case {
                fold_case(word@).is_suffix_of(fold_case(address))
            } else {
                word@.is_suffix_of(address)
            },
            MatchPredicate::Repeating { min_count } => address.len() > 0 && leading_run(address)
                >= min_count,
        }
    }

    /// An engine fault while evaluating, possible only for a regex rule.
    pub open spec fn eval_faults(&self, address: Seq<char>) -> bool {
        match *self {
            MatchPredicate::Regex { source, regex } => regex_outcome(source@, address) is None,
            _ => false,
        }
    }

    /// Validates the configuration and compiles its pattern, once, before
    /// any worker starts. Fails exactly on an invalid pattern, carrying the
    /// engine's message.
    pub fn build(config: PredicateConfig) -> (r: Result<MatchPredicate, String>)
        ensures
            r is Ok <==> config.valid(),
            r matches Ok(p) ==> p.wf() && p.implements(config),
    {
        match config {
            PredicateConfig::Regex { pattern } => {
                match compile_regex(pattern.as_str()) {
                    Ok(re) => Ok(MatchPredicate::Regex { source: pattern, regex: re }),
                    Err(e) => Err(e),
                }
            },
            PredicateConfig::Prefix { word, ignore_case } => Ok(
                MatchPredicate::Prefix { word, ignore_case },
            ),
            PredicateConfig::Suffix { word, ignore_case } => Ok(
                MatchPredicate::Suffix { word, ignore_case },
            ),
            PredicateConfig::Repeating { min_count } => Ok(
                MatchPredicate::Repeating { min_count },
            ),
        }
    }

    /// An equivalent predicate for another worker: the same rule with the
    /// same meaning on every address.
    pub fn duplicate(&self) -> (r: Self)
        requires
            self.wf(),
        ensures
            r.wf(),
            forall|a: Seq<char>| r.accepts(a) == self.accepts(a),
            forall|a: Seq<char>| r.eval_faults(a) == self.eval_faults(a),
    {
        match self {
            MatchPredicate::Regex { source, regex } => MatchPredicate::Regex {
                source: source.clone(),
                regex: clone_regex(regex),
            },
            MatchPredicate::Prefix { word, ignore_case } => MatchPredicate::Prefix {
                word: word.clone(),
                ignore_case: *ignore_case,
            },
            MatchPredicate::Suffix { word, ignore_case } => MatchPredicate::Suffix {
                word: word.clone(),
                ignore_case: *ignore_case,
            },
            MatchPredicate::Repeating { min_count } => MatchPredicate::Repeating {
                min_count: *min_count,
            },
        }
    }

    /// Evaluates the predicate against an address, surfacing an engine
    /// fault instead of treating it as a non-match.
    pub fn try_matches(&self, address: &str) -> (r: Result<bool, String>)
        requires
            self.wf(),
        ensures
            r is Ok <==> !self.eval_faults(address@),
            r matches Ok(b) ==> b == self.accepts(address@),
    {
        match self {
            MatchPredicate::Regex { source, regex } => search_regex(regex, address),
            MatchPredicate::Prefix { word, ignore_case } => {
                if *ignore_case {
                    let folded_address = to_lower(address);
                    let folded_word = to_lower(word.as_str());
                    Ok(starts_with_chars(folded_address.as_str(), folded_word.as_str()))
                } else {
                    Ok(starts_with_chars(address, word.as_str()))
                }
            },
            MatchPredicate::Suffix { word, ignore_case } => {
                if *ignore_case {
                    let folded_address = to_lower(address);
                    let folded_word = to_lower(word.as_str());
                    Ok(ends_with_chars(folded_address.as_str(), folded_word.as_str()))
                } else {
                    Ok(ends_with_chars(address, word.as_str()))
                }
            },
            MatchPredicate::Repeating { min_count } => {
                let run: usize = leading_run_count(address);
                Ok(!address.is_empty() && run >= *min_count)
            },
        }
    }

    /// Whether the address satisfies the predicate; an engine fault counts
    /// as a non-match here. A caller that must surface the fault instead —
    /// as the search worker does, failing the run — uses `try_matches`.
    pub fn matches(&self, address: &str) -> (r: bool)
        requires
            self.wf(),
        ensures
            r == self.accepts(address@),
    {
        match self.try_matches(address) {
            Ok(b) => b,
            Err(_) => false,
        }
    }
}

/// A case-sensitive prefix rule accepts exactly the addresses that start
/// with the configured word — a literal check, for every address and every
/// non-empty word.
pub proof fn lemma_prefix_is_literal_starts_with(word: String, address: Seq<char>)
    requires
        word@.len() > 0,
    ensures
        (MatchPredicate::Prefix { word, ignore_case: false }).accepts(address) == word@.is_prefix_of(
            address,
        ),
{
}

} // verus!
