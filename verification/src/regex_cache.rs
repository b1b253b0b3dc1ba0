//! Compiling regular expressions through a cache of earlier outcomes.
//!
//! Compilation and matching are done by the `regex` crate. Both successes and
//! failures are cached by pattern, so a pattern is compiled at most once; the
//! cache never changes the outcome that a pattern gets.

use vstd::prelude::*;
use crate::assoc::{assoc_get, has_key, keys_distinct, lemma_assoc_get_at, lemma_assoc_push};
use crate::error::RuntimeError;
use crate::text::str_eq;

verus! {

#[verifier::external_type_specification]
#[verifier::external_body]
pub struct ExRegex(regex::Regex);

/// What `regex::Regex::new` gives for `pattern`: `None` when the pattern
/// compiles, otherwise the text of the error that it reports.
pub uninterp spec fn regex_compile_error(pattern: Seq<char>) -> Option<Seq<char>>;

/// What `regex::Regex::is_match` answers for a regex compiled from `pattern`
/// and the haystack `text`.
pub uninterp spec fn regex_matches(pattern: Seq<char>, text: Seq<char>) -> bool;

/// A regex compiled from its source pattern.
pub struct CompiledRegex {
    source: String,
    re: regex::Regex,
}

impl View for CompiledRegex {
    type V = Seq<char>;

    /// A compiled regex is seen as the pattern it was compiled from.
    open spec fn view(&self) -> Seq<char> {
        self.source_view()
    }
}

impl CompiledRegex {
    /// The pattern this regex was compiled from.
    pub closed spec fn source_view(&self) -> Seq<char> {
        self.source@
    }
}

/// Compiles `pattern` with `regex::Regex::new`. The contract claims that the
/// outcome is the named result `regex_compile_error(pattern)`: success exactly
/// when it is `None`, and otherwise an error whose text (its `Display`) is the
/// named text. On success the regex keeps its source pattern.
#[verifier::external_body]
fn regex_new(pattern: &str) -> (r: Result<CompiledRegex, String>)
    ensures
        match r {
            Ok(c) => regex_compile_error(pattern@) is None && c@ == pattern@,
            Err(e) => regex_compile_error(pattern@) == Some(e@),
        },
{
    match regex::Regex::new(pattern) {
        Ok(re) => Ok(CompiledRegex { source: pattern.to_string(), re }),
        Err(err) => Err(err.to_string()),
    }
}

/// Tests `regex::Regex::is_match` on the compiled regex. The contract claims
/// the answer is the named relation `regex_matches` of the regex's source
/// pattern and `text`; this rests on every `CompiledRegex` holding the regex
/// compiled from its `source` (the fields are private, and values are only
/// made by `regex_new` and by cloning).
#[verifier::external_body]
fn regex_is_match(re: &CompiledRegex, text: &str) -> (b: bool)
    ensures
        b == regex_matches(re@, text@),
{
    re.re.is_match(text)
}

/// Clones a compiled regex with `regex::Regex::clone`; nothing is claimed of
/// the result, which is opaque.
#[verifier::external_body]
fn regex_clone(re: &regex::Regex) -> regex::Regex {
    re.clone()
}

impl Clone for CompiledRegex {
    fn clone(&self) -> (r: Self)
        ensures
            r@ == self@,
    {
        CompiledRegex { source: self.source.clone(), re: regex_clone(&self.re) }
    }
}

impl CompiledRegex {
    /// Test if `text` matches this regex.
    pub fn is_match(&self, text: &str) -> (b: bool)
        ensures
            b == regex_matches(self@, text@),
    {
        regex_is_match(self, text)
    }

    /// The pattern this regex was compiled from.
    pub fn as_str(&self) -> (s: &str)
        ensures
            s@ == self@,
    {
        self.source.as_str()
    }
}

/// The message of the error for a pattern that does not compile.
pub open spec fn invalid_pattern_message(pattern: Seq<char>, error: Seq<char>) -> Seq<char> {
    "Invalid regex pattern '"@ + pattern + "': "@ + error
}

/// `r` is the outcome of compiling `pattern`: the regex compiled from it, or the
/// regex error that names the pattern and the compiler's error text.
pub open spec fn is_compile_outcome(pattern: Seq<char>, r: Result<CompiledRegex, RuntimeError>) -> bool {
    match regex_compile_error(pattern) {
        None => r matches Ok(c) && c@ == pattern,
        Some(e) => r matches Err(RuntimeError::RegexError { message }) && message@ == invalid_pattern_message(pattern, e),
    }
}

/// A cached outcome, by characters: `None` for a regex compiled from the
/// pattern, or the error message.
pub open spec fn cached_view(o: Result<CompiledRegex, String>) -> Option<Seq<char>> {
    match o {
        Ok(c) => None,
        Err(m) => Some(m@),
    }
}

/// The outcome that the cache records for `pattern`.
pub open spec fn expected_cached(pattern: Seq<char>) -> Option<Seq<char>> {
    match regex_compile_error(pattern) {
        None => None,
        Some(e) => Some(invalid_pattern_message(pattern, e)),
    }
}

/// Cache of compiled regex patterns, both successes and failures.
pub struct RegexCache {
    entries: Vec<(String, Result<CompiledRegex, String>)>,
}

/// The cache entries by characters.
pub open spec fn cache_entries_view(v: Seq<(String, Result<CompiledRegex, String>)>) -> Seq<(Seq<char>, Option<Seq<char>>)> {
    v.map_values(|p: (String, Result<CompiledRegex, String>)| (p.0@, cached_view(p.1)))
}

/// The patterns whose outcome compiles.
pub open spec fn compiling_patterns(s: Set<Seq<char>>) -> Set<Seq<char>> {
    s.filter(|p: Seq<char>| regex_compile_error(p) is None)
}

impl RegexCache {
    closed spec fn entries_view(&self) -> Seq<(Seq<char>, Option<Seq<char>>)> {
        cache_entries_view(self.entries@)
    }

    /// The set of patterns whose outcome is cached.
    pub closed spec fn view(&self) -> Set<Seq<char>> {
        Set::new(|p: Seq<char>| has_key(self.entries_view(), p))
    }

    #[verifier::type_invariant]
    closed spec fn wf(&self) -> bool {
        &&& keys_distinct(self.entries_view())
        &&& forall|i: int| 0 <= i < self.entries@.len() ==> {
            let e = #[trigger] self.entries@[i];
            &&& cached_view(e.1) == expected_cached(e.0@)
            &&& (e.1 matches Ok(c) ==> c@ == e.0@)
        }
    }

    /// An empty cache.
    pub fn new() -> (r: Self)
        ensures
            r@ == Set::<Seq<char>>::empty(),
    {
        let r = RegexCache { entries: Vec::new() };
        assert(r@ =~= Set::<Seq<char>>::empty());
        r
    }
}

impl Default for RegexCache {
    fn default() -> (r: Self)
        ensures
            r@ == Set::<Seq<char>>::empty(),
    {
        RegexCache::new()
    }
}

fn invalid_pattern_error(pattern: &str, error: &str) -> (message: String)
    ensures
        message@ == invalid_pattern_message(pattern@, error@),
{
    let mut m = String::from_str("Invalid regex pattern '");
    m.append(pattern);
    m.append("': ");
    m.append(error);
    m
}

/// Compile a regex pattern, using the cache if the pattern was seen before.
pub fn compile_regex(cache: &mut RegexCache, pattern: &str) -> (r: Result<CompiledRegex, RuntimeError>)
    ensures
        is_compile_outcome(pattern@, r),
        final(cache)@ == old(cache)@.insert(pattern@),
{
    proof {
        use_type_invariant(&*cache);
    }
    let ghost ev = cache.entries_view();
    let mut i: usize = 0;
    while i < cache.entries.len()
        invariant
            i <= cache.entries@.len(),
            ev == cache.entries_view(),
            forall|j: int| 0 <= j < i ==> #[trigger] cache.entries@[j].0@ != pattern@,
        decreases cache.entries@.len() - i,
    {
        if str_eq(cache.entries[i].0.as_str(), pattern) {
            proof {
                use_type_invariant(&*cache);
            }
            let ghost e = cache.entries@[i as int];
            assert(cache.entries_view()[i as int].0 == pattern@);
            assert(cached_view(e.1) == expected_cached(pattern@));
            proof {
                assert(cache@ =~= old(cache)@.insert(pattern@));
            }
            return match &cache.entries[i].1 {
                Ok(regex) => Ok(regex.clone()),
                Err(message) => Err(RuntimeError::RegexError { message: message.clone() }),
            };
        }
        i = i + 1;
    }
    proof {
        if has_key(ev, pattern@) {
            let j = choose|j: int| 0 <= j < ev.len() && #[trigger] ev[j].0 == pattern@;
            assert(cache.entries@[j].0@ != pattern@);
        }
    }
    let outcome: Result<CompiledRegex, String> = match regex_new(pattern) {
        Ok(regex) => Ok(regex),
        Err(error) => Err(invalid_pattern_error(pattern, error.as_str())),
    };
    let result: Result<CompiledRegex, RuntimeError> = match &outcome {
        Ok(regex) => Ok(regex.clone()),
        Err(message) => Err(RuntimeError::RegexError { message: message.clone() }),
    };
    let mut entries: Vec<(String, Result<CompiledRegex, String>)> = Vec::new();
    std::mem::swap(&mut entries, &mut cache.entries);
    let key: String = pattern.to_owned();
    proof {
        lemma_assoc_push(ev, pattern@, cached_view(outcome));
        assert(cache_entries_view(entries@.push((key, outcome))) =~= ev.push((pattern@, cached_view(outcome))));
    }
    entries.push((key, outcome));
    cache.entries = entries;
    proof {
        assert forall|p: Seq<char>| #[trigger] has_key(cache.entries_view(), p) == (p == pattern@ || has_key(ev, p)) by {
            assert(assoc_get(cache.entries_view(), p) == if p == pattern@ {
                Some(cached_view(outcome))
            } else {
                assoc_get(ev, p)
            });
        }
        assert(cache@ =~= old(cache)@.insert(pattern@));
    }
    result
}

/// `r` answers whether `text` matches `pattern`, or is the error for a pattern
/// that does not compile.
pub open spec fn is_match_outcome(pattern: Seq<char>, text: Seq<char>, r: Result<bool, RuntimeError>) -> bool {
    match regex_compile_error(pattern) {
        None => r == Ok::<bool, RuntimeError>(regex_matches(pattern, text)),
        Some(e) => r matches Err(RuntimeError::RegexError { message }) && message@ == invalid_pattern_message(pattern, e),
    }
}

/// Test if `text` matches `pattern`, compiling it through the cache.
pub fn regex_match(cache: &mut RegexCache, text: &str, pattern: &str) -> (r: Result<bool, RuntimeError>)
    ensures
        is_match_outcome(pattern@, text@, r),
        final(cache)@ == old(cache)@.insert(pattern@),
{
    let regex = compile_regex(cache, pattern)?;
    Ok(regex.is_match(text))
}

/// Test if `text` matches a compiled regex.
pub fn regex_match_compiled(text: &str, regex: &CompiledRegex) -> (b: bool)
    ensures
        b == regex_matches(regex@, text@),
{
    regex.is_match(text)
}

/// Clear the regex cache.
pub fn clear_regex_cache(cache: &mut RegexCache)
    ensures
        final(cache)@ == Set::<Seq<char>>::empty(),
{
    cache.entries = Vec::new();
    assert(cache@ =~= Set::<Seq<char>>::empty());
}

/// Cache statistics: the number of cached patterns, and how many of them compile.
pub fn regex_cache_stats(cache: &RegexCache) -> (r: (usize, usize))
    ensures
        r.0 == cache@.len(),
        r.1 == compiling_patterns(cache@).len(),
        r.1 <= r.0,
{
    proof {
        use_type_invariant(cache);
    }
    let ghost ev = cache.entries_view();
    let ghost keys = ev.map_values(|p: (Seq<char>, Option<Seq<char>>)| p.0);
    let ghost mut oks: Seq<Seq<char>> = Seq::empty();
    let mut successful: usize = 0;
    let mut i: usize = 0;
    while i < cache.entries.len()
        invariant
            i <= cache.entries@.len(),
            ev == cache.entries_view(),
            keys_distinct(ev),
            forall|j: int| 0 <= j < cache.entries@.len() ==> {
                let e = #[trigger] cache.entries@[j];
                cached_view(e.1) == expected_cached(e.0@)
            },
            successful == oks.len(),
            successful <= i,
            oks.no_duplicates(),
            forall|p: Seq<char>| #[trigger] oks.contains(p) == (has_key(ev.take(i as int), p) && regex_compile_error(p) is None),
        decreases cache.entries@.len() - i,
    {
        let ghost p = ev[i as int].0;
        proof {
            assert forall|q: Seq<char>| #[trigger] has_key(ev.take(i + 1), q) == (has_key(ev.take(i as int), q) || ev[i as int].0 == q) by {
                if has_key(ev.take(i + 1), q) {
                    let j = choose|j: int| 0 <= j < ev.take(i + 1).len() && #[trigger] ev.take(i + 1)[j].0 == q;
                    if j < i {
                        assert(ev.take(i as int)[j] == ev[j]);
                    }
                }
                if has_key(ev.take(i as int), q) {
                    let j = choose|j: int| 0 <= j < ev.take(i as int).len() && #[trigger] ev.take(i as int)[j].0 == q;
                    assert(ev.take(i + 1)[j] == ev[j]);
                }
                if ev[i as int].0 == q {
                    assert(ev.take(i + 1)[i as int] == ev[i as int]);
                }
            }
            if has_key(ev.take(i as int), p) {
                let j = choose|j: int| 0 <= j < ev.take(i as int).len() && #[trigger] ev.take(i as int)[j].0 == p;
                assert(ev.take(i as int)[j] == ev[j]);
            }
            assert(!oks.contains(p));
            let e = cache.entries@[i as int];
            assert(cached_view(e.1) == expected_cached(e.0@));
        }
        let ghost old_oks = oks;
        if cache.entries[i].1.is_ok() {
            proof {
                let e = cache.entries@[i as int];
                assert(cached_view(e.1) is None);
                assert(regex_compile_error(p) is None);
                oks = old_oks.push(p);
                assert forall|a: int, b: int| 0 <= a < b < oks.len() implies oks[a] != oks[b] by {
                    if b == oks.len() - 1 {
                        assert(oks[a] == old_oks[a]);
                        assert(old_oks.contains(oks[a]));
                    } else {
                        assert(old_oks[a] == oks[a] && old_oks[b] == oks[b]);
                    }
                }
                assert forall|q: Seq<char>| #[trigger] oks.contains(q) == (old_oks.contains(q) || q == p) by {
                    if oks.contains(q) {
                        let j = choose|j: int| 0 <= j < oks.len() && oks[j] == q;
                        if j < oks.len() - 1 {
                            assert(old_oks[j] == q);
                        }
                    }
                    if old_oks.contains(q) {
                        let j = choose|j: int| 0 <= j < old_oks.len() && old_oks[j] == q;
                        assert(oks[j] == q);
                    }
                    if q == p {
                        assert(oks[oks.len() - 1] == p);
                    }
                }
            }
            successful = successful + 1;
        } else {
            proof {
                let e = cache.entries@[i as int];
                assert(cached_view(e.1) is Some);
                assert(regex_compile_error(p) is Some);
            }
        }
        i = i + 1;
    }
    proof {
        assert(ev.take(ev.len() as int) =~= ev);
        assert forall|a: int, b: int| 0 <= a < b < keys.len() implies keys[a] != keys[b] by {
            assert(keys[a] == ev[a].0 && keys[b] == ev[b].0);
        }
        assert forall|q: Seq<char>| #[trigger] keys.to_set().contains(q) == cache@.contains(q) by {
            if keys.to_set().contains(q) {
                let j = choose|j: int| 0 <= j < keys.len() && keys[j] == q;
                assert(ev[j].0 == q);
            }
            if cache@.contains(q) {
                let j = choose|j: int| 0 <= j < ev.len() && #[trigger] ev[j].0 == q;
                assert(keys[j] == q);
            }
        }
        assert(keys.to_set() =~= cache@);
        keys.unique_seq_to_set();
        assert(oks.to_set() =~= compiling_patterns(cache@));
        oks.unique_seq_to_set();
    }
    (cache.entries.len(), successful)
}

/// Cache transparency: compiling a pattern gives the same outcome whatever the
/// cache held before: the same source pattern on success, the same error
/// message on failure.
pub proof fn lemma_cache_transparent(
    pattern: Seq<char>,
    r1: Result<CompiledRegex, RuntimeError>,
    r2: Result<CompiledRegex, RuntimeError>,
)
    requires
        is_compile_outcome(pattern, r1),
        is_compile_outcome(pattern, r2),
    ensures
        r1 is Ok <==> r2 is Ok,
        r1 is Ok ==> r1->Ok_0@ == r2->Ok_0@,
        r1 is Err ==> (r1->Err_0 matches RuntimeError::RegexError { message: m1 }
            && r2->Err_0 matches RuntimeError::RegexError { message: m2 } && m1@ == m2@),
{
}

/// Matching through the cache agrees with matching the compiled regex: when
/// `pattern` compiles to `regex`, `regex_match(text, pattern)` answers what
/// `regex_match_compiled(text, regex)` answers.
pub proof fn lemma_match_agrees_with_compiled(
    pattern: Seq<char>,
    text: Seq<char>,
    regex: CompiledRegex,
    r: Result<bool, RuntimeError>,
)
    requires
        is_compile_outcome(pattern, Ok(regex)),
        is_match_outcome(pattern, text, r),
    ensures
        r == Ok::<bool, RuntimeError>(regex_matches(regex@, text)),
{
}

} // verus!
