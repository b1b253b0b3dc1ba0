//! The string operations behind the string methods, on characters.

use vstd::prelude::*;
use vstd::std_specs::iter::IteratorSpec;
use crate::text::strings_view;

verus! {

/// The characters of `s`, in order.
pub fn chars_of(s: &str) -> (v: Vec<char>)
    ensures
        v@ == s@,
{
    broadcast use vstd::string::axiom_spec_iter, vstd::string::next_postcondition;
    let mut it = s.chars();
    let mut v: Vec<char> = Vec::new();
    loop
        invariant
            v@ + IteratorSpec::remaining(&it) == s@,
            IteratorSpec::decrease(&it) is Some,
        ensures
            v@ == s@,
        decreases IteratorSpec::decrease(&it)->0,
    {
        match it.next() {
            Some(c) => {
                v.push(c);
            },
            None => {
                assert(v@ =~= s@);
                break;
            },
        }
    }
    v
}


/// `pat` occurs in `s` at position `i`.
pub open spec fn occurs_at(s: Seq<char>, pat: Seq<char>, i: int) -> bool {
    0 <= i && i + pat.len() <= s.len() && s.subrange(i, i + pat.len()) == pat
}

/// The first position, from `k` on, at which `pat` occurs in `s`.
pub open spec fn find_from(s: Seq<char>, pat: Seq<char>, k: int) -> Option<int>
    decreases s.len() + 1 - k,
{
    if k < 0 || k + pat.len() > s.len() {
        None
    } else if occurs_at(s, pat, k) {
        Some(k)
    } else {
        find_from(s, pat, k + 1)
    }
}

/// What `find_from` gives: the least position from `k` on at which `pat`
/// occurs, or none when it occurs nowhere from `k` on.
pub proof fn lemma_find_from(s: Seq<char>, pat: Seq<char>, k: int)
    requires
        0 <= k,
    ensures
        find_from(s, pat, k) matches Some(i) ==> k <= i && occurs_at(s, pat, i)
            && forall|j: int| k <= j < i ==> !#[trigger] occurs_at(s, pat, j),
        find_from(s, pat, k) is None ==> forall|j: int| k <= j ==> !#[trigger] occurs_at(s, pat, j),
    decreases s.len() + 1 - k,
{
    if k + pat.len() > s.len() {
    } else if occurs_at(s, pat, k) {
    } else {
        lemma_find_from(s, pat, k + 1);
    }
}

/// Whether `pat` occurs in `s` at position `i`.
fn matches_at(s: &Vec<char>, pat: &Vec<char>, i: usize) -> (b: bool)
    ensures
        b == occurs_at(s@, pat@, i as int),
{
    if pat.len() > s.len() || i > s.len() - pat.len() {
        return false;
    }
    let limit = s.len();
    let mut j: usize = 0;
    while j < pat.len()
        invariant
            limit == s@.len(),
            i + pat@.len() <= s@.len(),
            j <= pat@.len(),
            forall|t: int| 0 <= t < j ==> s@[i + t] == pat@[t],
        decreases pat@.len() - j,
    {
        if s[i + j] != pat[j] {
            assert(s@.subrange(i as int, i + pat@.len())[j as int] != pat@[j as int]);
            return false;
        }
        j = j + 1;
    }
    assert(s@.subrange(i as int, i + pat@.len()) =~= pat@);
    true
}

/// The first position, from `k` on, at which `pat` occurs in `s`.
fn find_in(s: &Vec<char>, pat: &Vec<char>, k: usize) -> (r: Option<usize>)
    ensures
        match r {
            Some(i) => find_from(s@, pat@, k as int) == Some(i as int),
            None => find_from(s@, pat@, k as int) is None,
        },
{
    if pat.len() > s.len() {
        return None;
    }
    let last = s.len() - pat.len();
    if k > last {
        return None;
    }
    let mut i: usize = k;
    loop
        invariant
            last == s@.len() - pat@.len(),
            k <= i <= last,
            find_from(s@, pat@, k as int) == find_from(s@, pat@, i as int),
        decreases last - i,
    {
        if matches_at(s, pat, i) {
            return Some(i);
        }
        if i == last {
            assert(find_from(s@, pat@, i + 1) is None);
            return None;
        }
        i = i + 1;
    }
}


/// Appends `c` to `s`: `String::push`, which the standard library documents as
/// appending the given character to the end of the string.
#[verifier::external_body]
pub(crate) fn push_char(s: &mut String, c: char)
    ensures
        final(s)@ == old(s)@.push(c),
{
    s.push(c);
}

/// The characters of `v` from `a` up to `b`, as a string.
fn string_of_range(v: &Vec<char>, a: usize, b: usize) -> (r: String)
    requires
        a <= b <= v@.len(),
    ensures
        r@ == v@.subrange(a as int, b as int),
{
    let mut r = String::new();
    let mut i: usize = a;
    while i < b
        invariant
            a <= i <= b <= v@.len(),
            r@ == v@.subrange(a as int, i as int),
        decreases b - i,
    {
        push_char(&mut r, v[i]);
        assert(r@ =~= v@.subrange(a as int, i + 1));
        i = i + 1;
    }
    r
}

/// The pieces of `s` from position `k` on, between the occurrences of a
/// non-empty separator, the occurrences found from left to right without
/// overlapping.
pub open spec fn split_from(s: Seq<char>, sep: Seq<char>, k: int) -> Seq<Seq<char>>
    decreases s.len() + 1 - k,
{
    match find_from(s, sep, k) {
        Some(i) => if 0 <= k <= i && sep.len() > 0 && i + sep.len() <= s.len() {
            seq![s.subrange(k, i)] + split_from(s, sep, i + sep.len())
        } else {
            Seq::empty()
        },
        None => seq![s.subrange(k, s.len() as int)],
    }
}

/// The pieces that `str::split` gives for `s` and the separator `sep`: an
/// empty separator matches before and after every character, so the pieces
/// are an empty piece, each character, and an empty piece.
pub open spec fn split_pieces(s: Seq<char>, sep: Seq<char>) -> Seq<Seq<char>> {
    if sep.len() == 0 {
        seq![Seq::<char>::empty()] + s.map_values(|c: char| seq![c]) + seq![Seq::<char>::empty()]
    } else {
        split_from(s, sep, 0)
    }
}

/// One string per character of `s`.
pub fn char_strings(s: &str) -> (r: Vec<String>)
    ensures
        strings_view(r@) == s@.map_values(|c: char| seq![c]),
{
    let chars = chars_of(s);
    let mut r: Vec<String> = Vec::new();
    let mut i: usize = 0;
    while i < chars.len()
        invariant
            chars@ == s@,
            i <= chars@.len(),
            strings_view(r@) =~= s@.take(i as int).map_values(|c: char| seq![c]),
        decreases chars@.len() - i,
    {
        let piece = string_of_range(&chars, i, i + 1);
        assert(piece@ =~= seq![chars@[i as int]]);
        let ghost before = strings_view(r@);
        r.push(piece);
        assert(strings_view(r@) =~= before.push(piece@));
        assert(s@.take(i + 1).map_values(|c: char| seq![c]) =~= s@.take(i as int).map_values(|c: char| seq![c]).push(seq![s@[i as int]]));
        i = i + 1;
    }
    assert(s@.take(s@.len() as int) =~= s@);
    r
}

/// The pieces of `s` between the occurrences of `sep`, as `str::split` gives them.
pub fn split_str(s: &str, sep: &str) -> (r: Vec<String>)
    ensures
        strings_view(r@) == split_pieces(s@, sep@),
{
    let chars = chars_of(s);
    let pat = chars_of(sep);
    if pat.len() == 0 {
        let mut r: Vec<String> = Vec::new();
        r.push(String::new());
        let mut middle = char_strings(s);
        r.append(&mut middle);
        r.push(String::new());
        assert(strings_view(r@) =~= split_pieces(s@, sep@));
        return r;
    }
    let n = chars.len();
    let mut r: Vec<String> = Vec::new();
    let mut k: usize = 0;
    loop
        invariant_except_break
            strings_view(r@) + split_from(s@, sep@, k as int) == split_from(s@, sep@, 0),
        invariant
            chars@ == s@,
            pat@ == sep@,
            pat@.len() > 0,
            n == chars@.len(),
            k <= chars@.len(),
        ensures
            strings_view(r@) == split_from(s@, sep@, 0),
        decreases chars@.len() - k,
    {
        proof {
            lemma_find_from(s@, sep@, k as int);
        }
        match find_in(&chars, &pat, k) {
            Some(i) => {
                assert(occurs_at(chars@, pat@, i as int));
                let piece = string_of_range(&chars, k, i);
                let ghost before = strings_view(r@);
                r.push(piece);
                assert(strings_view(r@) =~= before.push(piece@));
                assert(split_from(s@, sep@, k as int) =~= seq![piece@] + split_from(s@, sep@, i + pat@.len()));
                assert(strings_view(r@) + split_from(s@, sep@, i + pat@.len()) =~= before + split_from(s@, sep@, k as int));
                k = i + pat.len();
            },
            None => {
                let piece = string_of_range(&chars, k, chars.len());
                let ghost before = strings_view(r@);
                r.push(piece);
                assert(strings_view(r@) =~= before.push(piece@));
                assert(strings_view(r@) =~= before + split_from(s@, sep@, k as int));
                break;
            },
        }
    }
    r
}


/// The pieces joined, with `sep` between each two of them.
pub open spec fn join_with(pieces: Seq<Seq<char>>, sep: Seq<char>) -> Seq<char>
    decreases pieces.len(),
{
    if pieces.len() == 0 {
        Seq::empty()
    } else if pieces.len() == 1 {
        pieces[0]
    } else {
        join_with(pieces.drop_last(), sep) + sep + pieces.last()
    }
}

/// The strings of `v` joined, with `sep` between each two of them.
pub fn join_strings(v: &Vec<String>, sep: &str) -> (r: String)
    ensures
        r@ == join_with(strings_view(v@), sep@),
{
    let mut r = String::new();
    let mut i: usize = 0;
    while i < v.len()
        invariant
            i <= v@.len(),
            r@ == join_with(strings_view(v@).take(i as int), sep@),
        decreases v@.len() - i,
    {
        let ghost before = strings_view(v@).take(i as int);
        assert(strings_view(v@).take(i + 1).drop_last() =~= before);
        if i > 0 {
            r.append(sep);
        }
        r.append(v[i].as_str());
        i = i + 1;
    }
    assert(strings_view(v@).take(v@.len() as int) =~= strings_view(v@));
    r
}

/// `s` with every occurrence of `from` replaced by `to`, as `str::replace`
/// gives it: the pieces between the occurrences, joined with `to`.
pub open spec fn replaced(s: Seq<char>, from: Seq<char>, to: Seq<char>) -> Seq<char> {
    join_with(split_pieces(s, from), to)
}

/// `s` with every occurrence of `from` replaced by `to`.
pub fn replace_str(s: &str, from: &str, to: &str) -> (r: String)
    ensures
        r@ == replaced(s@, from@, to@),
{
    let pieces = split_str(s, from);
    join_strings(&pieces, to)
}

/// `pat` occurs somewhere in `s`.
pub open spec fn contains_seq(s: Seq<char>, pat: Seq<char>) -> bool {
    exists|i: int| occurs_at(s, pat, i)
}

/// The byte offset in `s` of the first occurrence of `pat`, as `str::find`
/// gives it: the length of the UTF-8 encoding of what comes before it.
pub fn find_str(s: &str, pat: &str) -> (r: Option<usize>)
    ensures
        match find_from(s@, pat@, 0) {
            Some(i) => r == Some(vstd::utf8::encode_utf8(s@.subrange(0, i)).len() as usize),
            None => r is None,
        },
{
    let chars = chars_of(s);
    let p = chars_of(pat);
    proof {
        lemma_find_from(s@, pat@, 0);
    }
    match find_in(&chars, &p, 0) {
        Some(i) => {
            let before = s.substring_char(0, i);
            Some(before.len())
        },
        None => None,
    }
}

/// Whether `pat` occurs in `s`.
pub fn contains_str(s: &str, pat: &str) -> (b: bool)
    ensures
        b == contains_seq(s@, pat@),
{
    let chars = chars_of(s);
    let p = chars_of(pat);
    proof {
        lemma_contains_iff_found(s@, pat@);
    }
    find_in(&chars, &p, 0).is_some()
}

/// Whether `s` begins with `pat`.
pub fn starts_with_str(s: &str, pat: &str) -> (b: bool)
    ensures
        b == (pat@.len() <= s@.len() && s@.subrange(0, pat@.len() as int) == pat@),
{
    let chars = chars_of(s);
    let p = chars_of(pat);
    matches_at(&chars, &p, 0)
}

/// Whether `s` ends with `pat`.
pub fn ends_with_str(s: &str, pat: &str) -> (b: bool)
    ensures
        b == (pat@.len() <= s@.len() && s@.subrange(s@.len() - pat@.len(), s@.len() as int) == pat@),
{
    let chars = chars_of(s);
    let p = chars_of(pat);
    if p.len() > chars.len() {
        return false;
    }
    matches_at(&chars, &p, chars.len() - p.len())
}

/// The characters of `s` in reverse order.
pub fn reverse_str(s: &str) -> (r: String)
    ensures
        r@ == s@.reverse(),
{
    let chars = chars_of(s);
    let mut r = String::new();
    let mut i: usize = chars.len();
    while i > 0
        invariant
            chars@ == s@,
            i <= chars@.len(),
            r@ == s@.subrange(i as int, s@.len() as int).reverse(),
        decreases i,
    {
        i = i - 1;
        push_char(&mut r, chars[i]);
        assert(r@ =~= s@.subrange(i as int, s@.len() as int).reverse());
    }
    assert(s@.subrange(0, s@.len() as int) =~= s@);
    r
}

/// `s` written `n` times over.
pub open spec fn repeated(s: Seq<char>, n: nat) -> Seq<char>
    decreases n,
{
    if n == 0 {
        Seq::empty()
    } else {
        repeated(s, (n - 1) as nat) + s
    }
}

/// `s` written `n` times over.
pub fn repeat_str(s: &str, n: usize) -> (r: String)
    ensures
        r@ == repeated(s@, n as nat),
{
    let mut r = String::new();
    let mut i: usize = 0;
    while i < n
        invariant
            i <= n,
            r@ == repeated(s@, i as nat),
        decreases n - i,
    {
        r.append(s);
        i = i + 1;
    }
    r
}


proof fn lemma_join_prepend(a: Seq<char>, p: Seq<Seq<char>>, sep: Seq<char>)
    requires
        p.len() > 0,
    ensures
        join_with(seq![a] + p, sep) == a + sep + join_with(p, sep),
    decreases p.len(),
{
    let x = seq![a] + p;
    assert(x.len() >= 2);
    assert(x.last() == p.last());
    assert(join_with(x, sep) == join_with(x.drop_last(), sep) + sep + x.last());
    if p.len() == 1 {
        assert(x.drop_last() =~= seq![a]);
        assert(join_with(seq![a], sep) == a);
        assert(join_with(p, sep) == p[0]);
    } else {
        assert(x.drop_last() =~= seq![a] + p.drop_last());
        lemma_join_prepend(a, p.drop_last(), sep);
        assert(join_with(p, sep) == join_with(p.drop_last(), sep) + sep + p.last());
        assert(a + sep + join_with(p.drop_last(), sep) + sep + p.last() =~= a + sep + (join_with(p.drop_last(), sep) + sep + p.last()));
    }
}

proof fn lemma_join_split_from(s: Seq<char>, sep: Seq<char>, k: int)
    requires
        sep.len() > 0,
        0 <= k <= s.len(),
    ensures
        split_from(s, sep, k).len() > 0,
        join_with(split_from(s, sep, k), sep) == s.subrange(k, s.len() as int),
    decreases s.len() + 1 - k,
{
    lemma_find_from(s, sep, k);
    match find_from(s, sep, k) {
        Some(i) => {
            let rest = split_from(s, sep, i + sep.len());
            lemma_join_split_from(s, sep, i + sep.len());
            lemma_join_prepend(s.subrange(k, i), rest, sep);
            assert(s.subrange(i, i + sep.len()) == sep);
            assert(s.subrange(k, i) + sep + s.subrange(i + sep.len(), s.len() as int) =~= s.subrange(k, s.len() as int));
        },
        None => {},
    }
}

proof fn lemma_join_chars(s: Seq<char>, n: int)
    requires
        0 <= n <= s.len(),
    ensures
        join_with(seq![Seq::<char>::empty()] + s.take(n).map_values(|c: char| seq![c]), Seq::empty()) == s.take(n),
    decreases n,
{
    let x = seq![Seq::<char>::empty()] + s.take(n).map_values(|c: char| seq![c]);
    if n == 0 {
        assert(x =~= seq![Seq::<char>::empty()]);
        assert(s.take(0) =~= Seq::<char>::empty());
    } else {
        lemma_join_chars(s, n - 1);
        assert(x.drop_last() =~= seq![Seq::<char>::empty()] + s.take(n - 1).map_values(|c: char| seq![c]));
        assert(x.last() == seq![s[n - 1]]);
        assert(s.take(n - 1) + Seq::<char>::empty() + seq![s[n - 1]] =~= s.take(n));
    }
}

/// Joining the pieces that `split` gives with the separator they were split
/// on gives back the string, for every string and every separator.
pub proof fn lemma_split_join(s: Seq<char>, sep: Seq<char>)
    ensures
        join_with(split_pieces(s, sep), sep) == s,
{
    if sep.len() == 0 {
        let middle = s.map_values(|c: char| seq![c]);
        let x = seq![Seq::<char>::empty()] + middle + seq![Seq::<char>::empty()];
        lemma_join_chars(s, s.len() as int);
        assert(s.take(s.len() as int) =~= s);
        assert(x.drop_last() =~= seq![Seq::<char>::empty()] + s.take(s.len() as int).map_values(|c: char| seq![c]));
        assert(sep =~= Seq::<char>::empty());
        assert(join_with(x, sep) =~= s);
    } else {
        lemma_join_split_from(s, sep, 0);
        assert(s.subrange(0, s.len() as int) =~= s);
    }
}

/// Replacing a pattern by itself leaves every string as it was.
pub proof fn lemma_replace_by_itself(s: Seq<char>, pat: Seq<char>)
    ensures
        replaced(s, pat, pat) == s,
{
    lemma_split_join(s, pat);
}

/// `pat` occurs in `s` exactly when a search of `s` for it finds a position.
pub proof fn lemma_contains_iff_found(s: Seq<char>, pat: Seq<char>)
    ensures
        contains_seq(s, pat) <==> find_from(s, pat, 0) is Some,
{
    lemma_find_from(s, pat, 0);
    if find_from(s, pat, 0) is None {
        assert forall|i: int| !occurs_at(s, pat, i) by {
            if i >= 0 {
                assert(!occurs_at(s, pat, i));
            }
        }
    }
}

/// `a` comes before `b` in the order of strings, comparing from position `i`
/// on: at the first position where they differ the character of `a` has the
/// lower code point, or `a` ends first. (UTF-8 keeps the order of code points,
/// so this is the byte order that strings compare by.)
pub open spec fn lex_lt_from(a: Seq<char>, b: Seq<char>, i: int) -> bool
    decreases a.len() - i,
{
    if i < 0 {
        false
    } else if i >= a.len() {
        i < b.len()
    } else if i >= b.len() {
        false
    } else if a[i] != b[i] {
        (a[i] as u32) < (b[i] as u32)
    } else {
        lex_lt_from(a, b, i + 1)
    }
}

/// `a` comes before `b` in the order of strings.
pub open spec fn lex_lt(a: Seq<char>, b: Seq<char>) -> bool {
    lex_lt_from(a, b, 0)
}

/// The order of strings is transitive.
pub proof fn lemma_lex_lt_transitive(a: Seq<char>, b: Seq<char>, c: Seq<char>, i: int)
    requires
        0 <= i,
        lex_lt_from(a, b, i),
        lex_lt_from(b, c, i),
    ensures
        lex_lt_from(a, c, i),
    decreases a.len() - i,
{
    if i < a.len() && i < b.len() && i < c.len() && a[i] == b[i] && b[i] == c[i] {
        lemma_lex_lt_transitive(a, b, c, i + 1);
    }
}

/// The order of strings is irreflexive.
pub proof fn lemma_lex_lt_irreflexive(a: Seq<char>, i: int)
    requires
        0 <= i,
    ensures
        !lex_lt_from(a, a, i),
    decreases a.len() - i,
{
    if i < a.len() {
        lemma_lex_lt_irreflexive(a, i + 1);
    }
}

/// Whether `a` comes before `b` in the order of strings.
pub fn str_lt(a: &str, b: &str) -> (r: bool)
    ensures
        r == lex_lt(a@, b@),
{
    let x = chars_of(a);
    let y = chars_of(b);
    let mut i: usize = 0;
    loop
        invariant
            x@ == a@,
            y@ == b@,
            lex_lt(a@, b@) == lex_lt_from(a@, b@, i as int),
        decreases x@.len() - i,
    {
        if i >= x.len() {
            return i < y.len();
        }
        if i >= y.len() {
            return false;
        }
        if x[i] != y[i] {
            return (x[i] as u32) < (y[i] as u32);
        }
        i = i + 1;
    }
}

/// What `str::to_uppercase` gives for the characters `s`.
pub uninterp spec fn uppercase_of(s: Seq<char>) -> Seq<char>;

/// What `str::to_lowercase` gives for the characters `s`.
pub uninterp spec fn lowercase_of(s: Seq<char>) -> Seq<char>;

/// `str::to_uppercase`: the standard library maps each character by Unicode's
/// uppercase mapping, one character to one or more. The mapping is named here,
/// not stated: the result is `uppercase_of` of the characters of `s`, and
/// nothing more is claimed.
#[verifier::external_body]
pub(crate) fn to_uppercase(s: &str) -> (r: String)
    ensures
        r@ == uppercase_of(s@),
{
    s.to_uppercase()
}

/// `str::to_lowercase`: the standard library maps each character by Unicode's
/// lowercase mapping (a final capital sigma by its context). The mapping is
/// named here, not stated: the result is `lowercase_of` of the characters of
/// `s`, and nothing more is claimed.
#[verifier::external_body]
pub(crate) fn to_lowercase(s: &str) -> (r: String)
    ensures
        r@ == lowercase_of(s@),
{
    s.to_lowercase()
}

} // verus!
