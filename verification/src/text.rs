//! Text as sequences of characters: white space, splitting, and decimal
//! numbers.
use vstd::prelude::*;

verus! {

/// The characters with the Unicode property `White_Space`.
pub open spec fn white_space(c: char) -> bool {
    ||| '\u{9}' <= c <= '\u{d}'
    ||| c == '\u{20}'
    ||| c == '\u{85}'
    ||| c == '\u{a0}'
    ||| c == '\u{1680}'
    ||| '\u{2000}' <= c <= '\u{200a}'
    ||| c == '\u{2028}'
    ||| c == '\u{2029}'
    ||| c == '\u{202f}'
    ||| c == '\u{205f}'
    ||| c == '\u{3000}'
}

/// Whether `c` has the Unicode property `White_Space`.
pub fn is_white_space(c: char) -> (b: bool)
    ensures
        b == white_space(c),
{
    ('\u{9}' <= c && c <= '\u{d}') || c == '\u{20}' || c == '\u{85}' || c == '\u{a0}' || c
        == '\u{1680}' || ('\u{2000}' <= c && c <= '\u{200a}') || c == '\u{2028}' || c == '\u{2029}'
        || c == '\u{202f}' || c == '\u{205f}' || c == '\u{3000}'
}

/// `String::push` appends one character to the end of the string.
pub assume_specification[ String::push ](s: &mut String, c: char)
    ensures
        final(s)@ == old(s)@.push(c),
;

/// The characters of `s`, in order.
pub fn chars_of(s: &str) -> (out: Vec<char>)
    ensures
        out@ == s@,
{
    let mut out: Vec<char> = Vec::new();
    for c in it: s.chars()
        invariant
            it.seq() == s@,
            out@ == s@.take(it.index() as int),
    {
        out.push(c);
    }
    out
}

/// The string made of the characters `cs`.
pub fn string_of(cs: &[char]) -> (out: String)
    ensures
        out@ == cs@,
{
    let mut out = String::new();
    for i in 0..cs.len()
        invariant
            out@ == cs@.take(i as int),
    {
        out.push(cs[i]);
    }
    assert(cs@.take(cs@.len() as int) == cs@);
    out
}

/// Whether the two strings hold the same characters.
pub fn str_eq(a: &str, b: &str) -> (r: bool)
    ensures
        r == (a@ == b@),
{
    let x = a.as_bytes();
    let y = b.as_bytes();
    proof {
        vstd::utf8::encode_utf8_decode_utf8(a@);
        vstd::utf8::encode_utf8_decode_utf8(b@);
    }
    if x.len() != y.len() {
        return false;
    }
    for i in 0..x.len()
        invariant
            x@.len() == y@.len(),
            x@ == vstd::utf8::encode_utf8(a@),
            y@ == vstd::utf8::encode_utf8(b@),
            forall|j: int| 0 <= j < i ==> x@[j] == y@[j],
    {
        if x[i] != y[i] {
            return false;
        }
    }
    assert(x@ == y@);
    true
}

/// `c` with the ASCII capital letters turned into small ones.
pub open spec fn lower_char(c: char) -> char {
    if 'A' <= c <= 'Z' {
        (c as u32 + 32) as char
    } else {
        c
    }
}

/// `s` with the ASCII capital letters turned into small ones.
pub open spec fn lower(s: Seq<char>) -> Seq<char> {
    s.map_values(|c: char| lower_char(c))
}

/// Turns the ASCII capital letters of `s` into small ones.
pub fn lower_chars(s: &[char]) -> (out: String)
    ensures
        out@ == lower(s@),
{
    let mut out = String::new();
    for i in 0..s.len()
        invariant
            out@ == lower(s@.take(i as int)),
    {
        let c = s[i];
        if 'A' <= c && c <= 'Z' {
            out.push((c as u8 + 32) as char);
        } else {
            out.push(c);
        }
        assert(lower(s@.take(i + 1)) == lower(s@.take(i as int)).push(lower_char(c)));
    }
    assert(s@.take(s@.len() as int) == s@);
    out
}

/// Whether `pat` stands in `s` at index `i`.
pub open spec fn occurs_at<T>(s: Seq<T>, pat: Seq<T>, i: int) -> bool {
    &&& 0 <= i
    &&& i + pat.len() <= s.len()
    &&& s.subrange(i, i + pat.len()) == pat
}

/// The first index from `from` on at which `pat` stands in `s`.
pub open spec fn find_from<T>(s: Seq<T>, pat: Seq<T>, from: int) -> Option<int>
    decreases s.len() - from + 1,
{
    if from < 0 || from + pat.len() > s.len() {
        None
    } else if occurs_at(s, pat, from) {
        Some(from)
    } else {
        find_from(s, pat, from + 1)
    }
}

/// The first index at which `pat` stands in `s`.
pub open spec fn find<T>(s: Seq<T>, pat: Seq<T>) -> Option<int> {
    find_from(s, pat, 0)
}

/// `find_from` gives the least index at or after `from` at which the pattern
/// stands, and nothing only if there is none.
pub proof fn lemma_find_from<T>(s: Seq<T>, pat: Seq<T>, from: int)
    requires
        0 <= from,
    ensures
        match find_from(s, pat, from) {
            Some(i) => from <= i && occurs_at(s, pat, i) && forall|j: int|
                from <= j < i ==> !#[trigger] occurs_at(s, pat, j),
            None => forall|j: int| from <= j ==> !#[trigger] occurs_at(s, pat, j),
        },
    decreases s.len() - from + 1,
{
    if from + pat.len() <= s.len() && !occurs_at(s, pat, from) {
        lemma_find_from(s, pat, from + 1);
    }
}

/// An index at which the pattern stands, with none before it, is the one that
/// `find` gives.
pub proof fn lemma_find_is<T>(s: Seq<T>, pat: Seq<T>, i: int)
    requires
        occurs_at(s, pat, i),
        forall|j: int| 0 <= j < i ==> !#[trigger] occurs_at(s, pat, j),
    ensures
        find(s, pat) == Some(i),
{
    lemma_find_from(s, pat, 0);
}

/// What is found in a sequence is found at the same place when more follows.
pub proof fn lemma_find_in_longer<T>(s: Seq<T>, more: Seq<T>, pat: Seq<T>)
    requires
        find(s, pat) is Some,
    ensures
        find(s + more, pat) == find(s, pat),
{
    lemma_find_from(s, pat, 0);
    let i = find(s, pat)->0;
    assert((s + more).subrange(i, i + pat.len()) == s.subrange(i, i + pat.len()));
    assert forall|j: int| 0 <= j < i implies !#[trigger] occurs_at(s + more, pat, j) by {
        assert(!occurs_at(s, pat, j));
        assert((s + more).subrange(j, j + pat.len()) == s.subrange(j, j + pat.len()));
    }
    lemma_find_is(s + more, pat, i);
}

/// What is found in a sequence is found at the same place in a front part of
/// it that is long enough.
pub proof fn lemma_find_in_front<T>(s: Seq<T>, pat: Seq<T>, n: int)
    requires
        find(s, pat) is Some,
        find(s, pat)->0 + pat.len() <= n <= s.len(),
    ensures
        find(s.take(n), pat) == find(s, pat),
{
    lemma_find_from(s, pat, 0);
    let i = find(s, pat)->0;
    assert(s.take(n).subrange(i, i + pat.len()) == s.subrange(i, i + pat.len()));
    assert forall|j: int| 0 <= j < i implies !#[trigger] occurs_at(s.take(n), pat, j) by {
        assert(!occurs_at(s, pat, j));
        assert(s.take(n).subrange(j, j + pat.len()) == s.subrange(j, j + pat.len()));
    }
    lemma_find_is(s.take(n), pat, i);
}

/// The first index at which `pat` stands in `s`.
pub fn find_chars(s: &[char], pat: &[char]) -> (r: Option<usize>)
    requires
        pat@.len() > 0,
    ensures
        match r {
            Some(i) => find(s@, pat@) == Some(i as int) && i + pat@.len() <= s@.len(),
            None => find(s@, pat@) is None,
        },
{
    let n = s.len();
    let m = pat.len();
    let mut i: usize = 0;
    while i < n && m <= n - i
        invariant
            n == s@.len(),
            m == pat@.len(),
            m > 0,
            i <= n,
            find(s@, pat@) == find_from(s@, pat@, i as int),
        decreases n - i,
    {
        let mut k: usize = 0;
        while k < m && s[i + k] == pat[k]
            invariant
                n == s@.len(),
                m == pat@.len(),
                i + m <= n,
                k <= m,
                forall|j: int| 0 <= j < k ==> s@[i + j] == pat@[j],
            decreases m - k,
        {
            k += 1;
        }
        if k == m {
            assert(s@.subrange(i as int, i + m) == pat@);
            return Some(i);
        }
        proof {
            if occurs_at(s@, pat@, i as int) {
                assert(s@.subrange(i as int, i + m)[k as int] == pat@[k as int]);
            }
        }
        i += 1;
    }
    None
}

/// The pieces of `s` between the places at which `pat` stands.
pub open spec fn split_on(s: Seq<char>, pat: Seq<char>) -> Seq<Seq<char>>
    decreases s.len(),
{
    match find(s, pat) {
        Some(i) => if 0 <= i && 0 < pat.len() && i + pat.len() <= s.len() {
            seq![s.take(i)] + split_on(s.skip(i + pat.len()), pat)
        } else {
            seq![s]
        },
        None => seq![s],
    }
}

/// The contents of a list of slices.
pub open spec fn slices(v: Seq<&[char]>) -> Seq<Seq<char>> {
    v.map_values(|x: &[char]| x@)
}

/// Splits `s` at every place where `pat` stands.
pub fn split_chars<'a>(s: &'a [char], pat: &[char]) -> (out: Vec<&'a [char]>)
    requires
        pat@.len() > 0,
    ensures
        slices(out@) == split_on(s@, pat@),
        out@.len() > 0,
{
    let mut out: Vec<&'a [char]> = Vec::new();
    let mut rest = s;
    loop
        invariant_except_break
            split_on(s@, pat@) == slices(out@) + split_on(rest@, pat@),
        invariant
            pat@.len() > 0,
        ensures
            out@.len() > 0,
            split_on(s@, pat@) == slices(out@),
        decreases rest@.len(),
    {
        let ghost before = out@;
        let n = rest.len();
        match find_chars(rest, pat) {
            Some(i) => {
                let piece = vstd::slice::slice_subrange(rest, 0, i);
                let next = vstd::slice::slice_subrange(rest, i + pat.len(), n);
                out.push(piece);
                proof {
                    assert(slices(out@) == slices(before).push(piece@));
                    assert(piece@ == rest@.take(i as int));
                    assert(next@ == rest@.skip(i + pat@.len()));
                    assert(slices(before) + (seq![piece@] + split_on(next@, pat@)) == slices(out@)
                        + split_on(next@, pat@));
                }
                rest = next;
            },
            None => {
                out.push(rest);
                assert(slices(out@) == slices(before) + seq![rest@]);
                break;
            },
        }
    }
    out
}

/// `s` without the white space at its front.
pub open spec fn trim_start(s: Seq<char>) -> Seq<char>
    decreases s.len(),
{
    if s.len() > 0 && white_space(s[0]) {
        trim_start(s.drop_first())
    } else {
        s
    }
}

/// `s` without the white space at its end.
pub open spec fn trim_end(s: Seq<char>) -> Seq<char>
    decreases s.len(),
{
    if s.len() > 0 && white_space(s.last()) {
        trim_end(s.drop_last())
    } else {
        s
    }
}

/// `s` without the white space at its front and at its end.
pub open spec fn trim(s: Seq<char>) -> Seq<char> {
    trim_end(trim_start(s))
}

/// Drops the white space at the front of `s`.
pub fn trim_start_chars<'a>(s: &'a [char]) -> (r: &'a [char])
    ensures
        r@ == trim_start(s@),
{
    let n = s.len();
    let mut i: usize = 0;
    assert(s@.skip(0) == s@);
    while i < n && is_white_space(s[i])
        invariant
            n == s@.len(),
            i <= n,
            trim_start(s@) == trim_start(s@.skip(i as int)),
        decreases n - i,
    {
        assert(s@.skip(i as int).drop_first() == s@.skip(i + 1));
        i += 1;
    }
    let r = vstd::slice::slice_subrange(s, i, n);
    assert(r@ == s@.skip(i as int));
    r
}

/// Drops the white space at both ends of `s`.
pub fn trim_chars<'a>(s: &'a [char]) -> (r: &'a [char])
    ensures
        r@ == trim(s@),
{
    let t = trim_start_chars(s);
    let mut n = t.len();
    assert(t@.take(n as int) == t@);
    while n > 0 && is_white_space(t[n - 1])
        invariant
            n <= t@.len(),
            trim_end(t@) == trim_end(t@.take(n as int)),
        decreases n,
    {
        assert(t@.take(n as int).drop_last() == t@.take(n - 1));
        n -= 1;
    }
    let r = vstd::slice::slice_subrange(t, 0, n);
    assert(r@ == t@.take(n as int));
    r
}

/// Trims a string.
pub fn trim_str(s: &str) -> (r: String)
    ensures
        r@ == trim(s@),
{
    let cs = chars_of(s);
    string_of(trim_chars(cs.as_slice()))
}

/// The number of characters before the first white space of `s`.
pub open spec fn word_len(s: Seq<char>) -> nat
    decreases s.len(),
{
    if s.len() == 0 || white_space(s[0]) {
        0
    } else {
        1 + word_len(s.drop_first())
    }
}

pub proof fn lemma_word_len(s: Seq<char>)
    ensures
        word_len(s) <= s.len(),
        s.len() > 0 && !white_space(s[0]) ==> word_len(s) > 0,
    decreases s.len(),
{
    if s.len() > 0 && !white_space(s[0]) {
        lemma_word_len(s.drop_first());
    }
}

pub proof fn lemma_trim_start(s: Seq<char>)
    ensures
        trim_start(s).len() <= s.len(),
        trim_start(s).len() > 0 ==> !white_space(trim_start(s)[0]),
    decreases s.len(),
{
    if s.len() > 0 && white_space(s[0]) {
        lemma_trim_start(s.drop_first());
    }
}

/// The words of `s`: its longest runs of characters that are not white space.
pub open spec fn words(s: Seq<char>) -> Seq<Seq<char>>
    decreases s.len(),
{
    let t = trim_start(s);
    let n = word_len(t) as int;
    if 0 < n <= t.len() <= s.len() {
        seq![t.take(n)] + words(t.skip(n))
    } else {
        seq![]
    }
}

/// The first word of `s` and what follows it.
pub fn next_word<'a>(s: &'a [char]) -> (r: Option<(&'a [char], &'a [char])>)
    ensures
        match r {
            Some((w, rest)) => words(s@) == seq![w@] + words(rest@),
            None => words(s@).len() == 0,
        },
{
    let t = trim_start_chars(s);
    let n = t.len();
    let mut i: usize = 0;
    assert(t@.skip(0) == t@);
    while i < n && !is_white_space(t[i])
        invariant
            n == t@.len(),
            i <= n,
            word_len(t@) == i + word_len(t@.skip(i as int)),
        decreases n - i,
    {
        assert(t@.skip(i as int).drop_first() == t@.skip(i + 1));
        i += 1;
    }
    proof {
        lemma_trim_start(s@);
        lemma_word_len(t@);
    }
    if i == 0 {
        return None;
    }
    let w = vstd::slice::slice_subrange(t, 0, i);
    let rest = vstd::slice::slice_subrange(t, i, n);
    assert(w@ == t@.take(i as int));
    assert(rest@ == t@.skip(i as int));
    Some((w, rest))
}

/// What follows `prefix` in `s`, where `s` begins with it.
pub open spec fn strip_prefix(s: Seq<char>, prefix: Seq<char>) -> Option<Seq<char>> {
    if prefix.is_prefix_of(s) {
        Some(s.skip(prefix.len() as int))
    } else {
        None
    }
}

/// What precedes `suffix` in `s`, where `s` ends in it.
pub open spec fn strip_suffix(s: Seq<char>, suffix: Seq<char>) -> Option<Seq<char>> {
    if suffix.is_suffix_of(s) {
        Some(s.take(s.len() - suffix.len()))
    } else {
        None
    }
}

/// Whether `s` is the text `t`.
pub fn chars_eq(s: &[char], t: &str) -> (r: bool)
    ensures
        r == (s@ == t@),
{
    let other = chars_of(t);
    if s.len() != other.len() {
        return false;
    }
    for i in 0..s.len()
        invariant
            other@ == t@,
            s@.len() == t@.len(),
            forall|j: int| 0 <= j < i ==> s@[j] == t@[j],
    {
        if s[i] != other[i] {
            return false;
        }
    }
    assert(s@ =~= t@);
    true
}

/// Takes `prefix` off the front of `s`.
pub fn strip_prefix_chars<'a>(s: &'a [char], prefix: &str) -> (r: Option<&'a [char]>)
    ensures
        match r {
            Some(rest) => strip_prefix(s@, prefix@) == Some(rest@),
            None => strip_prefix(s@, prefix@) is None,
        },
{
    let p = chars_of(prefix);
    let n = s.len();
    let m = p.len();
    if n < m {
        return None;
    }
    let front = vstd::slice::slice_subrange(s, 0, m);
    if chars_eq(front, prefix) {
        let rest = vstd::slice::slice_subrange(s, m, n);
        assert(rest@ =~= s@.skip(m as int));
        Some(rest)
    } else {
        None
    }
}

/// Takes `suffix` off the end of `s`.
pub fn strip_suffix_chars<'a>(s: &'a [char], suffix: &str) -> (r: Option<&'a [char]>)
    ensures
        match r {
            Some(rest) => strip_suffix(s@, suffix@) == Some(rest@),
            None => strip_suffix(s@, suffix@) is None,
        },
{
    let p = chars_of(suffix);
    let n = s.len();
    let m = p.len();
    if n < m {
        return None;
    }
    let end = vstd::slice::slice_subrange(s, n - m, n);
    if chars_eq(end, suffix) {
        let rest = vstd::slice::slice_subrange(s, 0, n - m);
        assert(rest@ =~= s@.take(n - m));
        Some(rest)
    } else {
        None
    }
}

/// A run of characters that are not white space, in front of other text that
/// begins with white space or of none, is its first word.
pub proof fn lemma_words_of(w: Seq<char>, rest: Seq<char>)
    requires
        w.len() > 0,
        forall|i: int| 0 <= i < w.len() ==> !white_space(#[trigger] w[i]),
    ensures
        words(w + seq![' '] + rest) == seq![w] + words(rest),
        words(w) == seq![w],
{
    let s = w + seq![' '] + rest;
    lemma_word_len_is(s, w.len() as int);
    lemma_word_len_is(w, w.len() as int);
    assert(trim_start(s) == s);
    assert(s.take(w.len() as int) =~= w);
    assert(s.skip(w.len() as int) =~= seq![' '] + rest);
    assert((seq![' '] + rest).drop_first() =~= rest);
    assert(trim_start(seq![' '] + rest) == trim_start(rest));
    lemma_trim_start(rest);
    assert(words(seq![' '] + rest) == words(rest));
    assert(w.take(w.len() as int) =~= w);
    assert(w.skip(w.len() as int) =~= Seq::<char>::empty());
    assert(words(Seq::<char>::empty()) =~= Seq::<Seq<char>>::empty());
    assert(words(w) =~= seq![w]);
}

proof fn lemma_word_len_is(s: Seq<char>, n: int)
    requires
        0 <= n <= s.len(),
        forall|i: int| 0 <= i < n ==> !white_space(#[trigger] s[i]),
        n < s.len() ==> white_space(s[n]),
    ensures
        word_len(s) == n,
    decreases s.len(),
{
    if n > 0 {
        assert(!white_space(s[0]));
        let rest = s.drop_first();
        assert forall|i: int| 0 <= i < n - 1 implies !white_space(#[trigger] rest[i]) by {
            assert(rest[i] == s[i + 1]);
        }
        lemma_word_len_is(rest, n - 1);
    }
}

/// It makes no difference whether capital letters are turned into small ones
/// before or after white space is dropped.
pub proof fn lemma_lower_trim(s: Seq<char>)
    ensures
        trim(lower(s)) == lower(trim(s)),
{
    lemma_lower_trim_start(s);
    lemma_lower_trim_end(trim_start(s));
}

proof fn lemma_lower_trim_start(s: Seq<char>)
    ensures
        trim_start(lower(s)) == lower(trim_start(s)),
    decreases s.len(),
{
    if s.len() > 0 {
        assert(lower(s)[0] == lower_char(s[0]));
        assert(lower(s).drop_first() =~= lower(s.drop_first()));
        lemma_lower_trim_start(s.drop_first());
    }
}

proof fn lemma_lower_trim_end(s: Seq<char>)
    ensures
        trim_end(lower(s)) == lower(trim_end(s)),
    decreases s.len(),
{
    if s.len() > 0 {
        assert(lower(s).last() == lower_char(s.last()));
        assert(lower(s).drop_last() =~= lower(s.drop_last()));
        lemma_lower_trim_end(s.drop_last());
    }
}

/// Turning capital letters into small ones changes nothing but the letters `A`
/// to `Z`, each of which becomes the letter 32 places on.
pub proof fn law_lower_changes_capitals_only(s: Seq<char>, i: int)
    requires
        0 <= i < s.len(),
    ensures
        lower(s).len() == s.len(),
        'A' <= s[i] <= 'Z' ==> lower(s)[i] as int == s[i] as int + 32,
        !('A' <= s[i] <= 'Z') ==> lower(s)[i] == s[i],
{
}

/// What is found is the first place at which the pattern stands, and nothing is
/// found only where it stands nowhere.
pub proof fn law_found_place_is_the_first(s: Seq<char>, pat: Seq<char>, k: int)
    requires
        0 <= k,
        k + pat.len() <= s.len(),
        s.subrange(k, k + pat.len()) == pat,
    ensures
        find(s, pat) matches Some(i) && 0 <= i <= k && i + pat.len() <= s.len() && s.subrange(
            i,
            i + pat.len(),
        ) == pat,
{
    lemma_find_from(s, pat, 0);
    assert(occurs_at(s, pat, k));
}

/// What is found is a place at which the pattern stands.
pub proof fn law_pattern_stands_where_it_is_found(s: Seq<char>, pat: Seq<char>)
    ensures
        find(s, pat) matches Some(i) ==> 0 <= i && i + pat.len() <= s.len() && s.subrange(
            i,
            i + pat.len(),
        ) == pat,
{
    lemma_find_from(s, pat, 0);
}

/// The parts one after another, with `pat` between each two.
pub open spec fn joined(parts: Seq<Seq<char>>, pat: Seq<char>) -> Seq<char>
    decreases parts.len(),
{
    if parts.len() == 0 {
        seq![]
    } else if parts.len() == 1 {
        parts[0]
    } else {
        parts[0] + pat + joined(parts.drop_first(), pat)
    }
}

/// The parts into which text is split give the text back when they are joined,
/// and the pattern stands in none of them.
pub proof fn law_split_parts_join_back(s: Seq<char>, pat: Seq<char>)
    requires
        pat.len() > 0,
    ensures
        split_on(s, pat).len() > 0,
        joined(split_on(s, pat), pat) == s,
        forall|p: int, k: int|
            #![trigger split_on(s, pat)[p].subrange(k, k + pat.len())]
            0 <= p < split_on(s, pat).len() && 0 <= k && k + pat.len() <= split_on(s, pat)[p].len()
                ==> split_on(s, pat)[p].subrange(k, k + pat.len()) != pat,
    decreases s.len(),
{
    lemma_find_from(s, pat, 0);
    let parts = split_on(s, pat);
    match find(s, pat) {
        Some(i) => {
            let rest = s.skip(i + pat.len());
            law_split_parts_join_back(rest, pat);
            assert(parts.drop_first() =~= split_on(rest, pat));
            assert(s.take(i) + pat + rest =~= s);
            assert forall|p: int, k: int|
                #![trigger parts[p].subrange(k, k + pat.len())]
                0 <= p < parts.len() && 0 <= k && k + pat.len() <= parts[p].len() implies
                parts[p].subrange(k, k + pat.len()) != pat by {
                if p == 0 {
                    assert(!occurs_at(s, pat, k));
                    assert(s.take(i).subrange(k, k + pat.len()) =~= s.subrange(k, k + pat.len()));
                } else {
                    assert(parts[p] == split_on(rest, pat)[p - 1]);
                    assert(split_on(rest, pat)[p - 1].subrange(k, k + pat.len()) != pat);
                }
            }
        },
        None => {
            assert forall|p: int, k: int|
                #![trigger parts[p].subrange(k, k + pat.len())]
                0 <= p < parts.len() && 0 <= k && k + pat.len() <= parts[p].len() implies
                parts[p].subrange(k, k + pat.len()) != pat by {
                assert(!occurs_at(s, pat, k));
            }
        },
    }
}

/// Trimming takes off white space only, at both ends, and all of it.
pub proof fn law_trim_takes_white_space_off_both_ends(
    front: Seq<char>,
    s: Seq<char>,
    end: Seq<char>,
)
    requires
        forall|i: int| 0 <= i < front.len() ==> white_space(#[trigger] front[i]),
        forall|i: int| 0 <= i < end.len() ==> white_space(#[trigger] end[i]),
        s.len() > 0 ==> !white_space(s[0]) && !white_space(s.last()),
    ensures
        trim(front + s + end) == s,
{
    lemma_trim_front(front, s + end);
    assert(front + s + end =~= front + (s + end));
    if s.len() > 0 {
        assert((s + end)[0] == s[0]);
        assert(trim_start(s + end) == s + end);
        lemma_trim_back(s, end);
    } else {
        assert(s + end =~= end + Seq::<char>::empty());
        lemma_trim_front(end, Seq::empty());
    }
}

proof fn lemma_trim_front(front: Seq<char>, s: Seq<char>)
    requires
        forall|i: int| 0 <= i < front.len() ==> white_space(#[trigger] front[i]),
    ensures
        trim_start(front + s) == trim_start(s),
    decreases front.len(),
{
    if front.len() > 0 {
        let rest = front.drop_first();
        assert forall|i: int| 0 <= i < rest.len() implies white_space(#[trigger] rest[i]) by {
            assert(rest[i] == front[i + 1]);
        }
        lemma_trim_front(rest, s);
        assert(white_space(front[0]));
        assert((front + s).drop_first() =~= rest + s);
    } else {
        assert(front + s =~= s);
    }
}

proof fn lemma_trim_back(s: Seq<char>, end: Seq<char>)
    requires
        forall|i: int| 0 <= i < end.len() ==> white_space(#[trigger] end[i]),
    ensures
        trim_end(s + end) == trim_end(s),
    decreases end.len(),
{
    if end.len() > 0 {
        let rest = end.drop_last();
        assert forall|i: int| 0 <= i < rest.len() implies white_space(#[trigger] rest[i]) by {
            assert(rest[i] == end[i]);
        }
        lemma_trim_back(s, rest);
        assert(white_space(end[end.len() - 1]));
        assert((s + end).drop_last() =~= s + rest);
    } else {
        assert(s + end =~= s);
    }
}

/// White space separates words and is no part of them: with more of it in front
/// the words are the same, and a run of other characters that white space or
/// nothing follows is the first word.
pub proof fn law_white_space_separates_words(w: Seq<char>, c: char, rest: Seq<char>)
    requires
        white_space(c),
        w.len() > 0,
        forall|i: int| 0 <= i < w.len() ==> !white_space(#[trigger] w[i]),
    ensures
        words(Seq::empty()) == Seq::<Seq<char>>::empty(),
        words(seq![c] + rest) == words(rest),
        words(w) == seq![w],
        words(w + seq![c] + rest) == seq![w] + words(rest),
{
    let s = w + seq![c] + rest;
    lemma_words_of(w, rest);
    lemma_word_len_is(s, w.len() as int);
    assert(trim_start(s) == s);
    assert(s.take(w.len() as int) =~= w);
    assert(s.skip(w.len() as int) =~= seq![c] + rest);
    assert((seq![c] + rest).drop_first() =~= rest);
    assert(trim_start(seq![c] + rest) == trim_start(rest));
    lemma_trim_start(rest);
    assert(words(seq![c] + rest) == words(rest));
    assert(words(Seq::<char>::empty()) =~= Seq::<Seq<char>>::empty());
}

/// What is left of a text without its prefix is what the prefix has to be put in
/// front of to give the text, and likewise at the end.
pub proof fn law_stripped_text_is_restored(s: Seq<char>, fix: Seq<char>, r: Seq<char>)
    ensures
        strip_prefix(s, fix) == Some(r) <==> s == fix + r,
        strip_suffix(s, fix) == Some(r) <==> s == r + fix,
        strip_prefix(s, fix) is None ==> s != fix + r,
        strip_suffix(s, fix) is None ==> s != r + fix,
{
    if strip_prefix(s, fix) == Some(r) {
        assert(s =~= fix + r);
    }
    if s == fix + r {
        assert(fix.is_prefix_of(s));
        assert(s.skip(fix.len() as int) =~= r);
    }
    if strip_suffix(s, fix) == Some(r) {
        assert(s =~= r + fix);
    }
    if s == r + fix {
        assert(fix.is_suffix_of(s));
        assert(s.take(s.len() - fix.len()) =~= r);
    }
}

/// Text with a separator between two parts is split into the parts of the one and
/// then those of the other.
pub proof fn law_split_parts_come_in_turn(a: Seq<char>, c: char, b: Seq<char>)
    ensures
        split_on(a + seq![c] + b, seq![c]) == split_on(a, seq![c]) + split_on(b, seq![c]),
    decreases a.len(),
{
    let pat = seq![c];
    let s = a + pat + b;
    lemma_find_from(a, pat, 0);
    lemma_find_from(s, pat, 0);
    if find(a, pat) is Some {
        let i = find(a, pat)->0;
        lemma_find_in_longer(a, pat + b, pat);
        assert(a + (pat + b) =~= s);
        let rest = a.skip(i + 1);
        assert(s.skip(i + 1) =~= rest + pat + b);
        assert(s.take(i) =~= a.take(i));
        law_split_parts_come_in_turn(rest, c, b);
        assert(split_on(s, pat) =~= split_on(a, pat) + split_on(b, pat));
    } else {
        let n = a.len() as int;
        assert(s.subrange(n, n + 1) =~= pat);
        assert forall|j: int| 0 <= j < n implies !#[trigger] occurs_at(s, pat, j) by {
            assert(s.subrange(j, j + 1) =~= a.subrange(j, j + 1));
            assert(!occurs_at(a, pat, j));
        }
        lemma_find_is(s, pat, n);
        assert(s.take(n) =~= a);
        assert(s.skip(n + 1) =~= b);
        assert(split_on(s, pat) =~= split_on(a, pat) + split_on(b, pat));
    }
}

/// Slices hold what they hold, in their order.
pub proof fn law_slices_keep_their_order(v: Seq<&[char]>, i: int)
    requires
        0 <= i < v.len(),
    ensures
        slices(v).len() == v.len(),
        slices(v)[i] == v[i]@,
{
}

} // verus!
