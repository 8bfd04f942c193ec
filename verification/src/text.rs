//! Text primitives over sequences of characters.
//!
//! Every function works on whole characters. The specification functions say
//! what each operation means on a `Seq<char>`; the executable functions are
//! proved to compute exactly that.

use vstd::prelude::*;
use vstd::string::*;

verus! {

broadcast use vstd::string::group_string_axioms;

/// `String::push`: appends one character at the end.
pub assume_specification[ String::push ](s: &mut String, c: char)
    ensures
        final(s)@ == old(s)@.push(c),
;

// ---------------------------------------------------------------------------
// White space and trimming
// ---------------------------------------------------------------------------

/// The Unicode `White_Space` characters.
pub open spec fn is_white(c: char) -> bool {
    let n = c as u32;
    ||| 0x09 <= n <= 0x0d
    ||| n == 0x20
    ||| n == 0x85
    ||| n == 0xa0
    ||| n == 0x1680
    ||| 0x2000 <= n <= 0x200a
    ||| n == 0x2028
    ||| n == 0x2029
    ||| n == 0x202f
    ||| n == 0x205f
    ||| n == 0x3000
}

/// Drops leading white space.
pub open spec fn trim_front(s: Seq<char>) -> Seq<char>
    decreases s.len(),
{
    if s.len() > 0 && is_white(s[0]) {
        trim_front(s.drop_first())
    } else {
        s
    }
}

/// Drops trailing white space.
pub open spec fn trim_back(s: Seq<char>) -> Seq<char>
    decreases s.len(),
{
    if s.len() > 0 && is_white(s.last()) {
        trim_back(s.drop_last())
    } else {
        s
    }
}

/// The text without leading and trailing white space.
pub open spec fn trimmed(s: Seq<char>) -> Seq<char> {
    trim_back(trim_front(s))
}

/// Whether a text holds nothing but white space.
pub open spec fn blank(s: Seq<char>) -> bool {
    trimmed(s).len() == 0
}

pub fn char_is_white(c: char) -> (r: bool)
    ensures
        r == is_white(c),
{
    let n: u32 = c as u32;
    (0x09 <= n && n <= 0x0d) || n == 0x20 || n == 0x85 || n == 0xa0 || n == 0x1680
        || (0x2000 <= n && n <= 0x200a) || n == 0x2028 || n == 0x2029 || n == 0x202f || n == 0x205f
        || n == 0x3000
}

/// All characters of a text.
pub fn chars_of(s: &str) -> (r: Vec<char>)
    ensures
        r@ == s@,
{
    let mut out: Vec<char> = Vec::new();
    for c in it: s.chars()
        invariant
            out@ == it.seq().take(it.index() as int),
            it.seq() == s@,
    {
        out.push(c);
    }
    out
}

/// Removes leading and trailing white space.
pub fn trim<'a>(s: &'a str) -> (r: &'a str)
    ensures
        r@ == trimmed(s@),
{
    let chars = chars_of(s);
    let n: usize = chars.len();
    let mut from: usize = 0;
    proof {
        assert(s@.subrange(0, n as int) =~= s@);
    }
    while from < n && char_is_white(chars[from])
        invariant
            from <= n,
            n == chars@.len(),
            chars@ == s@,
            trim_front(s@.subrange(from as int, n as int)) == trim_front(s@),
        decreases n - from,
    {
        proof {
            let t = s@.subrange(from as int, n as int);
            assert(t.drop_first() =~= s@.subrange(from + 1, n as int));
        }
        from = from + 1;
    }
    let ghost rest = s@.subrange(from as int, n as int);
    let mut to: usize = n;
    while from < to && char_is_white(chars[to - 1])
        invariant
            from <= to <= n,
            n == chars@.len(),
            chars@ == s@,
            rest == s@.subrange(from as int, n as int),
            trim_back(s@.subrange(from as int, to as int)) == trim_back(rest),
        decreases to,
    {
        proof {
            let t = s@.subrange(from as int, to as int);
            assert(t.drop_last() =~= s@.subrange(from as int, to - 1));
        }
        to = to - 1;
    }
    s.substring_char(from, to)
}

pub proof fn lemma_trim_front_facts(s: Seq<char>)
    ensures
        trim_front(s).len() <= s.len(),
        trim_front(s) == s.subrange(s.len() - trim_front(s).len(), s.len() as int),
        trim_front(s).len() > 0 ==> !is_white(trim_front(s)[0]),
    decreases s.len(),
{
    if s.len() > 0 && is_white(s[0]) {
        lemma_trim_front_facts(s.drop_first());
        assert(trim_front(s) =~= s.subrange(s.len() - trim_front(s).len(), s.len() as int));
    } else {
        assert(s =~= s.subrange(0, s.len() as int));
    }
}

pub proof fn lemma_trim_back_facts(s: Seq<char>)
    ensures
        trim_back(s).len() <= s.len(),
        trim_back(s) == s.subrange(0, trim_back(s).len() as int),
        trim_back(s).len() > 0 ==> !is_white(trim_back(s).last()),
    decreases s.len(),
{
    if s.len() > 0 && is_white(s.last()) {
        lemma_trim_back_facts(s.drop_last());
        assert(trim_back(s) =~= s.subrange(0, trim_back(s).len() as int));
    } else {
        assert(s =~= s.subrange(0, s.len() as int));
    }
}

/// Trimming twice is trimming once, and a non-empty trimmed text begins and
/// ends with a character that is not white space.
pub proof fn lemma_trimmed_idempotent(s: Seq<char>)
    ensures
        trimmed(trimmed(s)) == trimmed(s),
        trimmed(s).len() > 0 ==> !is_white(trimmed(s)[0]) && !is_white(trimmed(s).last()),
{
    let f = trim_front(s);
    lemma_trim_front_facts(s);
    lemma_trim_back_facts(f);
}

/// A character that is not white space stays, and so does all before it.
pub proof fn lemma_trim_back_keeps(s: Seq<char>, i: int)
    requires
        0 <= i < s.len(),
        !is_white(s[i]),
    ensures
        trim_back(s).len() > i,
    decreases s.len(),
{
    if is_white(s.last()) {
        lemma_trim_back_keeps(s.drop_last(), i);
    }
}

/// White space is dropped at the end of a text, whatever comes before it.
pub proof fn lemma_trim_back_of_sum(a: Seq<char>, b: Seq<char>)
    ensures
        trim_back(a + b) == (if trim_back(b).len() > 0 {
            a + trim_back(b)
        } else {
            trim_back(a)
        }),
    decreases b.len(),
{
    if b.len() == 0 {
        assert(a + b =~= a);
    } else {
        assert((a + b).last() == b.last());
        if is_white(b.last()) {
            assert((a + b).drop_last() =~= a + b.drop_last());
            lemma_trim_back_of_sum(a, b.drop_last());
        }
    }
}

/// White space is dropped at the beginning of a text, whatever comes behind it.
pub proof fn lemma_trim_front_of_sum(a: Seq<char>, b: Seq<char>)
    ensures
        trim_front(a + b) == (if trim_front(a).len() > 0 {
            trim_front(a) + b
        } else {
            trim_front(b)
        }),
    decreases a.len(),
{
    if a.len() == 0 {
        assert(a + b =~= b);
    } else {
        assert((a + b)[0] == a[0]);
        if is_white(a[0]) {
            assert((a + b).drop_first() =~= a.drop_first() + b);
            lemma_trim_front_of_sum(a.drop_first(), b);
        }
    }
}

/// Trimming a text that was trimmed at its end trims the text.
pub proof fn lemma_trimmed_after_trim_back(s: Seq<char>)
    ensures
        trimmed(trim_back(s)) == trimmed(s),
    decreases s.len(),
{
    if s.len() > 0 && is_white(s.last()) {
        let d = s.drop_last();
        let w = seq![s.last()];
        lemma_trimmed_after_trim_back(d);
        assert(s =~= d + w);
        lemma_trim_front_of_sum(d, w);
        if trim_front(d).len() > 0 {
            assert((trim_front(d) + w).last() == s.last());
            assert((trim_front(d) + w).drop_last() =~= trim_front(d));
        } else {
            assert(w[0] == s.last());
            assert(w.drop_first() =~= Seq::empty());
            reveal_with_fuel(trim_front, 2);
            reveal_with_fuel(trim_back, 2);
        }
    }
}


// ---------------------------------------------------------------------------
// Equality, prefixes, suffixes and occurrences
// ---------------------------------------------------------------------------

/// `str` equality: two texts are equal when they hold the same characters.
pub assume_specification[ <str as PartialEq>::eq ](a: &str, b: &str) -> (r: bool)
    ensures
        r == (a@ == b@),
;

/// Whether two texts hold the same characters.
pub fn same(a: &str, b: &str) -> (r: bool)
    ensures
        r == (a@ == b@),
{
    *a == *b
}

pub open spec fn has_prefix(s: Seq<char>, p: Seq<char>) -> bool {
    p.len() <= s.len() && s.subrange(0, p.len() as int) == p
}

pub open spec fn has_suffix(s: Seq<char>, p: Seq<char>) -> bool {
    p.len() <= s.len() && s.subrange(s.len() - p.len(), s.len() as int) == p
}

pub fn starts_with(s: &str, p: &str) -> (r: bool)
    ensures
        r == has_prefix(s@, p@),
{
    let n: usize = s.unicode_len();
    let m: usize = p.unicode_len();
    m <= n && same(s.substring_char(0, m), p)
}

pub fn ends_with(s: &str, p: &str) -> (r: bool)
    ensures
        r == has_suffix(s@, p@),
{
    let n: usize = s.unicode_len();
    let m: usize = p.unicode_len();
    m <= n && same(s.substring_char(n - m, n), p)
}

/// What is left of `s` behind the prefix `p`.
pub fn strip_prefix<'a>(s: &'a str, p: &str) -> (r: Option<&'a str>)
    ensures
        r is Some <==> has_prefix(s@, p@),
        r matches Some(t) ==> t@ == s@.skip(p@.len() as int),
{
    let n: usize = s.unicode_len();
    let m: usize = p.unicode_len();
    if m <= n && same(s.substring_char(0, m), p) {
        Some(s.substring_char(m, n))
    } else {
        None
    }
}

/// What is left of `s` before the suffix `p`.
pub fn strip_suffix<'a>(s: &'a str, p: &str) -> (r: Option<&'a str>)
    ensures
        r is Some <==> has_suffix(s@, p@),
        r matches Some(t) ==> t@ == s@.take(s@.len() - p@.len()),
{
    let n: usize = s.unicode_len();
    let m: usize = p.unicode_len();
    if m <= n && same(s.substring_char(n - m, n), p) {
        Some(s.substring_char(0, n - m))
    } else {
        None
    }
}

pub open spec fn occurs_at(s: Seq<char>, p: Seq<char>, i: int) -> bool {
    0 <= i && i + p.len() <= s.len() && s.subrange(i, i + p.len()) == p
}

/// The first position at or after `i` where `p` occurs in `s`.
pub open spec fn find_from(s: Seq<char>, p: Seq<char>, i: int) -> Option<int>
    decreases s.len() + 1 - i,
{
    if i < 0 || i + p.len() > s.len() {
        None
    } else if s.subrange(i, i + p.len()) == p {
        Some(i)
    } else {
        find_from(s, p, i + 1)
    }
}

/// The first position where `p` occurs in `s`.
pub open spec fn find_text(s: Seq<char>, p: Seq<char>) -> Option<int> {
    find_from(s, p, 0)
}

/// Whether `p` occurs in `s`.
pub open spec fn has_text(s: Seq<char>, p: Seq<char>) -> bool {
    exists|i: int| occurs_at(s, p, i)
}

pub proof fn lemma_find_from(s: Seq<char>, p: Seq<char>, i: int)
    requires
        0 <= i,
    ensures
        match find_from(s, p, i) {
            Some(k) => i <= k && occurs_at(s, p, k) && forall|j: int|
                i <= j < k ==> !occurs_at(s, p, j),
            None => forall|j: int| i <= j ==> !occurs_at(s, p, j),
        },
    decreases s.len() + 1 - i,
{
    if i + p.len() <= s.len() && s.subrange(i, i + p.len()) != p {
        lemma_find_from(s, p, i + 1);
    }
}

/// The first occurrence of `p` in `s`, as a number of characters.
pub fn find(s: &str, p: &str) -> (r: Option<usize>)
    ensures
        match r {
            Some(k) => find_text(s@, p@) == Some(k as int),
            None => find_text(s@, p@) is None,
        },
        r is Some <==> has_text(s@, p@),
        r matches Some(k) ==> k + p@.len() <= s@.len(),
{
    let sc = chars_of(s);
    let pc = chars_of(p);
    let n: usize = sc.len();
    let m: usize = pc.len();
    let mut i: usize = 0;
    proof {
        lemma_find_from(s@, p@, 0);
    }
    while i <= n && m <= n - i
        invariant
            sc@ == s@,
            pc@ == p@,
            n == sc@.len(),
            m == pc@.len(),
            i <= n + 1,
            find_from(s@, p@, i as int) == find_text(s@, p@),
            match find_text(s@, p@) {
                Some(k) => occurs_at(s@, p@, k),
                None => forall|j: int| 0 <= j ==> !occurs_at(s@, p@, j),
            },
        decreases n + 1 - i,
    {
        let mut k: usize = 0;
        while k < m && sc[i + k] == pc[k]
            invariant
                sc@ == s@,
                pc@ == p@,
                n == sc@.len(),
                m == pc@.len(),
                k <= m,
                i + m <= n,
                forall|j: int| 0 <= j < k ==> s@[i + j] == p@[j],
            decreases m - k,
        {
            k = k + 1;
        }
        if k == m {
            proof {
                assert(s@.subrange(i as int, i + m) =~= p@);
            }
            return Some(i);
        }
        proof {
            assert(s@.subrange(i as int, i + m)[k as int] == s@[i + k]);
        }
        if i == n {
            return None;
        }
        i = i + 1;
    }
    None
}

/// Whether `p` occurs in `s`.
pub fn contains(s: &str, p: &str) -> (r: bool)
    ensures
        r == has_text(s@, p@),
{
    find(s, p).is_some()
}

/// The parts of `s` before and behind the first occurrence of `p`.
pub open spec fn split_at_first(s: Seq<char>, p: Seq<char>) -> Option<(Seq<char>, Seq<char>)> {
    match find_text(s, p) {
        Some(k) => Some((s.take(k), s.skip(k + p.len()))),
        None => None,
    }
}

pub fn split_once<'a>(s: &'a str, p: &str) -> (r: Option<(&'a str, &'a str)>)
    ensures
        match r {
            Some((a, b)) => split_at_first(s@, p@) == Some((a@, b@)),
            None => split_at_first(s@, p@) is None,
        },
{
    match find(s, p) {
        Some(k) => {
            let n: usize = s.unicode_len();
            let m: usize = p.unicode_len();
            Some((s.substring_char(0, k), s.substring_char(k + m, n)))
        },
        None => None,
    }
}

// ---------------------------------------------------------------------------
// ASCII case
// ---------------------------------------------------------------------------

pub open spec fn lower_char(c: char) -> char {
    if 'A' <= c <= 'Z' {
        ((c as u32) + 32) as char
    } else {
        c
    }
}

/// The text with `A` to `Z` made lower case.
pub open spec fn lowered(s: Seq<char>) -> Seq<char> {
    s.map_values(|c: char| lower_char(c))
}

pub fn char_to_lower(c: char) -> (r: char)
    ensures
        r == lower_char(c),
{
    if 'A' <= c && c <= 'Z' {
        let b: u8 = c as u8;
        (b + 32) as char
    } else {
        c
    }
}

/// Makes `A` to `Z` lower case.
pub fn to_lower(s: &str) -> (r: String)
    ensures
        r@ == lowered(s@),
{
    let chars = chars_of(s);
    let mut out = String::new();
    let mut i: usize = 0;
    while i < chars.len()
        invariant
            i <= chars@.len(),
            chars@ == s@,
            out@ == lowered(s@.take(i as int)),
        decreases chars@.len() - i,
    {
        out.push(char_to_lower(chars[i]));
        i = i + 1;
        proof {
            assert(lowered(s@.take(i as int)) =~= lowered(s@.take(i - 1)).push(
                lower_char(s@[i - 1]),
            ));
        }
    }
    proof {
        assert(s@.take(i as int) =~= s@);
    }
    out
}

/// Whether two texts are equal up to the case of `A` to `Z`.
pub fn same_ignoring_case(a: &str, b: &str) -> (r: bool)
    ensures
        r == (lowered(a@) == lowered(b@)),
{
    let x = to_lower(a);
    let y = to_lower(b);
    same(x.as_str(), y.as_str())
}

// ---------------------------------------------------------------------------
// Building texts
// ---------------------------------------------------------------------------

/// The views of a list of texts.
pub open spec fn texts(v: Seq<String>) -> Seq<Seq<char>> {
    v.map_values(|s: String| s@)
}

/// The view of an optional text.
pub open spec fn opt(o: Option<String>) -> Option<Seq<char>> {
    match o {
        Some(s) => Some(s@),
        None => None,
    }
}

/// An owned copy of a text.
pub fn owned(s: &str) -> (r: String)
    ensures
        r@ == s@,
{
    s.to_owned()
}

pub fn concat2(a: &str, b: &str) -> (r: String)
    ensures
        r@ == a@ + b@,
{
    let mut out = owned(a);
    out.append(b);
    out
}

pub fn concat3(a: &str, b: &str, c: &str) -> (r: String)
    ensures
        r@ == a@ + b@ + c@,
{
    let mut out = owned(a);
    out.append(b);
    out.append(c);
    out
}

/// A copy of an optional text.
pub fn copy_opt(o: &Option<String>) -> (r: Option<String>)
    ensures
        r == *o,
{
    match o {
        Some(s) => Some(s.clone()),
        None => None,
    }
}

/// A copy of a list of texts.
pub fn copy_texts(v: &Vec<String>) -> (r: Vec<String>)
    ensures
        r@ == v@,
{
    let mut out: Vec<String> = Vec::new();
    let mut i: usize = 0;
    while i < v.len()
        invariant
            i <= v@.len(),
            out@ == v@.take(i as int),
        decreases v@.len() - i,
    {
        out.push(v[i].clone());
        i = i + 1;
    }
    out
}

/// Appends a copy of `s` to a list of texts.
pub fn push_text(v: &mut Vec<String>, s: &str)
    ensures
        texts(final(v)@) == texts(old(v)@).push(s@),
{
    v.push(owned(s));
    proof {
        assert(texts(v@) =~= texts(old(v)@).push(s@));
    }
}

/// The texts, one behind the other, with `sep` between neighbours.
pub open spec fn joined(parts: Seq<Seq<char>>, sep: Seq<char>) -> Seq<char>
    decreases parts.len(),
{
    if parts.len() == 0 {
        Seq::empty()
    } else if parts.len() == 1 {
        parts[0]
    } else {
        joined(parts.drop_last(), sep) + sep + parts.last()
    }
}

pub fn join(parts: &Vec<String>, sep: &str) -> (r: String)
    ensures
        r@ == joined(texts(parts@), sep@),
{
    let mut out = String::new();
    let mut i: usize = 0;
    while i < parts.len()
        invariant
            i <= parts@.len(),
            out@ == joined(texts(parts@.take(i as int)), sep@),
        decreases parts@.len() - i,
    {
        if i > 0 {
            out.append(sep);
        }
        out.append(parts[i].as_str());
        proof {
            let cur = texts(parts@.take(i + 1));
            assert(cur.drop_last() =~= texts(parts@.take(i as int)));
            assert(cur.last() == parts@[i as int]@);
            if i == 0 {
                assert(out@ =~= parts@[0]@);
            }
        }
        i = i + 1;
    }
    proof {
        assert(parts@.take(i as int) =~= parts@);
    }
    out
}

/// Whether a list of texts holds `s`.
pub fn list_contains(v: &Vec<String>, s: &str) -> (r: bool)
    ensures
        r == texts(v@).contains(s@),
{
    let mut i: usize = 0;
    while i < v.len()
        invariant
            i <= v@.len(),
            forall|j: int| 0 <= j < i ==> v@[j]@ != s@,
        decreases v@.len() - i,
    {
        if same(v[i].as_str(), s) {
            proof {
                assert(texts(v@)[i as int] == s@);
            }
            return true;
        }
        i = i + 1;
    }
    proof {
        assert forall|j: int| 0 <= j < texts(v@).len() implies texts(v@)[j] != s@ by {
            assert(texts(v@)[j] == v@[j]@);
        }
    }
    false
}

// ---------------------------------------------------------------------------
// Words, pieces and lines
// ---------------------------------------------------------------------------

/// The length of the longest prefix without white space.
pub open spec fn word_len(s: Seq<char>) -> nat
    decreases s.len(),
{
    if s.len() == 0 || is_white(s[0]) {
        0
    } else {
        1 + word_len(s.drop_first())
    }
}

/// The maximal runs of characters that are not white space.
pub open spec fn words(s: Seq<char>) -> Seq<Seq<char>>
    decreases s.len(),
{
    if s.len() == 0 {
        Seq::empty()
    } else if is_white(s[0]) {
        words(s.drop_first())
    } else {
        let n = word_len(s);
        if 0 < n <= s.len() {
            seq![s.take(n as int)] + words(s.skip(n as int))
        } else {
            Seq::empty()
        }
    }
}

pub proof fn lemma_word_len(s: Seq<char>)
    ensures
        word_len(s) <= s.len(),
        forall|i: int| 0 <= i < word_len(s) ==> !is_white(#[trigger] s[i]),
        word_len(s) < s.len() ==> is_white(s[word_len(s) as int]),
    decreases s.len(),
{
    if s.len() > 0 && !is_white(s[0]) {
        let t = s.drop_first();
        lemma_word_len(t);
        assert forall|i: int| 0 <= i < word_len(s) implies !is_white(#[trigger] s[i]) by {
            if i > 0 {
                assert(s[i] == t[i - 1]);
            }
        }
    }
}

/// Whether a text is a line of words with one blank between any two of them.
pub open spec fn tidy(s: Seq<char>) -> bool {
    &&& s.len() > 0 ==> !is_white(s[0])
    &&& forall|i: int|
        0 <= i < s.len() && is_white(#[trigger] s[i]) ==> s[i] == ' ' && i + 1 < s.len()
            && !is_white(s[i + 1])
}

/// Whether a text holds something and no white space.
pub open spec fn is_word(w: Seq<char>) -> bool {
    w.len() > 0 && forall|i: int| 0 <= i < w.len() ==> !is_white(#[trigger] w[i])
}

proof fn lemma_words_are_words(s: Seq<char>)
    ensures
        forall|k: int| 0 <= k < words(s).len() ==> is_word(#[trigger] words(s)[k]),
    decreases s.len(),
{
    if s.len() > 0 {
        if is_white(s[0]) {
            lemma_words_are_words(s.drop_first());
            assert(words(s) == words(s.drop_first()));
        } else {
            lemma_word_len(s);
            reveal_with_fuel(word_len, 2);
            let n = word_len(s) as int;
            let rest = words(s.skip(n));
            lemma_words_are_words(s.skip(n));
            assert(words(s) == seq![s.take(n)] + rest);
            assert(is_word(s.take(n)));
            assert forall|k: int| 0 <= k < words(s).len() implies is_word(
                #[trigger] words(s)[k],
            ) by {
                if k > 0 {
                    assert(words(s)[k] == rest[k - 1]);
                }
            }
        }
    }
}

proof fn lemma_joined_is_tidy(parts: Seq<Seq<char>>)
    requires
        forall|k: int| 0 <= k < parts.len() ==> is_word(#[trigger] parts[k]),
    ensures
        tidy(joined(parts, " "@)),
        parts.len() > 0 ==> joined(parts, " "@).len() > 0,
    decreases parts.len(),
{
    reveal_strlit(" ");
    if parts.len() == 1 {
        assert(is_word(parts[0]));
    } else if parts.len() > 1 {
        let rest = parts.drop_last();
        assert forall|k: int| 0 <= k < rest.len() implies is_word(#[trigger] rest[k]) by {
            assert(rest[k] == parts[k]);
        }
        lemma_joined_is_tidy(rest);
        let a = joined(rest, " "@);
        let b = parts[parts.len() - 1];
        let s = joined(parts, " "@);
        assert(is_word(b));
        assert(s =~= a + " "@ + b);
        assert(s[0] == a[0]);
        assert forall|i: int| 0 <= i < s.len() && is_white(#[trigger] s[i]) implies s[i] == ' '
            && i + 1 < s.len() && !is_white(s[i + 1]) by {
            if i < a.len() {
                assert(s[i] == a[i]);
                assert(s[i + 1] == a[i + 1]);
            } else if i == a.len() {
                assert(s[i + 1] == b[0]);
            } else {
                assert(s[i] == b[i - a.len() - 1]);
            }
        }
    }
}

/// The words of a text with one blank between any two of them are a tidy line.
pub proof fn lemma_words_joined_are_tidy(s: Seq<char>)
    ensures
        tidy(joined(words(s), " "@)),
{
    lemma_words_are_words(s);
    lemma_joined_is_tidy(words(s));
}

proof fn lemma_joined_from_front(first: Seq<char>, rest: Seq<Seq<char>>, sep: Seq<char>)
    requires
        rest.len() > 0,
    ensures
        joined(seq![first] + rest, sep) == first + sep + joined(rest, sep),
    decreases rest.len(),
{
    let all = seq![first] + rest;
    assert(all.last() == rest.last());
    if rest.len() == 1 {
        assert(all.drop_last() =~= seq![first]);
        assert(joined(all, sep) == joined(seq![first], sep) + sep + rest.last());
    } else {
        lemma_joined_from_front(first, rest.drop_last(), sep);
        assert(all.drop_last() =~= seq![first] + rest.drop_last());
        assert(joined(all, sep) =~= first + sep + joined(rest, sep));
    }
}

/// A tidy line is its words with one blank between any two of them.
pub proof fn lemma_tidy_lines_are_kept(s: Seq<char>)
    requires
        tidy(s),
    ensures
        joined(words(s), " "@) == s,
    decreases s.len(),
{
    reveal_strlit(" ");
    if s.len() > 0 {
        lemma_word_len(s);
        reveal_with_fuel(words, 2);
        reveal_with_fuel(word_len, 2);
        let n = word_len(s) as int;
        let rest = s.skip(n);
        assert(words(s) == seq![s.take(n)] + words(rest));
        if n == s.len() {
            assert(rest =~= Seq::empty());
            assert(words(s) =~= seq![s.take(n)]);
            assert(s.take(n) =~= s);
        } else {
            let line = s.skip(n + 1);
            assert(rest[0] == s[n]);
            assert(rest.drop_first() =~= line);
            assert(line[0] == s[n + 1]);
            assert forall|i: int| 0 <= i < line.len() && is_white(#[trigger] line[i]) implies line[i]
                == ' ' && i + 1 < line.len() && !is_white(line[i + 1]) by {
                assert(line[i] == s[n + 1 + i]);
                assert(line[i + 1] == s[n + 2 + i]);
            }
            lemma_tidy_lines_are_kept(line);
            lemma_word_len(line);
            assert(words(s) =~= seq![s.take(n)] + words(line));
            assert(words(line).len() > 0);
            lemma_joined_from_front(s.take(n), words(line), " "@);
            assert(s.take(n) + " "@ + line =~= s);
        }
    }
}

/// The words of a text.
pub fn split_words(s: &str) -> (r: Vec<String>)
    ensures
        texts(r@) == words(s@),
{
    let chars = chars_of(s);
    let n: usize = chars.len();
    let mut out: Vec<String> = Vec::new();
    let mut i: usize = 0;
    proof {
        assert(s@.skip(0) =~= s@);
        assert(texts(out@) + words(s@) =~= words(s@));
    }
    while i < n
        invariant
            i <= n,
            n == chars@.len(),
            chars@ == s@,
            texts(out@) + words(s@.skip(i as int)) == words(s@),
        decreases n - i,
    {
        let ghost rest = s@.skip(i as int);
        if char_is_white(chars[i]) {
            proof {
                assert(rest.drop_first() =~= s@.skip(i + 1));
            }
            i = i + 1;
        } else {
            proof {
                lemma_word_len(rest);
            }
            let mut j: usize = i;
            while j < n && !char_is_white(chars[j])
                invariant
                    i <= j <= n,
                    n == chars@.len(),
                    chars@ == s@,
                    rest == s@.skip(i as int),
                    word_len(rest) <= rest.len(),
                    word_len(rest) < rest.len() ==> is_white(rest[word_len(rest) as int]),
                    j - i <= word_len(rest),
                    forall|k: int| 0 <= k < word_len(rest) ==> !is_white(#[trigger] rest[k]),
                decreases n - j,
            {
                proof {
                    assert(rest[j - i] == s@[j as int]);
                }
                j = j + 1;
            }
            proof {
                if j - i < word_len(rest) {
                    assert(!is_white(rest[j - i]));
                    assert(rest[j - i] == s@[j as int]);
                }
            }
            let ghost before = out@;
            push_text(&mut out, s.substring_char(i, j));
            proof {
                let w = word_len(rest) as int;
                assert(word_len(rest) > 0);
                assert(rest.take(w) =~= s@.subrange(i as int, j as int));
                assert(rest.skip(w) =~= s@.skip(j as int));
                assert(texts(out@) + words(s@.skip(j as int)) =~= texts(before) + words(rest));
            }
            i = j;
        }
    }
    proof {
        assert(s@.skip(i as int) =~= Seq::<char>::empty());
        assert(texts(out@) + words(s@.skip(i as int)) =~= texts(out@));
    }
    out
}

/// The pieces of a text between the occurrences of `c`.
pub open spec fn pieces(s: Seq<char>, c: char) -> Seq<Seq<char>>
    decreases s.len(),
{
    if s.len() == 0 {
        seq![Seq::empty()]
    } else if s.last() == c {
        pieces(s.drop_last(), c).push(Seq::empty())
    } else {
        let p = pieces(s.drop_last(), c);
        p.drop_last().push(p.last().push(s.last()))
    }
}

pub proof fn lemma_pieces_non_empty(s: Seq<char>, c: char)
    ensures
        pieces(s, c).len() > 0,
    decreases s.len(),
{
    if s.len() > 0 {
        lemma_pieces_non_empty(s.drop_last(), c);
    }
}

/// What is put behind a text without another `c` belongs to its last piece.
pub proof fn lemma_pieces_of_sum(s: Seq<char>, n: Seq<char>, c: char)
    requires
        forall|i: int| 0 <= i < n.len() ==> #[trigger] n[i] != c,
    ensures
        pieces(s, c).len() > 0,
        pieces(s + n, c) == pieces(s, c).drop_last().push(pieces(s, c).last() + n),
    decreases n.len(),
{
    lemma_pieces_non_empty(s, c);
    let p = pieces(s, c);
    if n.len() == 0 {
        assert(s + n =~= s);
        assert(p.last() + n =~= p.last());
        assert(p.drop_last().push(p.last()) =~= p);
    } else {
        let m = n.drop_last();
        assert forall|i: int| 0 <= i < m.len() implies #[trigger] m[i] != c by {
            assert(m[i] == n[i]);
        }
        lemma_pieces_of_sum(s, m, c);
        assert((s + n).drop_last() =~= s + m);
        assert((s + n).last() == n[n.len() - 1]);
        let q = pieces(s + m, c);
        assert(q.drop_last() =~= p.drop_last());
        assert(q.last() =~= p.last() + m);
        assert((p.last() + m).push(n.last()) =~= p.last() + n);
    }
}

/// Splits a text at every occurrence of `c`.
pub fn split_pieces(s: &str, c: char) -> (r: Vec<String>)
    ensures
        texts(r@) == pieces(s@, c),
        r@.len() > 0,
{
    let chars = chars_of(s);
    let mut out: Vec<String> = Vec::new();
    let mut cur = String::new();
    let mut i: usize = 0;
    proof {
        assert(s@.take(0) =~= Seq::<char>::empty());
        assert(texts(out@).push(cur@) =~= pieces(s@.take(0), c));
    }
    while i < chars.len()
        invariant
            i <= chars@.len(),
            chars@ == s@,
            texts(out@).push(cur@) == pieces(s@.take(i as int), c),
        decreases chars@.len() - i,
    {
        let ghost done = pieces(s@.take(i as int), c);
        let ghost before = out@;
        proof {
            assert(s@.take(i + 1).drop_last() =~= s@.take(i as int));
            assert(s@.take(i + 1).last() == s@[i as int]);
            assert(done.drop_last() =~= texts(before));
            assert(done.last() == cur@);
        }
        if chars[i] == c {
            out.push(cur);
            cur = String::new();
            proof {
                assert(texts(out@) =~= done);
                assert(texts(out@).push(cur@) =~= done.push(Seq::empty()));
            }
        } else {
            cur.push(chars[i]);
        }
        i = i + 1;
    }
    let ghost last = cur@;
    let ghost before = out@;
    out.push(cur);
    proof {
        assert(s@.take(i as int) =~= s@);
        assert(texts(out@) =~= texts(before).push(last));
    }
    out
}

/// The lines of a text: the pieces between line feeds, where a carriage return
/// directly before a line feed belongs to the line end and an empty piece
/// behind the last line feed is no line.
pub open spec fn text_lines(s: Seq<char>) -> Seq<Seq<char>> {
    let p = pieces(s, '\n');
    let ended = p.drop_last().map_values(|l: Seq<char>| without_return(l));
    if p.last().len() == 0 {
        ended
    } else {
        ended.push(p.last())
    }
}

pub open spec fn without_return(l: Seq<char>) -> Seq<char> {
    if l.len() > 0 && l.last() == '\r' {
        l.drop_last()
    } else {
        l
    }
}

pub fn split_lines(s: &str) -> (r: Vec<String>)
    ensures
        texts(r@) == text_lines(s@),
{
    let parts = split_pieces(s, '\n');
    let ghost p = pieces(s@, '\n');
    let n: usize = parts.len();
    let mut out: Vec<String> = Vec::new();
    let mut i: usize = 0;
    while i < n - 1
        invariant
            i <= n - 1,
            n == parts@.len(),
            n > 0,
            p == texts(parts@),
            texts(out@) == p.take(i as int).map_values(|l: Seq<char>| without_return(l)),
        decreases n - i,
    {
        let line = parts[i].as_str();
        let len: usize = line.unicode_len();
        let ghost before = texts(out@);
        proof {
            assert(p[i as int] == line@);
        }
        if len > 0 && line.get_char(len - 1) == '\r' {
            push_text(&mut out, line.substring_char(0, len - 1));
            proof {
                assert(line@.subrange(0, len - 1) =~= line@.drop_last());
            }
        } else {
            push_text(&mut out, line);
        }
        proof {
            assert(texts(out@) =~= before.push(without_return(p[i as int])));
            assert(p.take(i + 1).map_values(|l: Seq<char>| without_return(l)) =~= p.take(
                i as int,
            ).map_values(|l: Seq<char>| without_return(l)).push(without_return(p[i as int])));
        }
        i = i + 1;
    }
    proof {
        assert(p.take(i as int) =~= p.drop_last());
        assert(p.last() == parts@[n - 1]@);
    }
    let last = parts[n - 1].as_str();
    if last.unicode_len() > 0 {
        push_text(&mut out, last);
    }
    out
}

// ---------------------------------------------------------------------------
// Decimal numbers
// ---------------------------------------------------------------------------

pub open spec fn digit_char(d: int) -> char {
    (48 + d) as char
}

/// The decimal notation of a number, without leading zeros.
pub open spec fn decimal(n: nat) -> Seq<char>
    decreases n,
{
    if n < 10 {
        seq![digit_char(n as int)]
    } else {
        decimal(n / 10).push(digit_char((n % 10) as int))
    }
}

/// The decimal notation of a signed number.
pub open spec fn signed_decimal(n: int) -> Seq<char> {
    if n < 0 {
        seq!['-'] + decimal((-n) as nat)
    } else {
        decimal(n as nat)
    }
}

fn digit(d: u64) -> (c: char)
    requires
        d < 10,
    ensures
        c == digit_char(d as int),
{
    (48u8 + d as u8) as char
}

/// Writes a number in decimal notation.
pub fn decimal_text(n: u64) -> (r: String)
    ensures
        r@ == decimal(n as nat),
    decreases n,
{
    if n < 10 {
        let mut out = String::new();
        out.push(digit(n));
        proof {
            assert(out@ =~= decimal(n as nat));
        }
        out
    } else {
        let mut out = decimal_text(n / 10);
        out.push(digit(n % 10));
        out
    }
}

/// Writes a signed number in decimal notation.
pub fn signed_decimal_text(n: i64) -> (r: String)
    ensures
        r@ == signed_decimal(n as int),
{
    if n < 0 {
        let magnitude: u64 = if n == i64::MIN {
            9223372036854775808u64
        } else {
            (-n) as u64
        };
        let mut out = String::new();
        out.push('-');
        let digits = decimal_text(magnitude);
        out.append(digits.as_str());
        proof {
            assert(out@ =~= seq!['-'] + decimal(magnitude as nat));
        }
        out
    } else {
        decimal_text(n as u64)
    }
}

pub open spec fn is_digit(c: char) -> bool {
    '0' <= c <= '9'
}

/// The number that a row of decimal digits denotes.
pub open spec fn digits_value(s: Seq<char>) -> nat
    decreases s.len(),
{
    if s.len() == 0 {
        0
    } else {
        (digits_value(s.drop_last()) * 10 + (s.last() as u32 - 48)) as nat
    }
}

pub open spec fn all_digits(s: Seq<char>) -> bool {
    s.len() > 0 && forall|i: int| 0 <= i < s.len() ==> is_digit(#[trigger] s[i])
}

/// The unsigned number that a text denotes, if it does and stays within `max`:
/// an optional plus sign and at least one decimal digit.
pub open spec fn unsigned_value(s: Seq<char>, max: nat) -> Option<nat> {
    let body = if s.len() > 0 && s[0] == '+' {
        s.drop_first()
    } else {
        s
    };
    if all_digits(body) && digits_value(body) <= max {
        Some(digits_value(body))
    } else {
        None
    }
}

/// The signed number that a text denotes, if it does and fits in 32 bits.
pub open spec fn signed_value(s: Seq<char>) -> Option<int> {
    if s.len() > 0 && s[0] == '-' {
        let body = s.drop_first();
        if all_digits(body) && digits_value(body) <= 2147483648 {
            Some(-(digits_value(body) as int))
        } else {
            None
        }
    } else {
        match unsigned_value(s, 2147483647) {
            Some(n) => Some(n as int),
            None => None,
        }
    }
}

proof fn lemma_digits_value_grows(s: Seq<char>, i: int)
    requires
        all_digits(s),
        0 <= i <= s.len(),
    ensures
        digits_value(s.take(i)) <= digits_value(s),
    decreases s.len() - i,
{
    if i < s.len() {
        lemma_digits_value_grows(s, i + 1);
        assert(s.take(i + 1).drop_last() =~= s.take(i));
        assert(is_digit(s[i]));
        assert(s.take(i + 1).last() == s[i]);
    } else {
        assert(s.take(i) =~= s);
    }
}

fn parse_digits(chars: &Vec<char>, from: usize, max: u64) -> (r: Option<u64>)
    requires
        from <= chars@.len(),
    ensures
        ({
            let body = chars@.skip(from as int);
            match r {
                Some(v) => all_digits(body) && digits_value(body) == v && v <= max,
                None => !(all_digits(body) && digits_value(body) <= max),
            }
        }),
{
    let n: usize = chars.len();
    let ghost body = chars@.skip(from as int);
    if from == n {
        return None;
    }
    let mut value: u64 = 0;
    let mut i: usize = from;
    while i < n
        invariant
            from <= i <= n,
            n == chars@.len(),
            body == chars@.skip(from as int),
            value == digits_value(body.take(i - from)),
            value <= max,
            forall|k: int| 0 <= k < i - from ==> is_digit(#[trigger] body[k]),
        decreases n - i,
    {
        let c: char = chars[i];
        proof {
            assert(body[i - from] == c);
            assert(body.take(i - from + 1).drop_last() =~= body.take(i - from));
            assert(body.take(i - from + 1).last() == c);
        }
        if c < '0' || '9' < c {
            return None;
        }
        let d: u64 = (c as u32 - 48) as u64;
        if d > max || value > max / 10 || value * 10 > max - d {
            proof {
                if all_digits(body) {
                    lemma_digits_value_grows(body, i - from + 1);
                }
            }
            return None;
        }
        value = value * 10 + d;
        i = i + 1;
    }
    proof {
        assert(body.take(i - from) =~= body);
    }
    Some(value)
}

/// Reads an unsigned number that is at most `max`.
pub fn parse_unsigned(s: &str, max: u64) -> (r: Option<u64>)
    ensures
        match r {
            Some(v) => unsigned_value(s@, max as nat) == Some(v as nat),
            None => unsigned_value(s@, max as nat) is None,
        },
{
    let chars = chars_of(s);
    if chars.len() > 0 && chars[0] == '+' {
        proof {
            assert(s@.skip(1) =~= s@.drop_first());
        }
        parse_digits(&chars, 1, max)
    } else {
        proof {
            assert(s@.skip(0) =~= s@);
        }
        parse_digits(&chars, 0, max)
    }
}

/// Reads a signed number of 32 bits.
pub fn parse_i32(s: &str) -> (r: Option<i32>)
    ensures
        match r {
            Some(v) => signed_value(s@) == Some(v as int),
            None => signed_value(s@) is None,
        },
{
    let chars = chars_of(s);
    if chars.len() > 0 && chars[0] == '-' {
        proof {
            assert(s@.skip(1) =~= s@.drop_first());
        }
        match parse_digits(&chars, 1, 2147483648) {
            Some(v) => {
                let n: i64 = v as i64;
                Some((0 - n) as i32)
            },
            None => None,
        }
    } else {
        match parse_unsigned(s, 2147483647) {
            Some(v) => Some(v as i32),
            None => None,
        }
    }
}

// ---------------------------------------------------------------------------
// Cutting and measuring
// ---------------------------------------------------------------------------

/// The first `max` characters of a text.
pub open spec fn cut(s: Seq<char>, max: nat) -> Seq<char> {
    if s.len() <= max {
        s
    } else {
        s.take(max as int)
    }
}

pub fn cut_text(s: &str, max: usize) -> (r: String)
    ensures
        r@ == cut(s@, max as nat),
{
    let n: usize = s.unicode_len();
    if n <= max {
        owned(s)
    } else {
        owned(s.substring_char(0, max))
    }
}

/// The length of a text in bytes of UTF-8.
pub open spec fn byte_len(s: Seq<char>) -> usize {
    vstd::utf8::encode_utf8(s).len() as usize
}

pub open spec fn ascii_letter_or_digit(c: char) -> bool {
    'a' <= c <= 'z' || 'A' <= c <= 'Z' || '0' <= c <= '9'
}

/// Whether every character is an ASCII letter, a digit or one of `more`.
pub open spec fn only_letters_digits_and(s: Seq<char>, more: Seq<char>) -> bool {
    forall|i: int|
        0 <= i < s.len() ==> ascii_letter_or_digit(#[trigger] s[i]) || more.contains(s[i])
}

pub fn has_only_letters_digits_and(s: &str, more: &str) -> (r: bool)
    ensures
        r == only_letters_digits_and(s@, more@),
{
    let chars = chars_of(s);
    let extra = chars_of(more);
    let mut i: usize = 0;
    while i < chars.len()
        invariant
            i <= chars@.len(),
            chars@ == s@,
            extra@ == more@,
            forall|k: int|
                0 <= k < i ==> ascii_letter_or_digit(#[trigger] s@[k]) || more@.contains(s@[k]),
        decreases chars@.len() - i,
    {
        let c: char = chars[i];
        let plain = ('a' <= c && c <= 'z') || ('A' <= c && c <= 'Z') || ('0' <= c && c <= '9');
        if !plain {
            let mut found = false;
            let mut j: usize = 0;
            while j < extra.len()
                invariant
                    j <= extra@.len(),
                    extra@ == more@,
                    found == exists|k: int| 0 <= k < j && more@[k] == c,
                decreases extra@.len() - j,
            {
                if extra[j] == c {
                    found = true;
                }
                j = j + 1;
            }
            if !found {
                proof {
                    assert(s@[i as int] == c);
                }
                return false;
            }
        }
        i = i + 1;
    }
    true
}

/// A text without the occurrences of `c` at its front.
pub open spec fn drop_front(s: Seq<char>, c: char) -> Seq<char>
    decreases s.len(),
{
    if s.len() > 0 && s[0] == c {
        drop_front(s.drop_first(), c)
    } else {
        s
    }
}

/// A text without the occurrences of `c` at its end.
pub open spec fn drop_back(s: Seq<char>, c: char) -> Seq<char>
    decreases s.len(),
{
    if s.len() > 0 && s.last() == c {
        drop_back(s.drop_last(), c)
    } else {
        s
    }
}

/// Removes the occurrences of `c` at the end of a text.
pub fn trim_end_char<'a>(s: &'a str, c: char) -> (r: &'a str)
    ensures
        r@ == drop_back(s@, c),
{
    let chars = chars_of(s);
    let mut to: usize = chars.len();
    proof {
        assert(s@.subrange(0, to as int) =~= s@);
    }
    while 0 < to && chars[to - 1] == c
        invariant
            to <= chars@.len(),
            chars@ == s@,
            drop_back(s@.subrange(0, to as int), c) == drop_back(s@, c),
        decreases to,
    {
        proof {
            assert(s@.subrange(0, to as int).drop_last() =~= s@.subrange(0, to - 1));
        }
        to = to - 1;
    }
    s.substring_char(0, to)
}

/// Removes the occurrences of `c` at both ends of a text.
pub fn trim_char<'a>(s: &'a str, c: char) -> (r: &'a str)
    ensures
        r@ == drop_back(drop_front(s@, c), c),
{
    let chars = chars_of(s);
    let n: usize = chars.len();
    let mut from: usize = 0;
    proof {
        assert(s@.subrange(0, n as int) =~= s@);
    }
    while from < n && chars[from] == c
        invariant
            from <= n,
            n == chars@.len(),
            chars@ == s@,
            drop_front(s@.subrange(from as int, n as int), c) == drop_front(s@, c),
        decreases n - from,
    {
        proof {
            assert(s@.subrange(from as int, n as int).drop_first() =~= s@.subrange(
                from + 1,
                n as int,
            ));
        }
        from = from + 1;
    }
    trim_end_char(s.substring_char(from, n), c)
}

} // verus!
