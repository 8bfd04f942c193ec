//! What the handling of texts keeps: what is taken off and what stays, and what comes
//! back when parts are put together again.

use vstd::prelude::*;

use crate::text::{
    all_digits, cut, decimal, digit_char, digits_value, drop_back, drop_front, find_text,
    has_prefix, has_suffix, has_text, is_digit, is_white, joined, lemma_find_from,
    lemma_pieces_non_empty, lemma_trim_back_facts, lemma_trim_front_facts, lowered, occurs_at,
    pieces, signed_decimal, signed_value, split_at_first, text_lines, trim_back, trim_front,
    trimmed, unsigned_value, without_return, words,
};

verus! {

broadcast use vstd::string::group_string_axioms;

/// Whether a text is white space alone.
pub open spec fn all_white(s: Seq<char>) -> bool {
    forall|i: int| 0 <= i < s.len() ==> is_white(#[trigger] s[i])
}

proof fn lemma_front_is_white(s: Seq<char>)
    ensures
        all_white(s.take(s.len() - trim_front(s).len())),
    decreases s.len(),
{
    lemma_trim_front_facts(s);
    if s.len() > 0 && is_white(s[0]) {
        let t = s.drop_first();
        lemma_trim_front_facts(t);
        lemma_front_is_white(t);
        let n = s.len() - trim_front(s).len();
        assert forall|i: int| 0 <= i < n implies is_white(#[trigger] s.take(n)[i]) by {
            if i > 0 {
                assert(t.take(n - 1)[i - 1] == s[i]);
            }
        }
    }
}

proof fn lemma_back_is_white(s: Seq<char>)
    ensures
        all_white(s.skip(trim_back(s).len() as int)),
    decreases s.len(),
{
    lemma_trim_back_facts(s);
    if s.len() > 0 && is_white(s.last()) {
        let t = s.drop_last();
        lemma_trim_back_facts(t);
        lemma_back_is_white(t);
        let n = trim_back(s).len() as int;
        assert forall|i: int| 0 <= i < s.len() - n implies is_white(#[trigger] s.skip(n)[i]) by {
            if i < s.len() - n - 1 {
                assert(t.skip(n)[i] == s[n + i]);
            }
        }
    }
}

/// To trim is to take white space off both ends, all of it and nothing else.
pub proof fn lemma_trimming(s: Seq<char>)
    ensures
        exists|a: Seq<char>, b: Seq<char>|
            all_white(a) && all_white(b) && s == #[trigger] (a + trimmed(s) + b),
        trimmed(s).len() > 0 ==> !is_white(trimmed(s)[0]) && !is_white(trimmed(s).last()),
{
    lemma_trim_front_facts(s);
    lemma_front_is_white(s);
    let f = trim_front(s);
    lemma_trim_back_facts(f);
    lemma_back_is_white(f);
    crate::text::lemma_trimmed_idempotent(s);
    let a = s.take(s.len() - f.len());
    let b = f.skip(trim_back(f).len() as int);
    assert(s =~= a + trimmed(s) + b);
}

/// The white space that is taken off.
pub proof fn lemma_white_space()
    ensures
        is_white(' '),
        is_white('\t'),
        is_white('\n'),
        is_white('\r'),
        !is_white('a'),
        !is_white('0'),
        !is_white('-'),
        !is_white('_'),
{
}

/// Equal parts are found: a text that is put together from two with a mark between
/// them is split there, when the first does not hold the mark.
pub proof fn lemma_splitting(a: Seq<char>, mark: char, b: Seq<char>)
    requires
        !a.contains(mark),
    ensures
        split_at_first(a + seq![mark] + b, seq![mark]) == Some((a, b)),
{
    let s = a + seq![mark] + b;
    let p = seq![mark];
    lemma_find_from(s, p, 0);
    let n = a.len() as int;
    assert(s.subrange(n, n + p.len()) =~= p);
    assert(occurs_at(s, p, n));
    let k = find_text(s, p)->Some_0;
    assert(find_text(s, p) is Some);
    if k < n {
        assert(s.subrange(k, k + p.len())[0] == p[0]);
        assert(a[k] == mark);
    }
    assert(k == n);
    assert(s.take(k) =~= a);
    assert(s.skip(k + p.len()) =~= b);
}

/// A text that holds no mark is not split.
pub proof fn lemma_nothing_to_split(s: Seq<char>, mark: char)
    requires
        !s.contains(mark),
    ensures
        split_at_first(s, seq![mark]) is None,
{
    let p = seq![mark];
    lemma_find_from(s, p, 0);
    if find_text(s, p) is Some {
        let k = find_text(s, p)->Some_0;
        assert(s.subrange(k, k + p.len())[0] == p[0]);
        assert(s[k] == mark);
    }
}

/// Prefixes and suffixes: what is put before a text begins it, what is put behind it
/// ends it, and either stands in it.
pub proof fn lemma_parts_of_texts(a: Seq<char>, b: Seq<char>, c: Seq<char>)
    ensures
        has_prefix(a + b, a),
        has_suffix(a + b, b),
        has_text(a + b + c, b),
        has_prefix(a, b) ==> a == b + a.skip(b.len() as int),
        has_suffix(a, b) ==> a == a.take(a.len() - b.len()) + b,
{
    assert((a + b).subrange(0, a.len() as int) =~= a);
    assert((a + b).subrange((a + b).len() - b.len(), (a + b).len() as int) =~= b);
    let s = a + b + c;
    let n = a.len() as int;
    assert(s.subrange(n, n + b.len()) =~= b);
    assert(occurs_at(s, b, n));
    if has_prefix(a, b) {
        assert(a =~= a.subrange(0, b.len() as int) + a.skip(b.len() as int));
    }
    if has_suffix(a, b) {
        assert(a =~= a.take(a.len() - b.len()) + a.subrange(a.len() - b.len(), a.len() as int));
    }
}

/// A text that is searched for and not found stands nowhere.
pub proof fn lemma_found_texts(s: Seq<char>, p: Seq<char>)
    ensures
        has_text(s, p) <==> find_text(s, p) is Some,
        find_text(s, p) matches Some(k) ==> occurs_at(s, p, k) && forall|j: int|
            0 <= j < k ==> !occurs_at(s, p, j),
{
    lemma_find_from(s, p, 0);
}

/// Pieces put together again are the text, and no piece holds the mark.
pub proof fn lemma_pieces_make_the_text(s: Seq<char>, c: char)
    ensures
        joined(pieces(s, c), seq![c]) == s,
        forall|i: int| 0 <= i < pieces(s, c).len() ==> !(#[trigger] pieces(s, c)[i]).contains(c),
    decreases s.len(),
{
    lemma_pieces_non_empty(s, c);
    if s.len() > 0 {
        let t = s.drop_last();
        lemma_pieces_make_the_text(t, c);
        lemma_pieces_non_empty(t, c);
        let p = pieces(t, c);
        let q = pieces(s, c);
        let sep = seq![c];
        if s.last() == c {
            assert(q.drop_last() =~= p);
            assert(joined(q, sep) =~= t + sep + Seq::<char>::empty());
            assert(joined(q, sep) =~= s);
            assert forall|i: int| 0 <= i < q.len() implies !(#[trigger] q[i]).contains(c) by {
                if i < p.len() {
                    assert(q[i] == p[i]);
                }
            }
        } else {
            let last = p.last().push(s.last());
            assert(q =~= p.drop_last().push(last));
            if p.len() == 1 {
                assert(joined(p, sep) == p[0]);
                assert(joined(q, sep) == q[0]);
                assert(s =~= t.push(s.last()));
            } else {
                assert(q.drop_last() =~= p.drop_last());
                let head = joined(p.drop_last(), sep);
                assert(joined(p, sep) == head + sep + p.last());
                assert(joined(q, sep) == head + sep + last);
                assert(head + sep + last =~= (head + sep + p.last()).push(s.last()));
                assert(s =~= t.push(s.last()));
            }
            assert forall|i: int| 0 <= i < q.len() implies !(#[trigger] q[i]).contains(c) by {
                if i < p.len() - 1 {
                    assert(q[i] == p[i]);
                } else {
                    assert(!p[p.len() - 1].contains(c));
                    if q[i].contains(c) {
                        let j = choose|j: int| 0 <= j < q[i].len() && q[i][j] == c;
                        if j < p.last().len() {
                            assert(p.last()[j] == c);
                        }
                    }
                }
            }
        }
    } else {
        assert(joined(pieces(s, c), seq![c]) =~= s);
    }
}

/// A line that ends adds itself to the lines before it, without its ending.
pub proof fn lemma_lines(s: Seq<char>, line: Seq<char>)
    requires
        s.len() == 0 || s.last() == '\n',
        !line.contains('\n'),
    ensures
        text_lines(Seq::<char>::empty()) == Seq::<Seq<char>>::empty(),
        text_lines(s + line + seq!['\n']) == text_lines(s).push(without_return(line)),
        line.len() > 0 ==> text_lines(s + line) == text_lines(s).push(line),
{
    let e = Seq::<char>::empty();
    assert(pieces(e, '\n') =~= seq![e]);
    assert(text_lines(e) =~= Seq::<Seq<char>>::empty());
    lemma_pieces_non_empty(s, '\n');
    assert forall|i: int| 0 <= i < line.len() implies #[trigger] line[i] != '\n' by {
        assert(line.contains(line[i]));
    }
    crate::text::lemma_pieces_of_sum(s, line, '\n');
    let p = pieces(s, '\n');
    let ended = p.drop_last().map_values(|l: Seq<char>| without_return(l));
    assert(p.last().len() == 0) by {
        if s.len() == 0 {
            assert(s =~= e);
        }
    }
    assert(p.last() + line =~= line);
    let q = pieces(s + line, '\n');
    assert(q == p.drop_last().push(line));
    assert(q.drop_last() =~= p.drop_last());
    let all = s + line + seq!['\n'];
    assert(all.drop_last() =~= s + line);
    let r = pieces(all, '\n');
    assert(r == q.push(Seq::empty()));
    assert(r.drop_last() =~= q);
    assert(q.map_values(|l: Seq<char>| without_return(l)) =~= ended.push(without_return(line)));
}

/// A carriage return at the end of a line belongs to the ending.
pub proof fn lemma_line_endings(line: Seq<char>)
    ensures
        without_return(line + seq!['\r']) == line,
        line.len() > 0 && line.last() != '\r' ==> without_return(line) == line,
{
    assert((line + seq!['\r']).drop_last() =~= line);
}

proof fn lemma_decimal_digits(n: nat)
    ensures
        all_digits(decimal(n)),
        digits_value(decimal(n)) == n,
    decreases n,
{
    if n < 10 {
        let s = decimal(n);
        assert(s[0] == digit_char(n as int));
        assert(s.last() as u32 == 48 + n);
        assert(s.drop_last() =~= Seq::<char>::empty());
        reveal_with_fuel(digits_value, 2);
    } else {
        lemma_decimal_digits(n / 10);
        let s = decimal(n);
        let d = (n % 10) as int;
        assert(s.drop_last() =~= decimal(n / 10));
        assert(s.last() == digit_char(d));
        assert(s.last() as u32 == 48 + d);
        assert forall|i: int| 0 <= i < s.len() implies is_digit(#[trigger] s[i]) by {
            if i < s.len() - 1 {
                assert(s[i] == decimal(n / 10)[i]);
            }
        }
        assert(n == (n / 10) * 10 + n % 10);
    }
}

/// A number that is written out is read back.
pub proof fn lemma_numbers_are_read_back(n: nat, max: nat)
    requires
        n <= max,
    ensures
        unsigned_value(decimal(n), max) == Some(n),
        n <= 2147483647 ==> signed_value(signed_decimal(n as int)) == Some(n as int),
        n <= 2147483648 && n > 0 ==> signed_value(signed_decimal(-(n as int))) == Some(
            -(n as int),
        ),
{
    lemma_decimal_digits(n);
    let s = decimal(n);
    assert(is_digit(s[0]));
    assert(s[0] != '+' && s[0] != '-');
    if n > 0 {
        let t = signed_decimal(-(n as int));
        assert(t[0] == '-');
        assert(t.drop_first() =~= s);
    }
}

/// Only digits are numbers, and only up to the limit.
pub proof fn lemma_other_texts_are_no_numbers(s: Seq<char>, max: nat, i: int)
    requires
        0 <= i < s.len(),
        !is_digit(s[i]),
        i > 0 || s[0] != '+',
    ensures
        unsigned_value(s, max) is None,
{
    if s[0] == '+' {
        assert(s.drop_first()[i - 1] == s[i]);
    }
}

/// To cut is to keep the beginning, no longer than the limit.
pub proof fn lemma_cutting(s: Seq<char>, max: nat)
    ensures
        cut(s, max).len() == (if s.len() <= max {
            s.len()
        } else {
            max
        }),
        has_prefix(s, cut(s, max)),
{
    assert(s.subrange(0, cut(s, max).len() as int) =~= cut(s, max));
}

/// Small letters stand for capital ones, and every other character for itself.
pub proof fn lemma_lowering(s: Seq<char>, i: int)
    requires
        0 <= i < s.len(),
    ensures
        lowered(s).len() == s.len(),
        s[i] == 'A' ==> lowered(s)[i] == 'a',
        s[i] == 'Z' ==> lowered(s)[i] == 'z',
        'A' <= s[i] <= 'Z' ==> lowered(s)[i] as u32 == s[i] as u32 + 32,
        !('A' <= s[i] <= 'Z') ==> lowered(s)[i] == s[i],
        lowered(lowered(s)) == lowered(s),
{
    assert(lowered(lowered(s)) =~= lowered(s));
}

/// What is dropped at an end is one character over and over, and none of it is left.
pub proof fn lemma_dropping(s: Seq<char>, c: char)
    ensures
        has_suffix(s, drop_front(s, c)),
        has_prefix(s, drop_back(s, c)),
        drop_front(s, c).len() > 0 ==> drop_front(s, c)[0] != c,
        drop_back(s, c).len() > 0 ==> drop_back(s, c).last() != c,
        forall|i: int| 0 <= i < s.len() - drop_front(s, c).len() ==> #[trigger] s[i] == c,
        forall|i: int| drop_back(s, c).len() <= i < s.len() ==> #[trigger] s[i] == c,
    decreases s.len(),
{
    if s.len() > 0 && s[0] == c {
        let t = s.drop_first();
        lemma_dropping(t, c);
        let d = drop_front(t, c);
        assert(s.subrange(s.len() - d.len(), s.len() as int) =~= t.subrange(
            t.len() - d.len(),
            t.len() as int,
        ));
        assert forall|i: int| 0 <= i < s.len() - d.len() implies #[trigger] s[i] == c by {
            if i > 0 {
                assert(t[i - 1] == s[i]);
            }
        }
    } else {
        assert(s.subrange(0, s.len() as int) =~= s);
    }
    if s.len() > 0 && s.last() == c {
        let t = s.drop_last();
        lemma_dropping(t, c);
        let d = drop_back(t, c);
        assert(s.subrange(0, d.len() as int) =~= t.subrange(0, d.len() as int));
        assert forall|i: int| d.len() <= i < s.len() implies #[trigger] s[i] == c by {
            if i < s.len() - 1 {
                assert(t[i] == s[i]);
            }
        }
    } else {
        assert(s.subrange(0, s.len() as int) =~= s);
    }
}

/// A text without white space is one word.
pub proof fn lemma_words_of_words(w: Seq<char>)
    requires
        w.len() > 0,
        forall|i: int| 0 <= i < w.len() ==> !is_white(#[trigger] w[i]),
    ensures
        words(w) == seq![w],
{
    crate::text::lemma_word_len(w);
    reveal_with_fuel(words, 2);
    assert(w.take(w.len() as int) =~= w);
    assert(w.skip(w.len() as int) =~= Seq::<char>::empty());
    assert(seq![w] + Seq::<Seq<char>>::empty() =~= seq![w]);
}

/// Parts are joined with the mark between them and nowhere else.
pub proof fn lemma_joining(parts: Seq<Seq<char>>, part: Seq<char>, mark: Seq<char>)
    ensures
        joined(Seq::<Seq<char>>::empty(), mark) == Seq::<char>::empty(),
        joined(seq![part], mark) == part,
        parts.len() > 0 ==> joined(parts.push(part), mark) == joined(parts, mark) + mark + part,
{
    assert(parts.push(part).drop_last() =~= parts);
}

} // verus!
