//! Text primitives over sequences of characters.

use vstd::prelude::*;

verus! {

/// The characters with the Unicode property `White_Space`.
pub open spec fn whitespace(c: char) -> bool {
    let u = c as u32;
    ||| 0x09 <= u <= 0x0d
    ||| u == 0x20
    ||| u == 0x85
    ||| u == 0xa0
    ||| u == 0x1680
    ||| 0x2000 <= u <= 0x200a
    ||| u == 0x2028
    ||| u == 0x2029
    ||| u == 0x202f
    ||| u == 0x205f
    ||| u == 0x3000
}

/// Tells whether `c` is white space.
pub fn is_whitespace(c: char) -> (r: bool)
    ensures
        r == whitespace(c),
{
    let u: u32 = c as u32;
    (0x09 <= u && u <= 0x0d) || u == 0x20 || u == 0x85 || u == 0xa0 || u == 0x1680 || (0x2000 <= u
        && u <= 0x200a) || u == 0x2028 || u == 0x2029 || u == 0x202f || u == 0x205f || u == 0x3000
}

/// The characters of `s`.
pub fn chars_of(s: &str) -> (r: Vec<char>)
    ensures
        r@ == s@,
{
    let mut r: Vec<char> = Vec::new();
    for c in it: s.chars()
        invariant
            r@ == it.seq().take(it.index() as int),
            it.seq() == s@,
    {
        r.push(c);
    }
    r
}

/// Tells whether two strings hold the same characters.
pub fn str_eq(a: &str, b: &str) -> (r: bool)
    ensures
        r == (a@ == b@),
{
    let x = chars_of(a);
    let y = chars_of(b);
    if x.len() != y.len() {
        return false;
    }
    let mut i: usize = 0;
    while i < x.len()
        invariant
            x@ == a@,
            y@ == b@,
            x@.len() == y@.len(),
            i <= x@.len(),
            forall|k: int| 0 <= k < i ==> x@[k] == y@[k],
        decreases x@.len() - i,
    {
        if x[i] != y[i] {
            return false;
        }
        i += 1;
    }
    assert(a@ =~= b@);
    true
}

/// `String::push` puts one character at the end of a string and leaves the rest as it was.
pub assume_specification[ String::push ](s: &mut String, c: char)
    ensures
        final(s)@ == old(s)@.push(c),
;

/// `s` without the white space in front.
pub open spec fn without_leading_whitespace(s: Seq<char>) -> Seq<char>
    decreases s.len(),
{
    if s.len() > 0 && whitespace(s[0]) {
        without_leading_whitespace(s.drop_first())
    } else {
        s
    }
}

/// `s` without the white space at its end.
pub open spec fn without_trailing_whitespace(s: Seq<char>) -> Seq<char>
    decreases s.len(),
{
    if s.len() > 0 && whitespace(s.last()) {
        without_trailing_whitespace(s.drop_last())
    } else {
        s
    }
}

/// `s` without the white space at either end.
pub open spec fn trimmed(s: Seq<char>) -> Seq<char> {
    without_trailing_whitespace(without_leading_whitespace(s))
}

/// Cuts the white space off both ends.
pub fn trim<'a>(s: &'a str) -> (r: &'a str)
    ensures
        r@ == trimmed(s@),
{
    let v = chars_of(s);
    let n = v.len();
    let mut a: usize = 0;
    assert(v@.skip(0) =~= v@);
    while a < n && is_whitespace(v[a])
        invariant
            n == v@.len(),
            a <= n,
            without_leading_whitespace(v@) == without_leading_whitespace(v@.skip(a as int)),
        decreases n - a,
    {
        assert(v@.skip(a as int).drop_first() =~= v@.skip(a + 1));
        a += 1;
    }
    let mut b: usize = n;
    assert(v@.skip(a as int) =~= v@.subrange(a as int, n as int));
    while a < b && is_whitespace(v[b - 1])
        invariant
            n == v@.len(),
            a <= b <= n,
            trimmed(v@) == without_trailing_whitespace(v@.subrange(a as int, b as int)),
        decreases b,
    {
        assert(v@.subrange(a as int, b as int).drop_last() =~= v@.subrange(a as int, b - 1));
        b -= 1;
    }
    s.substring_char(a, b)
}

/// `s` without the occurrences of `c` at its end.
pub open spec fn without_trailing(s: Seq<char>, c: char) -> Seq<char>
    decreases s.len(),
{
    if s.len() > 0 && s.last() == c {
        without_trailing(s.drop_last(), c)
    } else {
        s
    }
}

/// Cuts every occurrence of `c` off the end.
pub fn trim_end_of<'a>(s: &'a str, c: char) -> (r: &'a str)
    ensures
        r@ == without_trailing(s@, c),
{
    let v = chars_of(s);
    let mut b: usize = v.len();
    assert(v@.take(b as int) =~= v@);
    while 0 < b && v[b - 1] == c
        invariant
            b <= v@.len(),
            without_trailing(v@, c) == without_trailing(v@.take(b as int), c),
        decreases b,
    {
        assert(v@.take(b as int).drop_last() =~= v@.take(b - 1));
        b -= 1;
    }
    assert(v@.take(b as int) =~= v@.subrange(0, b as int));
    s.substring_char(0, b)
}

/// The number of characters in front of the first white space.
pub open spec fn word_len(s: Seq<char>) -> int
    decreases s.len(),
{
    if s.len() == 0 || whitespace(s[0]) {
        0
    } else {
        1 + word_len(s.drop_first())
    }
}

/// A word ends within its text, and one that begins is not empty.
pub proof fn lemma_word_len_bounds(s: Seq<char>)
    ensures
        0 <= word_len(s) <= s.len(),
        s.len() > 0 && !whitespace(s[0]) ==> word_len(s) > 0,
    decreases s.len(),
{
    if s.len() > 0 && !whitespace(s[0]) {
        lemma_word_len_bounds(s.drop_first());
    }
}

/// The maximal runs of characters that are not white space, in order.
pub open spec fn words(s: Seq<char>) -> Seq<Seq<char>>
    decreases s.len(),
{
    if s.len() == 0 {
        seq![]
    } else if whitespace(s[0]) {
        words(s.drop_first())
    } else {
        proof {
            lemma_word_len_bounds(s);
        }
        seq![s.take(word_len(s))] + words(s.skip(word_len(s)))
    }
}

/// Splits at white space; no word is empty.
pub fn split_whitespace<'a>(s: &'a str) -> (r: Vec<&'a str>)
    ensures
        r.deep_view() == words(s@),
{
    let v = chars_of(s);
    let n = v.len();
    let mut out: Vec<&'a str> = Vec::new();
    let mut i: usize = 0;
    assert(v@.skip(0) =~= v@);
    assert(out.deep_view() + words(v@) =~= words(v@));
    while i < n
        invariant
            v@ == s@,
            n == v@.len(),
            i <= n,
            words(v@) == out.deep_view() + words(v@.skip(i as int)),
        decreases n - i,
    {
        let ghost rest = v@.skip(i as int);
        if is_whitespace(v[i]) {
            assert(rest.drop_first() =~= v@.skip(i + 1));
            i += 1;
        } else {
            let mut j: usize = i;
            assert(rest =~= v@.skip(j as int));
            while j < n && !is_whitespace(v[j])
                invariant
                    v@ == s@,
                    n == v@.len(),
                    i <= j <= n,
                    i < n,
                    rest == v@.skip(i as int),
                    word_len(rest) == (j - i) + word_len(v@.skip(j as int)),
                decreases n - j,
            {
                assert(v@.skip(j as int).drop_first() =~= v@.skip(j + 1));
                j += 1;
            }
            let ghost before = out.deep_view();
            out.push(s.substring_char(i, j));
            proof {
                lemma_word_len_bounds(rest);
                assert(rest.take(word_len(rest)) =~= v@.subrange(i as int, j as int));
                assert(rest.skip(word_len(rest)) =~= v@.skip(j as int));
                assert(out.deep_view() =~= before.push(v@.subrange(i as int, j as int)));
                assert(before + words(rest) =~= out.deep_view() + words(v@.skip(j as int)));
            }
            i = j;
        }
    }
    assert(v@.skip(i as int) =~= Seq::<char>::empty());
    assert(out.deep_view() + words(Seq::<char>::empty()) =~= out.deep_view());
    out
}

/// The position of the first `c` in `s`; the length of `s` where there is none.
pub open spec fn first_index(s: Seq<char>, c: char) -> int
    decreases s.len(),
{
    if s.len() == 0 || s[0] == c {
        0
    } else {
        1 + first_index(s.drop_first(), c)
    }
}

/// The position of the first `c` at or after `from`, or the length.
fn find_char(v: &Vec<char>, from: usize, c: char) -> (r: usize)
    requires
        from <= v@.len(),
    ensures
        from <= r <= v@.len(),
        r == from + first_index(v@.skip(from as int), c),
{
    let mut j: usize = from;
    while j < v.len() && v[j] != c
        invariant
            from <= j <= v@.len(),
            first_index(v@.skip(from as int), c) == (j - from) + first_index(v@.skip(j as int), c),
        decreases v@.len() - j,
    {
        assert(v@.skip(j as int).drop_first() =~= v@.skip(j + 1));
        j += 1;
    }
    j
}

/// A line whose line feed was cut off, without the carriage return that stood before it.
pub open spec fn without_carriage_return(s: Seq<char>) -> Seq<char> {
    if s.len() > 0 && s.last() == '\r' {
        s.drop_last()
    } else {
        s
    }
}

/// The lines of `s`, without the `\n` or `\r\n` that ends each; the last line may lack its
/// ending.
pub open spec fn lines_of(s: Seq<char>) -> Seq<Seq<char>>
    decreases s.len(),
{
    if s.len() == 0 {
        seq![]
    } else {
        let n = first_index(s, '\n');
        if 0 <= n < s.len() {
            seq![without_carriage_return(s.take(n))] + lines_of(s.skip(n + 1))
        } else {
            seq![s]
        }
    }
}

/// Splits into lines.
pub fn lines<'a>(s: &'a str) -> (r: Vec<&'a str>)
    ensures
        r.deep_view() == lines_of(s@),
{
    let v = chars_of(s);
    let n = v.len();
    let mut out: Vec<&'a str> = Vec::new();
    let mut i: usize = 0;
    assert(v@.skip(0) =~= v@);
    assert(out.deep_view() + lines_of(v@) =~= lines_of(v@));
    while i < n
        invariant
            v@ == s@,
            n == v@.len(),
            i <= n,
            lines_of(v@) == out.deep_view() + lines_of(v@.skip(i as int)),
        decreases n - i,
    {
        let ghost rest = v@.skip(i as int);
        let ghost before = out.deep_view();
        let j = find_char(&v, i, '\n');
        if j < n {
            let end = if i < j && v[j - 1] == '\r' {
                j - 1
            } else {
                j
            };
            out.push(s.substring_char(i, end));
            proof {
                assert(rest.take(j - i) =~= v@.subrange(i as int, j as int));
                assert(without_carriage_return(rest.take(j - i)) =~= v@.subrange(
                    i as int,
                    end as int,
                ));
                assert(rest.skip(j - i + 1) =~= v@.skip(j + 1));
                assert(out.deep_view() =~= before.push(v@.subrange(i as int, end as int)));
                assert(before + lines_of(rest) =~= out.deep_view() + lines_of(v@.skip(j + 1)));
            }
            i = j + 1;
        } else {
            out.push(s.substring_char(i, n));
            proof {
                assert(rest =~= v@.subrange(i as int, n as int));
                assert(out.deep_view() =~= before.push(rest));
                assert(v@.skip(n as int) =~= Seq::<char>::empty());
                assert(before + lines_of(rest) =~= out.deep_view() + lines_of(v@.skip(n as int)));
            }
            i = n;
        }
    }
    assert(v@.skip(i as int) =~= Seq::<char>::empty());
    assert(out.deep_view() + lines_of(Seq::<char>::empty()) =~= out.deep_view());
    out
}

/// What stands before and after the first `c` in `s`.
pub open spec fn split_at_first(s: Seq<char>, c: char) -> Option<(Seq<char>, Seq<char>)> {
    let n = first_index(s, c);
    if n < s.len() {
        Some((s.take(n), s.skip(n + 1)))
    } else {
        None
    }
}

/// Splits at the first `c`.
pub fn split_once<'a>(s: &'a str, c: char) -> (r: Option<(&'a str, &'a str)>)
    ensures
        match r {
            Some((before, after)) => split_at_first(s@, c) == Some((before@, after@)),
            None => split_at_first(s@, c) is None,
        },
{
    let v = chars_of(s);
    let j = find_char(&v, 0, c);
    assert(v@.skip(0) =~= v@);
    if j < v.len() {
        let before = s.substring_char(0, j);
        let after = s.substring_char(j + 1, v.len());
        assert(before@ =~= s@.take(j as int));
        assert(after@ =~= s@.skip(j + 1));
        Some((before, after))
    } else {
        None
    }
}

/// Tells whether `needle` stands in `s` at position `i`.
pub open spec fn occurs_at(s: Seq<char>, needle: Seq<char>, i: int) -> bool {
    0 <= i && i + needle.len() <= s.len() && s.subrange(i, i + needle.len()) == needle
}

/// Tells whether `needle` stands anywhere in `s`.
pub open spec fn has(s: Seq<char>, needle: Seq<char>) -> bool {
    exists|i: int| #[trigger] occurs_at(s, needle, i)
}

fn matches_at(v: &Vec<char>, w: &Vec<char>, i: usize) -> (r: bool)
    ensures
        r == occurs_at(v@, w@, i as int),
{
    if i > v.len() || w.len() > v.len() - i {
        return false;
    }
    let mut k: usize = 0;
    while k < w.len()
        invariant
            k <= w@.len(),
            i + w@.len() <= v@.len() <= usize::MAX,
            forall|m: int| 0 <= m < k ==> v@[i + m] == w@[m],
        decreases w@.len() - k,
    {
        if v[i + k] != w[k] {
            assert(v@.subrange(i as int, i + w@.len())[k as int] == v@[i + k]);
            return false;
        }
        k += 1;
    }
    assert(v@.subrange(i as int, i + w@.len()) =~= w@);
    true
}

/// Searches `s` for `needle`.
pub fn contains(s: &str, needle: &str) -> (r: bool)
    ensures
        r == has(s@, needle@),
{
    let v = chars_of(s);
    let w = chars_of(needle);
    let mut i: usize = 0;
    loop
        invariant
            v@ == s@,
            w@ == needle@,
            i <= v@.len(),
            forall|k: int| 0 <= k < i ==> !#[trigger] occurs_at(v@, w@, k),
        decreases v@.len() - i,
    {
        if matches_at(&v, &w, i) {
            return true;
        }
        if i == v.len() {
            return false;
        }
        i += 1;
    }
}

/// Tells whether `s` begins with `prefix`.
pub open spec fn begins_with(s: Seq<char>, prefix: Seq<char>) -> bool {
    prefix.is_prefix_of(s)
}

/// What follows `prefix` in `s`, where `s` begins with it.
pub fn strip_prefix<'a>(s: &'a str, prefix: &str) -> (r: Option<&'a str>)
    ensures
        match r {
            Some(rest) => begins_with(s@, prefix@) && rest@ == s@.skip(prefix@.len() as int),
            None => !begins_with(s@, prefix@),
        },
{
    let v = chars_of(s);
    let w = chars_of(prefix);
    if matches_at(&v, &w, 0) {
        let rest = s.substring_char(w.len(), v.len());
        assert(rest@ =~= s@.skip(prefix@.len() as int));
        Some(rest)
    } else {
        None
    }
}

/// The parts in order, with `sep` between neighbours.
pub open spec fn joined(parts: Seq<Seq<char>>, sep: Seq<char>) -> Seq<char>
    decreases parts.len(),
{
    if parts.len() == 0 {
        seq![]
    } else if parts.len() == 1 {
        parts[0]
    } else {
        joined(parts.drop_last(), sep) + sep + parts.last()
    }
}

/// Joins the parts with `sep` between neighbours.
pub fn join(parts: &Vec<String>, sep: &str) -> (r: String)
    ensures
        r@ == joined(parts.deep_view(), sep@),
{
    let mut out = String::new();
    let mut i: usize = 0;
    let ghost all = parts.deep_view();
    while i < parts.len()
        invariant
            all == parts.deep_view(),
            i <= parts@.len(),
            out@ == joined(all.take(i as int), sep@),
        decreases parts@.len() - i,
    {
        let ghost next = all.take(i + 1);
        assert(next.drop_last() =~= all.take(i as int));
        assert(next.last() == parts@[i as int]@);
        if i > 0 {
            out.append(sep);
        }
        out.append(parts[i].as_str());
        proof {
            if i == 0 {
                assert(out@ =~= next[0]);
            }
        }
        i += 1;
    }
    assert(all.take(i as int) =~= all);
    out
}

proof fn lemma_leading_blanks(a: Seq<char>, t: Seq<char>)
    requires
        forall|i: int| 0 <= i < a.len() ==> whitespace(#[trigger] a[i]),
    ensures
        without_leading_whitespace(a + t) == without_leading_whitespace(t),
    decreases a.len(),
{
    if a.len() == 0 {
        assert(a + t =~= t);
    } else {
        let rest = a.drop_first();
        assert forall|i: int| 0 <= i < rest.len() implies whitespace(#[trigger] rest[i]) by {
            assert(rest[i] == a[i + 1]);
        }
        assert((a + t)[0] == a[0]);
        assert((a + t).drop_first() =~= rest + t);
        lemma_leading_blanks(rest, t);
    }
}

proof fn lemma_trailing_blanks(t: Seq<char>, b: Seq<char>)
    requires
        forall|i: int| 0 <= i < b.len() ==> whitespace(#[trigger] b[i]),
    ensures
        without_trailing_whitespace(t + b) == without_trailing_whitespace(t),
    decreases b.len(),
{
    if b.len() == 0 {
        assert(t + b =~= t);
    } else {
        let rest = b.drop_last();
        assert forall|i: int| 0 <= i < rest.len() implies whitespace(#[trigger] rest[i]) by {
            assert(rest[i] == b[i]);
        }
        assert((t + b).last() == b.last());
        assert((t + b).drop_last() =~= t + rest);
        lemma_trailing_blanks(t, rest);
    }
}

/// Trimming takes away the white space around a text, and nothing of the text itself.
pub proof fn law_trim_keeps_the_text(a: Seq<char>, s: Seq<char>, b: Seq<char>)
    requires
        forall|i: int| 0 <= i < a.len() ==> whitespace(#[trigger] a[i]),
        forall|i: int| 0 <= i < b.len() ==> whitespace(#[trigger] b[i]),
        s.len() > 0 ==> !whitespace(s[0]) && !whitespace(s.last()),
    ensures
        trimmed(a + s + b) == s,
{
    let empty = Seq::<char>::empty();
    assert(a + s + b =~= a + (s + b));
    lemma_leading_blanks(a, s + b);
    if s.len() > 0 {
        assert((s + b)[0] == s[0]);
        lemma_trailing_blanks(s, b);
    } else {
        assert(s + b =~= b + empty);
        lemma_leading_blanks(b, empty);
        assert(s =~= empty);
    }
}

/// Cutting a character off the end takes away all its occurrences there, and nothing else.
pub proof fn law_trim_end_keeps_the_text(s: Seq<char>, c: char, n: nat)
    requires
        s.len() > 0 ==> s.last() != c,
    ensures
        without_trailing(s + Seq::new(n, |i: int| c), c) == s,
    decreases n,
{
    let all = s + Seq::new(n, |i: int| c);
    if n == 0 {
        assert(all =~= s);
    } else {
        let less = (n - 1) as nat;
        assert(all.last() == c);
        assert(all.drop_last() =~= s + Seq::new(less, |i: int| c));
        law_trim_end_keeps_the_text(s, c, less);
    }
}

proof fn lemma_word_len_before_blank(a: Seq<char>, c: char, b: Seq<char>)
    requires
        whitespace(c),
    ensures
        word_len(a + seq![c] + b) == word_len(a),
    decreases a.len(),
{
    let all = a + seq![c] + b;
    if a.len() > 0 && !whitespace(a[0]) {
        assert(all.drop_first() =~= a.drop_first() + seq![c] + b);
        lemma_word_len_before_blank(a.drop_first(), c, b);
    } else if a.len() > 0 {
        assert(all[0] == a[0]);
    } else {
        assert(all[0] == c);
    }
}

/// White space sets words apart: no word reaches across it, and it belongs to none.
pub proof fn law_white_space_parts_words(a: Seq<char>, c: char, b: Seq<char>)
    requires
        whitespace(c),
    ensures
        words(a + seq![c] + b) == words(a) + words(b),
    decreases a.len(),
{
    let all = a + seq![c] + b;
    if a.len() == 0 {
        assert(all[0] == c);
        assert(all.drop_first() =~= b);
        assert(words(a) + words(b) =~= words(b));
    } else if whitespace(a[0]) {
        assert(all[0] == a[0]);
        assert(all.drop_first() =~= a.drop_first() + seq![c] + b);
        law_white_space_parts_words(a.drop_first(), c, b);
    } else {
        let w = word_len(a);
        lemma_word_len_bounds(a);
        lemma_word_len_before_blank(a, c, b);
        assert(all[0] == a[0]);
        assert(all.take(w) =~= a.take(w));
        assert(all.skip(w) =~= a.skip(w) + seq![c] + b);
        law_white_space_parts_words(a.skip(w), c, b);
        assert(words(all) =~= words(a) + words(b));
    }
}

proof fn lemma_word_len_all(w: Seq<char>)
    requires
        forall|i: int| 0 <= i < w.len() ==> !whitespace(#[trigger] w[i]),
    ensures
        word_len(w) == w.len(),
    decreases w.len(),
{
    if w.len() > 0 {
        assert forall|i: int| 0 <= i < w.drop_first().len() implies !whitespace(
            #[trigger] w.drop_first()[i],
        ) by {
            assert(w.drop_first()[i] == w[i + 1]);
        }
        lemma_word_len_all(w.drop_first());
    }
}

/// A text without white space is one word; an empty one is none.
pub proof fn law_text_without_white_space_is_a_word(w: Seq<char>)
    requires
        forall|i: int| 0 <= i < w.len() ==> !whitespace(#[trigger] w[i]),
    ensures
        w.len() > 0 ==> words(w) == seq![w],
        w.len() == 0 ==> words(w).len() == 0,
{
    if w.len() > 0 {
        lemma_word_len_all(w);
        let n = w.len() as int;
        assert(w.take(n) =~= w);
        assert(w.skip(n) =~= Seq::<char>::empty());
        assert(words(Seq::<char>::empty()) =~= Seq::<Seq<char>>::empty());
        assert(words(w) =~= seq![w]);
    }
}

proof fn lemma_first_index_at(a: Seq<char>, c: char, b: Seq<char>)
    requires
        !a.contains(c),
    ensures
        first_index(a + seq![c] + b, c) == a.len(),
    decreases a.len(),
{
    let all = a + seq![c] + b;
    if a.len() > 0 {
        assert(a.contains(a[0]));
        assert(all[0] == a[0]);
        assert(all.drop_first() =~= a.drop_first() + seq![c] + b);
        assert forall|i: int| 0 <= i < a.drop_first().len() implies a.drop_first()[i] != c by {
            assert(a.contains(a[i + 1]));
        }
        lemma_first_index_at(a.drop_first(), c, b);
    } else {
        assert(all[0] == c);
    }
}

proof fn lemma_first_index_none(a: Seq<char>, c: char)
    requires
        !a.contains(c),
    ensures
        first_index(a, c) == a.len(),
    decreases a.len(),
{
    if a.len() > 0 {
        assert(a.contains(a[0]));
        assert forall|i: int| 0 <= i < a.drop_first().len() implies a.drop_first()[i] != c by {
            assert(a.contains(a[i + 1]));
        }
        lemma_first_index_none(a.drop_first(), c);
    }
}

/// Splitting gives all that stands before the first `c` and all that stands behind it.
pub proof fn law_split_at_first_occurrence(a: Seq<char>, c: char, b: Seq<char>)
    requires
        !a.contains(c),
    ensures
        split_at_first(a + seq![c] + b, c) == Some((a, b)),
        split_at_first(a, c) is None,
{
    let all = a + seq![c] + b;
    lemma_first_index_at(a, c, b);
    lemma_first_index_none(a, c);
    assert(all.take(a.len() as int) =~= a);
    assert(all.skip(a.len() as int + 1) =~= b);
}

/// A line ends at its line feed, and a carriage return right before that belongs to the ending.
/// Everything else in the line is kept.
pub proof fn law_line_ends_at_line_feed(line: Seq<char>, rest: Seq<char>)
    requires
        !line.contains('\n'),
    ensures
        line.len() == 0 || line.last() != '\r' ==> lines_of(line + seq!['\n'] + rest) == seq![line]
            + lines_of(rest),
        lines_of(line + seq!['\r', '\n'] + rest) == seq![line] + lines_of(rest),
{
    let plain = line + seq!['\n'] + rest;
    lemma_first_index_at(line, '\n', rest);
    assert(plain.take(line.len() as int) =~= line);
    assert(plain.skip(line.len() as int + 1) =~= rest);
    let with = line.push('\r');
    let crlf = line + seq!['\r', '\n'] + rest;
    assert(crlf =~= with + seq!['\n'] + rest);
    assert(!with.contains('\n')) by {
        if with.contains('\n') {
            let i = choose|i: int| 0 <= i < with.len() && with[i] == '\n';
            assert(i < line.len());
            assert(line[i] == '\n');
        }
    }
    lemma_first_index_at(with, '\n', rest);
    assert(crlf.take(with.len() as int) =~= with);
    assert(crlf.skip(with.len() as int + 1) =~= rest);
    assert(with.drop_last() =~= line);
}

/// What follows the last line feed is a line too, as it stands, unless it is empty.
pub proof fn law_last_line_needs_no_ending(line: Seq<char>)
    requires
        !line.contains('\n'),
    ensures
        line.len() > 0 ==> lines_of(line) == seq![line],
        line.len() == 0 ==> lines_of(line).len() == 0,
{
    lemma_first_index_none(line, '\n');
}

/// A text holds `needle` exactly where it is some text, `needle` and some text.
pub proof fn law_search_finds_every_place(s: Seq<char>, needle: Seq<char>)
    ensures
        has(s, needle) <==> exists|a: Seq<char>, b: Seq<char>| s == #[trigger] (a + needle + b),
{
    if has(s, needle) {
        let i = choose|i: int| #[trigger] occurs_at(s, needle, i);
        let a = s.take(i);
        let b = s.skip(i + needle.len());
        assert(s =~= a + needle + b) by {
            assert(s.subrange(i, i + needle.len()) == needle);
            assert forall|k: int| 0 <= k < s.len() implies s[k] == (a + needle + b)[k] by {
                if i <= k < i + needle.len() {
                    assert(s.subrange(i, i + needle.len())[k - i] == s[k]);
                }
            }
        }
    }
    if exists|a: Seq<char>, b: Seq<char>| s == #[trigger] (a + needle + b) {
        let (a, b) = choose|a: Seq<char>, b: Seq<char>| s == #[trigger] (a + needle + b);
        let i = a.len() as int;
        assert(s.subrange(i, i + needle.len()) =~= needle);
        assert(occurs_at(s, needle, i));
    }
}

/// A text begins with `prefix` exactly where it is `prefix` and some text.
pub proof fn law_prefix_is_what_comes_first(s: Seq<char>, prefix: Seq<char>)
    ensures
        begins_with(prefix + s, prefix),
        (prefix + s).skip(prefix.len() as int) == s,
        begins_with(s, prefix) ==> s == prefix + s.skip(prefix.len() as int),
{
    assert((prefix + s).subrange(0, prefix.len() as int) =~= prefix);
    assert((prefix + s).skip(prefix.len() as int) =~= s);
    if begins_with(s, prefix) {
        let n = prefix.len() as int;
        assert(s =~= s.subrange(0, n) + s.skip(n));
    }
}

/// The separator stands between any two neighbours, and nowhere else.
pub proof fn law_separator_stands_between(a: Seq<Seq<char>>, b: Seq<Seq<char>>, sep: Seq<char>)
    ensures
        a.len() > 0 && b.len() > 0 ==> joined(a + b, sep) == joined(a, sep) + sep + joined(b, sep),
        a.len() == 1 ==> joined(a, sep) == a[0],
        a.len() == 0 ==> joined(a, sep).len() == 0,
    decreases b.len(),
{
    if a.len() > 0 && b.len() > 0 {
        assert((a + b).drop_last() =~= a + b.drop_last());
        assert((a + b).last() == b.last());
        if b.len() == 1 {
            assert(a + b.drop_last() =~= a);
        } else {
            law_separator_stands_between(a, b.drop_last(), sep);
            assert(joined(a + b, sep) =~= joined(a, sep) + sep + joined(b, sep));
        }
    }
}

/// Trimming only takes away: every character that is left was there before.
pub proof fn law_trim_adds_nothing(s: Seq<char>, c: char)
    requires
        trimmed(s).contains(c),
    ensures
        s.contains(c),
{
    lemma_trailing_adds_nothing(without_leading_whitespace(s), c);
    lemma_leading_adds_nothing(s, c);
}

proof fn lemma_leading_adds_nothing(s: Seq<char>, c: char)
    requires
        without_leading_whitespace(s).contains(c),
    ensures
        s.contains(c),
    decreases s.len(),
{
    if s.len() > 0 && whitespace(s[0]) {
        lemma_leading_adds_nothing(s.drop_first(), c);
        let i = choose|i: int| 0 <= i < s.drop_first().len() && s.drop_first()[i] == c;
        assert(s[i + 1] == c);
    }
}

proof fn lemma_trailing_adds_nothing(s: Seq<char>, c: char)
    requires
        without_trailing_whitespace(s).contains(c),
    ensures
        s.contains(c),
    decreases s.len(),
{
    if s.len() > 0 && whitespace(s.last()) {
        lemma_trailing_adds_nothing(s.drop_last(), c);
        let i = choose|i: int| 0 <= i < s.drop_last().len() && s.drop_last()[i] == c;
        assert(s[i] == c);
    }
}

proof fn lemma_trailing_keeps_first(s: Seq<char>)
    requires
        s.len() > 0,
        !whitespace(s[0]),
    ensures
        without_trailing_whitespace(s).len() > 0,
        without_trailing_whitespace(s)[0] == s[0],
    decreases s.len(),
{
    if whitespace(s.last()) {
        assert(s.len() > 1);
        assert(s.drop_last()[0] == s[0]);
        lemma_trailing_keeps_first(s.drop_last());
    }
}

/// The first character of a text that is no white space is what the trimmed text begins with.
pub proof fn law_trimmed_begins_with_text(a: Seq<char>, c: char, rest: Seq<char>)
    requires
        forall|i: int| 0 <= i < a.len() ==> whitespace(#[trigger] a[i]),
        !whitespace(c),
    ensures
        trimmed(a + seq![c] + rest).len() > 0,
        trimmed(a + seq![c] + rest)[0] == c,
{
    let t = seq![c] + rest;
    assert(a + seq![c] + rest =~= a + t);
    lemma_leading_blanks(a, t);
    assert(t[0] == c);
    lemma_trailing_keeps_first(t);
}

proof fn lemma_blank_front(s: Seq<char>) -> (i: int)
    ensures
        0 <= i <= s.len(),
        forall|k: int| 0 <= k < i ==> whitespace(#[trigger] s[k]),
        i < s.len() ==> !whitespace(s[i]),
    decreases s.len(),
{
    if s.len() > 0 && whitespace(s[0]) {
        let j = lemma_blank_front(s.drop_first());
        assert forall|k: int| 0 <= k < j + 1 implies whitespace(#[trigger] s[k]) by {
            if k > 0 {
                assert(s.drop_first()[k - 1] == s[k]);
            }
        }
        j + 1
    } else {
        0
    }
}

/// Nothing is left of a text exactly where it is white space throughout.
pub proof fn law_only_white_space_trims_to_nothing(s: Seq<char>)
    ensures
        trimmed(s).len() == 0 <==> forall|i: int| 0 <= i < s.len() ==> whitespace(#[trigger] s[i]),
{
    let empty = Seq::<char>::empty();
    let i = lemma_blank_front(s);
    if i < s.len() {
        let a = s.take(i);
        let rest = s.skip(i + 1);
        assert(s =~= a + seq![s[i]] + rest);
        law_trimmed_begins_with_text(a, s[i], rest);
    } else {
        law_trim_keeps_the_text(s, empty, empty);
        assert(s + empty + empty =~= s);
    }
}

/// White space is these characters and no others: the tabs, line ends and blanks of Unicode.
pub proof fn law_white_space_characters(c: char)
    ensures
        whitespace(c) <==> seq![
            '\t',
            '\n',
            '\u{b}',
            '\u{c}',
            '\r',
            ' ',
            '\u{85}',
            '\u{a0}',
            '\u{1680}',
            '\u{2000}',
            '\u{2001}',
            '\u{2002}',
            '\u{2003}',
            '\u{2004}',
            '\u{2005}',
            '\u{2006}',
            '\u{2007}',
            '\u{2008}',
            '\u{2009}',
            '\u{200a}',
            '\u{2028}',
            '\u{2029}',
            '\u{202f}',
            '\u{205f}',
            '\u{3000}',
        ].contains(c),
{
    let all = seq![
        '\t',
        '\n',
        '\u{b}',
        '\u{c}',
        '\r',
        ' ',
        '\u{85}',
        '\u{a0}',
        '\u{1680}',
        '\u{2000}',
        '\u{2001}',
        '\u{2002}',
        '\u{2003}',
        '\u{2004}',
        '\u{2005}',
        '\u{2006}',
        '\u{2007}',
        '\u{2008}',
        '\u{2009}',
        '\u{200a}',
        '\u{2028}',
        '\u{2029}',
        '\u{202f}',
        '\u{205f}',
        '\u{3000}',
    ];
    let u = c as u32;
    vstd::utf8::char_u32_cast(c, u);
    if all.contains(c) {
        let i = choose|i: int| 0 <= i < all.len() && all[i] == c;
        assert(0 <= i < 25);
    }
    if whitespace(c) {
        assert(all[0] == '\t');
        assert(all[1] == '\n');
        assert(all[2] == '\u{b}');
        assert(all[3] == '\u{c}');
        assert(all[4] == '\r');
        assert(all[5] == ' ');
        assert(all[6] == '\u{85}');
        assert(all[7] == '\u{a0}');
        assert(all[8] == '\u{1680}');
        assert(all[9] == '\u{2000}');
        assert(all[10] == '\u{2001}');
        assert(all[11] == '\u{2002}');
        assert(all[12] == '\u{2003}');
        assert(all[13] == '\u{2004}');
        assert(all[14] == '\u{2005}');
        assert(all[15] == '\u{2006}');
        assert(all[16] == '\u{2007}');
        assert(all[17] == '\u{2008}');
        assert(all[18] == '\u{2009}');
        assert(all[19] == '\u{200a}');
        assert(all[20] == '\u{2028}');
        assert(all[21] == '\u{2029}');
        assert(all[22] == '\u{202f}');
        assert(all[23] == '\u{205f}');
        assert(all[24] == '\u{3000}');
    }
}

} // verus!
