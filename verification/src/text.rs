//! Text as sequences of characters: the helpers that the parsers and the
//! expression evaluator are built from.

use vstd::prelude::*;

verus! {

/// The characters of `s`, in order.
pub fn to_chars(s: &str) -> (v: Vec<char>)
    ensures
        v@ == s@,
{
    let n = s.unicode_len();
    let mut v: Vec<char> = Vec::new();
    let mut i: usize = 0;
    while i < n
        invariant
            n == s@.len(),
            i <= n,
            v@ == s@.subrange(0, i as int),
        decreases n - i,
    {
        let c = s.get_char(i);
        v.push(c);
        i = i + 1;
        assert(v@ == s@.subrange(0, i as int));
    }
    assert(s@.subrange(0, n as int) == s@);
    v
}

/// `String::from_iter` over the characters of a slice: the string whose
/// characters are exactly those of `v`, in order.
#[verifier::external_body]
pub(crate) fn collect_chars(v: &[char]) -> (s: String)
    ensures
        s@ == v@,
{
    String::from_iter(v.iter())
}

/// The string made of the characters of `v`.
pub fn from_chars(v: &Vec<char>) -> (s: String)
    ensures
        s@ == v@,
{
    collect_chars(v.as_slice())
}

/// Whether two texts hold the same characters.
pub fn chars_eq(a: &Vec<char>, b: &Vec<char>) -> (r: bool)
    ensures
        r == (a@ == b@),
{
    if a.len() != b.len() {
        return false;
    }
    let mut i: usize = 0;
    while i < a.len()
        invariant
            a.len() == b.len(),
            i <= a.len(),
            a@.subrange(0, i as int) == b@.subrange(0, i as int),
        decreases a.len() - i,
    {
        if a[i] != b[i] {
            return false;
        }
        i = i + 1;
        assert(a@.subrange(0, i as int) == a@.subrange(0, i - 1).push(a@[i - 1]));
        assert(b@.subrange(0, i as int) == b@.subrange(0, i - 1).push(b@[i - 1]));
    }
    assert(a@.subrange(0, a.len() as int) == a@);
    assert(b@.subrange(0, b.len() as int) == b@);
    true
}

/// Whether `text` is the string `word`.
pub fn is_word(text: &Vec<char>, word: &str) -> (b: bool)
    ensures
        b == (text@ == word@),
{
    let w = to_chars(word);
    chars_eq(text, &w)
}

/// Whether two strings hold the same characters.
pub fn str_eq(a: &str, b: &str) -> (r: bool)
    ensures
        r == (a@ == b@),
{
    let x = to_chars(a);
    let y = to_chars(b);
    chars_eq(&x, &y)
}

/// Whether `a` comes strictly before `b` in the order of strings: by the
/// first character in which they differ, a proper prefix first.
pub open spec fn text_lt(a: Seq<char>, b: Seq<char>) -> bool
    decreases a.len(),
{
    if b.len() == 0 {
        false
    } else if a.len() == 0 {
        true
    } else if a[0] != b[0] {
        a[0] < b[0]
    } else {
        text_lt(a.drop_first(), b.drop_first())
    }
}

/// No text comes before itself.
pub proof fn lemma_text_lt_irreflexive(a: Seq<char>)
    ensures
        !text_lt(a, a),
    decreases a.len(),
{
    if a.len() > 0 {
        lemma_text_lt_irreflexive(a.drop_first());
    }
}

/// Of two different texts one comes before the other.
pub proof fn lemma_text_lt_total(a: Seq<char>, b: Seq<char>)
    ensures
        a == b || text_lt(a, b) || text_lt(b, a),
    decreases a.len(),
{
    if a.len() > 0 && b.len() > 0 {
        if a[0] == b[0] {
            lemma_text_lt_total(a.drop_first(), b.drop_first());
            if a.drop_first() == b.drop_first() {
                assert(a =~= seq![a[0]] + a.drop_first());
                assert(b =~= seq![b[0]] + b.drop_first());
            }
        }
    } else if a.len() == 0 && b.len() == 0 {
        assert(a =~= b);
    }
}

/// The order of strings is transitive.
pub proof fn lemma_text_lt_transitive(a: Seq<char>, b: Seq<char>, c: Seq<char>)
    requires
        text_lt(a, b),
        text_lt(b, c),
    ensures
        text_lt(a, c),
    decreases a.len(),
{
    if a.len() > 0 && b.len() > 0 && c.len() > 0 {
        if a[0] == b[0] && b[0] == c[0] {
            lemma_text_lt_transitive(a.drop_first(), b.drop_first(), c.drop_first());
        }
    }
}

/// Whether `a` comes strictly before `b` in the order of strings.
pub fn chars_lt(a: &Vec<char>, b: &Vec<char>) -> (r: bool)
    ensures
        r == text_lt(a@, b@),
{
    let mut i: usize = 0;
    assert(a@.skip(0) == a@ && b@.skip(0) == b@);
    while i < a.len() && i < b.len()
        invariant
            i <= a.len(),
            i <= b.len(),
            text_lt(a@, b@) == text_lt(a@.skip(i as int), b@.skip(i as int)),
        decreases a.len() - i,
    {
        let x = a[i];
        let y = b[i];
        proof {
            assert(a@.skip(i as int)[0] == x);
            assert(b@.skip(i as int)[0] == y);
            assert(a@.skip(i as int).drop_first() == a@.skip(i + 1));
            assert(b@.skip(i as int).drop_first() == b@.skip(i + 1));
        }
        if x != y {
            return x < y;
        }
        i = i + 1;
    }
    proof {
        assert(a@.skip(i as int).len() == a.len() - i);
        assert(b@.skip(i as int).len() == b.len() - i);
    }
    i < b.len()
}

/// Whether `a` comes strictly before `b` in the order of strings.
pub fn str_lt(a: &str, b: &str) -> (r: bool)
    ensures
        r == text_lt(a@, b@),
{
    let x = to_chars(a);
    let y = to_chars(b);
    chars_lt(&x, &y)
}

/// The pieces of `s` between the occurrences of `sep`: one piece more than
/// there are occurrences, each piece free of `sep`, which joined by `sep`
/// give `s` again. Read from the left: `sep` begins a new, empty piece, any
/// other character goes to the end of the last piece.
pub open spec fn split_text(s: Seq<char>, sep: char) -> Seq<Seq<char>>
    decreases s.len(),
{
    if s.len() == 0 {
        seq![Seq::<char>::empty()]
    } else {
        let before = split_text(s.drop_last(), sep);
        if s.last() == sep {
            before.push(Seq::<char>::empty())
        } else {
            before.update(before.len() - 1, before.last().push(s.last()))
        }
    }
}

/// There is always a piece.
pub proof fn lemma_split_nonempty(s: Seq<char>, sep: char)
    ensures
        split_text(s, sep).len() >= 1,
    decreases s.len(),
{
    if s.len() > 0 {
        lemma_split_nonempty(s.drop_last(), sep);
    }
}

/// A text without `sep` is its own single piece.
pub proof fn lemma_split_whole(s: Seq<char>, sep: char)
    requires
        !s.contains(sep),
    ensures
        split_text(s, sep) == seq![s],
    decreases s.len(),
{
    if s.len() > 0 {
        let front = s.drop_last();
        assert(!front.contains(sep)) by {
            if front.contains(sep) {
                let i = choose|i: int| 0 <= i < front.len() && front[i] == sep;
                assert(s[i] == sep);
            }
        }
        lemma_split_whole(front, sep);
        assert(s[s.len() - 1] != sep);
        assert(front.push(s.last()) == s);
        assert(split_text(s, sep) =~= seq![s]);
    } else {
        assert(s =~= Seq::<char>::empty());
    }
}

/// Where `s` has more than one piece, the first piece is the start of `s`,
/// and `sep` follows it.
pub proof fn lemma_first_piece(s: Seq<char>, sep: char)
    requires
        split_text(s, sep).len() >= 2,
    ensures
        split_text(s, sep)[0].len() < s.len(),
        split_text(s, sep)[0] == s.take(split_text(s, sep)[0].len() as int),
        s[split_text(s, sep)[0].len() as int] == sep,
    decreases s.len(),
{
    let front = s.drop_last();
    lemma_split_nonempty(front, sep);
    let before = split_text(front, sep);
    if before.len() >= 2 {
        lemma_first_piece(front, sep);
        let n = before[0].len() as int;
        assert(front.take(n) == s.take(n));
        assert(front[n] == s[n]);
    } else {
        // one piece so far: `front` itself, and the last character is `sep`
        lemma_split_single(front, sep);
        assert(s.last() == sep);
        assert(s.take(front.len() as int) == front);
    }
}

/// A text of one piece is that piece.
pub proof fn lemma_split_single(s: Seq<char>, sep: char)
    requires
        split_text(s, sep).len() == 1,
    ensures
        split_text(s, sep)[0] == s,
    decreases s.len(),
{
    if s.len() > 0 {
        let front = s.drop_last();
        lemma_split_nonempty(front, sep);
        lemma_split_single(front, sep);
        assert(front.push(s.last()) == s);
    } else {
        assert(s =~= Seq::<char>::empty());
    }
}

/// The pieces of `v` between the occurrences of `sep`.
pub fn split_chars(v: &Vec<char>, sep: char) -> (pieces: Vec<Vec<char>>)
    ensures
        pieces.len() >= 1,
        pieces.len() == split_text(v@, sep).len(),
        forall|k: int| 0 <= k < pieces.len() ==> (#[trigger] pieces[k])@ == split_text(v@, sep)[k],
{
    let mut done: Vec<Vec<char>> = Vec::new();
    let mut piece: Vec<char> = Vec::new();
    let mut i: usize = 0;
    proof {
        assert(v@.subrange(0, 0) =~= Seq::<char>::empty());
    }
    while i < v.len()
        invariant
            i <= v.len(),
            split_text(v@.subrange(0, i as int), sep).len() == done.len() + 1,
            forall|k: int|
                0 <= k < done.len() ==> (#[trigger] done[k])@ == split_text(
                    v@.subrange(0, i as int),
                    sep,
                )[k],
            piece@ == split_text(v@.subrange(0, i as int), sep)[done.len() as int],
        decreases v.len() - i,
    {
        let c = v[i];
        proof {
            let part = v@.subrange(0, i + 1);
            assert(part.drop_last() == v@.subrange(0, i as int));
            assert(part.last() == c);
        }
        if c == sep {
            done.push(piece);
            piece = Vec::new();
        } else {
            piece.push(c);
        }
        i = i + 1;
    }
    proof {
        assert(v@.subrange(0, v.len() as int) == v@);
    }
    done.push(piece);
    done
}

/// Whether `c` is white space: a character that Unicode marks as
/// `White_Space`.
pub open spec fn is_space(c: char) -> bool {
    c == '\u{9}' || c == '\u{a}' || c == '\u{b}' || c == '\u{c}' || c == '\u{d}' || c == ' '
        || c == '\u{85}' || c == '\u{a0}' || c == '\u{1680}' || ('\u{2000}' <= c && c
        <= '\u{200a}') || c == '\u{2028}' || c == '\u{2029}' || c == '\u{202f}' || c
        == '\u{205f}' || c == '\u{3000}'
}

/// Whether `c` is white space.
pub fn is_whitespace(c: char) -> (b: bool)
    ensures
        b == is_space(c),
{
    c == '\u{9}' || c == '\u{a}' || c == '\u{b}' || c == '\u{c}' || c == '\u{d}' || c == ' '
        || c == '\u{85}' || c == '\u{a0}' || c == '\u{1680}' || ('\u{2000}' <= c && c
        <= '\u{200a}') || c == '\u{2028}' || c == '\u{2029}' || c == '\u{202f}' || c
        == '\u{205f}' || c == '\u{3000}'
}

/// `s` without the characters at its start of which `drop` holds.
pub open spec fn strip_start(s: Seq<char>, drop: spec_fn(char) -> bool) -> Seq<char>
    decreases s.len(),
{
    if s.len() > 0 && drop(s[0]) {
        strip_start(s.drop_first(), drop)
    } else {
        s
    }
}

/// `s` without the characters at its end of which `drop` holds.
pub open spec fn strip_end(s: Seq<char>, drop: spec_fn(char) -> bool) -> Seq<char>
    decreases s.len(),
{
    if s.len() > 0 && drop(s.last()) {
        strip_end(s.drop_last(), drop)
    } else {
        s
    }
}

/// `s` without the characters at its start and at its end of which `drop`
/// holds.
pub open spec fn strip(s: Seq<char>, drop: spec_fn(char) -> bool) -> Seq<char> {
    strip_end(strip_start(s, drop), drop)
}

/// `s` without the white space at its start and at its end.
pub open spec fn trim_text(s: Seq<char>) -> Seq<char> {
    strip(s, |c: char| is_space(c))
}

/// The test for the character `c`.
pub open spec fn is_char(c: char) -> spec_fn(char) -> bool {
    |d: char| d == c
}

/// `s` without the occurrences of `c` at its start and at its end.
pub open spec fn strip_char(s: Seq<char>, c: char) -> Seq<char> {
    strip(s, is_char(c))
}

proof fn lemma_strip_start_skip(s: Seq<char>, drop: spec_fn(char) -> bool, a: int)
    requires
        0 <= a <= s.len(),
        forall|i: int| 0 <= i < a ==> drop(#[trigger] s[i]),
        a < s.len() ==> !drop(s[a]),
    ensures
        strip_start(s, drop) == s.skip(a),
    decreases a,
{
    if a == 0 {
        assert(s.skip(0) == s);
    } else {
        let rest = s.drop_first();
        assert forall|i: int| 0 <= i < a - 1 implies drop(#[trigger] rest[i]) by {
            assert(rest[i] == s[i + 1]);
        }
        lemma_strip_start_skip(rest, drop, a - 1);
        assert(rest.skip(a - 1) == s.skip(a));
    }
}

proof fn lemma_strip_end_take(s: Seq<char>, drop: spec_fn(char) -> bool, b: int)
    requires
        0 <= b <= s.len(),
        forall|i: int| b <= i < s.len() ==> drop(#[trigger] s[i]),
        b > 0 ==> !drop(s[b - 1]),
    ensures
        strip_end(s, drop) == s.take(b),
    decreases s.len() - b,
{
    if b == s.len() {
        assert(s.take(b) == s);
    } else {
        let rest = s.drop_last();
        assert forall|i: int| b <= i < rest.len() implies drop(#[trigger] rest[i]) by {
            assert(rest[i] == s[i]);
        }
        lemma_strip_end_take(rest, drop, b);
        assert(rest.take(b) == s.take(b));
    }
}

/// The characters of `v` from place `a` up to place `b`.
pub fn slice_chars(v: &Vec<char>, a: usize, b: usize) -> (r: Vec<char>)
    requires
        a <= b <= v.len(),
    ensures
        r@ == v@.subrange(a as int, b as int),
{
    let mut r: Vec<char> = Vec::new();
    let mut i: usize = a;
    while i < b
        invariant
            a <= i <= b,
            b <= v.len(),
            r@ == v@.subrange(a as int, i as int),
        decreases b - i,
    {
        r.push(v[i]);
        i = i + 1;
        assert(r@ == v@.subrange(a as int, i as int));
    }
    r
}

/// `v` without the white space at its start and at its end.
pub fn trim_chars(v: &Vec<char>) -> (r: Vec<char>)
    ensures
        r@ == trim_text(v@),
{
    let ghost drop = |c: char| is_space(c);
    let mut a: usize = 0;
    while a < v.len() && is_whitespace(v[a])
        invariant
            a <= v.len(),
            forall|i: int| 0 <= i < a ==> is_space(#[trigger] v[i]),
        decreases v.len() - a,
    {
        a = a + 1;
    }
    let mut b: usize = v.len();
    while b > a && is_whitespace(v[b - 1])
        invariant
            a <= b <= v.len(),
            forall|i: int| b <= i < v.len() ==> is_space(#[trigger] v[i]),
        decreases b,
    {
        b = b - 1;
    }
    proof {
        lemma_strip_start_skip(v@, drop, a as int);
        let rest = v@.skip(a as int);
        assert forall|i: int| b - a <= i < rest.len() implies drop(#[trigger] rest[i]) by {
            assert(rest[i] == v[i + a]);
        }
        if b - a > 0 {
            assert(rest[b - a - 1] == v[b - 1]);
        }
        lemma_strip_end_take(rest, drop, b - a);
        assert(rest.take(b - a) == v@.subrange(a as int, b as int));
    }
    slice_chars(v, a, b)
}

/// `v` without the occurrences of `c` at its start and at its end.
pub fn strip_chars(v: &Vec<char>, c: char) -> (r: Vec<char>)
    ensures
        r@ == strip_char(v@, c),
{
    let ghost drop = is_char(c);
    let mut a: usize = 0;
    while a < v.len() && v[a] == c
        invariant
            a <= v.len(),
            forall|i: int| 0 <= i < a ==> #[trigger] v[i] == c,
        decreases v.len() - a,
    {
        a = a + 1;
    }
    let mut b: usize = v.len();
    while b > a && v[b - 1] == c
        invariant
            a <= b <= v.len(),
            forall|i: int| b <= i < v.len() ==> #[trigger] v[i] == c,
        decreases b,
    {
        b = b - 1;
    }
    proof {
        assert forall|i: int| 0 <= i < a implies drop(#[trigger] v@[i]) by {
            assert(v[i] == c);
        }
        lemma_strip_start_skip(v@, drop, a as int);
        let rest = v@.skip(a as int);
        assert forall|i: int| b - a <= i < rest.len() implies drop(#[trigger] rest[i]) by {
            assert(rest[i] == v[i + a]);
        }
        if b - a > 0 {
            assert(rest[b - a - 1] == v[b - 1]);
        }
        lemma_strip_end_take(rest, drop, b - a);
        assert(rest.take(b - a) == v@.subrange(a as int, b as int));
    }
    slice_chars(v, a, b)
}

/// Whether `pat` stands in `s` at place `i`.
pub open spec fn stands_at(s: Seq<char>, pat: Seq<char>, i: int) -> bool {
    0 <= i && i + pat.len() <= s.len() && s.subrange(i, i + pat.len()) == pat
}

/// The first place at or after `from` at which `pat` stands in `s`, or -1
/// where it stands at none.
pub open spec fn first_at(s: Seq<char>, pat: Seq<char>, from: int) -> int
    decreases s.len() - from,
{
    if from < 0 || from + pat.len() > s.len() {
        -1
    } else if pat.len() == 0 || stands_at(s, pat, from) {
        from
    } else {
        first_at(s, pat, from + 1)
    }
}

/// Whether `pat` stands in `v` at place `i`.
pub fn has_at(v: &Vec<char>, pat: &Vec<char>, i: usize) -> (b: bool)
    ensures
        b == stands_at(v@, pat@, i as int),
{
    if pat.len() > v.len() || i > v.len() - pat.len() {
        return false;
    }
    let mut k: usize = 0;
    while k < pat.len()
        invariant
            k <= pat.len(),
            i + pat.len() <= v.len(),
            forall|j: int| 0 <= j < k ==> v[i + j] == pat[j],
        decreases pat.len() - k,
    {
        if v[i + k] != pat[k] {
            assert(v@.subrange(i as int, i + pat.len())[k as int] != pat@[k as int]);
            return false;
        }
        k = k + 1;
    }
    assert(v@.subrange(i as int, i + pat.len()) =~= pat@);
    true
}

/// The first place at or after `from` at which `pat` stands in `v`.
pub fn find_from(v: &Vec<char>, pat: &Vec<char>, from: usize) -> (r: Option<usize>)
    ensures
        match r {
            Some(i) => first_at(v@, pat@, from as int) == i && from <= i && i + pat.len()
                <= v.len(),
            None => first_at(v@, pat@, from as int) == -1,
        },
{
    if pat.len() == 0 {
        return if from <= v.len() {
            Some(from)
        } else {
            None
        };
    }
    let mut i: usize = from;
    while i < v.len() && pat.len() <= v.len() - i
        invariant
            from <= i,
            pat.len() > 0,
            first_at(v@, pat@, from as int) == first_at(v@, pat@, i as int),
        decreases v.len() - i,
    {
        if has_at(v, pat, i) {
            return Some(i);
        }
        i = i + 1;
    }
    None
}

/// Whether `c` is a decimal digit.
pub open spec fn is_digit(c: char) -> bool {
    '0' <= c && c <= '9'
}

/// The value of the decimal digit `c`.
pub open spec fn digit_value(c: char) -> int {
    (c as u8) - 48
}

/// Whether `s` is made of decimal digits, and of one at least.
pub open spec fn all_digits(s: Seq<char>) -> bool {
    s.len() > 0 && forall|i: int| 0 <= i < s.len() ==> is_digit(#[trigger] s[i])
}

/// The number that the decimal digits `s` write.
pub open spec fn digits_value(s: Seq<char>) -> nat
    decreases s.len(),
{
    if s.len() == 0 {
        0
    } else {
        (digits_value(s.drop_last()) * 10 + digit_value(s.last())) as nat
    }
}

/// The integer that `s` writes: digits, with one sign before them or none.
pub open spec fn integer_value(s: Seq<char>) -> Option<int> {
    if s.len() > 0 && s[0] == '-' {
        if all_digits(s.skip(1)) {
            Some(-(digits_value(s.skip(1)) as int))
        } else {
            None
        }
    } else if s.len() > 0 && s[0] == '+' {
        if all_digits(s.skip(1)) {
            Some(digits_value(s.skip(1)) as int)
        } else {
            None
        }
    } else if all_digits(s) {
        Some(digits_value(s) as int)
    } else {
        None
    }
}

/// A longer number is no smaller.
proof fn lemma_digits_grow(s: Seq<char>, k: int)
    requires
        0 <= k <= s.len(),
        forall|i: int| 0 <= i < s.len() ==> is_digit(#[trigger] s[i]),
    ensures
        digits_value(s.take(k)) <= digits_value(s),
    decreases s.len() - k,
{
    if k == s.len() {
        assert(s.take(k) == s);
    } else {
        let front = s.drop_last();
        assert forall|i: int| 0 <= i < front.len() implies is_digit(#[trigger] front[i]) by {
            assert(front[i] == s[i]);
        }
        lemma_digits_grow(front, k);
        assert(front.take(k) == s.take(k));
        assert(is_digit(s[s.len() - 1]));
    }
}

/// The number that the digits of `v` from place `from` on write, where
/// they are digits, at least one, and the number is at most `limit`.
pub fn parse_digits(v: &Vec<char>, from: usize, limit: u64) -> (r: Option<u64>)
    requires
        from <= v.len(),
    ensures
        r == if all_digits(v@.skip(from as int)) && digits_value(v@.skip(from as int)) <= limit {
            Some(digits_value(v@.skip(from as int)) as u64)
        } else {
            None
        },
{
    let ghost s = v@.skip(from as int);
    if from == v.len() {
        return None;
    }
    let mut total: u64 = 0;
    let mut i: usize = from;
    proof {
        assert(s.take(0) =~= Seq::<char>::empty());
    }
    while i < v.len()
        invariant
            from <= i <= v.len(),
            s == v@.skip(from as int),
            forall|j: int| 0 <= j < i - from ==> is_digit(#[trigger] s[j]),
            total == digits_value(s.take(i - from)),
            total <= limit,
        decreases v.len() - i,
    {
        let c = v[i];
        assert(s[i - from] == c);
        if !('0' <= c && c <= '9') {
            return None;
        }
        let d = ((c as u8) - 48) as u64;
        proof {
            let part = s.take(i - from + 1);
            assert(part.drop_last() == s.take(i - from));
            assert(part.last() == c);
            assert(digits_value(part) == total * 10 + d);
        }
        if limit < d || total > (limit - d) / 10 {
            proof {
                let part = s.take(i - from + 1);
                assert(digits_value(part) > limit);
                if all_digits(s) {
                    lemma_digits_grow(s, i - from + 1);
                }
            }
            return None;
        }
        total = total * 10 + d;
        i = i + 1;
    }
    proof {
        assert(s.take(s.len() as int) == s);
    }
    Some(total)
}

/// The integer that `v` writes, where it writes one that fits.
pub fn parse_i64(v: &Vec<char>) -> (r: Option<i64>)
    ensures
        r == match integer_value(v@) {
            Some(x) => if i64::MIN <= x <= i64::MAX {
                Some(x as i64)
            } else {
                None
            },
            None => None,
        },
{
    if v.len() > 0 && v[0] == '-' {
        match parse_digits(v, 1, 9223372036854775808u64) {
            Some(m) => {
                if m == 9223372036854775808u64 {
                    Some(i64::MIN)
                } else {
                    Some(-(m as i64))
                }
            },
            None => None,
        }
    } else if v.len() > 0 && v[0] == '+' {
        match parse_digits(v, 1, 9223372036854775807u64) {
            Some(m) => Some(m as i64),
            None => None,
        }
    } else {
        proof {
            assert(v@.skip(0) == v@);
        }
        match parse_digits(v, 0, 9223372036854775807u64) {
            Some(m) => Some(m as i64),
            None => None,
        }
    }
}

/// The natural number that `v` writes, where it writes one that fits: a
/// plus sign may stand before the digits, a minus sign may not.
pub fn parse_u64(v: &Vec<char>) -> (r: Option<u64>)
    ensures
        r == match integer_value(v@) {
            Some(x) => if 0 <= x <= u64::MAX && !(v@.len() > 0 && v@[0] == '-') {
                Some(x as u64)
            } else {
                None
            },
            None => None,
        },
{
    if v.len() > 0 && v[0] == '-' {
        None
    } else if v.len() > 0 && v[0] == '+' {
        parse_digits(v, 1, u64::MAX)
    } else {
        proof {
            assert(v@.skip(0) == v@);
        }
        parse_digits(v, 0, u64::MAX)
    }
}

/// Each string of `names` by its characters.
pub open spec fn texts(names: Seq<String>) -> Seq<Seq<char>> {
    Seq::new(names.len(), |i: int| names[i]@)
}

/// A copy of a list of names.
pub fn copy_names(names: &Vec<String>) -> (copy: Vec<String>)
    ensures
        texts(copy@) == texts(names@),
{
    let mut copy: Vec<String> = Vec::new();
    let mut i: usize = 0;
    while i < names.len()
        invariant
            i <= names.len(),
            copy.len() == i,
            forall|j: int| 0 <= j < i ==> (#[trigger] copy[j])@ == names[j]@,
        decreases names.len() - i,
    {
        copy.push(names[i].clone());
        i = i + 1;
    }
    assert(texts(copy@) =~= texts(names@));
    copy
}

/// The character of the decimal digit `d`.
pub open spec fn digit_char(d: int) -> char {
    if d == 0 {
        '0'
    } else if d == 1 {
        '1'
    } else if d == 2 {
        '2'
    } else if d == 3 {
        '3'
    } else if d == 4 {
        '4'
    } else if d == 5 {
        '5'
    } else if d == 6 {
        '6'
    } else if d == 7 {
        '7'
    } else if d == 8 {
        '8'
    } else {
        '9'
    }
}

/// The decimal digits of `n`, without leading zeros.
pub open spec fn decimal_text(n: nat) -> Seq<char>
    decreases n,
{
    if n < 10 {
        seq![digit_char(n as int)]
    } else {
        decimal_text(n / 10).push(digit_char((n % 10) as int))
    }
}

/// The decimal text of an integer: a minus sign before the digits of a
/// negative one.
pub open spec fn signed_text(n: int) -> Seq<char> {
    if n < 0 {
        seq!['-'] + decimal_text((-n) as nat)
    } else {
        decimal_text(n as nat)
    }
}

fn digit_of(d: u64) -> (c: char)
    requires
        d < 10,
    ensures
        c == digit_char(d as int),
{
    if d == 0 {
        '0'
    } else if d == 1 {
        '1'
    } else if d == 2 {
        '2'
    } else if d == 3 {
        '3'
    } else if d == 4 {
        '4'
    } else if d == 5 {
        '5'
    } else if d == 6 {
        '6'
    } else if d == 7 {
        '7'
    } else if d == 8 {
        '8'
    } else {
        '9'
    }
}

/// The decimal digits of `n`.
pub fn decimal_chars(n: u64) -> (v: Vec<char>)
    ensures
        v@ == decimal_text(n as nat),
    decreases n,
{
    if n < 10 {
        let mut v: Vec<char> = Vec::new();
        v.push(digit_of(n));
        v
    } else {
        let mut v = decimal_chars(n / 10);
        v.push(digit_of(n % 10));
        v
    }
}

/// The decimal text of `n`.
pub fn decimal(n: u64) -> (s: String)
    ensures
        s@ == decimal_text(n as nat),
{
    let v = decimal_chars(n);
    from_chars(&v)
}

/// The decimal text of `n`, with a minus sign where it is negative.
pub fn signed_decimal(n: i64) -> (s: String)
    ensures
        s@ == signed_text(n as int),
{
    if n < 0 {
        let magnitude: u64 = if n == i64::MIN {
            9223372036854775808u64
        } else {
            (-n) as u64
        };
        let mut v: Vec<char> = Vec::new();
        v.push('-');
        let mut digits = decimal_chars(magnitude);
        v.append(&mut digits);
        from_chars(&v)
    } else {
        decimal(n as u64)
    }
}

/// Copies the names of `more` to the end of `names`.
pub fn append_names(names: &mut Vec<String>, more: &Vec<String>)
    ensures
        texts(final(names)@) == texts(old(names)@) + texts(more@),
{
    let ghost first = texts(names@);
    let mut i: usize = 0;
    while i < more.len()
        invariant
            i <= more.len(),
            texts(names@) == first + texts(more@).take(i as int),
        decreases more.len() - i,
    {
        let ghost before = texts(names@);
        names.push(more[i].clone());
        assert(texts(names@) =~= before.push(more[i as int]@));
        assert(texts(names@) =~= first + texts(more@).take(i + 1));
        i = i + 1;
    }
    assert(texts(more@).take(more.len() as int) =~= texts(more@));
}

/// `s` from place `at` on, with `to` in place of each `from` that stands
/// in it, read from the left; what follows a `from` is read after its
/// end. Where `from` is empty, nothing is replaced.
pub open spec fn replaced(s: Seq<char>, from: Seq<char>, to: Seq<char>, at: int) -> Seq<char>
    decreases s.len() - at,
{
    if at < 0 || at >= s.len() {
        Seq::empty()
    } else if from.len() == 0 {
        s.skip(at)
    } else if stands_at(s, from, at) {
        to + replaced(s, from, to, at + from.len())
    } else {
        seq![s[at]] + replaced(s, from, to, at + 1)
    }
}

/// `s` with `to` in place of each `from` that stands in it.
pub fn replace_all(s: &str, from: &str, to: &str) -> (r: String)
    ensures
        r@ == replaced(s@, from@, to@, 0),
{
    let v = to_chars(s);
    let pat = to_chars(from);
    let with = to_chars(to);
    if pat.len() == 0 {
        assert(v@.skip(0) =~= v@);
        assert(replaced(s@, from@, to@, 0) =~= v@);
        return from_chars(&v);
    }
    let mut out: Vec<char> = Vec::new();
    let mut i: usize = 0;
    while i < v.len()
        invariant
            i <= v.len(),
            v@ == s@,
            pat@ == from@,
            with@ == to@,
            pat.len() > 0,
            out@ + replaced(s@, from@, to@, i as int) == replaced(s@, from@, to@, 0),
        decreases v.len() - i,
    {
        let ghost before = out@;
        if has_at(&v, &pat, i) {
            let mut copy = to_chars(to);
            out.append(&mut copy);
            assert(out@ + replaced(s@, from@, to@, i + pat.len()) =~= before + replaced(
                s@,
                from@,
                to@,
                i as int,
            ));
            i = i + pat.len();
        } else {
            out.push(v[i]);
            assert(out@ + replaced(s@, from@, to@, i + 1) =~= before + replaced(
                s@,
                from@,
                to@,
                i as int,
            ));
            i = i + 1;
        }
    }
    assert(out@ + Seq::<char>::empty() =~= out@);
    from_chars(&out)
}

/// How `s` reads in upper case, as Unicode has it.
pub uninterp spec fn upper_text(s: Seq<char>) -> Seq<char>;

/// `str::to_uppercase`: the text in upper case, as Unicode has it. What
/// comes back depends on the text alone.
#[verifier::external_body]
pub(crate) fn upper_case(s: &str) -> (r: String)
    ensures
        r@ == upper_text(s@),
{
    s.to_uppercase()
}

/// How `s` reads in lower case, as Unicode has it.
pub uninterp spec fn lower_text(s: Seq<char>) -> Seq<char>;

/// `str::to_lowercase`: the text in lower case, as Unicode has it. What
/// comes back depends on the text alone.
#[verifier::external_body]
pub(crate) fn lower_case(s: &str) -> (r: String)
    ensures
        r@ == lower_text(s@),
{
    s.to_lowercase()
}

/// `a` followed by `b`.
pub fn join2(a: &str, b: &str) -> (s: String)
    ensures
        s@ == a@ + b@,
{
    let mut v = to_chars(a);
    let mut w = to_chars(b);
    v.append(&mut w);
    from_chars(&v)
}

/// `a`, then `b`, then `c`.
pub fn join3(a: &str, b: &str, c: &str) -> (s: String)
    ensures
        s@ == a@ + b@ + c@,
{
    let mut v = to_chars(a);
    let mut w = to_chars(b);
    let mut x = to_chars(c);
    v.append(&mut w);
    v.append(&mut x);
    from_chars(&v)
}

} // verus!
