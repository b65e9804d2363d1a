use vstd::prelude::*;
use vstd::string::*;

verus! {

/// A character with the Unicode `White_Space` property, the set that
/// `char::is_whitespace` tests for.
pub open spec fn is_space(c: char) -> bool {
    ('\u{9}' <= c && c <= '\u{d}') || c == ' ' || c == '\u{85}' || c == '\u{a0}'
        || c == '\u{1680}' || ('\u{2000}' <= c && c <= '\u{200a}') || c == '\u{2028}'
        || c == '\u{2029}' || c == '\u{202f}' || c == '\u{205f}' || c == '\u{3000}'
}

/// Whether `c` is a whitespace character.
pub fn is_space_char(c: char) -> (r: bool)
    ensures
        r == is_space(c),
{
    ('\u{9}' <= c && c <= '\u{d}') || c == ' ' || c == '\u{85}' || c == '\u{a0}'
        || c == '\u{1680}' || ('\u{2000}' <= c && c <= '\u{200a}') || c == '\u{2028}'
        || c == '\u{2029}' || c == '\u{202f}' || c == '\u{205f}' || c == '\u{3000}'
}

/// The characters of `s`, in order.
pub fn chars_of(s: &str) -> (r: Vec<char>)
    ensures
        r@ == s@,
{
    broadcast use vstd::string::group_string_axioms;

    let mut v: Vec<char> = Vec::new();
    for c in it: s.chars()
        invariant
            v@ == it.seq().take(it.index() as int),
    {
        v.push(c);
    }
    v
}

/// Whether `m` occurs in `s` at index `i`.
pub open spec fn occurs_at(s: Seq<char>, m: Seq<char>, i: int) -> bool {
    0 <= i && i + m.len() <= s.len() && s.subrange(i, i + m.len()) == m
}

/// The first index at or after `i` where `m` occurs in `s`.
pub open spec fn find_from(s: Seq<char>, m: Seq<char>, i: int) -> Option<int>
    decreases s.len() + 1 - i,
{
    if i < 0 || i + m.len() > s.len() {
        None
    } else if occurs_at(s, m, i) {
        Some(i)
    } else {
        find_from(s, m, i + 1)
    }
}

/// Whether `m` occurs in `s` at index `i`.
fn matches_at(s: &Vec<char>, m: &Vec<char>, i: usize) -> (r: bool)
    requires
        i + m@.len() <= s@.len(),
    ensures
        r == occurs_at(s@, m@, i as int),
{
    let n: usize = s.len();
    let mut j: usize = 0;
    while j < m.len()
        invariant
            n == s@.len(),
            i + m@.len() <= s@.len(),
            j <= m@.len(),
            forall|k: int| 0 <= k < j ==> s@[i + k] == m@[k],
        decreases m@.len() - j,
    {
        assert(i + j < s@.len());
        if s[i + j] != m[j] {
            assert(s@.subrange(i as int, i + m@.len())[j as int] != m@[j as int]);
            return false;
        }
        j = j + 1;
    }
    assert(s@.subrange(i as int, i + m@.len()) =~= m@);
    true
}

/// The first index at or after `i` where `m` occurs in `s`.
pub fn find_in(s: &Vec<char>, m: &Vec<char>, i: usize) -> (r: Option<usize>)
    ensures
        find_from(s@, m@, i as int) == (match r {
            Some(k) => Some(k as int),
            None => None,
        }),
        r matches Some(k) ==> i <= k && k + m@.len() <= s@.len(),
{
    if m.len() > s.len() {
        return None;
    }
    let last: usize = s.len() - m.len();
    let mut k: usize = i;
    while k <= last
        invariant
            i <= k,
            last + m@.len() == s@.len(),
            find_from(s@, m@, i as int) == find_from(s@, m@, k as int),
        decreases last + 1 - k,
    {
        if matches_at(s, m, k) {
            return Some(k);
        }
        if k == last {
            assert(find_from(s@, m@, k + 1) is None);
            return None;
        }
        k = k + 1;
    }
    None
}

/// The index at which the line that holds index `k` of `s` begins.
pub open spec fn line_start(s: Seq<char>, k: int) -> int
    decreases k,
{
    if k <= 0 {
        0
    } else if s[k - 1] == '\n' {
        k
    } else {
        line_start(s, k - 1)
    }
}

/// The index at which the line that holds index `k` of `s` ends: its line
/// break, or the end of `s`.
pub open spec fn line_end(s: Seq<char>, k: int) -> int
    decreases s.len() - k,
{
    if k >= s.len() {
        s.len() as int
    } else if s[k] == '\n' {
        k
    } else {
        line_end(s, k + 1)
    }
}

/// The line of `s` around the first occurrence of `m`: the text between the
/// line feeds on either side of it, a carriage return before the second one
/// included. Where `m` holds no line feed this is the first line that
/// contains `m`.
pub open spec fn first_line_with(s: Seq<char>, m: Seq<char>) -> Option<Seq<char>> {
    match find_from(s, m, 0) {
        Some(k) => Some(s.subrange(line_start(s, k), line_end(s, k))),
        None => None,
    }
}

/// The first line of `text` that contains `marker`.
pub fn line_containing(text: &str, marker: &str) -> (r: Option<String>)
    ensures
        first_line_with(text@, marker@) == (match r {
            Some(l) => Some(l@),
            None => None,
        }),
{
    let v = chars_of(text);
    let m = chars_of(marker);
    match find_in(&v, &m, 0) {
        None => None,
        Some(k) => {
            let mut a: usize = k;
            while a > 0 && v[a - 1] != '\n'
                invariant
                    a <= k <= v@.len(),
                    line_start(v@, k as int) == line_start(v@, a as int),
                decreases a,
            {
                a = a - 1;
            }
            let mut b: usize = k;
            while b < v.len() && v[b] != '\n'
                invariant
                    k <= b <= v@.len(),
                    line_end(v@, k as int) == line_end(v@, b as int),
                decreases v@.len() - b,
            {
                b = b + 1;
            }
            Some(text.substring_char(a, b).to_owned())
        },
    }
}

/// The first index at or after `i` that does not hold whitespace, or `i`
/// where `i` is past the end of `s`.
pub open spec fn skip_space(s: Seq<char>, i: int) -> int
    decreases s.len() - i,
{
    if i >= s.len() {
        i
    } else if is_space(s[i]) {
        skip_space(s, i + 1)
    } else {
        i
    }
}

/// The first index at or after `i` that holds whitespace, or the end of `s`.
pub open spec fn word_end(s: Seq<char>, i: int) -> int
    decreases s.len() - i,
{
    if i >= s.len() {
        i
    } else if is_space(s[i]) {
        i
    } else {
        word_end(s, i + 1)
    }
}

/// The word of `s` at position `n`, counted from 0, among the runs of
/// non-whitespace characters that start at or after `i`.
pub open spec fn nth_word(s: Seq<char>, i: int, n: nat) -> Option<Seq<char>>
    decreases n,
{
    let a = skip_space(s, i);
    if a >= s.len() {
        None
    } else {
        let b = word_end(s, a);
        if n == 0 {
            Some(s.subrange(a, b))
        } else {
            nth_word(s, b, (n - 1) as nat)
        }
    }
}

/// The word of `text` at position `n`, counted from 0, where words are the
/// maximal runs of non-whitespace characters.
pub fn word_at(text: &str, n: usize) -> (r: Option<String>)
    ensures
        nth_word(text@, 0, n as nat) == (match r {
            Some(w) => Some(w@),
            None => None,
        }),
{
    let v = chars_of(text);
    let mut pos: usize = 0;
    let mut left: usize = n;
    loop
        invariant
            pos <= v@.len(),
            v@ == text@,
            nth_word(v@, 0, n as nat) == nth_word(v@, pos as int, left as nat),
        decreases v@.len() - pos,
    {
        let mut a: usize = pos;
        while a < v.len() && is_space_char(v[a])
            invariant
                pos <= a <= v@.len(),
                skip_space(v@, pos as int) == skip_space(v@, a as int),
            decreases v@.len() - a,
        {
            a = a + 1;
        }
        if a >= v.len() {
            return None;
        }
        let mut b: usize = a + 1;
        while b < v.len() && !is_space_char(v[b])
            invariant
                a < b <= v@.len(),
                word_end(v@, a as int) == word_end(v@, b as int),
            decreases v@.len() - b,
        {
            b = b + 1;
        }
        if left == 0 {
            return Some(text.substring_char(a, b).to_owned());
        }
        left = left - 1;
        pos = b;
    }
}

/// An ASCII decimal digit.
pub open spec fn is_digit(c: char) -> bool {
    '0' <= c && c <= '9'
}

/// The value of a decimal digit.
pub open spec fn digit_value(c: char) -> int {
    c as int - '0' as int
}

/// The value of a string of decimal digits, most significant first.
pub open spec fn digits_value(d: Seq<char>) -> int
    decreases d.len(),
{
    if d.len() == 0 {
        0
    } else {
        10 * digits_value(d.drop_last()) + digit_value(d.last())
    }
}

/// Whether `d` is one or more decimal digits.
pub open spec fn all_digits(d: Seq<char>) -> bool {
    d.len() > 0 && forall|i: int| 0 <= i < d.len() ==> is_digit(#[trigger] d[i])
}

/// `t` without one leading `+` sign.
pub open spec fn unsigned_digits(t: Seq<char>) -> Seq<char> {
    if t.len() > 0 && t[0] == '+' {
        t.drop_first()
    } else {
        t
    }
}

/// The `u32` that `t` writes in decimal, with an optional leading `+`; `None`
/// where `t` writes no number or one that does not fit in a `u32`.
pub open spec fn parse_u32(t: Seq<char>) -> Option<u32> {
    let d = unsigned_digits(t);
    if all_digits(d) && digits_value(d) <= u32::MAX {
        Some(digits_value(d) as u32)
    } else {
        None
    }
}

/// A prefix of a string of digits is worth no more than the whole.
pub proof fn lemma_prefix_value(d: Seq<char>, j: int)
    requires
        0 <= j <= d.len(),
        forall|i: int| 0 <= i < d.len() ==> is_digit(#[trigger] d[i]),
    ensures
        0 <= digits_value(d.subrange(0, j)) <= digits_value(d),
    decreases d.len(),
{
    if j == d.len() {
        assert(d.subrange(0, j) =~= d);
        if d.len() > 0 {
            lemma_prefix_value(d.drop_last(), j - 1);
            assert(d.drop_last().subrange(0, j - 1) =~= d.drop_last());
            assert(is_digit(d[d.len() - 1]));
        }
    } else {
        let e = d.drop_last();
        assert(e.subrange(0, j) =~= d.subrange(0, j));
        lemma_prefix_value(e, j);
        assert(e.subrange(0, e.len() as int) =~= e);
        lemma_prefix_value(e, e.len() as int);
        assert(is_digit(d[d.len() - 1]));
    }
}

/// The `u32` that `text` writes in decimal, as `str::parse::<u32>` reads it.
pub fn parse_count(text: &str) -> (r: Option<u32>)
    ensures
        r == parse_u32(text@),
{
    let v = chars_of(text);
    let start: usize = if v.len() > 0 && v[0] == '+' { 1 } else { 0 };
    let ghost d = unsigned_digits(v@);
    assert(d =~= v@.subrange(start as int, v@.len() as int));
    if start == v.len() {
        return None;
    }
    let mut acc: u32 = 0;
    let mut j: usize = start;
    while j < v.len()
        invariant
            v@ == text@,
            d == unsigned_digits(text@),
            start < v@.len(),
            start <= j <= v@.len(),
            d == v@.subrange(start as int, v@.len() as int),
            acc as int == digits_value(v@.subrange(start as int, j as int)),
            forall|i: int| start <= i < j ==> is_digit(#[trigger] v@[i]),
        decreases v@.len() - j,
    {
        let c = v[j];
        if !('0' <= c && c <= '9') {
            assert(!is_digit(d[j - start]));
            assert(!all_digits(d));
            return None;
        }
        let ghost pre = v@.subrange(start as int, j + 1);
        assert(pre.drop_last() =~= v@.subrange(start as int, j as int));
        assert(pre.last() == c);
        let big: u64 = acc as u64 * 10 + (c as u32 - '0' as u32) as u64;
        assert(digit_value(c) == (c as u32 - '0' as u32) as int);
        assert(big as int == digits_value(pre));
        if big > u32::MAX as u64 {
            proof {
                if all_digits(d) {
                    assert(d.subrange(0, j + 1 - start) =~= pre);
                    lemma_prefix_value(d, j + 1 - start);
                }
            }
            return None;
        }
        acc = big as u32;
        j = j + 1;
    }
    assert(v@.subrange(start as int, j as int) =~= d);
    Some(acc)
}

/// The index just past the last non-whitespace character of `s` before `j`,
/// or `lo` where there is none from `lo` on.
pub open spec fn trim_back(s: Seq<char>, lo: int, j: int) -> int
    decreases j - lo,
{
    if j <= lo {
        lo
    } else if is_space(s[j - 1]) {
        trim_back(s, lo, j - 1)
    } else {
        j
    }
}

/// `s` without its leading and trailing whitespace.
pub open spec fn trim(s: Seq<char>) -> Seq<char> {
    let a = skip_space(s, 0);
    s.subrange(a, trim_back(s, a, s.len() as int))
}

/// `text` without its leading and trailing whitespace.
pub fn trim_text(text: &str) -> (r: String)
    ensures
        r@ == trim(text@),
{
    let v = chars_of(text);
    let mut a: usize = 0;
    while a < v.len() && is_space_char(v[a])
        invariant
            a <= v@.len(),
            skip_space(v@, 0) == skip_space(v@, a as int),
        decreases v@.len() - a,
    {
        a = a + 1;
    }
    let mut b: usize = v.len();
    while b > a && is_space_char(v[b - 1])
        invariant
            a <= b <= v@.len(),
            trim_back(v@, a as int, v@.len() as int) == trim_back(v@, a as int, b as int),
        decreases b,
    {
        b = b - 1;
    }
    text.substring_char(a, b).to_owned()
}

/// `f` as a list of one item, or the empty list where `f` is empty.
pub open spec fn keep_nonempty(f: Seq<char>) -> Seq<Seq<char>> {
    if f.len() == 0 {
        seq![]
    } else {
        seq![f]
    }
}

/// The comma-separated fields of `s` from `start` on, each trimmed, with the
/// empty ones left out, where no comma lies between `start` and `i`.
pub open spec fn fields_from(s: Seq<char>, start: int, i: int) -> Seq<Seq<char>>
    decreases s.len() - i,
{
    if i >= s.len() {
        keep_nonempty(trim(s.subrange(start, s.len() as int)))
    } else if s[i] == ',' {
        keep_nonempty(trim(s.subrange(start, i))) + fields_from(s, i + 1, i + 1)
    } else {
        fields_from(s, start, i + 1)
    }
}

/// The fields of `s` between commas, each trimmed, with the empty ones left
/// out.
pub open spec fn label_list(s: Seq<char>) -> Seq<Seq<char>> {
    fields_from(s, 0, 0)
}

/// The fields of `text` between commas, each trimmed, with the empty ones
/// left out.
pub fn split_labels(text: &str) -> (r: Vec<String>)
    ensures
        r.deep_view() == label_list(text@),
{
    let v = chars_of(text);
    let mut out: Vec<String> = Vec::new();
    let mut start: usize = 0;
    let mut i: usize = 0;
    while i < v.len()
        invariant
            v@ == text@,
            start <= i <= v@.len(),
            out.deep_view() + fields_from(v@, start as int, i as int) == label_list(v@),
        decreases v@.len() - i,
    {
        if v[i] == ',' {
            let piece = trim_text(text.substring_char(start, i));
            let ghost before = out.deep_view();
            if !piece.as_str().is_empty() {
                out.push(piece);
                assert(out.deep_view() =~= before + keep_nonempty(trim(v@.subrange(start as int, i as int))));
            } else {
                assert(out.deep_view() =~= before + keep_nonempty(trim(v@.subrange(start as int, i as int))));
            }
            assert(out.deep_view() + fields_from(v@, i + 1, i + 1) =~= before + fields_from(v@, start as int, i as int));
            start = i + 1;
        }
        i = i + 1;
    }
    let piece = trim_text(text.substring_char(start, v.len()));
    let ghost before = out.deep_view();
    if !piece.as_str().is_empty() {
        out.push(piece);
    }
    assert(out.deep_view() =~= before + fields_from(v@, start as int, i as int));
    out
}

} // verus!
