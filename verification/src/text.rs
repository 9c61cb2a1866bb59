//! Character-sequence utilities shared by the parser, the validator and the
//! generators: splitting on a separator, whitespace tokenization, inline
//! comment stripping, padding, ASCII case folding and decimal rendering.

use vstd::prelude::*;
use vstd::string::*;

verus! {

// ---------------------------------------------------------------------------
// Character classes
// ---------------------------------------------------------------------------
/// Whitespace that separates tokens inside one line.
pub open spec fn is_space_char(c: char) -> bool {
    c == ' ' || c == '\t' || c == '\r'
}

/// ASCII lower-casing of a single character; everything outside `A`..`Z` is
/// left unchanged.
pub open spec fn spec_lower_char(c: char) -> char {
    if 'A' <= c && c <= 'Z' {
        ((c as u32) + 32) as char
    } else {
        c
    }
}

/// ASCII lower-casing of a whole character sequence.
pub open spec fn spec_lower(s: Seq<char>) -> Seq<char> {
    s.map_values(|c: char| spec_lower_char(c))
}

// ---------------------------------------------------------------------------
// String equality
// ---------------------------------------------------------------------------
/// Character-by-character equality of two string slices.
pub fn str_eq(a: &str, b: &str) -> (r: bool)
    ensures
        r == (a@ == b@),
{
    let an: usize = a.unicode_len();
    let bn: usize = b.unicode_len();
    if an != bn {
        return false;
    }
    let mut i: usize = 0;
    while i < an
        invariant
            an == a@.len(),
            bn == b@.len(),
            an == bn,
            i <= an,
            forall|k: int| 0 <= k < i ==> a@[k] == b@[k],
        decreases an - i,
    {
        if a.get_char(i) != b.get_char(i) {
            return false;
        }
        i = i + 1;
    }
    proof {
        assert(a@ =~= b@);
    }
    true
}

/// Case-insensitive (ASCII) equality of two string slices.
pub fn str_eq_ignore_case(a: &str, b: &str) -> (r: bool)
    ensures
        r == (spec_lower(a@) == spec_lower(b@)),
{
    let an: usize = a.unicode_len();
    let bn: usize = b.unicode_len();
    proof {
        assert(spec_lower(a@).len() == a@.len());
        assert(spec_lower(b@).len() == b@.len());
    }
    if an != bn {
        return false;
    }
    let mut i: usize = 0;
    while i < an
        invariant
            an == a@.len(),
            bn == b@.len(),
            an == bn,
            i <= an,
            forall|k: int| 0 <= k < i ==> spec_lower(a@)[k] == spec_lower(b@)[k],
        decreases an - i,
    {
        let ca: u32 = lower_char_code(a.get_char(i));
        let cb: u32 = lower_char_code(b.get_char(i));
        proof {
            assert(spec_lower(a@)[i as int] == spec_lower_char(a@[i as int]));
            assert(spec_lower(b@)[i as int] == spec_lower_char(b@[i as int]));
        }
        if ca != cb {
            return false;
        }
        i = i + 1;
    }
    proof {
        assert(spec_lower(a@) =~= spec_lower(b@));
    }
    true
}

/// Code point of the ASCII-lowercased character.
fn lower_char_code(c: char) -> (r: u32)
    ensures
        r == spec_lower_char(c) as u32,
{
    let u: u32 = c as u32;
    if 65 <= u && u <= 90 {
        u + 32
    } else {
        u
    }
}

// ---------------------------------------------------------------------------
// Splitting on a separator character
// ---------------------------------------------------------------------------
/// The pieces of `s` between occurrences of `sep`; always at least one piece,
/// and `n` separators yield `n + 1` pieces (pieces may be empty).
pub open spec fn spec_split(s: Seq<char>, sep: char) -> Seq<Seq<char>>
    decreases s.len(),
{
    if s.len() == 0 {
        seq![Seq::<char>::empty()]
    } else if s[0] == sep {
        seq![Seq::<char>::empty()] + spec_split(s.drop_first(), sep)
    } else {
        let rest = spec_split(s.drop_first(), sep);
        seq![seq![s[0]] + rest[0]] + rest.drop_first()
    }
}

pub proof fn lemma_split_nonempty(s: Seq<char>, sep: char)
    ensures
        spec_split(s, sep).len() >= 1,
    decreases s.len(),
{
    if s.len() != 0 {
        lemma_split_nonempty(s.drop_first(), sep);
    }
}

/// If `s[0 .. k)` is free of `sep`, the split of `s` is `s[0 .. k)` followed
/// by the split of what comes after the separator at `k` (or just `s` itself
/// when no separator occurs at all, `k == s.len()`).
pub proof fn lemma_split_step(s: Seq<char>, sep: char, k: int)
    requires
        0 <= k <= s.len(),
        forall|t: int| 0 <= t < k ==> s[t] != sep,
        k < s.len() ==> s[k] == sep,
    ensures
        k < s.len() ==> spec_split(s, sep) == seq![s.take(k)] + spec_split(s.skip(k + 1), sep),
        k == s.len() ==> spec_split(s, sep) == seq![s],
    decreases s.len(),
{
    if s.len() == 0 {
        assert(s.take(0) =~= s);
        assert(spec_split(s, sep) =~~= seq![s]);
    } else if k == 0 {
        assert(s.skip(1) =~= s.drop_first());
        assert(s.take(0) =~= Seq::<char>::empty());
        assert(spec_split(s, sep) =~~= seq![s.take(0)] + spec_split(s.skip(1), sep));
    } else {
        let d = s.drop_first();
        assert(forall|t: int| 0 <= t < k - 1 ==> d[t] == s[t + 1] && d[t] != sep);
        lemma_split_step(d, sep, k - 1);
        let rest = spec_split(d, sep);
        if k < s.len() {
            assert(d[k - 1] == sep);
            assert(rest == seq![d.take(k - 1)] + spec_split(d.skip(k), sep));
            assert(d.skip(k) =~= s.skip(k + 1));
            assert(seq![s[0]] + d.take(k - 1) =~= s.take(k));
            assert(rest.drop_first() =~~= spec_split(d.skip(k), sep));
            assert(spec_split(s, sep) =~~= seq![s.take(k)] + spec_split(s.skip(k + 1), sep));
        } else {
            assert(rest == seq![d]);
            assert(seq![s[0]] + d =~= s);
            assert(rest.drop_first() =~~= Seq::<Seq<char>>::empty());
            assert(spec_split(s, sep) =~~= seq![s]);
        }
    }
}

/// Split `s` on every occurrence of `sep`.
pub fn split_on(s: &str, sep: char) -> (r: Vec<String>)
    ensures
        r.deep_view() == spec_split(s@, sep),
{
    let n: usize = s.unicode_len();
    let mut r: Vec<String> = Vec::new();
    let mut start: usize = 0;
    let mut i: usize = 0;
    proof {
        assert(s@.skip(0) =~= s@);
        assert(r.deep_view() =~= Seq::<Seq<char>>::empty());
        assert(spec_split(s@, sep) =~~= r.deep_view() + spec_split(s@.skip(0), sep));
    }
    while i < n
        invariant
            n == s@.len(),
            start <= i <= n,
            forall|t: int| start <= t < i ==> s@[t] != sep,
            spec_split(s@, sep) == r.deep_view() + spec_split(s@.skip(start as int), sep),
        decreases n - i,
    {
        if s.get_char(i) == sep {
            let ghost prev = r.deep_view();
            let piece = s.substring_char(start, i);
            r.push(String::from_str(piece));
            proof {
                let tail = s@.skip(start as int);
                assert(forall|t: int|
                    0 <= t < i - start ==> tail[t] == s@[start + t] && tail[t] != sep);
                assert(tail[i - start] == sep);
                lemma_split_step(tail, sep, i - start);
                assert(tail.take(i - start) =~= s@.subrange(start as int, i as int));
                assert(tail.skip(i - start + 1) =~= s@.skip(i + 1));
                assert(r.deep_view() =~= prev.push(piece@));
                assert(prev + (seq![piece@] + spec_split(s@.skip(i + 1), sep)) =~~= prev.push(
                    piece@,
                ) + spec_split(s@.skip(i + 1), sep));
            }
            start = i + 1;
        }
        i = i + 1;
    }
    let ghost prev = r.deep_view();
    let piece = s.substring_char(start, n);
    r.push(String::from_str(piece));
    proof {
        let tail = s@.skip(start as int);
        assert(forall|t: int| 0 <= t < tail.len() ==> tail[t] == s@[start + t] && tail[t] != sep);
        lemma_split_step(tail, sep, tail.len() as int);
        assert(tail =~= s@.subrange(start as int, n as int));
        assert(r.deep_view() =~= prev.push(piece@));
        assert(r.deep_view() =~~= prev + seq![tail]);
        assert(r.deep_view() =~~= spec_split(s@, sep));
    }
    r
}

// ---------------------------------------------------------------------------
// Inline comments
// ---------------------------------------------------------------------------
/// Everything before the first `;` of the line (the whole line when it has
/// no `;`).
pub open spec fn spec_strip_comment(s: Seq<char>) -> Seq<char>
    decreases s.len(),
{
    if s.len() == 0 {
        s
    } else if s[0] == ';' {
        Seq::empty()
    } else {
        seq![s[0]] + spec_strip_comment(s.drop_first())
    }
}

proof fn lemma_strip_comment_at(s: Seq<char>, k: int)
    requires
        0 <= k <= s.len(),
        forall|t: int| 0 <= t < k ==> s[t] != ';',
        k < s.len() ==> s[k] == ';',
    ensures
        spec_strip_comment(s) =~= s.take(k),
    decreases s.len(),
{
    if s.len() == 0 || k == 0 {
    } else {
        lemma_strip_comment_at(s.drop_first(), k - 1);
        assert(s.drop_first().take(k - 1) =~= s.take(k).drop_first());
        assert(seq![s[0]] + s.take(k).drop_first() =~= s.take(k));
    }
}

/// Strip the inline comment: the result is the text before the first `;`.
pub fn strip_comment<'a>(s: &'a str) -> (r: &'a str)
    ensures
        r@ == spec_strip_comment(s@),
{
    let n: usize = s.unicode_len();
    let mut k: usize = 0;
    while k < n && s.get_char(k) != ';'
        invariant
            n == s@.len(),
            k <= n,
            forall|t: int| 0 <= t < k ==> s@[t] != ';',
        decreases n - k,
    {
        k = k + 1;
    }
    proof {
        lemma_strip_comment_at(s@, k as int);
    }
    s.substring_char(0, k)
}

// ---------------------------------------------------------------------------
// Whitespace tokenization
// ---------------------------------------------------------------------------
/// The maximal whitespace-free words of `s`, in order.
pub open spec fn spec_tokens(s: Seq<char>) -> Seq<Seq<char>>
    decreases s.len(),
{
    if s.len() == 0 {
        Seq::empty()
    } else if is_space_char(s[0]) {
        spec_tokens(s.drop_first())
    } else {
        let rest = spec_tokens(s.drop_first());
        if s.len() > 1 && !is_space_char(s[1]) {
            seq![seq![s[0]] + rest[0]] + rest.drop_first()
        } else {
            seq![seq![s[0]]] + rest
        }
    }
}

proof fn lemma_tokens_space(s: Seq<char>, i: int)
    requires
        0 <= i < s.len(),
        is_space_char(s[i]),
    ensures
        spec_tokens(s.skip(i)) == spec_tokens(s.skip(i + 1)),
{
    assert(s.skip(i).drop_first() =~= s.skip(i + 1));
}

proof fn lemma_tokens_word(s: Seq<char>, i: int, j: int)
    requires
        0 <= i < j <= s.len(),
        forall|t: int| i <= t < j ==> !is_space_char(s[t]),
        j < s.len() ==> is_space_char(s[j]),
    ensures
        spec_tokens(s.skip(i)) =~= seq![s.subrange(i, j)] + spec_tokens(s.skip(j)),
    decreases j - i,
{
    let tail = s.skip(i);
    assert(tail[0] == s[i]);
    assert(tail.drop_first() =~= s.skip(i + 1));
    if j - i == 1 {
        if i + 1 < s.len() {
            assert(is_space_char(s[i + 1]));
            lemma_tokens_space(s, i + 1);
            assert(spec_tokens(s.skip(i + 1)) == spec_tokens(s.skip(j)));
            assert(seq![s[i]] =~= s.subrange(i, j));
        } else {
            assert(tail.len() == 1);
            assert(seq![s[i]] =~= s.subrange(i, j));
            assert(s.skip(j).len() == 0);
        }
    } else {
        lemma_tokens_word(s, i + 1, j);
        let rest = spec_tokens(s.skip(i + 1));
        assert(rest[0] == s.subrange(i + 1, j));
        assert(!is_space_char(s[i + 1]));
        assert(tail.len() > 1 && tail[1] == s[i + 1]);
        assert(seq![s[i]] + s.subrange(i + 1, j) =~= s.subrange(i, j));
        assert(rest.drop_first() =~= (seq![s.subrange(i + 1, j)] + spec_tokens(
            s.skip(j),
        )).drop_first());
    }
}

/// Split `s` into its whitespace-separated tokens.
pub fn tokenize(s: &str) -> (r: Vec<String>)
    ensures
        r.deep_view() == spec_tokens(s@),
{
    let n: usize = s.unicode_len();
    let mut r: Vec<String> = Vec::new();
    let mut i: usize = 0;
    proof {
        assert(s@.skip(0) =~= s@);
        assert(r.deep_view() =~= Seq::<Seq<char>>::empty());
        assert(spec_tokens(s@) =~~= r.deep_view() + spec_tokens(s@.skip(0)));
    }
    while i < n
        invariant
            n == s@.len(),
            i <= n,
            spec_tokens(s@) == r.deep_view() + spec_tokens(s@.skip(i as int)),
        decreases n - i,
    {
        let c = s.get_char(i);
        if c == ' ' || c == '\t' || c == '\r' {
            proof {
                lemma_tokens_space(s@, i as int);
            }
            i = i + 1;
        } else {
            let start: usize = i;
            let mut j: usize = i + 1;
            while j < n
                invariant
                    n == s@.len(),
                    start < j <= n,
                    forall|t: int| start <= t < j ==> !is_space_char(s@[t]),
                ensures
                    start < j <= n,
                    forall|t: int| start <= t < j ==> !is_space_char(s@[t]),
                    j == n || is_space_char(s@[j as int]),
                decreases n - j,
            {
                let d = s.get_char(j);
                if d == ' ' || d == '\t' || d == '\r' {
                    break ;
                }
                j = j + 1;
            }
            let ghost prev = r.deep_view();
            let word = s.substring_char(start, j);
            r.push(String::from_str(word));
            proof {
                lemma_tokens_word(s@, start as int, j as int);
                assert(word@ == s@.subrange(start as int, j as int));
                assert(r.deep_view() =~= prev.push(word@));
                assert(prev + (seq![word@] + spec_tokens(s@.skip(j as int))) =~~= prev.push(word@)
                    + spec_tokens(s@.skip(j as int)));
            }
            i = j;
        }
    }
    proof {
        assert(s@.skip(n as int).len() == 0);
        assert(r.deep_view() + spec_tokens(s@.skip(n as int)) =~~= r.deep_view());
        assert(r.deep_view() =~~= spec_tokens(s@));
    }
    r
}

// ---------------------------------------------------------------------------
// The text after the last dot
// ---------------------------------------------------------------------------
/// The suffix of `s` after its last `.` (all of `s` when it has no dot).
pub open spec fn spec_after_last_dot(s: Seq<char>) -> Seq<char>
    decreases s.len(),
{
    if s.len() == 0 {
        s
    } else if s.last() == '.' {
        Seq::empty()
    } else {
        spec_after_last_dot(s.drop_last()) + seq![s.last()]
    }
}

proof fn lemma_after_last_dot_at(s: Seq<char>, k: int)
    requires
        0 <= k <= s.len(),
        forall|t: int| k <= t < s.len() ==> s[t] != '.',
        k > 0 ==> s[k - 1] == '.',
    ensures
        spec_after_last_dot(s) =~= s.skip(k),
    decreases s.len(),
{
    if s.len() == 0 {
    } else if k == s.len() {
        assert(s.skip(k).len() == 0);
    } else {
        assert(s.last() != '.');
        lemma_after_last_dot_at(s.drop_last(), k);
        assert(s.drop_last().skip(k) =~= s.skip(k).drop_last());
        assert(s.skip(k).drop_last() + seq![s.last()] =~= s.skip(k));
    }
}

/// The suffix of `s` after its last `.`.
pub fn after_last_dot<'a>(s: &'a str) -> (r: &'a str)
    ensures
        r@ == spec_after_last_dot(s@),
{
    let n: usize = s.unicode_len();
    let mut k: usize = n;
    while k > 0 && s.get_char(k - 1) != '.'
        invariant
            n == s@.len(),
            k <= n,
            forall|t: int| k <= t < n ==> s@[t] != '.',
        decreases k,
    {
        k = k - 1;
    }
    proof {
        lemma_after_last_dot_at(s@, k as int);
        assert(s@.skip(k as int) =~= s@.subrange(k as int, n as int));
    }
    s.substring_char(k, n)
}

// ---------------------------------------------------------------------------
// Padding
// ---------------------------------------------------------------------------
/// `n` space characters (none when `n <= 0`).
pub open spec fn spec_spaces(n: int) -> Seq<char>
    decreases n,
{
    if n <= 0 {
        Seq::empty()
    } else {
        spec_spaces(n - 1) + seq![' ']
    }
}

pub proof fn lemma_spaces_len(n: int)
    ensures
        spec_spaces(n).len() == if n <= 0 {
            0
        } else {
            n
        },
    decreases n,
{
    if n > 0 {
        lemma_spaces_len(n - 1);
    }
}

/// Append `n` spaces to `out`.
pub fn append_spaces(out: &mut String, n: usize)
    ensures
        final(out)@ == old(out)@ + spec_spaces(n as int),
{
    let mut i: usize = 0;
    proof {
        reveal_strlit(" ");
    }
    while i < n
        invariant
            i <= n,
            out@ == old(out)@ + spec_spaces(i as int),
            " "@ =~= seq![' '],
        decreases n - i,
    {
        out.append(" ");
        i = i + 1;
    }
    proof {
        assert(out@ =~= old(out)@ + spec_spaces(n as int));
    }
}

// ---------------------------------------------------------------------------
// Decimal rendering
// ---------------------------------------------------------------------------
/// The decimal digit character for `d` (which must be below ten).
pub open spec fn spec_digit(d: int) -> Seq<char> {
    if d == 0 {
        "0"@
    } else if d == 1 {
        "1"@
    } else if d == 2 {
        "2"@
    } else if d == 3 {
        "3"@
    } else if d == 4 {
        "4"@
    } else if d == 5 {
        "5"@
    } else if d == 6 {
        "6"@
    } else if d == 7 {
        "7"@
    } else if d == 8 {
        "8"@
    } else {
        "9"@
    }
}

/// The usual decimal numeral for `n`, without leading zeros.
pub open spec fn spec_decimal(n: int) -> Seq<char>
    decreases n,
{
    if n < 10 {
        spec_digit(n)
    } else {
        spec_decimal(n / 10) + spec_digit(n % 10)
    }
}

fn digit_str(d: usize) -> (r: &'static str)
    requires
        d < 10,
    ensures
        r@ == spec_digit(d as int),
{
    if d == 0 {
        "0"
    } else if d == 1 {
        "1"
    } else if d == 2 {
        "2"
    } else if d == 3 {
        "3"
    } else if d == 4 {
        "4"
    } else if d == 5 {
        "5"
    } else if d == 6 {
        "6"
    } else if d == 7 {
        "7"
    } else if d == 8 {
        "8"
    } else {
        "9"
    }
}

/// Render `n` as a decimal numeral.
pub fn usize_to_string(n: usize) -> (r: String)
    ensures
        r@ == spec_decimal(n as int),
    decreases n,
{
    if n < 10 {
        String::from_str(digit_str(n))
    } else {
        let mut r = usize_to_string(n / 10);
        r.append(digit_str(n % 10));
        r
    }
}

} // verus!
