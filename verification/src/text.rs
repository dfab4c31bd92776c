//! Character-sequence utilities shared by the classifier, the history
//! renderer and the persistence codec: whitespace trimming, ASCII
//! lower-casing, tokenising, and decimal parsing/printing.
use vstd::prelude::*;

verus! {

/// The characters that input trimming, token splitting and word counting
/// treat as separators: the Unicode white-space set.
pub open spec fn is_space(c: char) -> bool {
    ||| ('\u{0009}' <= c && c <= '\u{000D}')
    ||| c == ' '
    ||| c == '\u{0085}'
    ||| c == '\u{00A0}'
    ||| c == '\u{1680}'
    ||| ('\u{2000}' <= c && c <= '\u{200A}')
    ||| c == '\u{2028}'
    ||| c == '\u{2029}'
    ||| c == '\u{202F}'
    ||| c == '\u{205F}'
    ||| c == '\u{3000}'
}

pub fn space_char(c: char) -> (r: bool)
    ensures
        r == is_space(c),
{
    ('\u{0009}' <= c && c <= '\u{000D}') || c == ' ' || c == '\u{0085}' || c == '\u{00A0}' || c
        == '\u{1680}' || ('\u{2000}' <= c && c <= '\u{200A}') || c == '\u{2028}' || c == '\u{2029}'
        || c == '\u{202F}' || c == '\u{205F}' || c == '\u{3000}'
}

/// ASCII lower-casing of a single character; non-ASCII characters are kept.
pub open spec fn lower_char(c: char) -> char {
    match c {
        'A' => 'a',
        'B' => 'b',
        'C' => 'c',
        'D' => 'd',
        'E' => 'e',
        'F' => 'f',
        'G' => 'g',
        'H' => 'h',
        'I' => 'i',
        'J' => 'j',
        'K' => 'k',
        'L' => 'l',
        'M' => 'm',
        'N' => 'n',
        'O' => 'o',
        'P' => 'p',
        'Q' => 'q',
        'R' => 'r',
        'S' => 's',
        'T' => 't',
        'U' => 'u',
        'V' => 'v',
        'W' => 'w',
        'X' => 'x',
        'Y' => 'y',
        'Z' => 'z',
        _ => c,
    }
}

pub fn lower_char_exec(c: char) -> (r: char)
    ensures
        r == lower_char(c),
{
    match c {
        'A' => 'a',
        'B' => 'b',
        'C' => 'c',
        'D' => 'd',
        'E' => 'e',
        'F' => 'f',
        'G' => 'g',
        'H' => 'h',
        'I' => 'i',
        'J' => 'j',
        'K' => 'k',
        'L' => 'l',
        'M' => 'm',
        'N' => 'n',
        'O' => 'o',
        'P' => 'p',
        'Q' => 'q',
        'R' => 'r',
        'S' => 's',
        'T' => 't',
        'U' => 'u',
        'V' => 'v',
        'W' => 'w',
        'X' => 'x',
        'Y' => 'y',
        'Z' => 'z',
        _ => c,
    }
}

/// Lower-cases every character of a sequence.
pub open spec fn lower(s: Seq<char>) -> Seq<char> {
    s.map_values(|c: char| lower_char(c))
}

/// Trims leading and trailing whitespace from a sequence.
pub open spec fn trim(s: Seq<char>) -> Seq<char>
    decreases s.len(),
{
    if s.len() == 0 {
        s
    } else if is_space(s[0]) {
        trim(s.drop_first())
    } else if is_space(s[s.len() - 1]) {
        trim(s.drop_last())
    } else {
        s
    }
}

/// Reads a string slice out into a vector of its characters.
pub fn chars_of(s: &str) -> (r: Vec<char>)
    ensures
        r@ == s@,
{
    let n = s.unicode_len();
    let mut r: Vec<char> = Vec::new();
    let mut i: usize = 0;
    while i < n
        invariant
            n == s@.len(),
            i <= n,
            r@ == s@.take(i as int),
        decreases n - i,
    {
        r.push(s.get_char(i));
        i += 1;
        proof {
            assert(r@ =~= s@.take(i as int));
        }
    }
    proof {
        assert(r@ =~= s@);
    }
    r
}

/// Trims a character vector: the result is `trim` of its view.
pub fn trim_chars(v: &Vec<char>) -> (r: Vec<char>)
    ensures
        r@ == trim(v@),
{
    let mut lo: usize = 0;
    let mut hi: usize = v.len();
    proof {
        assert(v@.subrange(0, v@.len() as int) =~= v@);
    }
    while lo < hi && space_char(v[lo])
        invariant
            lo <= hi <= v@.len(),
            trim(v@) == trim(v@.subrange(lo as int, hi as int)),
            hi == v@.len(),
        decreases hi - lo,
    {
        proof {
            assert(v@.subrange(lo as int, hi as int).drop_first() =~= v@.subrange(
                lo as int + 1,
                hi as int,
            ));
        }
        lo += 1;
    }
    while lo < hi && space_char(v[hi - 1])
        invariant
            lo <= hi <= v@.len(),
            trim(v@) == trim(v@.subrange(lo as int, hi as int)),
            lo < hi ==> !is_space(v@[lo as int]),
        decreases hi,
    {
        proof {
            assert(v@.subrange(lo as int, hi as int).drop_last() =~= v@.subrange(
                lo as int,
                hi as int - 1,
            ));
        }
        hi -= 1;
    }
    let mut r: Vec<char> = Vec::new();
    let mut i: usize = lo;
    while i < hi
        invariant
            lo <= i <= hi <= v@.len(),
            r@ == v@.subrange(lo as int, i as int),
        decreases hi - i,
    {
        r.push(v[i]);
        proof {
            assert(r@ =~= v@.subrange(lo as int, i as int + 1));
        }
        i += 1;
    }
    proof {
        let t = v@.subrange(lo as int, hi as int);
        assert(r@ =~= t);
        assert(trim(t) =~= t);
    }
    r
}

/// Lower-cases a character vector.
pub fn lower_chars(v: &Vec<char>) -> (r: Vec<char>)
    ensures
        r@ == lower(v@),
{
    let mut r: Vec<char> = Vec::new();
    let mut i: usize = 0;
    while i < v.len()
        invariant
            i <= v@.len(),
            r@ == lower(v@.take(i as int)),
        decreases v@.len() - i,
    {
        r.push(lower_char_exec(v[i]));
        i += 1;
        proof {
            assert(r@ =~= lower(v@.take(i as int)));
        }
    }
    proof {
        assert(r@ =~= lower(v@));
    }
    r
}

/// Whether a character vector reads exactly as a given string slice.
pub fn chars_eq_str(v: &Vec<char>, s: &str) -> (r: bool)
    ensures
        r == (v@ == s@),
{
    let n = s.unicode_len();
    if v.len() != n {
        proof {
            assert(v@ != s@);
        }
        return false;
    }
    let mut i: usize = 0;
    while i < n
        invariant
            n == s@.len() == v@.len(),
            i <= n,
            forall|j: int| 0 <= j < i ==> v@[j] == s@[j],
        decreases n - i,
    {
        if v[i] != s.get_char(i) {
            proof {
                assert(v@ != s@);
            }
            return false;
        }
        i += 1;
    }
    proof {
        assert(v@ =~= s@);
    }
    true
}

/// Length of the leading run of non-whitespace characters.
pub open spec fn token_len(s: Seq<char>) -> nat
    decreases s.len(),
{
    if s.len() == 0 || is_space(s[0]) {
        0
    } else {
        1 + token_len(s.drop_first())
    }
}

pub proof fn lemma_token_len_bounds(s: Seq<char>)
    ensures
        token_len(s) <= s.len(),
        s.len() > 0 && !is_space(s[0]) ==> token_len(s) >= 1,
    decreases s.len(),
{
    if s.len() > 0 && !is_space(s[0]) {
        lemma_token_len_bounds(s.drop_first());
    }
}

/// The characters of a token's cell are exactly the leading non-space run:
/// `token_len(s)` is the unique `k` with non-spaces before it and a space
/// (or the end) at it.
pub proof fn lemma_token_len_is(s: Seq<char>, k: int)
    requires
        0 <= k <= s.len(),
        forall|j: int| 0 <= j < k ==> !is_space(s[j]),
        k == s.len() || is_space(s[k]),
    ensures
        token_len(s) == k,
    decreases s.len(),
{
    if k > 0 {
        let t = s.drop_first();
        lemma_token_len_is(t, k - 1);
    }
}

/// The whitespace-separated tokens of a sequence, in order.
pub open spec fn tokens(s: Seq<char>) -> Seq<Seq<char>>
    decreases s.len(),
    via tokens_dec
{
    if s.len() == 0 {
        Seq::empty()
    } else if is_space(s[0]) {
        tokens(s.drop_first())
    } else {
        seq![s.take(token_len(s) as int)] + tokens(s.skip(token_len(s) as int))
    }
}

#[via_fn]
proof fn tokens_dec(s: Seq<char>) {
    if s.len() > 0 && !is_space(s[0]) {
        lemma_token_len_bounds(s);
    }
}

pub open spec fn is_digit(c: char) -> bool {
    '0' <= c && c <= '9'
}

pub open spec fn digit_val(c: char) -> nat {
    (c as u32 - '0' as u32) as nat
}

pub open spec fn all_digits(s: Seq<char>) -> bool {
    s.len() >= 1 && forall|i: int| 0 <= i < s.len() ==> is_digit(#[trigger] s[i])
}

/// Value of a digit string, most significant digit first.
pub open spec fn digits_val(s: Seq<char>) -> nat
    decreases s.len(),
{
    if s.len() == 0 {
        0
    } else {
        digits_val(s.drop_last()) * 10 + digit_val(s[s.len() - 1])
    }
}

/// Decimal parse of one token as an unsigned 16-bit integer: all digits,
/// value at most 65535 (leading zeros allowed).
pub open spec fn parse_u16(s: Seq<char>) -> Option<u16> {
    if all_digits(s) && digits_val(s) <= 65535 {
        Some(digits_val(s) as u16)
    } else {
        None
    }
}

/// The value of the first token that parses as an unsigned 16-bit integer.
pub open spec fn first_id_token(toks: Seq<Seq<char>>) -> Option<u16>
    decreases toks.len(),
{
    if toks.len() == 0 {
        Option::None
    } else if parse_u16(toks[0]) is Some {
        parse_u16(toks[0])
    } else {
        first_id_token(toks.drop_first())
    }
}

pub open spec fn contains_at(hay: Seq<char>, needle: Seq<char>, i: int) -> bool {
    0 <= i && i + needle.len() <= hay.len() && hay.subrange(i, i + needle.len()) == needle
}

/// Whether `needle` occurs as a contiguous subsequence of `hay`.
pub open spec fn seq_contains(hay: Seq<char>, needle: Seq<char>) -> bool {
    exists|i: int| contains_at(hay, needle, i)
}

/// Substring search: whether the characters of `needle` occur contiguously
/// in `hay`.
pub fn chars_contain_str(hay: &Vec<char>, needle: &str) -> (r: bool)
    ensures
        r == seq_contains(hay@, needle@),
{
    let m = needle.unicode_len();
    if m > hay.len() {
        proof {
            assert(forall|i: int| !contains_at(hay@, needle@, i));
        }
        return false;
    }
    if m == 0 {
        proof {
            assert(hay@.subrange(0, 0) =~= needle@);
            assert(contains_at(hay@, needle@, 0));
        }
        return true;
    }
    let last = hay.len() - m;
    let mut i: usize = 0;
    loop
        invariant
            m >= 1,
            m == needle@.len(),
            m <= hay@.len(),
            hay@.len() <= usize::MAX,
            last == hay@.len() - m,
            0 <= i <= last + 1,
            forall|k: int| 0 <= k < i ==> !contains_at(hay@, needle@, k),
        decreases last + 1 - i,
    {
        if i > last {
            proof {
                assert(forall|k: int| !contains_at(hay@, needle@, k));
            }
            return false;
        }
        let mut j: usize = 0;
        let mut matches = true;
        while j < m
            invariant
                m == needle@.len(),
                m <= hay@.len(),
                hay@.len() <= usize::MAX,
                last == hay@.len() - m,
                0 <= i <= last,
                j <= m,
                matches ==> forall|t: int| 0 <= t < j ==> hay@[i + t] == needle@[t],
                !matches ==> !contains_at(hay@, needle@, i as int),
            decreases m - j,
        {
            if hay[i + j] != needle.get_char(j) {
                proof {
                    if contains_at(hay@, needle@, i as int) {
                        assert(hay@.subrange(i as int, i + needle@.len())[j as int]
                            == needle@[j as int]);
                    }
                }
                matches = false;
                j = m;
            } else {
                j += 1;
            }
        }
        if matches {
            proof {
                assert(hay@.subrange(i as int, i + needle@.len()) =~= needle@);
                assert(contains_at(hay@, needle@, i as int));
            }
            return true;
        }
        i += 1;
    }
}

/// Skipping a leading space keeps the token list.
pub proof fn lemma_tokens_skip_space(s: Seq<char>, i: int)
    requires
        0 <= i < s.len(),
        is_space(s[i]),
    ensures
        tokens(s.skip(i)) == tokens(s.skip(i + 1)),
{
    assert(s.skip(i).drop_first() =~= s.skip(i + 1));
}

/// At a non-space position the token list starts with the run up to the
/// next space (or the end), followed by the tokens of the rest.
pub proof fn lemma_tokens_split(s: Seq<char>, i: int, e: int)
    requires
        0 <= i < e <= s.len(),
        forall|j: int| i <= j < e ==> !is_space(s[j]),
        e == s.len() || is_space(s[e]),
    ensures
        tokens(s.skip(i)) == seq![s.subrange(i, e)] + tokens(s.skip(e)),
{
    let t = s.skip(i);
    lemma_token_len_is(t, e - i);
    assert(t.take(e - i) =~= s.subrange(i, e));
    assert(t.skip(e - i) =~= s.skip(e));
}

/// Scans whitespace-separated tokens and returns the value of the first one
/// that parses as an unsigned 16-bit integer.
pub fn first_id_in_chars(v: &Vec<char>) -> (r: Option<u16>)
    ensures
        r == first_id_token(tokens(v@)),
{
    let n = v.len();
    let mut i: usize = 0;
    proof {
        assert(v@.skip(0) =~= v@);
    }
    while i < n
        invariant
            n == v@.len(),
            0 <= i <= n,
            first_id_token(tokens(v@)) == first_id_token(tokens(v@.skip(i as int))),
        decreases n - i,
    {
        if space_char(v[i]) {
            proof {
                lemma_tokens_skip_space(v@, i as int);
            }
            i += 1;
        } else {
            let mut e: usize = i + 1;
            while e < n && !space_char(v[e])
                invariant
                    n == v@.len(),
                    i < e <= n,
                    forall|j: int| i <= j < e ==> !is_space(v@[j]),
                decreases n - e,
            {
                e += 1;
            }
            proof {
                lemma_tokens_split(v@, i as int, e as int);
            }
            let parsed = parse_u16_range(v, i, e);
            if parsed.is_some() {
                return parsed;
            }
            proof {
                assert(tokens(v@.skip(i as int)).drop_first() =~= tokens(v@.skip(e as int)));
            }
            i = e;
        }
    }
    proof {
        assert(v@.skip(n as int) =~= Seq::<char>::empty());
    }
    Option::None
}

/// Decimal parse of `v[from..to]` as an unsigned 16-bit integer.
pub fn parse_u16_range(v: &Vec<char>, from: usize, to: usize) -> (r: Option<u16>)
    requires
        from < to <= v@.len(),
    ensures
        r == parse_u16(v@.subrange(from as int, to as int)),
{
    let ghost s = v@.subrange(from as int, to as int);
    let mut val: u32 = 0;
    let mut i: usize = from;
    while i < to
        invariant
            from <= i <= to <= v@.len(),
            s == v@.subrange(from as int, to as int),
            forall|j: int| 0 <= j < i - from ==> is_digit(#[trigger] s[j]),
            digits_val(s.take(i - from)) <= 65535 ==> val == digits_val(s.take(i - from)),
            digits_val(s.take(i - from)) > 65535 ==> val == 65536,
        decreases to - i,
    {
        let c = v[i];
        if !('0' <= c && c <= '9') {
            proof {
                assert(s[i - from] == c);
                assert(!all_digits(s));
            }
            return Option::None;
        }
        let d = (c as u32) - ('0' as u32);
        proof {
            let k = i - from;
            assert(s.take(k + 1).drop_last() =~= s.take(k));
            assert(s.take(k + 1)[k] == s[k] == c);
        }
        if val <= 65535 {
            val = val * 10 + d;
            if val > 65535 {
                val = 65536;
            }
        }
        i += 1;
    }
    proof {
        assert(s.take(to - from) =~= s);
        assert(all_digits(s));
    }
    if val <= 65535 {
        Option::Some(val as u16)
    } else {
        Option::None
    }
}

/// The digit part of a selection number: an optional single leading plus
/// sign is not part of the value.
pub open spec fn selection_digits(s: Seq<char>) -> Seq<char> {
    if s.len() >= 1 && s[0] == '+' {
        s.drop_first()
    } else {
        s
    }
}

/// Whether a token reads as a non-negative decimal number: all digits,
/// after at most one leading plus sign.
pub open spec fn is_selection_number(s: Seq<char>) -> bool {
    all_digits(selection_digits(s))
}

/// Decimal parse of a whole vector as a 1-based selection into `n`
/// options: a non-negative number (optional leading plus sign) between 1
/// and `n` selects the zero-based entry one below the value.
pub fn parse_selection(v: &Vec<char>, n: usize) -> (r: Option<usize>)
    requires
        n <= 0xFFFF_FFFF,
    ensures
        match r {
            Option::Some(k) => is_selection_number(v@) && 1 <= digits_val(selection_digits(v@))
                <= n && k + 1 == digits_val(selection_digits(v@)),
            Option::None => !(is_selection_number(v@) && 1 <= digits_val(selection_digits(v@))
                <= n),
        },
{
    let ghost ds = selection_digits(v@);
    let len = v.len();
    let start: usize = if len >= 1 && v[0] == '+' {
        1
    } else {
        0
    };
    proof {
        assert(ds =~= v@.skip(start as int));
    }
    let nb: u64 = n as u64;
    let mut val: u64 = 0;
    let mut i: usize = start;
    while i < len
        invariant
            len == v@.len(),
            start <= i <= len,
            n <= 0xFFFF_FFFF,
            nb == n as u64,
            ds == selection_digits(v@),
            ds == v@.skip(start as int),
            forall|j: int| 0 <= j < i - start ==> is_digit(#[trigger] ds[j]),
            digits_val(ds.take(i - start)) <= nb ==> val == digits_val(ds.take(i - start)),
            digits_val(ds.take(i - start)) > nb ==> val == nb + 1,
        decreases len - i,
    {
        let c = v[i];
        if !('0' <= c && c <= '9') {
            proof {
                assert(ds[i - start] == c);
                assert(!all_digits(ds));
            }
            return Option::None;
        }
        let d = (c as u32 - '0' as u32) as u64;
        proof {
            let k = i - start;
            assert(ds.take(k + 1).drop_last() =~= ds.take(k));
            assert(ds.take(k + 1)[k] == ds[k] == c);
        }
        if val <= nb {
            val = val * 10 + d;
            if val > nb {
                val = nb + 1;
            }
        }
        i += 1;
    }
    proof {
        assert(ds.take(len - start) =~= ds);
    }
    if len - start >= 1 && val >= 1 && val <= nb {
        Option::Some((val - 1) as usize)
    } else {
        Option::None
    }
}

/// The digit character for a value below ten.
pub open spec fn digit_char(d: nat) -> char {
    if d == 0 {
        '0'
    } else if d == 1 {
        '1'
    } else if d == 2 {
        '2'
    } else if d == 3 {
        '3'
    } else if d == 4 {
        '4'
    } else if d == 5 {
        '5'
    } else if d == 6 {
        '6'
    } else if d == 7 {
        '7'
    } else if d == 8 {
        '8'
    } else {
        '9'
    }
}

/// The decimal rendering of a number, most significant digit first, no
/// leading zeros (zero itself renders as "0").
pub open spec fn dec_digits(n: nat) -> Seq<char>
    decreases n,
{
    if n < 10 {
        seq![digit_char(n)]
    } else {
        dec_digits(n / 10) + seq![digit_char(n % 10)]
    }
}

fn digit_char_exec(d: usize) -> (r: char)
    requires
        d < 10,
    ensures
        r == digit_char(d as nat),
{
    if d == 0 {
        '0'
    } else if d == 1 {
        '1'
    } else if d == 2 {
        '2'
    } else if d == 3 {
        '3'
    } else if d == 4 {
        '4'
    } else if d == 5 {
        '5'
    } else if d == 6 {
        '6'
    } else if d == 7 {
        '7'
    } else if d == 8 {
        '8'
    } else {
        '9'
    }
}

/// Renders a number in decimal.
pub fn usize_to_chars(n: usize) -> (r: Vec<char>)
    ensures
        r@ == dec_digits(n as nat),
{
    let mut m = n;
    let mut r: Vec<char> = Vec::new();
    if m < 10 {
        r.push(digit_char_exec(m));
        return r;
    }
    while m > 0
        invariant
            m > 0 ==> dec_digits(n as nat) == dec_digits(m as nat) + r@,
            m == 0 ==> dec_digits(n as nat) == r@,
        decreases m,
    {
        let d = m % 10;
        r.insert(0, digit_char_exec(d));
        proof {
            if m >= 10 {
                assert(dec_digits(m as nat) == dec_digits((m / 10) as nat) + seq![
                    digit_char((m % 10) as nat),
                ]);
                assert(dec_digits((m / 10) as nat) + (seq![digit_char((m % 10) as nat)] + r@)
                    =~= (dec_digits((m / 10) as nat) + seq![digit_char((m % 10) as nat)]) + r@);
            }
        }
        m = m / 10;
    }
    r
}

/// The number of whitespace-separated words in a sequence.
pub open spec fn word_count(s: Seq<char>) -> nat {
    tokens(s).len()
}

pub proof fn lemma_tokens_len(s: Seq<char>)
    ensures
        tokens(s).len() <= s.len(),
    decreases s.len(),
{
    if s.len() > 0 {
        if is_space(s[0]) {
            lemma_tokens_len(s.drop_first());
        } else {
            lemma_token_len_bounds(s);
            lemma_tokens_len(s.skip(token_len(s) as int));
        }
    }
}

/// Counts whitespace-separated words.
pub fn count_words(v: &Vec<char>) -> (r: usize)
    ensures
        r == word_count(v@),
{
    let n = v.len();
    let mut count: usize = 0;
    let mut i: usize = 0;
    proof {
        assert(v@.skip(0) =~= v@);
        lemma_tokens_len(v@);
    }
    while i < n
        invariant
            n == v@.len(),
            0 <= i <= n,
            count + tokens(v@.skip(i as int)).len() == tokens(v@).len(),
            tokens(v@).len() <= n,
        decreases n - i,
    {
        if space_char(v[i]) {
            proof {
                lemma_tokens_skip_space(v@, i as int);
            }
            i += 1;
        } else {
            let mut e: usize = i + 1;
            while e < n && !space_char(v[e])
                invariant
                    n == v@.len(),
                    i < e <= n,
                    forall|j: int| i <= j < e ==> !is_space(v@[j]),
                decreases n - e,
            {
                e += 1;
            }
            proof {
                lemma_tokens_split(v@, i as int, e as int);
            }
            count += 1;
            i = e;
        }
    }
    proof {
        assert(v@.skip(n as int) =~= Seq::<char>::empty());
    }
    count
}

/// Relies on `String`'s `FromIterator<char>`: collecting characters yields
/// the string holding exactly those characters in order.
#[verifier::external_body]
pub fn chars_to_string(v: &Vec<char>) -> (r: String)
    ensures
        r@ == v@,
{
    v.iter().collect()
}

/// Appends every character of a string slice.
pub fn push_str_chars(dst: &mut Vec<char>, s: &str)
    ensures
        final(dst)@ == old(dst)@ + s@,
{
    let n = s.unicode_len();
    let mut i: usize = 0;
    while i < n
        invariant
            n == s@.len(),
            i <= n,
            dst@ == old(dst)@ + s@.take(i as int),
        decreases n - i,
    {
        dst.push(s.get_char(i));
        i += 1;
        proof {
            assert(old(dst)@ + s@.take(i as int) =~= dst@);
        }
    }
    proof {
        assert(old(dst)@ + s@.take(n as int) =~= old(dst)@ + s@);
    }
}

/// Appends every character of another vector.
pub fn push_chars(dst: &mut Vec<char>, src: &Vec<char>)
    ensures
        final(dst)@ == old(dst)@ + src@,
{
    let n = src.len();
    let mut i: usize = 0;
    while i < n
        invariant
            n == src@.len(),
            i <= n,
            dst@ == old(dst)@ + src@.take(i as int),
        decreases n - i,
    {
        dst.push(src[i]);
        i += 1;
        proof {
            assert(old(dst)@ + src@.take(i as int) =~= dst@);
        }
    }
    proof {
        assert(old(dst)@ + src@.take(n as int) =~= old(dst)@ + src@);
    }
}

} // verus!
