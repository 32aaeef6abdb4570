//! Character-level text helpers shared by the OBJ reader and the hierarchy printer.

use vstd::prelude::*;

verus! {

/// Unicode `White_Space`: the characters that `char::is_whitespace` accepts
/// and at which `str::split_whitespace` splits.
pub open spec fn is_white_space(c: char) -> bool {
    let u = c as u32;
    ||| 0x09 <= u <= 0x0D
    ||| u == 0x20
    ||| u == 0x85
    ||| u == 0xA0
    ||| u == 0x1680
    ||| 0x2000 <= u <= 0x200A
    ||| u == 0x2028
    ||| u == 0x2029
    ||| u == 0x202F
    ||| u == 0x205F
    ||| u == 0x3000
}

/// The maximal runs of non-white-space characters of `s`, in order
/// (what `str::split_whitespace` yields).
pub open spec fn words(s: Seq<char>) -> Seq<Seq<char>>
    decreases s.len(),
{
    if s.len() == 0 {
        seq![]
    } else {
        let prev = words(s.drop_last());
        let c = s.last();
        if is_white_space(c) {
            prev
        } else if s.len() == 1 || is_white_space(s[s.len() - 2]) {
            prev.push(seq![c])
        } else {
            prev.update(prev.len() - 1, prev.last().push(c))
        }
    }
}

/// The pieces of `s` between occurrences of `sep`, empty pieces included
/// (what `str::split` with a single character yields).
pub open spec fn split_at(s: Seq<char>, sep: char) -> Seq<Seq<char>>
    decreases s.len(),
{
    if s.len() == 0 {
        seq![seq![]]
    } else {
        let prev = split_at(s.drop_last(), sep);
        if s.last() == sep {
            prev.push(seq![])
        } else {
            prev.update(prev.len() - 1, prev.last().push(s.last()))
        }
    }
}

proof fn lemma_split_at_nonempty(s: Seq<char>, sep: char)
    ensures
        split_at(s, sep).len() >= 1,
    decreases s.len(),
{
    if s.len() > 0 {
        lemma_split_at_nonempty(s.drop_last(), sep);
    }
}

proof fn lemma_words_in_word(s: Seq<char>)
    requires
        s.len() > 0,
        !is_white_space(s.last()),
    ensures
        words(s).len() >= 1,
    decreases s.len(),
{
    if s.len() > 1 && !is_white_space(s[s.len() - 2]) {
        assert(s.drop_last().last() == s[s.len() - 2]);
        lemma_words_in_word(s.drop_last());
    }
}

/// The characters of `s`, in order.
pub fn chars_of(s: &str) -> (chars: Vec<char>)
    ensures
        chars@ == s@,
{
    let mut chars: Vec<char> = Vec::new();
    for c in it: s.chars()
        invariant
            chars@ == it.seq().take(it.index() as int),
            it.seq() == s@,
    {
        chars.push(c);
    }
    chars
}

/// Whether `c` is Unicode white space.
pub fn is_white_space_char(c: char) -> (r: bool)
    ensures
        r == is_white_space(c),
{
    let u = c as u32;
    (0x09 <= u && u <= 0x0D) || u == 0x20 || u == 0x85 || u == 0xA0 || u == 0x1680 || (0x2000 <= u
        && u <= 0x200A) || u == 0x2028 || u == 0x2029 || u == 0x202F || u == 0x205F || u == 0x3000
}

/// The white-space separated words of `s`.
pub fn split_words(s: &Vec<char>) -> (r: Vec<Vec<char>>)
    ensures
        r@.len() == words(s@).len(),
        forall|i: int| 0 <= i < r@.len() ==> (#[trigger] r@[i])@ == words(s@)[i],
{
    let mut out: Vec<Vec<char>> = Vec::new();
    let mut k: usize = 0;
    let mut in_word = false;
    while k < s.len()
        invariant
            k <= s.len(),
            in_word == (k > 0 && !is_white_space(s@[k - 1])),
            out@.len() == words(s@.take(k as int)).len(),
            forall|i: int| 0 <= i < out@.len() ==> (#[trigger] out@[i])@ == words(s@.take(k as int))[i],
        decreases s.len() - k,
    {
        let c = s[k];
        let ghost pre = s@.take(k as int);
        let ghost cur = s@.take(k + 1);
        assert(cur.drop_last() == pre);
        assert(cur.last() == c);
        if is_white_space_char(c) {
            in_word = false;
        } else if !in_word {
            out.push(vec![c]);
            in_word = true;
            assert(s@.len() == 1 || k == 0 || cur[cur.len() - 2] == s@[k - 1]);
        } else {
            proof {
                assert(cur[cur.len() - 2] == s@[k - 1]);
                assert(pre.last() == s@[k - 1]);
                lemma_words_in_word(pre);
            }
            let mut last = out.pop().unwrap();
            last.push(c);
            out.push(last);
        }
        k += 1;
        proof {
            assert(words(cur).len() == out@.len());
            assert forall|i: int| 0 <= i < out@.len() implies (#[trigger] out@[i])@ == words(cur)[i] by {}
        }
    }
    assert(s@.take(s.len() as int) == s@);
    out
}

/// The pieces of `s` between occurrences of `sep`.
pub fn split_at_char(s: &Vec<char>, sep: char) -> (r: Vec<Vec<char>>)
    ensures
        r@.len() == split_at(s@, sep).len(),
        forall|i: int| 0 <= i < r@.len() ==> (#[trigger] r@[i])@ == split_at(s@, sep)[i],
{
    let mut out: Vec<Vec<char>> = Vec::new();
    out.push(Vec::new());
    let mut k: usize = 0;
    assert(s@.take(0) =~= Seq::<char>::empty());
    while k < s.len()
        invariant
            k <= s.len(),
            out@.len() == split_at(s@.take(k as int), sep).len(),
            forall|i: int| 0 <= i < out@.len() ==> (#[trigger] out@[i])@ == split_at(s@.take(k as int), sep)[i],
        decreases s.len() - k,
    {
        let c = s[k];
        let ghost pre = s@.take(k as int);
        let ghost cur = s@.take(k + 1);
        assert(cur.drop_last() == pre);
        assert(cur.last() == c);
        proof {
            lemma_split_at_nonempty(pre, sep);
        }
        if c == sep {
            out.push(Vec::new());
        } else {
            let mut last = out.pop().unwrap();
            last.push(c);
            out.push(last);
        }
        k += 1;
        proof {
            assert(split_at(cur, sep).len() == out@.len());
            assert forall|i: int| 0 <= i < out@.len() implies (#[trigger] out@[i])@ == split_at(cur, sep)[i] by {}
        }
    }
    assert(s@.take(s.len() as int) == s@);
    out
}

/// Whether two character sequences are equal.
pub fn same_chars(a: &Vec<char>, b: &Vec<char>) -> (r: bool)
    ensures
        r == (a@ == b@),
{
    if a.len() != b.len() {
        return false;
    }
    let mut k: usize = 0;
    while k < a.len()
        invariant
            k <= a.len(),
            a.len() == b.len(),
            forall|i: int| 0 <= i < k ==> a@[i] == b@[i],
        decreases a.len() - k,
    {
        if a[k] != b[k] {
            return false;
        }
        k += 1;
    }
    assert(a@ =~= b@);
    true
}


/// A decimal digit character.
pub open spec fn is_digit(c: char) -> bool {
    '0' <= c <= '9'
}

/// The value of a non-empty run of decimal digits.
pub open spec fn digits_value(s: Seq<char>) -> int
    decreases s.len(),
{
    if s.len() == 0 {
        0
    } else {
        digits_value(s.drop_last()) * 10 + (s.last() as int - '0' as int)
    }
}

/// The integer written by `s`: an optional `+` or `-` followed by one or more
/// decimal digits and nothing else (the syntax `isize::from_str` accepts).
pub open spec fn integer_text_value(s: Seq<char>) -> Option<int> {
    if s.len() > 0 && (s[0] == '+' || s[0] == '-') {
        let d = s.skip(1);
        if d.len() > 0 && forall|i: int| 0 <= i < d.len() ==> is_digit(#[trigger] d[i]) {
            Some(if s[0] == '-' { -digits_value(d) } else { digits_value(d) })
        } else {
            None
        }
    } else if s.len() > 0 && forall|i: int| 0 <= i < s.len() ==> is_digit(#[trigger] s[i]) {
        Some(digits_value(s))
    } else {
        None
    }
}

/// What `isize::from_str` returns for `s`: the written integer when it fits.
pub open spec fn isize_text_value(s: Seq<char>) -> Option<int> {
    match integer_text_value(s) {
        Some(v) => if isize::MIN <= v <= isize::MAX { Some(v) } else { None },
        None => None,
    }
}

/// The character of the decimal digit `d` (0..10).
pub open spec fn digit_char(d: int) -> char {
    if d == 0 { '0' }
    else if d == 1 { '1' }
    else if d == 2 { '2' }
    else if d == 3 { '3' }
    else if d == 4 { '4' }
    else if d == 5 { '5' }
    else if d == 6 { '6' }
    else if d == 7 { '7' }
    else if d == 8 { '8' }
    else { '9' }
}

/// The shortest decimal notation of a natural number.
pub open spec fn decimal_digits(n: nat) -> Seq<char>
    decreases n,
{
    if n < 10 {
        seq![digit_char(n as int)]
    } else {
        decimal_digits(n / 10).push(digit_char((n % 10) as int))
    }
}

/// The decimal notation of an integer, with a leading `-` when negative
/// (what `ToString` gives for the integer types).
pub open spec fn integer_text(v: int) -> Seq<char> {
    if v < 0 {
        seq!['-'] + decimal_digits((-v) as nat)
    } else {
        decimal_digits(v as nat)
    }
}

proof fn lemma_digits_value_prefix(s: Seq<char>, k: int)
    requires
        0 <= k <= s.len(),
        forall|i: int| 0 <= i < s.len() ==> is_digit(#[trigger] s[i]),
    ensures
        digits_value(s.take(k)) <= digits_value(s),
        0 <= digits_value(s.take(k)),
    decreases s.len(),
{
    if s.len() > 0 {
        if k == s.len() {
            assert(s.take(k) == s);
            assert(s.drop_last().take(k - 1) == s.drop_last());
            lemma_digits_value_prefix(s.drop_last(), k - 1);
        } else {
            assert(s.take(k) == s.drop_last().take(k));
            lemma_digits_value_prefix(s.drop_last(), k);
            lemma_digits_value_prefix(s.drop_last(), s.len() - 1);
            assert(s.drop_last().take(s.len() - 1) == s.drop_last());
        }
    }
}

fn digit_value_of(c: char) -> (r: Option<u8>)
    ensures
        r matches Some(d) ==> is_digit(c) && d as int == c as int - '0' as int,
        r is None ==> !is_digit(c),
{
    if '0' <= c && c <= '9' {
        Some(((c as u32) - ('0' as u32)) as u8)
    } else {
        None
    }
}

/// Parses `s` as an `isize` with the syntax of `isize::from_str`.
pub fn parse_isize(s: &Vec<char>) -> (r: Option<isize>)
    ensures
        r matches Some(v) ==> isize_text_value(s@) == Some(v as int),
        r is None ==> isize_text_value(s@) is None,
{
    let n = s.len();
    if n == 0 {
        return None;
    }
    let negative = s[0] == '-';
    let start: usize = if s[0] == '-' || s[0] == '+' { 1 } else { 0 };
    if start == n {
        return None;
    }
    let limit: i128 = if negative { isize::MAX as i128 + 1 } else { isize::MAX as i128 };
    let ghost d = s@.skip(start as int);
    assert(s@.skip(0) == s@);
    assert(start == 0 ==> !(s@[0] == '+' || s@[0] == '-'));
    let mut acc: i128 = 0;
    let mut k: usize = start;
    assert(d.take(0) =~= Seq::<char>::empty());
    while k < n
        invariant
            start <= k <= n,
            n == s.len(),
            d == s@.skip(start as int),
            n > 0,
            negative == (s@[0] == '-'),
            start == (if s@[0] == '-' || s@[0] == '+' { 1usize } else { 0usize }),
            limit == (if negative { isize::MAX as int + 1 } else { isize::MAX as int }),
            0 <= acc <= limit,
            limit <= isize::MAX as i128 + 1,
            acc == digits_value(d.take(k - start)),
            forall|i: int| 0 <= i < k - start ==> is_digit(#[trigger] d[i]),
        decreases n - k,
    {
        let c = s[k];
        assert(d[k - start] == c);
        match digit_value_of(c) {
            None => {
                assert(!is_digit(d[k - start]));
                assert(start == 0 ==> !is_digit(s@[k as int]));
                return None;
            },
            Some(v) => {
                assert(d.take(k - start + 1).drop_last() == d.take(k - start));
                acc = acc * 10 + v as i128;
                assert(d.take(k - start + 1).last() == c);
                assert(acc == digits_value(d.take(k - start + 1)));
                if acc > limit {
                    proof {
                        assert(start == 0 ==> d == s@);
                        if forall|i: int| 0 <= i < d.len() ==> is_digit(#[trigger] d[i]) {
                            lemma_digits_value_prefix(d, k - start + 1);
                            assert(digits_value(d) > limit);
                        }
                    }
                    return None;
                }
            },
        }
        k += 1;
    }
    assert(d.take(n - start) == d);
    let value: i128 = if negative { -acc } else { acc };
    Some(value as isize)
}

fn push_digits(n: u128, out: &mut Vec<char>)
    ensures
        final(out)@ == old(out)@ + decimal_digits(n as nat),
    decreases n,
{
    if n >= 10 {
        push_digits(n / 10, out);
    }
    let d = n % 10;
    let c = if d == 0 { '0' } else if d == 1 { '1' } else if d == 2 { '2' } else if d == 3 { '3' }
        else if d == 4 { '4' } else if d == 5 { '5' } else if d == 6 { '6' } else if d == 7 { '7' }
        else if d == 8 { '8' } else { '9' };
    out.push(c);
    proof {
        if n >= 10 {
            assert(decimal_digits(n as nat) == decimal_digits((n / 10) as nat).push(digit_char((n % 10) as int)));
        }
    }
}

/// The decimal notation of `v`.
pub fn isize_text(v: isize) -> (r: Vec<char>)
    ensures
        r@ == integer_text(v as int),
{
    let mut out: Vec<char> = Vec::new();
    if v < 0 {
        out.push('-');
        let magnitude: u128 = (-(v as i128)) as u128;
        push_digits(magnitude, &mut out);
    } else {
        push_digits(v as u128, &mut out);
    }
    out
}

/// The decimal notation of `n`.
pub fn usize_text(n: usize) -> (r: Vec<char>)
    ensures
        r@ == decimal_digits(n as nat),
{
    let mut out: Vec<char> = Vec::new();
    push_digits(n as u128, &mut out);
    out
}

/// The `String` holding exactly the characters `chars`
/// (`String`'s `FromIterator<char>`).
#[verifier::external_body]
pub(crate) fn string_of(chars: &Vec<char>) -> (s: String)
    ensures
        s@ == chars@,
{
    chars.iter().collect()
}

} // verus!
