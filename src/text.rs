use vstd::prelude::*;

verus! {

/// The characters that separate words: ASCII space, tab, line feed, form feed
/// and carriage return.
pub open spec fn is_blank(c: char) -> bool {
    c == ' ' || c == '\t' || c == '\n' || c == '\x0C' || c == '\r'
}

/// Position of the first non-blank character of `s` at or after `i`, or `s.len()`.
pub open spec fn skip_blanks(s: Seq<char>, i: nat) -> nat
    decreases s.len() - i,
{
    if i >= s.len() || !is_blank(s[i as int]) {
        i
    } else {
        skip_blanks(s, i + 1)
    }
}

/// Position of the first blank of `s` at or after `i`, or `s.len()`.
pub open spec fn word_end(s: Seq<char>, i: nat) -> nat
    decreases s.len() - i,
{
    if i >= s.len() || is_blank(s[i as int]) {
        i
    } else {
        word_end(s, i + 1)
    }
}

/// The words of `s` from position `i` on: its maximal runs of non-blank
/// characters, in order.
pub open spec fn words_from(s: Seq<char>, i: nat) -> Seq<Seq<char>>
    decreases s.len() - i,
    via words_from_decreases
{
    let a = skip_blanks(s, i);
    if a >= s.len() {
        seq![]
    } else {
        let b = word_end(s, a);
        seq![s.subrange(a as int, b as int)] + words_from(s, b)
    }
}

/// The words of `s`.
pub open spec fn words(s: Seq<char>) -> Seq<Seq<char>> {
    words_from(s, 0)
}

proof fn lemma_skip_blanks(s: Seq<char>, i: nat)
    ensures
        i <= skip_blanks(s, i),
        i <= s.len() ==> skip_blanks(s, i) <= s.len(),
        skip_blanks(s, i) < s.len() ==> !is_blank(s[skip_blanks(s, i) as int]),
    decreases s.len() - i,
{
    if i < s.len() && is_blank(s[i as int]) {
        lemma_skip_blanks(s, i + 1);
    }
}

proof fn lemma_word_end(s: Seq<char>, i: nat)
    ensures
        i <= word_end(s, i),
        i <= s.len() ==> word_end(s, i) <= s.len(),
        i < s.len() && !is_blank(s[i as int]) ==> i < word_end(s, i),
    decreases s.len() - i,
{
    if i < s.len() && !is_blank(s[i as int]) {
        lemma_word_end(s, i + 1);
    }
}

#[via_fn]
proof fn words_from_decreases(s: Seq<char>, i: nat) {
    lemma_skip_blanks(s, i);
    let a = skip_blanks(s, i);
    if a < s.len() {
        lemma_word_end(s, a);
    }
}

/// Is `c` one of the decimal digits?
pub open spec fn is_digit(c: char) -> bool {
    '0' <= c <= '9'
}

pub open spec fn digit_value(c: char) -> int {
    (c as u32) - ('0' as u32)
}

/// The number that a run of decimal digits spells.
pub open spec fn digits_value(s: Seq<char>) -> int
    decreases s.len(),
{
    if s.len() == 0 {
        0
    } else {
        10 * digits_value(s.drop_last()) + digit_value(s.last())
    }
}

/// Is `s` a non-empty run of decimal digits?
pub open spec fn all_digits(s: Seq<char>) -> bool {
    s.len() > 0 && forall|i: int| 0 <= i < s.len() ==> is_digit(#[trigger] s[i])
}

/// The integer that `s` writes in decimal, after an optional `+` or `-` sign.
pub open spec fn decimal_value(s: Seq<char>) -> Option<int> {
    if s.len() > 0 && (s[0] == '+' || s[0] == '-') {
        if all_digits(s.drop_first()) {
            if s[0] == '-' {
                Some(-digits_value(s.drop_first()))
            } else {
                Some(digits_value(s.drop_first()))
            }
        } else {
            None
        }
    } else if all_digits(s) {
        Some(digits_value(s))
    } else {
        None
    }
}

/// The `i32` that `s` spells: a decimal integer that lies in the range of `i32`.
pub open spec fn i32_of(s: Seq<char>) -> Option<i32> {
    match decimal_value(s) {
        Some(v) => if i32::MIN <= v <= i32::MAX {
            Some(v as i32)
        } else {
            None
        },
        None => None,
    }
}

/// The characters of `s`, one by one.
pub fn chars_of(s: &str) -> (r: Vec<char>)
    ensures
        r@ == s@,
{
    let n = s.unicode_len();
    let mut r: Vec<char> = Vec::new();
    let mut i: usize = 0;
    while i < n
        invariant
            n == s@.len(),
            i <= n,
            r@ == s@.subrange(0, i as int),
        decreases n - i,
    {
        r.push(s.get_char(i));
        i = i + 1;
    }
    assert(r@ =~= s@);
    r
}

/// Finds the next word of `s` at or after `from`: the position where it starts
/// and the position just past it. A start equal to `s.len()` means that no word is left.
pub fn next_word(s: &Vec<char>, from: usize) -> (r: (usize, usize))
    requires
        from <= s@.len(),
    ensures
        r.0 == skip_blanks(s@, from as nat),
        r.1 == word_end(s@, r.0 as nat),
        from <= r.0 <= r.1 <= s@.len(),
{
    let mut a: usize = from;
    while a < s.len() && is_blank_char(s[a])
        invariant
            from <= a <= s@.len(),
            skip_blanks(s@, from as nat) == skip_blanks(s@, a as nat),
        decreases s@.len() - a,
    {
        a = a + 1;
    }
    let mut b: usize = a;
    while b < s.len() && !is_blank_char(s[b])
        invariant
            a <= b <= s@.len(),
            word_end(s@, a as nat) == word_end(s@, b as nat),
        decreases s@.len() - b,
    {
        b = b + 1;
    }
    (a, b)
}

fn is_blank_char(c: char) -> (r: bool)
    ensures
        r == is_blank(c),
{
    c == ' ' || c == '\t' || c == '\n' || c == '\x0C' || c == '\r'
}

proof fn lemma_digits_value_nonneg(s: Seq<char>)
    requires
        forall|i: int| 0 <= i < s.len() ==> is_digit(#[trigger] s[i]),
    ensures
        digits_value(s) >= 0,
    decreases s.len(),
{
    if s.len() > 0 {
        lemma_digits_value_nonneg(s.drop_last());
    }
}

/// Reads the characters `s[from..to]` as a decimal `i32`, after an optional sign.
pub fn parse_i32(s: &Vec<char>, from: usize, to: usize) -> (r: Option<i32>)
    requires
        from <= to <= s@.len(),
    ensures
        r == i32_of(s@.subrange(from as int, to as int)),
{
    let ghost w = s@.subrange(from as int, to as int);
    if from == to {
        return None;
    }
    let negative = s[from] == '-';
    let start: usize = if s[from] == '+' || s[from] == '-' {
        from + 1
    } else {
        from
    };
    let ghost d = s@.subrange(start as int, to as int);
    assert(start > from ==> d =~= w.drop_first());
    assert(start == from ==> d =~= w);
    if start == to {
        return None;
    }
    // `acc` holds the value of the digits read so far until it passes the
    // largest magnitude an `i32` can have; past it only the fact is kept.
    let limit: i64 = 2147483648;
    let mut acc: i64 = 0;
    let mut big = false;
    let mut j: usize = start;
    while j < to
        invariant
            from <= start < to <= s@.len(),
            start <= j <= to,
            d == s@.subrange(start as int, to as int),
            w == s@.subrange(from as int, to as int),
            start == from || start == from + 1,
            start > from ==> d == w.drop_first() && (w[0] == '+' || w[0] == '-'),
            start == from ==> d == w && !(w[0] == '+' || w[0] == '-'),
            negative == (w[0] == '-'),
            forall|k: int| start <= k < j ==> is_digit(#[trigger] s@[k]),
            !big ==> acc == digits_value(s@.subrange(start as int, j as int)) && 0 <= acc <= limit,
            big ==> digits_value(s@.subrange(start as int, j as int)) > limit,
            limit == 2147483648,
        decreases to - j,
    {
        let c = s[j];
        if !('0' <= c && c <= '9') {
            assert(!is_digit(d[j - start]));
            return None;
        }
        let ghost p = s@.subrange(start as int, j as int);
        let ghost q = s@.subrange(start as int, j + 1);
        assert(q.drop_last() =~= p);
        assert(q.last() == c);
        proof {
            lemma_digits_value_nonneg(p);
        }
        if !big {
            acc = 10 * acc + ((c as u32) - ('0' as u32)) as i64;
            if acc > limit {
                big = true;
            }
        }
        j = j + 1;
    }
    assert(s@.subrange(start as int, j as int) =~= d);
    assert(all_digits(d));
    if big {
        return None;
    }
    if negative {
        Some((0 - acc) as i32)
    } else if acc <= 2147483647 {
        Some(acc as i32)
    } else {
        None
    }
}

} // verus!
