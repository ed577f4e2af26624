use vstd::prelude::*;

verus! {

/// The character of a decimal digit.
pub open spec fn digit_char(d: nat) -> char {
    if d == 0 { '0' }
    else if d == 1 { '1' }
    else if d == 2 { '2' }
    else if d == 3 { '3' }
    else if d == 4 { '4' }
    else if d == 5 { '5' }
    else if d == 6 { '6' }
    else if d == 7 { '7' }
    else if d == 8 { '8' }
    else { '9' }
}

/// The decimal rendering of a natural number, most significant digit first,
/// without sign or leading zeros (zero renders as "0").
pub open spec fn decimal_text(n: nat) -> Seq<char>
    decreases n,
{
    if n < 10 {
        seq![digit_char(n)]
    } else {
        decimal_text(n / 10).push(digit_char(n % 10))
    }
}

fn digit_str(d: u64) -> (s: &'static str)
    requires
        d < 10,
    ensures
        s@ == seq![digit_char(d as nat)],
{
    proof {
        reveal_strlit("0");
        reveal_strlit("1");
        reveal_strlit("2");
        reveal_strlit("3");
        reveal_strlit("4");
        reveal_strlit("5");
        reveal_strlit("6");
        reveal_strlit("7");
        reveal_strlit("8");
        reveal_strlit("9");
    }
    if d == 0 { "0" }
    else if d == 1 { "1" }
    else if d == 2 { "2" }
    else if d == 3 { "3" }
    else if d == 4 { "4" }
    else if d == 5 { "5" }
    else if d == 6 { "6" }
    else if d == 7 { "7" }
    else if d == 8 { "8" }
    else { "9" }
}

/// Renders `n` in decimal, as `n.to_string()` does for unsigned integers.
pub fn decimal(n: u64) -> (s: String)
    ensures
        s@ == decimal_text(n as nat),
    decreases n,
{
    if n < 10 {
        String::from_str(digit_str(n))
    } else {
        let head = decimal(n / 10);
        head.concat(digit_str(n % 10))
    }
}


pub open spec fn is_digit(c: char) -> bool {
    '0' <= c <= '9'
}

pub open spec fn digit_value(c: char) -> nat {
    (c as int - '0' as int) as nat
}

pub open spec fn all_digits(s: Seq<char>) -> bool {
    forall|i: int| 0 <= i < s.len() ==> is_digit(#[trigger] s[i])
}

/// The number written by a sequence of decimal digits.
pub open spec fn digits_value(s: Seq<char>) -> nat
    decreases s.len(),
{
    if s.len() == 0 {
        0
    } else {
        digits_value(s.drop_last()) * 10 + digit_value(s.last())
    }
}

/// What `str::parse` reads as an unsigned integer, before the range check: an
/// optional `+` followed by at least one decimal digit and nothing else.
pub open spec fn unsigned_text_value(s: Seq<char>) -> Option<nat> {
    let digits = if s.len() > 0 && s[0] == '+' { s.drop_first() } else { s };
    if digits.len() > 0 && all_digits(digits) {
        Some(digits_value(digits))
    } else {
        None
    }
}

/// The result of parsing `s` as an unsigned integer no greater than `max`.
pub open spec fn parse_unsigned(s: Seq<char>, max: nat) -> Option<nat> {
    match unsigned_text_value(s) {
        Some(v) => if v <= max { Some(v) } else { None },
        None => None,
    }
}

proof fn lemma_digits_value_grows(s: Seq<char>, i: int)
    requires
        0 <= i <= s.len(),
    ensures
        digits_value(s.take(i)) <= digits_value(s),
    decreases s.len() - i,
{
    if i < s.len() {
        lemma_digits_value_grows(s, i + 1);
        assert(s.take(i + 1).drop_last() =~= s.take(i));
    } else {
        assert(s.take(i) =~= s);
    }
}

/// Parses an unsigned decimal integer no greater than `max`, as `str::parse` does
/// for Rust's unsigned integer types: an optional `+`, then one or more digits,
/// nothing else (no whitespace); too large a value is an error.
pub fn parse_unsigned_text(s: &str, max: u64) -> (res: Option<u64>)
    ensures
        match res {
            Some(v) => parse_unsigned(s@, max as nat) == Some(v as nat),
            None => parse_unsigned(s@, max as nat) is None,
        },
{
    let n = s.unicode_len();
    let mut start: usize = 0;
    if n > 0 && s.get_char(0) == '+' {
        start = 1;
    }
    let ghost digits = if s@.len() > 0 && s@[0] == '+' { s@.drop_first() } else { s@ };
    assert(digits =~= s@.skip(start as int));
    if start == n {
        return None;
    }
    let mut v: u64 = 0;
    let mut i: usize = start;
    let mut too_big = false;
    while i < n
        invariant
            n == s@.len(),
            start <= i <= n,
            digits == s@.skip(start as int),
            digits == (if s@.len() > 0 && s@[0] == '+' { s@.drop_first() } else { s@ }),
            all_digits(digits.take(i - start)),
            !too_big ==> v as nat == digits_value(digits.take(i - start)) && v <= max,
            too_big ==> digits_value(digits.take(i - start)) > max,
        decreases n - i,
    {
        let c = s.get_char(i);
        assert(s@[i as int] == c);
        assert(digits[i - start] == s@[i as int]);
        assert(digits.take(i - start + 1).drop_last() =~= digits.take(i - start));
        assert(digits.take(i - start + 1).last() == c);
        if !('0' <= c && c <= '9') {
            assert(!is_digit(digits[i - start]));
            assert(!all_digits(digits));
            return None;
        }
        let d = (c as u32 - '0' as u32) as u64;
        assert(d == digit_value(c));
        if !too_big {
            let next: u128 = v as u128 * 10 + d as u128;
            if next > max as u128 {
                too_big = true;
            } else {
                v = next as u64;
            }
        }
        i = i + 1;
    }
    assert(digits.take(n - start) =~= digits);
    if too_big {
        proof {
            lemma_digits_value_grows(digits, n - start);
        }
        return None;
    }
    Some(v)
}


/// Unicode White_Space, as `char::is_whitespace` defines it: tab, line feed,
/// vertical tab, form feed, carriage return, space, next line, no-break space,
/// ogham space mark, the spaces from en quad to hair space, line and paragraph
/// separators, narrow no-break space, medium mathematical space, ideographic space.
pub open spec fn is_white_space(c: char) -> bool {
    ||| '\u{9}' <= c <= '\u{d}'
    ||| c == ' '
    ||| c == '\u{85}'
    ||| c == '\u{a0}'
    ||| c == '\u{1680}'
    ||| '\u{2000}' <= c <= '\u{200a}'
    ||| c == '\u{2028}'
    ||| c == '\u{2029}'
    ||| c == '\u{202f}'
    ||| c == '\u{205f}'
    ||| c == '\u{3000}'
}

/// `s` without its leading white space.
pub open spec fn trim_start_text(s: Seq<char>) -> Seq<char>
    decreases s.len(),
{
    if s.len() > 0 && is_white_space(s[0]) {
        trim_start_text(s.drop_first())
    } else {
        s
    }
}

/// `s` without its trailing white space.
pub open spec fn trim_end_text(s: Seq<char>) -> Seq<char>
    decreases s.len(),
{
    if s.len() > 0 && is_white_space(s.last()) {
        trim_end_text(s.drop_last())
    } else {
        s
    }
}

/// `s` without leading and trailing white space.
pub open spec fn trimmed(s: Seq<char>) -> Seq<char> {
    trim_end_text(trim_start_text(s))
}

fn is_ws(c: char) -> (b: bool)
    ensures
        b == is_white_space(c),
{
    ('\u{9}' <= c && c <= '\u{d}') || c == ' ' || c == '\u{85}' || c == '\u{a0}' || c == '\u{1680}'
        || ('\u{2000}' <= c && c <= '\u{200a}') || c == '\u{2028}' || c == '\u{2029}' || c == '\u{202f}'
        || c == '\u{205f}' || c == '\u{3000}'
}

/// Dropping a run of leading white space that ends at `a` (the end, or a character
/// that is not white space) is trimming the start.
proof fn lemma_trim_start_at(s: Seq<char>, a: int)
    requires
        0 <= a <= s.len(),
        forall|i: int| 0 <= i < a ==> is_white_space(#[trigger] s[i]),
        a == s.len() || !is_white_space(s[a]),
    ensures
        trim_start_text(s) == s.skip(a),
    decreases a,
{
    if a == 0 {
        assert(s.skip(0) =~= s);
    } else {
        let r = s.drop_first();
        assert forall|i: int| 0 <= i < a - 1 implies is_white_space(#[trigger] r[i]) by {
            assert(r[i] == s[i + 1]);
        }
        if a - 1 < r.len() {
            assert(r[a - 1] == s[a]);
        }
        lemma_trim_start_at(r, a - 1);
        assert(r.skip(a - 1) =~= s.skip(a));
    }
}

/// Dropping a run of trailing white space that starts at `k` (the start, or just
/// after a character that is not white space) is trimming the end.
proof fn lemma_trim_end_at(t: Seq<char>, k: int)
    requires
        0 <= k <= t.len(),
        forall|i: int| k <= i < t.len() ==> is_white_space(#[trigger] t[i]),
        k == 0 || !is_white_space(t[k - 1]),
    ensures
        trim_end_text(t) == t.take(k),
    decreases t.len() - k,
{
    if t.len() == k {
        assert(t.take(k) =~= t);
    } else {
        let r = t.drop_last();
        assert forall|i: int| k <= i < r.len() implies is_white_space(#[trigger] r[i]) by {
            assert(r[i] == t[i]);
        }
        if k > 0 {
            assert(r[k - 1] == t[k - 1]);
        }
        lemma_trim_end_at(r, k);
        assert(r.take(k) =~= t.take(k));
    }
}

/// The text with leading and trailing white space removed, as `str::trim` does.
pub fn trim(s: &str) -> (t: String)
    ensures
        t@ == trimmed(s@),
{
    let n = s.unicode_len();
    let mut a: usize = 0;
    let mut stop = false;
    while a < n && !stop
        invariant
            n == s@.len(),
            a <= n,
            forall|i: int| 0 <= i < a ==> is_white_space(#[trigger] s@[i]),
            stop ==> a < n && !is_white_space(s@[a as int]),
        decreases n - a + (if stop { 0int } else { 1int }),
    {
        let c = s.get_char(a);
        if is_ws(c) {
            a = a + 1;
        } else {
            stop = true;
        }
    }
    let mut b: usize = n;
    stop = false;
    while b > a && !stop
        invariant
            n == s@.len(),
            a <= b <= n,
            forall|i: int| b <= i < n ==> is_white_space(#[trigger] s@[i]),
            stop ==> b > a && !is_white_space(s@[b - 1]),
        decreases b + (if stop { 0int } else { 1int }),
    {
        let c = s.get_char(b - 1);
        if is_ws(c) {
            b = b - 1;
        } else {
            stop = true;
        }
    }
    proof {
        lemma_trim_start_at(s@, a as int);
        let u = s@.skip(a as int);
        assert forall|i: int| b - a <= i < u.len() implies is_white_space(#[trigger] u[i]) by {
            assert(u[i] == s@[a + i]);
        }
        if b > a {
            assert(u[b - a - 1] == s@[b - 1]);
        }
        lemma_trim_end_at(u, b - a);
        assert(u.take(b - a) =~= s@.subrange(a as int, b as int));
    }
    String::from_str(s.substring_char(a, b))
}

/// The position of the first `c` in `s`, or -1.
pub open spec fn first_index_of(s: Seq<char>, c: char) -> int
    decreases s.len(),
{
    if s.len() == 0 {
        -1
    } else if first_index_of(s.drop_last(), c) >= 0 {
        first_index_of(s.drop_last(), c)
    } else if s.last() == c {
        s.len() - 1
    } else {
        -1
    }
}

proof fn lemma_first_index_prefix(s: Seq<char>, c: char, k: int)
    requires
        0 <= k <= s.len(),
        first_index_of(s.take(k), c) >= 0,
    ensures
        first_index_of(s, c) == first_index_of(s.take(k), c),
    decreases s.len() - k,
{
    if k < s.len() {
        assert(s.take(k + 1).drop_last() =~= s.take(k));
        lemma_first_index_prefix(s, c, k + 1);
    } else {
        assert(s.take(k) =~= s);
    }
}

/// Finds the first `c` in `s`.
pub fn find_char(s: &str, c: char) -> (k: Option<usize>)
    ensures
        match k {
            Some(i) => first_index_of(s@, c) == i && i < s@.len(),
            None => first_index_of(s@, c) < 0,
        },
{
    let n = s.unicode_len();
    let mut i: usize = 0;
    while i < n
        invariant
            n == s@.len(),
            i <= n,
            first_index_of(s@.take(i as int), c) < 0,
            forall|j: int| 0 <= j < i ==> s@[j] != c,
        decreases n - i,
    {
        let d = s.get_char(i);
        assert(s@.take(i + 1).drop_last() =~= s@.take(i as int));
        assert(s@.take(i + 1).last() == d);
        if d == c {
            proof {
                lemma_first_index_prefix(s@, c, i + 1);
            }
            return Some(i);
        }
        i = i + 1;
    }
    assert(s@.take(n as int) =~= s@);
    None
}


/// The last `n` characters of `s` (all of it when shorter).
pub fn last_chars(s: &str, n: usize) -> (t: String)
    ensures
        t@ == s@.skip(if s@.len() > n { s@.len() - n } else { 0 }),
{
    let len = s.unicode_len();
    let from = if len > n { len - n } else { 0 };
    let t = String::from_str(s.substring_char(from, len));
    assert(s@.subrange(from as int, len as int) =~= s@.skip(from as int));
    t
}

} // verus!
