//! Small verified text utilities: string equality, character pushes, decimal
//! formatting and parsing of decimal integers as `str::parse` does it.

use vstd::prelude::*;

verus! {

/// Appends one character to a `String` (std `String::push`).
#[verifier::external_body]
pub(crate) fn push_char(s: &mut String, c: char)
    ensures
        final(s)@ == old(s)@.push(c),
{
    s.push(c);
}

/// Equality of two string slices, character by character.
pub fn str_eq(a: &str, b: &str) -> (eq: bool)
    ensures
        eq == (a@ == b@),
{
    let n = a.unicode_len();
    if n != b.unicode_len() {
        return false;
    }
    let mut i: usize = 0;
    while i < n
        invariant
            n == a@.len(),
            n == b@.len(),
            i <= n,
            forall|j: int| 0 <= j < i ==> a@[j] == b@[j],
        decreases n - i,
    {
        if a.get_char(i) != b.get_char(i) {
            return false;
        }
        i = i + 1;
    }
    assert(a@ =~= b@);
    true
}

/// The decimal digit character of `d` (0..=9).
pub open spec fn digit_char(d: int) -> char {
    (d + 48) as char
}

/// Decimal representation of a natural number, without leading zeros.
pub open spec fn dec(n: nat) -> Seq<char>
    decreases n,
{
    if n < 10 {
        seq![digit_char(n as int)]
    } else {
        dec(n / 10).push(digit_char((n % 10) as int))
    }
}

/// Decimal representation of an integer, with a leading '-' when negative.
pub open spec fn dec_signed(n: int) -> Seq<char> {
    if n < 0 {
        seq!['-'] + dec((-n) as nat)
    } else {
        dec(n as nat)
    }
}

/// `n` in decimal, padded on the left with zeros to at least `width` digits.
pub open spec fn dec_padded(n: nat, width: nat) -> Seq<char> {
    let d = dec(n);
    if d.len() < width {
        Seq::new((width - d.len()) as nat, |i: int| '0') + d
    } else {
        d
    }
}

fn digit(d: u64) -> (c: char)
    requires
        d < 10,
    ensures
        c == digit_char(d as int),
{
    let c: char = if d == 0 {
        '0'
    } else if d == 1 {
        '1'
    } else if d == 2 {
        '2'
    } else if d == 3 {
        '3'
    } else if d == 4 {
        '4'
    } else if d == 5 {
        '5'
    } else if d == 6 {
        '6'
    } else if d == 7 {
        '7'
    } else if d == 8 {
        '8'
    } else {
        '9'
    };
    c
}

/// Appends `n` in decimal.
pub fn push_dec(s: &mut String, n: u64)
    ensures
        final(s)@ == old(s)@ + dec(n as nat),
    decreases n,
{
    if n >= 10 {
        push_dec(s, n / 10);
    }
    push_char(s, digit(n % 10));
    assert(n < 10 ==> dec(n as nat) == seq![digit_char(n as int)]);
}

/// Number of decimal digits of `n`.
pub fn dec_len(n: u64) -> (len: u64)
    ensures
        len == dec(n as nat).len(),
        1 <= len <= n as int + 1,
    decreases n,
{
    if n >= 10 {
        let l = dec_len(n / 10);
        l + 1
    } else {
        1
    }
}

/// Appends `n` in decimal, zero-padded to at least `width` digits.
pub fn push_dec_padded(s: &mut String, n: u64, width: u64)
    ensures
        final(s)@ == old(s)@ + dec_padded(n as nat, width as nat),
{
    let len = dec_len(n);
    let ghost start = s@;
    if len < width {
        let mut k: u64 = 0;
        while k < width - len
            invariant
                len < width,
                k <= width - len,
                s@ == start + Seq::new(k as nat, |i: int| '0'),
            decreases width - len - k,
        {
            push_char(s, '0');
            k = k + 1;
            assert(s@ =~= start + Seq::new(k as nat, |i: int| '0'));
        }
    }
    push_dec(s, n);
    assert(s@ =~= start + dec_padded(n as nat, width as nat));
}

/// Appends a signed integer in decimal.
pub fn push_dec_signed(s: &mut String, n: i64)
    ensures
        final(s)@ == old(s)@ + dec_signed(n as int),
{
    if n < 0 {
        push_char(s, '-');
        let m: u64 = ((-(n + 1)) as u64) + 1;
        push_dec(s, m);
        assert(s@ =~= old(s)@ + dec_signed(n as int));
    } else {
        push_dec(s, n as u64);
    }
}

/// Whether `c` is an ASCII decimal digit.
pub open spec fn is_digit(c: char) -> bool {
    '0' <= c <= '9'
}

/// Whether every character of `t` is a decimal digit.
pub open spec fn all_digits(t: Seq<char>) -> bool {
    forall|i: int| 0 <= i < t.len() ==> is_digit(#[trigger] t[i])
}

/// The value of a string of decimal digits (0 for the empty string).
pub open spec fn digits_value(t: Seq<char>) -> int
    decreases t.len(),
{
    if t.len() == 0 {
        0
    } else {
        digits_value(t.drop_last()) * 10 + (t.last() as int - 48)
    }
}

/// The integer that `str::parse` reads from `s`: an optional sign ('-' only
/// when `signed`) followed by one or more decimal digits; no other character
/// is allowed. The range of the target type is checked by the caller.
pub open spec fn int_text_value(s: Seq<char>, signed: bool) -> Option<int> {
    if s.len() == 0 {
        None
    } else if (s[0] == '+' || s[0] == '-') && s.len() == 1 {
        None
    } else {
        let neg = s[0] == '-' && signed;
        let t = if s[0] == '+' || neg { s.skip(1) } else { s };
        if all_digits(t) {
            Some(if neg { -digits_value(t) } else { digits_value(t) })
        } else {
            None
        }
    }
}

proof fn lemma_digits_value_prefix(t: Seq<char>, i: int)
    requires
        0 <= i <= t.len(),
        all_digits(t),
    ensures
        digits_value(t.take(i)) <= digits_value(t),
        0 <= digits_value(t.take(i)),
    decreases t.len(),
{
    if i < t.len() {
        assert(t.drop_last().take(i) =~= t.take(i));
        lemma_digits_value_prefix(t.drop_last(), i);
    } else {
        assert(t.take(i) =~= t);
        if t.len() > 0 {
            lemma_digits_value_prefix(t.drop_last(), t.len() - 1);
            assert(t.drop_last().take(t.len() - 1) =~= t.drop_last());
        }
    }
}

/// Reads the characters of `s` from `start` on as decimal digits. `None` when
/// one of them is not a digit or when the value does not fit in a `u64`.
fn scan_digits(s: &str, start: usize) -> (r: Option<u64>)
    requires
        start <= s@.len(),
    ensures
        all_digits(s@.skip(start as int)) ==> digits_value(s@.skip(start as int)) >= 0,
        ({
            let t = s@.skip(start as int);
            if all_digits(t) {
                if digits_value(t) <= u64::MAX {
                    r == Some(digits_value(t) as u64)
                } else {
                    r is None
                }
            } else {
                r is None
            }
        }),
{
    let n = s.unicode_len();
    let ghost t = s@.skip(start as int);
    let mut acc: u64 = 0;
    let mut over = false;
    let mut i: usize = start;
    while i < n
        invariant
            n == s@.len(),
            start <= i <= n,
            t == s@.skip(start as int),
            forall|j: int| 0 <= j < i - start ==> is_digit(#[trigger] t[j]),
            !over ==> acc == digits_value(t.take(i - start)),
            over ==> digits_value(t.take(i - start)) > u64::MAX,
        decreases n - i,
    {
        let c = s.get_char(i);
        if !('0' <= c && c <= '9') {
            assert(!is_digit(t[i - start]));
            return None;
        }
        let ghost k = i - start;
        assert(t.take(k + 1).drop_last() =~= t.take(k));
        let d = (c as u32 - 48) as u64;
        if !over {
            match acc.checked_mul(10) {
                Some(a10) => match a10.checked_add(d) {
                    Some(a) => {
                        acc = a;
                    },
                    None => {
                        over = true;
                    },
                },
                None => {
                    over = true;
                },
            }
        } else {
            assert(digits_value(t.take(k + 1)) == digits_value(t.take(k)) * 10 + d);
        }
        i = i + 1;
    }
    assert(t.take(n - start) =~= t);
    proof {
        lemma_digits_value_prefix(t, t.len() as int);
    }
    if over {
        None
    } else {
        Some(acc)
    }
}

/// Splits off the sign that `str::parse` accepts: returns whether the value is
/// negative and where the digits start, or `None` for the empty string and a
/// lone sign.
fn sign_prefix(s: &str, signed: bool) -> (r: Option<(bool, usize)>)
    ensures
        r is None <==> (s@.len() == 0 || ((s@[0] == '+' || s@[0] == '-') && s@.len() == 1)),
        r matches Some((neg, start)) ==> {
            &&& neg == (s@[0] == '-' && signed)
            &&& start == if s@[0] == '+' || neg { 1usize } else { 0usize }
            &&& start <= s@.len()
        },
{
    let n = s.unicode_len();
    if n == 0 {
        return None;
    }
    let c = s.get_char(0);
    if (c == '+' || c == '-') && n == 1 {
        return None;
    }
    let neg = c == '-' && signed;
    if c == '+' || neg {
        Some((neg, 1))
    } else {
        Some((neg, 0))
    }
}

/// `s.parse::<u64>().ok()`.
pub fn parse_u64(s: &str) -> (r: Option<u64>)
    ensures
        r == (match int_text_value(s@, false) {
            Some(v) => if 0 <= v <= u64::MAX { Some(v as u64) } else { None },
            None => None,
        }),
{
    match sign_prefix(s, false) {
        None => None,
        Some((_, start)) => {
            let r = scan_digits(s, start);
            proof {
                let t = s@.skip(start as int);
                assert(s@.skip(0) =~= s@);
                let t2 = if s@[0] == '+' { s@.skip(1) } else { s@ };
                assert(t == t2);
                if all_digits(t) {
                    assert(int_text_value(s@, false) == Some(digits_value(t)));
                } else {
                    let w = choose|i: int| 0 <= i < t.len() && !is_digit(#[trigger] t[i]);
                    assert(!is_digit(t2[w]));
                    assert(int_text_value(s@, false) is None);
                }
            }
            r
        },
    }
}

/// `s.parse::<u32>().ok()`.
pub fn parse_u32(s: &str) -> (r: Option<u32>)
    ensures
        r == (match int_text_value(s@, false) {
            Some(v) => if 0 <= v <= u32::MAX { Some(v as u32) } else { None },
            None => None,
        }),
{
    match parse_u64(s) {
        Some(v) => if v <= u32::MAX as u64 { Some(v as u32) } else { None },
        None => None,
    }
}

/// `s.parse::<i32>().ok()`.
pub fn parse_i32(s: &str) -> (r: Option<i32>)
    ensures
        r == (match int_text_value(s@, true) {
            Some(v) => if i32::MIN <= v <= i32::MAX { Some(v as i32) } else { None },
            None => None,
        }),
{
    match sign_prefix(s, true) {
        None => None,
        Some((neg, start)) => match {
            let r = scan_digits(s, start);
            proof {
                let t = s@.skip(start as int);
                assert(s@.skip(0) =~= s@);
                let t2 = if s@[0] == '+' || neg { s@.skip(1) } else { s@ };
                assert(t == t2);
                if all_digits(t) {
                    assert(int_text_value(s@, true) == Some(if neg { -digits_value(t) } else { digits_value(t) }));
                } else {
                    let w = choose|i: int| 0 <= i < t.len() && !is_digit(#[trigger] t[i]);
                    assert(!is_digit(t2[w]));
                    assert(int_text_value(s@, true) is None);
                }
            }
            r
        } {
            None => None,
            Some(m) => {
                if neg {
                    if m <= 0x8000_0000 {
                        Some((0 - (m as i64)) as i32)
                    } else {
                        None
                    }
                } else {
                    if m <= 0x7fff_ffff {
                        Some(m as i32)
                    } else {
                        None
                    }
                }
            },
        },
    }
}

} // verus!
