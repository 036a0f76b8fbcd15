//! ASCII-oriented character and string helpers shared by the lexer, the
//! mangler and the lowering engine.
use vstd::prelude::*;

verus! {

/// ASCII lowercase letter.
pub open spec fn is_lower(c: char) -> bool {
    'a' <= c && c <= 'z'
}

/// ASCII uppercase letter.
pub open spec fn is_upper(c: char) -> bool {
    'A' <= c && c <= 'Z'
}

/// ASCII decimal digit.
pub open spec fn is_digit(c: char) -> bool {
    '0' <= c && c <= '9'
}

/// ASCII letter.
pub open spec fn is_letter(c: char) -> bool {
    is_lower(c) || is_upper(c)
}

/// ASCII letter or digit.
pub open spec fn is_alnum(c: char) -> bool {
    is_letter(c) || is_digit(c)
}

/// ASCII uppercasing of one character; everything else is left alone.
pub open spec fn upper_char(c: char) -> char {
    if is_lower(c) {
        ((c as u8) - 32) as char
    } else {
        c
    }
}

/// ASCII lowercasing of one character; everything else is left alone.
pub open spec fn lower_char(c: char) -> char {
    if is_upper(c) {
        ((c as u8) + 32) as char
    } else {
        c
    }
}

/// ASCII uppercasing of a whole string.
pub open spec fn upper(s: Seq<char>) -> Seq<char> {
    s.map_values(|c: char| upper_char(c))
}

/// ASCII lowercasing of a whole string.
pub open spec fn lower(s: Seq<char>) -> Seq<char> {
    s.map_values(|c: char| lower_char(c))
}

/// Uppercasing a character twice is the same as doing it once.
pub proof fn lemma_upper_char_idempotent(c: char)
    ensures
        upper_char(upper_char(c)) == upper_char(c),
{
}

/// Uppercasing a string twice is the same as doing it once.
pub proof fn lemma_upper_idempotent(s: Seq<char>)
    ensures
        upper(upper(s)) == upper(s),
{
    assert(upper(upper(s)) =~= upper(s)) by {
        assert forall|i: int| 0 <= i < s.len() implies upper(upper(s))[i] == upper(s)[i] by {
            lemma_upper_char_idempotent(s[i]);
        }
    }
}

pub fn exec_is_lower(c: char) -> (r: bool)
    ensures
        r == is_lower(c),
{
    'a' <= c && c <= 'z'
}

pub fn exec_is_upper(c: char) -> (r: bool)
    ensures
        r == is_upper(c),
{
    'A' <= c && c <= 'Z'
}

pub fn exec_is_digit(c: char) -> (r: bool)
    ensures
        r == is_digit(c),
{
    '0' <= c && c <= '9'
}

pub fn exec_is_letter(c: char) -> (r: bool)
    ensures
        r == is_letter(c),
{
    exec_is_lower(c) || exec_is_upper(c)
}

pub fn exec_is_alnum(c: char) -> (r: bool)
    ensures
        r == is_alnum(c),
{
    exec_is_letter(c) || exec_is_digit(c)
}

pub fn exec_upper_char(c: char) -> (r: char)
    ensures
        r == upper_char(c),
{
    if exec_is_lower(c) {
        ((c as u8) - 32) as char
    } else {
        c
    }
}

pub fn exec_lower_char(c: char) -> (r: char)
    ensures
        r == lower_char(c),
{
    if exec_is_upper(c) {
        ((c as u8) + 32) as char
    } else {
        c
    }
}

/// The characters of a string slice, in order.
pub fn str_chars(s: &str) -> (r: Vec<char>)
    ensures
        r@ == s@,
{
    let mut out: Vec<char> = Vec::new();
    let n = s.unicode_len();
    let mut i: usize = 0;
    while i < n
        invariant
            i <= n,
            n == s@.len(),
            out@ == s@.subrange(0, i as int),
        decreases n - i,
    {
        let c = s.get_char(i);
        out.push(c);
        i = i + 1;
        proof {
            assert(out@ =~= s@.subrange(0, i as int));
        }
    }
    proof {
        assert(out@ =~= s@);
    }
    out
}

/// Relies on `String: FromIterator<char>`: collecting characters yields the
/// string with exactly those characters, in order.
#[verifier::external_body]
pub fn chars_string(v: &Vec<char>) -> (r: String)
    ensures
        r@ == v@,
{
    v.iter().collect()
}

/// ASCII-uppercased copy of a string.
pub fn to_upper(s: &str) -> (r: String)
    ensures
        r@ == upper(s@),
{
    let cs = str_chars(s);
    let mut out: Vec<char> = Vec::new();
    let mut i: usize = 0;
    while i < cs.len()
        invariant
            i <= cs@.len(),
            cs@ == s@,
            out@ == upper(s@).subrange(0, i as int),
        decreases cs@.len() - i,
    {
        out.push(exec_upper_char(cs[i]));
        i = i + 1;
        proof {
            assert(out@ =~= upper(s@).subrange(0, i as int));
        }
    }
    proof {
        assert(out@ =~= upper(s@));
    }
    chars_string(&out)
}

/// ASCII-lowercased copy of a string.
pub fn to_lower(s: &str) -> (r: String)
    ensures
        r@ == lower(s@),
{
    let cs = str_chars(s);
    let mut out: Vec<char> = Vec::new();
    let mut i: usize = 0;
    while i < cs.len()
        invariant
            i <= cs@.len(),
            cs@ == s@,
            out@ == lower(s@).subrange(0, i as int),
        decreases cs@.len() - i,
    {
        out.push(exec_lower_char(cs[i]));
        i = i + 1;
        proof {
            assert(out@ =~= lower(s@).subrange(0, i as int));
        }
    }
    proof {
        assert(out@ =~= lower(s@));
    }
    chars_string(&out)
}

/// Character-for-character equality of two string slices.
pub fn streq(a: &str, b: &str) -> (r: bool)
    ensures
        r == (a@ == b@),
{
    let na = a.unicode_len();
    let nb = b.unicode_len();
    if na != nb {
        proof {
            assert(a@ != b@);
        }
        return false;
    }
    let mut i: usize = 0;
    while i < na
        invariant
            i <= na,
            na == a@.len(),
            na == b@.len(),
            forall|j: int| 0 <= j < i ==> a@[j] == b@[j],
        decreases na - i,
    {
        if a.get_char(i) != b.get_char(i) {
            proof {
                assert(a@[i as int] != b@[i as int]);
            }
            return false;
        }
        i = i + 1;
    }
    proof {
        assert(a@ =~= b@);
    }
    true
}

/// The decimal numeral of a natural number, most significant digit first.
pub open spec fn dec_str(n: nat) -> Seq<char>
    decreases n,
{
    if n < 10 {
        seq![digit_char(n)]
    } else {
        dec_str(n / 10) + seq![digit_char(n % 10)]
    }
}

/// The digit character for one decimal digit.
pub open spec fn digit_char(d: nat) -> char {
    (((d % 10) + 48) as u8) as char
}

/// A sequence reversed.
pub open spec fn rev(s: Seq<char>) -> Seq<char> {
    Seq::new(s.len(), |i: int| s[s.len() - 1 - i])
}

/// The decimal numeral of a `usize`, as a string.
pub fn usize_string(n: usize) -> (r: String)
    ensures
        r@ == dec_str(n as nat),
{
    let cs = usize_chars(n);
    chars_string(&cs)
}

/// The decimal numeral of a `usize`, as characters.
pub fn usize_chars(n: usize) -> (r: Vec<char>)
    ensures
        r@ == dec_str(n as nat),
{
    let mut digits: Vec<char> = Vec::new();
    let mut m: usize = n;
    // least significant digit first
    loop
        invariant
            digits@.len() == 0 ==> m == n,
            digits@.len() > 0 && m > 0 ==> dec_str(n as nat) == dec_str(m as nat) + rev(digits@),
            digits@.len() > 0 && m == 0 ==> dec_str(n as nat) == rev(digits@),
        ensures
            digits@.len() > 0 && dec_str(n as nat) == rev(digits@),
        decreases m, (if digits@.len() == 0 { 1int } else { 0int }),
    {
        if digits.len() > 0 && m == 0 {
            break;
        }
        let d: usize = m % 10;
        let c: char = ((d as u8) + 48) as char;
        let ghost old_digits = digits@;
        let ghost old_m = m as nat;
        digits.push(c);
        m = m / 10;
        proof {
            assert(c == digit_char(old_m % 10));
            assert(rev(digits@) =~= seq![c] + rev(old_digits));
            if old_m < 10 {
                assert(dec_str(old_m) =~= seq![digit_char(old_m)]);
                assert(seq![c] =~= dec_str(old_m));
                if old_digits.len() == 0 {
                    assert(rev(digits@) =~= dec_str(n as nat));
                } else {
                    assert(dec_str(n as nat) == dec_str(old_m) + rev(old_digits));
                    assert(rev(digits@) =~= dec_str(n as nat));
                }
            } else {
                assert(dec_str(old_m) == dec_str(old_m / 10) + seq![digit_char(old_m % 10)]);
                if old_digits.len() == 0 {
                    assert(dec_str(m as nat) + rev(digits@) =~= dec_str(n as nat));
                } else {
                    assert(dec_str(n as nat) == dec_str(old_m) + rev(old_digits));
                    assert(dec_str(m as nat) + rev(digits@) =~= dec_str(n as nat));
                }
            }
        }
    }
    let mut out: Vec<char> = Vec::new();
    let mut i: usize = digits.len();
    while i > 0
        invariant
            i <= digits@.len(),
            dec_str(n as nat) == rev(digits@),
            out@ == rev(digits@).subrange(0, (digits@.len() - i) as int),
        decreases i,
    {
        i = i - 1;
        out.push(digits[i]);
        proof {
            assert(out@ =~= rev(digits@).subrange(0, (digits@.len() - i) as int));
        }
    }
    proof {
        assert(rev(digits@).subrange(0, digits@.len() as int) =~= rev(digits@));
    }
    out
}

} // verus!
