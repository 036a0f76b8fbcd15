//! Identifier mangling: the deterministic, uppercase, prefix-tagged
//! transformation from LDPL identifiers to valid C++ identifiers.
use vstd::prelude::*;
use crate::text::{
    dec_str, digit_char, is_alnum, is_digit, is_letter, is_lower, is_upper, upper, upper_char,
    chars_string, exec_is_alnum, exec_upper_char, str_chars, usize_chars,
};

verus! {

/// A character that may start an identifier.
pub open spec fn is_ident_start(c: char) -> bool {
    is_letter(c) || c == '_'
}

/// A character that may continue an identifier.
pub open spec fn is_ident_char(c: char) -> bool {
    is_alnum(c) || c == '_' || c == '-' || c == '.'
}

/// An identifier as the grammar accepts it.
pub open spec fn is_ident(s: Seq<char>) -> bool {
    &&& s.len() > 0
    &&& is_ident_start(s[0])
    &&& forall|i: int| 0 <= i < s.len() ==> is_ident_char(#[trigger] s[i])
}

/// A character kept verbatim by mangling.
pub open spec fn kept_char(c: char) -> bool {
    is_alnum(c) || c == '_'
}

/// The code a non-kept character is written out as: its code point value.
pub open spec fn char_code(c: char) -> nat {
    c as nat
}

/// How one (already uppercased) character is mangled.
pub open spec fn mangle_char(c: char) -> Seq<char> {
    if kept_char(c) {
        seq![c]
    } else {
        seq!['c'] + dec_str(char_code(c)) + seq!['_']
    }
}

/// The concatenation of the mangled characters of a string.
pub open spec fn mangle_chars(s: Seq<char>) -> Seq<char>
    decreases s.len(),
{
    if s.len() == 0 {
        Seq::empty()
    } else {
        mangle_char(s[0]) + mangle_chars(s.skip(1))
    }
}

/// The mangled form of an identifier: uppercase it, keep alphanumerics and
/// underscores, and write any other character as `c<code>_`.
pub open spec fn spec_mangle(s: Seq<char>) -> Seq<char> {
    mangle_chars(upper(s))
}

/// A variable reference: `VAR_` + the mangled identifier.
pub open spec fn spec_mangle_var(s: Seq<char>) -> Seq<char> {
    "VAR_"@ + spec_mangle(s)
}

/// A sub-procedure reference: `SUBPR_` + the mangled identifier.
pub open spec fn spec_mangle_sub(s: Seq<char>) -> Seq<char> {
    "SUBPR_"@ + spec_mangle(s)
}

/// The simplified mangling used for EXTERNAL names: uppercase, and every
/// character that is not alphanumeric or an underscore becomes `_`.
pub open spec fn spec_mangle_ext(s: Seq<char>) -> Seq<char> {
    upper(s).map_values(|c: char| if kept_char(c) { c } else { '_' })
}

/// `mangle_chars` distributes over appending one character.
proof fn lemma_mangle_chars_snoc(s: Seq<char>, c: char)
    ensures
        mangle_chars(s.push(c)) == mangle_chars(s) + mangle_char(c),
    decreases s.len(),
{
    if s.len() == 0 {
        assert(s.push(c)[0] == c);
        assert(s.push(c).skip(1) =~= Seq::<char>::empty());
        assert(mangle_chars(s.push(c)) == mangle_char(c) + mangle_chars(Seq::<char>::empty()));
        assert(mangle_char(c) + mangle_chars(Seq::<char>::empty()) =~= mangle_char(c));
        assert(mangle_chars(s) + mangle_char(c) =~= mangle_char(c));
    } else {
        assert(s.push(c).skip(1) =~= s.skip(1).push(c));
        lemma_mangle_chars_snoc(s.skip(1), c);
        assert(mangle_chars(s.push(c)) == mangle_char(s[0]) + (mangle_chars(s.skip(1))
            + mangle_char(c)));
        assert(mangle_char(s[0]) + (mangle_chars(s.skip(1)) + mangle_char(c)) =~= (mangle_char(
            s[0],
        ) + mangle_chars(s.skip(1))) + mangle_char(c));
    }
}

/// Convert an ident to a C++-friendly ident: uppercase it, keep
/// alphanumerics and underscores, and write out anything else as `c<code>_`.
pub fn mangle(ident: &str) -> (r: String)
    ensures
        r@ == spec_mangle(ident@),
{
    let cs = str_chars(ident);
    let mut out: Vec<char> = Vec::new();
    let mut i: usize = 0;
    while i < cs.len()
        invariant
            i <= cs@.len(),
            cs@ == ident@,
            out@ == mangle_chars(upper(ident@).subrange(0, i as int)),
        decreases cs@.len() - i,
    {
        let ghost prefix = upper(ident@).subrange(0, i as int);
        let u = exec_upper_char(cs[i]);
        proof {
            assert(u == upper(ident@)[i as int]);
            lemma_mangle_chars_snoc(prefix, u);
            assert(prefix.push(u) =~= upper(ident@).subrange(0, i as int + 1));
        }
        if exec_is_alnum(u) || u == '_' {
            out.push(u);
            proof {
                assert(mangle_char(u) =~= seq![u]);
                assert(out@ =~= mangle_chars(prefix) + mangle_char(u));
            }
        } else {
            let code: u32 = u as u32;
            out.push('c');
            let digits = usize_chars(code as usize);
            let mut j: usize = 0;
            while j < digits.len()
                invariant
                    j <= digits@.len(),
                    digits@ == dec_str(char_code(u)),
                    out@ == mangle_chars(prefix) + seq!['c'] + digits@.subrange(0, j as int),
                decreases digits@.len() - j,
            {
                out.push(digits[j]);
                j = j + 1;
                proof {
                    assert(out@ =~= mangle_chars(prefix) + seq!['c'] + digits@.subrange(
                        0,
                        j as int,
                    ));
                }
            }
            out.push('_');
            proof {
                assert(digits@.subrange(0, digits@.len() as int) =~= digits@);
                assert(out@ =~= mangle_chars(prefix) + mangle_char(u));
            }
        }
        i = i + 1;
    }
    proof {
        assert(upper(ident@).subrange(0, upper(ident@).len() as int) =~= upper(ident@));
    }
    chars_string(&out)
}

/// Mangle a variable name for C++.
pub fn mangle_var(ident: &str) -> (r: String)
    ensures
        r@ == spec_mangle_var(ident@),
{
    let mut out = String::new();
    out.append("VAR_");
    let m = mangle(ident);
    out.append(m.as_str());
    out
}

/// Mangle a sub-procedure name for C++.
pub fn mangle_sub(ident: &str) -> (r: String)
    ensures
        r@ == spec_mangle_sub(ident@),
{
    let mut out = String::new();
    out.append("SUBPR_");
    let m = mangle(ident);
    out.append(m.as_str());
    out
}

/// The simplified mangling for EXTERNAL names.
pub fn mangle_extern(ident: &str) -> (r: String)
    ensures
        r@ == spec_mangle_ext(ident@),
{
    let cs = str_chars(ident);
    let mut out: Vec<char> = Vec::new();
    let mut i: usize = 0;
    while i < cs.len()
        invariant
            i <= cs@.len(),
            cs@ == ident@,
            out@ == spec_mangle_ext(ident@).subrange(0, i as int),
        decreases cs@.len() - i,
    {
        let u = exec_upper_char(cs[i]);
        if exec_is_alnum(u) || u == '_' {
            out.push(u);
        } else {
            out.push('_');
        }
        i = i + 1;
        proof {
            assert(out@ =~= spec_mangle_ext(ident@).subrange(0, i as int));
        }
    }
    proof {
        assert(out@ =~= spec_mangle_ext(ident@));
    }
    chars_string(&out)
}

/// Mangling folds case: an identifier and its uppercased spelling mangle to
/// the same C++ name.
pub proof fn lemma_mangle_case_insensitive(s: Seq<char>)
    ensures
        spec_mangle(s) == spec_mangle(upper(s)),
{
    crate::text::lemma_upper_idempotent(s);
}

/// Characters an uppercased identifier may hold.
pub open spec fn upper_ident_char(c: char) -> bool {
    is_upper(c) || is_digit(c) || c == '_' || c == '-' || c == '.'
}

/// `mangle_char('-')` written out.
proof fn lemma_mangle_char_dash()
    ensures
        mangle_char('-') =~= seq!['c', '4', '5', '_'],
        mangle_char('.') =~= seq!['c', '4', '6', '_'],
{
    assert(char_code('-') == 45nat);
    assert(char_code('.') == 46nat);
    assert(dec_str(45nat) == dec_str(4nat) + seq![digit_char(5nat)]);
    assert(dec_str(4nat) =~= seq![digit_char(4nat)]);
    assert(digit_char(4nat) == '4');
    assert(digit_char(5nat) == '5');
    assert(dec_str(46nat) == dec_str(4nat) + seq![digit_char(6nat)]);
    assert(digit_char(6nat) == '6');
}

/// Splitting a concatenation at equal lengths cancels.
proof fn lemma_concat_cancel(a1: Seq<char>, b1: Seq<char>, a2: Seq<char>, b2: Seq<char>)
    requires
        a1.len() == a2.len(),
        a1 + b1 == a2 + b2,
    ensures
        a1 == a2,
        b1 == b2,
{
    assert((a1 + b1).len() == a1.len() + b1.len());
    assert((a2 + b2).len() == a2.len() + b2.len());
    assert(b1.len() == b2.len());
    assert forall|i: int| 0 <= i < a1.len() implies a1[i] == a2[i] by {
        assert((a1 + b1)[i] == a1[i]);
        assert((a2 + b2)[i] == a2[i]);
    }
    assert(a1 =~= a2);
    assert forall|i: int| 0 <= i < b1.len() implies b1[i] == b2[i] by {
        assert((a1 + b1)[a1.len() + i] == b1[i]);
        assert((a2 + b2)[a2.len() + i] == b2[i]);
    }
    assert(b1 =~= b2);
}

/// `mangle_chars` is injective over strings of uppercased identifier
/// characters.
proof fn lemma_mangle_chars_injective(x: Seq<char>, y: Seq<char>)
    requires
        forall|i: int| 0 <= i < x.len() ==> upper_ident_char(#[trigger] x[i]),
        forall|i: int| 0 <= i < y.len() ==> upper_ident_char(#[trigger] y[i]),
        mangle_chars(x) == mangle_chars(y),
    ensures
        x == y,
    decreases x.len(),
{
    lemma_mangle_char_dash();
    if x.len() == 0 || y.len() == 0 {
        if x.len() == 0 && y.len() > 0 {
            assert(mangle_chars(y).len() >= mangle_char(y[0]).len());
            assert(false);
        }
        if y.len() == 0 && x.len() > 0 {
            assert(mangle_chars(x).len() >= mangle_char(x[0]).len());
            assert(false);
        }
        assert(x =~= y);
    } else {
        let c = x[0];
        let d = y[0];
        assert(upper_ident_char(c) && upper_ident_char(d));
        if kept_char(c) && kept_char(d) {
            assert(mangle_chars(x)[0] == c && mangle_chars(y)[0] == d);
            lemma_concat_cancel(mangle_char(c), mangle_chars(x.skip(1)), mangle_char(d),
                mangle_chars(y.skip(1)));
            lemma_mangle_chars_injective(x.skip(1), y.skip(1));
            assert(x =~= seq![c] + x.skip(1));
            assert(y =~= seq![d] + y.skip(1));
        } else if kept_char(c) && !kept_char(d) {
            // a kept uppercase character never equals the lowercase marker 'c'
            assert(mangle_chars(x)[0] == c);
            assert(mangle_chars(y)[0] == 'c');
            assert(!is_lower(c));
            assert(false);
        } else if !kept_char(c) && kept_char(d) {
            assert(mangle_chars(y)[0] == d);
            assert(mangle_chars(x)[0] == 'c');
            assert(!is_lower(d));
            assert(false);
        } else {
            // both are '-' or '.', distinguished at offset 2
            assert(c == '-' || c == '.');
            assert(d == '-' || d == '.');
            assert(mangle_char(c).len() == 4 && mangle_char(d).len() == 4);
            assert(mangle_chars(x)[2] == mangle_char(c)[2]);
            assert(mangle_chars(y)[2] == mangle_char(d)[2]);
            assert(c == d);
            lemma_concat_cancel(mangle_char(c), mangle_chars(x.skip(1)), mangle_char(d),
                mangle_chars(y.skip(1)));
            lemma_mangle_chars_injective(x.skip(1), y.skip(1));
            assert(x =~= seq![c] + x.skip(1));
            assert(y =~= seq![d] + y.skip(1));
        }
    }
}

/// Mangling is injective over the identifiers the grammar accepts, up to
/// case: two identifiers with the same mangled form have the same
/// uppercased spelling (and identifiers differing only in case always
/// mangle alike, by `lemma_mangle_case_insensitive`).
pub proof fn lemma_mangle_injective(a: Seq<char>, b: Seq<char>)
    requires
        is_ident(a),
        is_ident(b),
        spec_mangle(a) == spec_mangle(b),
    ensures
        upper(a) == upper(b),
{
    assert(forall|i: int| 0 <= i < upper(a).len() ==> upper_ident_char(#[trigger] upper(a)[i]))
        by {
        assert(forall|i: int|
            0 <= i < a.len() ==> is_ident_char(a[i]) && #[trigger] upper(a)[i] == upper_char(
                a[i],
            ));
    }
    assert(forall|i: int| 0 <= i < upper(b).len() ==> upper_ident_char(#[trigger] upper(b)[i]))
        by {
        assert(forall|i: int|
            0 <= i < b.len() ==> is_ident_char(b[i]) && #[trigger] upper(b)[i] == upper_char(
                b[i],
            ));
    }
    lemma_mangle_chars_injective(upper(a), upper(b));
}

} // verus!
