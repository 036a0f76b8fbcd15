//! Canonicalization of number literals: `-000.50` is emitted as `-0.5`,
//! `+3.14` as `3.14`, and every spelling of zero as `0`.
use vstd::prelude::*;
use crate::text::{is_digit, exec_is_digit, chars_string, str_chars};

verus! {

/// Length of the sign prefix: 1 for a leading `+` or `-`, else 0.
pub open spec fn sign_len(s: Seq<char>) -> int {
    if s.len() > 0 && (s[0] == '+' || s[0] == '-') {
        1
    } else {
        0
    }
}

/// The first index at or after `i` holding no digit.
pub open spec fn digits_end(s: Seq<char>, i: int) -> int
    decreases s.len() - i,
{
    if 0 <= i && i < s.len() && is_digit(s[i]) {
        digits_end(s, i + 1)
    } else {
        i
    }
}

/// The first index at or after `i` holding no `'0'`.
pub open spec fn nz_start(s: Seq<char>, i: int) -> int
    decreases s.len() - i,
{
    if 0 <= i && i < s.len() && s[i] == '0' {
        nz_start(s, i + 1)
    } else {
        i
    }
}

/// The end of `s.subrange(0, j)` once trailing `'0'`s are dropped.
pub open spec fn nz_end(s: Seq<char>, j: int) -> int
    decreases j,
{
    if 0 < j && j <= s.len() && s[j - 1] == '0' {
        nz_end(s, j - 1)
    } else {
        j
    }
}

/// A number literal: an optional sign, one or more digits, and optionally a
/// point followed by one or more digits.
pub open spec fn is_num_lit(s: Seq<char>) -> bool {
    let b = sign_len(s);
    let e = digits_end(s, b);
    &&& e > b
    &&& (e == s.len() || (s[e] == '.' && e + 1 < s.len() && digits_end(s, e + 1) == s.len()))
}

/// The canonical spelling of a number literal: no `+`, no leading zeros in
/// the integer part, no trailing zeros in the fraction, no point before an
/// empty fraction, and plain `0` for every spelling of zero.
pub open spec fn canon_num(s: Seq<char>) -> Seq<char>
    recommends
        is_num_lit(s),
{
    let b = sign_len(s);
    let e = digits_end(s, b);
    let ip = s.subrange(b, e);
    let fp = if e < s.len() {
        s.subrange(e + 1, s.len() as int)
    } else {
        Seq::<char>::empty()
    };
    let neg = s.len() > 0 && s[0] == '-';
    let fz = fp.subrange(0, nz_end(fp, fp.len() as int));
    let zi = nz_start(ip, 0);
    if zi == ip.len() && fz.len() == 0 {
        seq!['0']
    } else {
        let intpart = if zi == ip.len() {
            seq!['0']
        } else {
            ip.subrange(zi, ip.len() as int)
        };
        let sign: Seq<char> = if neg {
            seq!['-']
        } else {
            Seq::<char>::empty()
        };
        let frac: Seq<char> = if fz.len() > 0 {
            seq!['.'] + fz
        } else {
            Seq::<char>::empty()
        };
        sign + intpart + frac
    }
}

/// The canonical spelling of the literal `t`, or `None` when `t` is no
/// number literal.
#[verifier::rlimit(60)]
pub fn canon_number(t: &str) -> (r: Option<String>)
    ensures
        r is Some <==> is_num_lit(t@),
        r is Some ==> r.unwrap()@ == canon_num(t@),
{
    let cs = str_chars(t);
    let n = cs.len();
    let b: usize = if n > 0 && (cs[0] == '+' || cs[0] == '-') {
        1
    } else {
        0
    };
    proof {
        assert(b as int == sign_len(t@));
    }
    // scan the integer digits
    let mut e: usize = b;
    while e < n && exec_is_digit(cs[e])
        invariant
            b <= e <= n,
            n == t@.len(),
            cs@ == t@,
            digits_end(t@, b as int) == digits_end(t@, e as int),
        decreases n - e,
    {
        e = e + 1;
    }
    proof {
        assert(digits_end(t@, e as int) == e as int);
    }
    if e == b {
        return None;
    }
    // scan the fraction, if any
    let mut fend: usize = e;
    let mut has_frac = false;
    if e < n {
        if cs[e] != '.' {
            return None;
        }
        if e + 1 >= n {
            return None;
        }
        has_frac = true;
        fend = e + 1;
        while fend < n && exec_is_digit(cs[fend])
            invariant
                e + 1 <= fend <= n,
                n == t@.len(),
                cs@ == t@,
                digits_end(t@, e as int + 1) == digits_end(t@, fend as int),
            decreases n - fend,
        {
            fend = fend + 1;
        }
        proof {
            assert(digits_end(t@, e as int + 1) == fend as int);
        }
        if fend != n {
            return None;
        }
        if e + 1 == n {
            return None;
        }
    }
    proof {
        assert(is_num_lit(t@));
    }
    let ghost ip = t@.subrange(b as int, e as int);
    let ghost fp = if (e as int) < t@.len() {
        t@.subrange(e as int + 1, t@.len() as int)
    } else {
        Seq::<char>::empty()
    };
    // leading zeros of the integer part
    let mut zi: usize = b;
    while zi < e && cs[zi] == '0'
        invariant
            b <= zi <= e <= n,
            n == t@.len(),
            cs@ == t@,
            ip == t@.subrange(b as int, e as int),
            nz_start(ip, 0) == nz_start(ip, zi - b),
        decreases e - zi,
    {
        proof {
            assert(ip[zi - b] == t@[zi as int]);
        }
        zi = zi + 1;
    }
    proof {
        if zi < e {
            assert(ip[zi - b] == t@[zi as int]);
        }
        assert(nz_start(ip, zi - b) == zi - b);
    }
    // trailing zeros of the fraction
    let mut fz: usize = fend;
    if has_frac {
        while fz > e + 1 && cs[fz - 1] == '0'
            invariant
                e + 1 <= fz <= fend,
                fend == n,
                has_frac,
                e as int + 1 < t@.len(),
                n == t@.len(),
                cs@ == t@,
                fp == t@.subrange(e as int + 1, t@.len() as int),
                nz_end(fp, fp.len() as int) == nz_end(fp, fz - e - 1),
            decreases fz,
        {
            proof {
                assert(fp[fz - e - 2] == t@[fz - 1]);
            }
            fz = fz - 1;
        }
        proof {
            if fz > e + 1 {
                assert(fp[fz - e - 2] == t@[fz - 1]);
            }
            assert(nz_end(fp, fz - e - 1) == fz - e - 1);
        }
    } else {
        proof {
            assert(fp.len() == 0);
            assert(nz_end(fp, 0) == 0);
        }
    }
    let ghost fzs = fp.subrange(0, nz_end(fp, fp.len() as int));
    proof {
        if has_frac {
            assert(fzs =~= t@.subrange(e as int + 1, fz as int));
        } else {
            assert(fzs =~= Seq::<char>::empty());
        }
    }
    let mut out: Vec<char> = Vec::new();
    if zi == e && (!has_frac || fz == e + 1) {
        // every digit is zero
        out.push('0');
        proof {
            assert(nz_start(ip, 0) == ip.len());
            assert(fzs.len() == 0);
            assert(out@ =~= canon_num(t@));
        }
        return Some(chars_string(&out));
    }
    let neg = n > 0 && cs[0] == '-';
    if neg {
        out.push('-');
    }
    if zi == e {
        out.push('0');
    } else {
        let mut k: usize = zi;
        while k < e
            invariant
                zi <= k <= e <= n,
                n == t@.len(),
                cs@ == t@,
                out@ == (if neg {
                    seq!['-']
                } else {
                    Seq::<char>::empty()
                }) + t@.subrange(zi as int, k as int),
            decreases e - k,
        {
            out.push(cs[k]);
            k = k + 1;
            proof {
                assert(out@ =~= (if neg {
                    seq!['-']
                } else {
                    Seq::<char>::empty()
                }) + t@.subrange(zi as int, k as int));
            }
        }
    }
    if has_frac && fz > e + 1 {
        out.push('.');
        let ghost mid = out@;
        let mut k: usize = e + 1;
        while k < fz
            invariant
                e + 1 <= k <= fz <= n,
                n == t@.len(),
                cs@ == t@,
                out@ == mid + t@.subrange(e as int + 1, k as int),
            decreases fz - k,
        {
            out.push(cs[k]);
            k = k + 1;
            proof {
                assert(out@ =~= mid + t@.subrange(e as int + 1, k as int));
            }
        }
    }
    proof {
        let b_ = sign_len(t@);
        let e_ = digits_end(t@, b_);
        assert(e_ == e as int);
        let zi_ = nz_start(ip, 0);
        assert(zi_ == zi - b);
        let intpart: Seq<char> = if zi_ == ip.len() {
            seq!['0']
        } else {
            ip.subrange(zi_, ip.len() as int)
        };
        if zi < e {
            assert(ip.subrange(zi_, ip.len() as int) =~= t@.subrange(zi as int, e as int));
        }
        let sign: Seq<char> = if neg {
            seq!['-']
        } else {
            Seq::<char>::empty()
        };
        let frac: Seq<char> = if fzs.len() > 0 {
            seq!['.'] + fzs
        } else {
            Seq::<char>::empty()
        };
        assert(out@ =~= sign + intpart + frac);
        assert(out@ =~= canon_num(t@));
    }
    Some(chars_string(&out))
}


/// What the digit scan finds: a run of digits, ended by the end of the
/// string or a non-digit.
proof fn lemma_digits_end_props(s: Seq<char>, i: int)
    requires
        0 <= i <= s.len(),
    ensures
        i <= digits_end(s, i) <= s.len(),
        forall|k: int| i <= k < digits_end(s, i) ==> is_digit(#[trigger] s[k]),
        digits_end(s, i) == s.len() || !is_digit(s[digits_end(s, i)]),
    decreases s.len() - i,
{
    if i < s.len() && is_digit(s[i]) {
        lemma_digits_end_props(s, i + 1);
    }
}

/// The digit scan is pinned by any witness of its result.
proof fn lemma_digits_end_exact(s: Seq<char>, i: int, j: int)
    requires
        0 <= i <= j <= s.len(),
        forall|k: int| i <= k < j ==> is_digit(#[trigger] s[k]),
        j == s.len() || !is_digit(s[j]),
    ensures
        digits_end(s, i) == j,
    decreases j - i,
{
    if i < j {
        lemma_digits_end_exact(s, i + 1, j);
    }
}

/// What the leading-zero scan finds.
proof fn lemma_nz_start_props(s: Seq<char>, i: int)
    requires
        0 <= i <= s.len(),
    ensures
        i <= nz_start(s, i) <= s.len(),
        forall|k: int| i <= k < nz_start(s, i) ==> #[trigger] s[k] == '0',
        nz_start(s, i) == s.len() || s[nz_start(s, i)] != '0',
    decreases s.len() - i,
{
    if i < s.len() && s[i] == '0' {
        lemma_nz_start_props(s, i + 1);
    }
}

/// What the trailing-zero scan finds.
proof fn lemma_nz_end_props(s: Seq<char>, j: int)
    requires
        0 <= j <= s.len(),
    ensures
        0 <= nz_end(s, j) <= j,
        forall|k: int| nz_end(s, j) <= k < j ==> #[trigger] s[k] == '0',
        nz_end(s, j) == 0 || s[nz_end(s, j) - 1] != '0',
    decreases j,
{
    if 0 < j && s[j - 1] == '0' {
        lemma_nz_end_props(s, j - 1);
    }
}

/// Canonicalization is idempotent: the canonical spelling of a number
/// literal is itself a number literal, and canonicalizing it again
/// changes nothing. Emitting a lowered literal and lowering it again is
/// therefore stable.
pub proof fn lemma_canon_idempotent(s: Seq<char>)
    requires
        is_num_lit(s),
    ensures
        is_num_lit(canon_num(s)),
        canon_num(canon_num(s)) == canon_num(s),
{
    let b = sign_len(s);
    let e = digits_end(s, b);
    lemma_digits_end_props(s, b);
    let ip = s.subrange(b, e);
    let fp: Seq<char> = if e < s.len() {
        s.subrange(e + 1, s.len() as int)
    } else {
        Seq::<char>::empty()
    };
    if e < s.len() {
        lemma_digits_end_props(s, e + 1);
    }
    assert(forall|k: int| 0 <= k < ip.len() ==> is_digit(#[trigger] ip[k]));
    assert(forall|k: int| 0 <= k < fp.len() ==> is_digit(#[trigger] fp[k]));
    let neg = s.len() > 0 && s[0] == '-';
    lemma_nz_end_props(fp, fp.len() as int);
    let fz = fp.subrange(0, nz_end(fp, fp.len() as int));
    lemma_nz_start_props(ip, 0);
    let zi = nz_start(ip, 0);
    let c = canon_num(s);
    if zi == ip.len() && fz.len() == 0 {
        // every digit was zero: the canonical spelling is plain 0
        assert(c =~= seq!['0']);
        assert(is_digit('0'));
        lemma_digits_end_exact(c, 0, 1);
        assert(is_num_lit(c));
        let ip2 = c.subrange(0, 1);
        assert(ip2 =~= seq!['0']);
        lemma_nz_start_props(ip2, 0);
        assert(nz_start(ip2, 0) == 1);
        assert(canon_num(c) =~= seq!['0']);
    } else {
        let intpart: Seq<char> = if zi == ip.len() {
            seq!['0']
        } else {
            ip.subrange(zi, ip.len() as int)
        };
        let sign: Seq<char> = if neg {
            seq!['-']
        } else {
            Seq::<char>::empty()
        };
        let frac: Seq<char> = if fz.len() > 0 {
            seq!['.'] + fz
        } else {
            Seq::<char>::empty()
        };
        assert(c == sign + intpart + frac);
        let b2: int = if neg {
            1
        } else {
            0
        };
        assert(intpart.len() >= 1);
        assert(c.len() == b2 + intpart.len() + frac.len());
        // the sign prefix of the canonical spelling
        assert(c[0] == (sign + intpart + frac)[0]);
        if neg {
            assert(c[0] == '-');
        } else {
            assert(c[0] == intpart[0]);
            assert(is_digit(c[0]));
            assert(c[0] != '-' && c[0] != '+');
        }
        assert(sign_len(c) == b2);
        // the digits of the canonical integer part
        let e2 = b2 + intpart.len() as int;
        assert(forall|k: int| b2 <= k < e2 ==> #[trigger] c[k] == intpart[k - b2]);
        assert(forall|k: int| b2 <= k < e2 ==> is_digit(#[trigger] c[k]));
        if frac.len() > 0 {
            assert(c[e2] == frac[0]);
            assert(c[e2] == '.');
            assert(!is_digit('.'));
            lemma_digits_end_exact(c, b2, e2);
            // the fraction digits run to the end
            assert(forall|k: int|
                e2 + 1 <= k < c.len() ==> #[trigger] c[k] == fz[k - e2 - 1]);
            assert(forall|k: int| e2 + 1 <= k < c.len() ==> is_digit(#[trigger] c[k]));
            lemma_digits_end_exact(c, e2 + 1, c.len() as int);
            assert(fz.len() >= 1);
            assert(is_num_lit(c));
        } else {
            lemma_digits_end_exact(c, b2, e2);
            assert(is_num_lit(c));
        }
        // canonicalizing the canonical spelling changes nothing
        let ip2 = c.subrange(b2, e2);
        assert(ip2 =~= intpart);
        let fp2: Seq<char> = if e2 < c.len() {
            c.subrange(e2 + 1, c.len() as int)
        } else {
            Seq::<char>::empty()
        };
        if frac.len() > 0 {
            assert(fp2 =~= fz);
        } else {
            assert(fp2 =~= Seq::<char>::empty());
        }
        // the fraction already has no trailing zeros
        lemma_nz_end_props(fz, fz.len() as int);
        if fz.len() > 0 {
            assert(fz[fz.len() - 1] == fp[fz.len() - 1]);
            assert(nz_end(fp, fp.len() as int) == fz.len());
            assert(nz_end(fp, fp.len() as int) == 0 || fp[nz_end(fp, fp.len() as int) - 1]
                != '0');
            assert(fz[fz.len() - 1] != '0');
            assert(nz_end(fz, fz.len() as int) == fz.len() as int);
        }
        let fz2 = fp2.subrange(0, nz_end(fp2, fp2.len() as int));
        if frac.len() > 0 {
            assert(fz2 =~= fz);
        } else {
            assert(fz2 =~= Seq::<char>::empty());
        }
        // the integer part already has no leading zeros (or is plain 0)
        lemma_nz_start_props(intpart, 0);
        let zi2 = nz_start(intpart, 0);
        if zi == ip.len() {
            // intpart is plain 0, and the fraction is non-empty
            assert(intpart =~= seq!['0']);
            assert(zi2 == 1);
            assert(fz.len() > 0);
            let intpart2: Seq<char> = seq!['0'];
            assert(canon_num(c) == sign + intpart2 + frac);
            assert(canon_num(c) == c);
        } else {
            assert(intpart[0] == ip[zi]);
            assert(intpart[0] != '0');
            assert(zi2 == 0);
            assert(intpart.subrange(0, intpart.len() as int) =~= intpart);
            assert(canon_num(c) == sign + intpart + frac);
        }
    }
}

} // verus!
