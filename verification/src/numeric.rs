//! Truthiness classification of numeric literal text.
//!
//! The SQL dialect served here coerces a constant to a boolean by its
//! numeric value: zero is falsy, anything else is truthy. A literal is
//! numeric when it follows the usual decimal grammar
//! `sign? (digits '.'? digits? exp? | '.' digits exp? | keyword)` with
//! `exp = (e|E) sign? digits` and keyword one of `inf`, `infinity`, `nan`
//! (case-insensitive, all of which are non-zero values). A numeric literal
//! denotes zero exactly when every digit of its mantissa is `0`; the
//! exponent only moves the decimal point and cannot make a non-zero
//! mantissa zero.
use vstd::prelude::*;

use crate::schema::lower_char;

verus! {

pub open spec fn is_digit(c: char) -> bool {
    '0' <= c && c <= '9'
}

/// `s` with one leading sign character stripped, if present.
pub open spec fn sign_stripped(s: Seq<char>) -> Seq<char> {
    if s.len() > 0 && (s[0] == '+' || s[0] == '-') {
        s.drop_first()
    } else {
        s
    }
}

/// The end of the run of digits of `s` that starts at `from`.
pub open spec fn digits_end(s: Seq<char>, from: int) -> int
    decreases s.len() - from,
{
    if 0 <= from < s.len() && is_digit(s[from]) {
        digits_end(s, from + 1)
    } else {
        from
    }
}

/// The keywords the float grammar accepts (`inf`, `infinity`, `nan`,
/// case-insensitive); all denote non-zero values.
pub open spec fn is_numeric_keyword(b: Seq<char>) -> bool {
    ||| (b.len() == 3 && lower_char(b[0]) == 'i' && lower_char(b[1]) == 'n' && lower_char(b[2])
        == 'f')
    ||| (b.len() == 3 && lower_char(b[0]) == 'n' && lower_char(b[1]) == 'a' && lower_char(b[2])
        == 'n')
    ||| (b.len() == 8 && lower_char(b[0]) == 'i' && lower_char(b[1]) == 'n' && lower_char(b[2])
        == 'f' && lower_char(b[3]) == 'i' && lower_char(b[4]) == 'n' && lower_char(b[5]) == 'i'
        && lower_char(b[6]) == 't' && lower_char(b[7]) == 'y')
}

/// End of the integer-part digit run of the sign-stripped literal `b`.
pub open spec fn int_end(b: Seq<char>) -> int {
    digits_end(b, 0)
}

/// Start of the fractional digit run (just after the dot), or `int_end`
/// when there is no dot.
pub open spec fn frac_start(b: Seq<char>) -> int {
    if int_end(b) < b.len() && b[int_end(b)] == '.' {
        int_end(b) + 1
    } else {
        int_end(b)
    }
}

/// End of the fractional digit run.
pub open spec fn frac_end(b: Seq<char>) -> int {
    digits_end(b, frac_start(b))
}

/// Whether `b` carries a well-formed exponent beginning at `k` (the index
/// of the `e`/`E` marker is `k - 1`).
pub open spec fn exp_ok(b: Seq<char>, k: int) -> bool {
    let k2 = if k < b.len() && (b[k] == '+' || b[k] == '-') {
        k + 1
    } else {
        k
    };
    k2 < b.len() && digits_end(b, k2) == b.len()
}

/// Whether the sign-stripped literal `b` follows the number grammar.
pub open spec fn is_number_body(b: Seq<char>) -> bool {
    let j1 = int_end(b);
    let fs = frac_start(b);
    let j2 = frac_end(b);
    let has_digit = j1 > 0 || j2 > fs;
    has_digit && (j2 == b.len() || ((b[j2] == 'e' || b[j2] == 'E') && exp_ok(b, j2 + 1)))
}

/// Whether `s` is a numeric literal.
pub open spec fn is_numeric_literal(s: Seq<char>) -> bool {
    is_numeric_keyword(sign_stripped(s)) || is_number_body(sign_stripped(s))
}

/// Whether a numeric literal denotes zero: not a keyword, and every
/// mantissa digit is `0`.
pub open spec fn numeric_is_zero(s: Seq<char>) -> bool {
    let b = sign_stripped(s);
    &&& !is_numeric_keyword(b)
    &&& forall|i: int| 0 <= i < int_end(b) ==> b[i] == '0'
    &&& forall|i: int| frac_start(b) <= i < frac_end(b) ==> b[i] == '0'
}

/// The truth verdict of a piece of literal text: `None` when it is not
/// numeric, otherwise `Some(z)` with `z` true exactly when it denotes zero.
pub open spec fn numeric_truth(s: Seq<char>) -> Option<bool> {
    if is_numeric_literal(s) {
        Option::Some(numeric_is_zero(s))
    } else {
        Option::None
    }
}

/// Any index with the first-non-digit property is the digit run's end.
proof fn lemma_digits_end_unique(s: Seq<char>, from: int, j: int)
    requires
        0 <= from <= j <= s.len(),
        forall|k: int| from <= k < j ==> is_digit(#[trigger] s[k]),
        j < s.len() ==> !is_digit(s[j]),
    ensures
        digits_end(s, from) == j,
    decreases j - from,
{
    if from < j {
        lemma_digits_end_unique(s, from + 1, j);
    }
}

/// Scan the run of digits of `v` starting at `from`: returns its end and
/// whether every digit in the run is `0`.
fn scan_digits(v: &Vec<char>, from: usize) -> (r: (usize, bool))
    requires
        from <= v@.len(),
    ensures
        from <= r.0 <= v@.len(),
        forall|k: int| from <= k < r.0 ==> is_digit(#[trigger] v@[k]),
        r.0 < v@.len() ==> !is_digit(v@[r.0 as int]),
        r.1 == forall|k: int| from <= k < r.0 ==> #[trigger] v@[k] == '0',
{
    let n = v.len();
    let mut j: usize = from;
    let mut zero = true;
    while j < n && v[j] >= '0' && v[j] <= '9'
        invariant
            from <= j <= n,
            n == v@.len(),
            forall|k: int| from <= k < j ==> is_digit(#[trigger] v@[k]),
            zero == forall|k: int| from <= k < j ==> #[trigger] v@[k] == '0',
        decreases n - j,
    {
        if v[j] != '0' {
            zero = false;
        }
        j = j + 1;
    }
    (j, zero)
}

/// Classify literal text: `None` when not numeric, else `Some(z)` with `z`
/// true exactly when the literal denotes zero.
pub fn classify_numeric(s: &str) -> (r: Option<bool>)
    ensures
        r == numeric_truth(s@),
{
    let v = crate::schema::chars_of(s);
    let n = v.len();
    let st: usize = if n > 0 && (v[0] == '+' || v[0] == '-') {
        1
    } else {
        0
    };
    // Work on the sign-stripped text.
    let ghost b = sign_stripped(s@);
    let mut w: Vec<char> = Vec::new();
    let mut i: usize = st;
    while i < n
        invariant
            st <= i <= n,
            n == v@.len(),
            v@ == s@,
            w@ == s@.subrange(st as int, i as int),
        decreases n - i,
    {
        w.push(v[i]);
        i = i + 1;
        proof {
            assert(w@ =~= s@.subrange(st as int, i as int));
        }
    }
    proof {
        assert(w@ =~= b);
    }
    let m = w.len();

    // Keyword forms: `inf`, `infinity`, `nan`.
    if m == 3 {
        let c0 = lower_char_x(w[0]);
        let c1 = lower_char_x(w[1]);
        let c2 = lower_char_x(w[2]);
        if (c0 == 'i' && c1 == 'n' && c2 == 'f') || (c0 == 'n' && c1 == 'a' && c2 == 'n') {
            return Option::Some(false);
        }
    }
    if m == 8 {
        let c0 = lower_char_x(w[0]);
        let c1 = lower_char_x(w[1]);
        let c2 = lower_char_x(w[2]);
        let c3 = lower_char_x(w[3]);
        let c4 = lower_char_x(w[4]);
        let c5 = lower_char_x(w[5]);
        let c6 = lower_char_x(w[6]);
        let c7 = lower_char_x(w[7]);
        if c0 == 'i' && c1 == 'n' && c2 == 'f' && c3 == 'i' && c4 == 'n' && c5 == 'i' && c6 == 't'
            && c7 == 'y' {
            return Option::Some(false);
        }
    }
    proof {
        assert(!is_numeric_keyword(b));
    }

    // Integer-part digit run.
    let (j1, zint) = scan_digits(&w, 0);
    proof {
        lemma_digits_end_unique(b, 0, j1 as int);
        assert(int_end(b) == j1);
    }

    // Optional dot and fractional digit run.
    let fs: usize = if j1 < m && w[j1] == '.' {
        j1 + 1
    } else {
        j1
    };
    proof {
        assert(fs == frac_start(b));
    }
    let (j2, zfrac) = scan_digits(&w, fs);
    proof {
        lemma_digits_end_unique(b, fs as int, j2 as int);
        assert(frac_end(b) == j2);
    }

    // At least one mantissa digit.
    if j1 == 0 && j2 == fs {
        return Option::None;
    }

    let zero = zint && zfrac;
    proof {
        assert(zero == numeric_is_zero(s@));
    }

    if j2 == m {
        return Option::Some(zero);
    }

    // Exponent: `e`/`E`, optional sign, at least one digit, digits to the end.
    if !(w[j2] == 'e' || w[j2] == 'E') {
        return Option::None;
    }
    let k: usize = j2 + 1;
    let k2: usize = if k < m && (w[k] == '+' || w[k] == '-') {
        k + 1
    } else {
        k
    };
    if k2 >= m {
        return Option::None;
    }
    let (j3, _ze) = scan_digits(&w, k2);
    proof {
        lemma_digits_end_unique(b, k2 as int, j3 as int);
    }
    if j3 == m {
        Option::Some(zero)
    } else {
        Option::None
    }
}

/// ASCII lower-casing of one character.
pub fn lower_char_x(c: char) -> (r: char)
    ensures
        r == lower_char(c),
{
    if 'A' <= c && c <= 'Z' {
        ((c as u8) + 32) as char
    } else {
        c
    }
}

} // verus!
