//! Decimal sort keys extracted from file names.
//!
//! A key is an unsigned decimal number kept as its digits: an integer part
//! without leading zeros and a fraction part without trailing zeros.  Keys
//! are exact — no floating point is involved — and two keys are numerically
//! equal exactly when their canonical digit strings are equal.

use vstd::prelude::*;

use crate::path_utils::spec_file_name;
use crate::path_utils::get_file_name_lossy;
use crate::pattern::{last_capture, NamePattern};
use crate::strutil::{char_range, str_chars};

verus! {

/// Whether `c` is a decimal digit.
pub open spec fn is_digit(c: char) -> bool {
    '0' <= c <= '9'
}

/// Whether every character of `s` is a decimal digit.
pub open spec fn all_digits(s: Seq<char>) -> bool {
    forall|i: int| 0 <= i < s.len() ==> is_digit(#[trigger] s[i])
}

/// `s` without its leading `0` characters.
pub open spec fn strip_leading_zeros(s: Seq<char>) -> Seq<char>
    decreases s.len(),
{
    if s.len() > 0 && s[0] == '0' {
        strip_leading_zeros(s.subrange(1, s.len() as int))
    } else {
        s
    }
}

/// `s` without its trailing `0` characters.
pub open spec fn strip_trailing_zeros(s: Seq<char>) -> Seq<char>
    decreases s.len(),
{
    if s.len() > 0 && s[s.len() - 1] == '0' {
        strip_trailing_zeros(s.take(s.len() - 1))
    } else {
        s
    }
}

/// Index of the first `.` in `s`, or `s.len()` when there is none.
pub open spec fn dot_index(s: Seq<char>) -> int
    decreases s.len(),
{
    if s.len() == 0 {
        0
    } else if s[0] == '.' {
        0
    } else {
        1 + dot_index(s.subrange(1, s.len() as int))
    }
}

proof fn lemma_dot_index_spec(s: Seq<char>)
    ensures
        0 <= dot_index(s) <= s.len(),
        dot_index(s) < s.len() ==> s[dot_index(s)] == '.',
        forall|j: int| 0 <= j < dot_index(s) ==> s[j] != '.',
    decreases s.len(),
{
    if s.len() > 0 && s[0] != '.' {
        let sub = s.subrange(1, s.len() as int);
        lemma_dot_index_spec(sub);
        assert forall|j: int| 0 <= j < dot_index(s) implies s[j] != '.' by {
            if j > 0 {
                assert(sub[j - 1] != '.');
            }
        }
    }
}

proof fn lemma_strip_leading_chars(s: Seq<char>, z: int)
    requires
        0 <= z <= s.len(),
        forall|j: int| 0 <= j < z ==> s[j] == '0',
        z < s.len() ==> s[z] != '0',
    ensures
        strip_leading_zeros(s) == s.subrange(z, s.len() as int),
    decreases z,
{
    if z == 0 {
        assert(s.subrange(0, s.len() as int) =~= s);
    } else {
        let sub = s.subrange(1, s.len() as int);
        lemma_strip_leading_chars(sub, z - 1);
        assert(sub.subrange(z - 1, sub.len() as int) =~= s.subrange(z, s.len() as int));
    }
}

proof fn lemma_strip_trailing_chars(s: Seq<char>, z: int)
    requires
        0 <= z <= s.len(),
        forall|j: int| z <= j < s.len() ==> s[j] == '0',
        z > 0 ==> s[z - 1] != '0',
    ensures
        strip_trailing_zeros(s) == s.take(z),
    decreases s.len() - z,
{
    if z == s.len() {
        assert(s.take(z) =~= s);
    } else {
        let sub = s.take(s.len() - 1);
        lemma_strip_trailing_chars(sub, z);
        assert(sub.take(z) =~= s.take(z));
    }
}

/// Finds `dot_index` of the given characters.
fn find_dot(v: &Vec<char>) -> (r: usize)
    ensures
        r == dot_index(v@),
        r <= v@.len(),
{
    proof {
        lemma_dot_index_spec(v@);
    }
    let mut i: usize = 0;
    while i < v.len()
        invariant
            i <= v@.len(),
            forall|j: int| 0 <= j < i ==> v@[j] != '.',
            0 <= dot_index(v@) <= v@.len(),
            dot_index(v@) < v@.len() ==> v@[dot_index(v@)] == '.',
            forall|j: int| 0 <= j < dot_index(v@) ==> v@[j] != '.',
        decreases v@.len() - i,
    {
        if v[i] == '.' {
            return i;
        }
        i = i + 1;
    }
    i
}

/// Checks that every character of `v` is a decimal digit.
pub(crate) fn check_all_digits(v: &Vec<char>) -> (r: bool)
    ensures
        r == all_digits(v@),
{
    let mut i: usize = 0;
    while i < v.len()
        invariant
            i <= v@.len(),
            forall|j: int| 0 <= j < i ==> is_digit(#[trigger] v@[j]),
        decreases v@.len() - i,
    {
        let c = v[i];
        if c < '0' || c > '9' {
            return false;
        }
        i = i + 1;
    }
    true
}

/// Copies `v` without its leading `0` characters.
pub(crate) fn strip_leading_zeros_exec(v: &Vec<char>) -> (r: Vec<char>)
    ensures
        r@ == strip_leading_zeros(v@),
{
    let mut z: usize = 0;
    while z < v.len() && v[z] == '0'
        invariant
            z <= v@.len(),
            forall|j: int| 0 <= j < z ==> v@[j] == '0',
        decreases v@.len() - z,
    {
        z = z + 1;
    }
    proof {
        lemma_strip_leading_chars(v@, z as int);
    }
    char_range(v, z, v.len())
}

/// Copies `v` without its trailing `0` characters.
pub(crate) fn strip_trailing_zeros_exec(v: &Vec<char>) -> (r: Vec<char>)
    ensures
        r@ == strip_trailing_zeros(v@),
{
    let mut z: usize = v.len();
    while z > 0 && v[z - 1] == '0'
        invariant
            z <= v@.len(),
            forall|j: int| z <= j < v@.len() ==> v@[j] == '0',
        decreases z,
    {
        z = z - 1;
    }
    proof {
        lemma_strip_trailing_chars(v@, z as int);
        assert(v@.take(z as int) =~= v@.subrange(0, z as int));
    }
    char_range(v, 0, z)
}

/// A numeric sort key: canonical decimal digits of the integer part and of
/// the fraction.  An empty integer part means zero; an empty fraction means
/// none.
#[derive(Debug, Clone, PartialEq, Eq)]
pub struct SortKey {
    pub int_digits: Vec<char>,
    pub frac_digits: Vec<char>,
}

impl View for SortKey {
    type V = (Seq<char>, Seq<char>);

    open spec fn view(&self) -> (Seq<char>, Seq<char>) {
        (self.int_digits@, self.frac_digits@)
    }
}

/// How a captured text parses into a key: if it holds a dot, integer and
/// fraction digits stand around the first dot and both sides must be digits
/// with at least one digit present; without a dot the whole capture must be
/// digits and, after stripping leading zeros, at least one digit must
/// remain.  (A run of zeros without a dot yields no key.)
pub open spec fn spec_parse_capture(cap: Seq<char>) -> Option<(Seq<char>, Seq<char>)> {
    let d = dot_index(cap);
    if d < cap.len() {
        let ip = cap.take(d);
        let fp = cap.subrange(d + 1, cap.len() as int);
        if all_digits(ip) && all_digits(fp) && (ip.len() > 0 || fp.len() > 0) {
            Some((strip_leading_zeros(ip), strip_trailing_zeros(fp)))
        } else {
            None
        }
    } else {
        if all_digits(cap) && strip_leading_zeros(cap).len() > 0 {
            Some((strip_leading_zeros(cap), Seq::<char>::empty()))
        } else {
            None
        }
    }
}

/// Parses a captured text into a key, as `spec_parse_capture` says.
pub fn parse_capture(cap: &Vec<char>) -> (r: Option<SortKey>)
    ensures
        match r {
            Some(k) => spec_parse_capture(cap@) == Some(k@),
            None => spec_parse_capture(cap@) is None,
        },
{
    let d = find_dot(cap);
    if d < cap.len() {
        let ip = char_range(cap, 0, d);
        let fp = char_range(cap, d + 1, cap.len());
        proof {
            assert(cap@.take(d as int) =~= cap@.subrange(0, d as int));
        }
        if check_all_digits(&ip) && check_all_digits(&fp) && (ip.len() > 0 || fp.len() > 0) {
            let int_digits = strip_leading_zeros_exec(&ip);
            let frac_digits = strip_trailing_zeros_exec(&fp);
            Some(SortKey { int_digits, frac_digits })
        } else {
            None
        }
    } else {
        proof {
            assert(cap@.take(cap@.len() as int) =~= cap@);
        }
        if check_all_digits(cap) {
            let int_digits = strip_leading_zeros_exec(cap);
            if int_digits.len() > 0 {
                Some(SortKey { int_digits, frac_digits: Vec::new() })
            } else {
                None
            }
        } else {
            None
        }
    }
}

/// Strict lexicographic order at the first differing position.
pub open spec fn lex_lt(a: Seq<char>, b: Seq<char>) -> bool {
    exists|i: int|
        0 <= i < a.len() && i < b.len() && a.take(i) == b.take(i) && a[i] < b[i]
}

/// Numeric order of canonical integer digit strings: fewer digits means a
/// smaller number; with equally many digits the lexicographic order of the
/// digits is the numeric order.
pub open spec fn digits_lt(a: Seq<char>, b: Seq<char>) -> bool {
    a.len() < b.len() || (a.len() == b.len() && lex_lt(a, b))
}

/// Numeric order of canonical fraction digit strings: digit-by-digit, a
/// proper prefix being smaller than what extends it.
pub open spec fn frac_lt(a: Seq<char>, b: Seq<char>) -> bool {
    (a.len() < b.len() && a == b.take(a.len() as int)) || lex_lt(a, b)
}

/// Numeric order of keys: integer parts first, fractions break ties.
pub open spec fn key_lt(a: (Seq<char>, Seq<char>), b: (Seq<char>, Seq<char>)) -> bool {
    digits_lt(a.0, b.0) || (a.0 == b.0 && frac_lt(a.1, b.1))
}

/// Order of optional keys: no key sorts before every key; two missing keys
/// are equal.
pub open spec fn opt_key_lt(a: Option<(Seq<char>, Seq<char>)>, b: Option<(Seq<char>, Seq<char>)>) -> bool {
    match (a, b) {
        (Option::None, Option::Some(_)) => true,
        (Option::Some(x), Option::Some(y)) => key_lt(x, y),
        _ => false,
    }
}

/// The view of an optional key.
pub open spec fn opt_key_view(o: Option<SortKey>) -> Option<(Seq<char>, Seq<char>)> {
    match o {
        Option::Some(k) => Option::Some(k@),
        Option::None => Option::None,
    }
}

/// Compares two digit vectors in the fraction order: digit-by-digit, the
/// proper prefix smaller.
fn cmp_lex(a: &Vec<char>, b: &Vec<char>) -> (r: core::cmp::Ordering)
    ensures
        (r == core::cmp::Ordering::Less) == frac_lt(a@, b@),
        (r == core::cmp::Ordering::Greater) == frac_lt(b@, a@),
        (r == core::cmp::Ordering::Equal) == (a@ == b@),
{
    let n = if a.len() < b.len() {
        a.len()
    } else {
        b.len()
    };
    let mut i: usize = 0;
    while i < n
        invariant
            n <= a@.len(),
            n <= b@.len(),
            n == a@.len() || n == b@.len(),
            i <= n,
            a@.take(i as int) =~= b@.take(i as int),
        decreases n - i,
    {
        let ca = a[i];
        let cb = b[i];
        if ca < cb {
            proof {
                lemma_cmp_lex_diff(a@, b@, i as int);
            }
            return core::cmp::Ordering::Less;
        } else if cb < ca {
            proof {
                lemma_cmp_lex_diff(b@, a@, i as int);
            }
            return core::cmp::Ordering::Greater;
        }
        proof {
            assert(ca == cb);
            assert forall|j: int| 0 <= j < i + 1 implies a@[j] == b@[j] by {
                if j < i {
                    assert(a@.take(i as int)[j] == b@.take(i as int)[j]);
                }
            }
            assert(a@.take(i as int + 1) =~= b@.take(i as int + 1));
        }
        i = i + 1;
    }
    if a.len() < b.len() {
        proof {
            assert(a@ =~= b@.take(a@.len() as int));
            lemma_cmp_lex_prefix(a@, b@);
        }
        core::cmp::Ordering::Less
    } else if b.len() < a.len() {
        proof {
            assert(b@ =~= a@.take(b@.len() as int));
            lemma_cmp_lex_prefix(b@, a@);
        }
        core::cmp::Ordering::Greater
    } else {
        proof {
            assert(a@.take(n as int) =~= a@);
            assert(b@.take(n as int) =~= b@);
            assert(a@ == b@);
            lemma_cmp_lex_refl(a@);
        }
        core::cmp::Ordering::Equal
    }
}

/// At a first difference with `a[i] < b[i]`, `a` is smaller and `b` is not,
/// and the two differ.
proof fn lemma_cmp_lex_diff(a: Seq<char>, b: Seq<char>, i: int)
    requires
        0 <= i < a.len(),
        i < b.len(),
        a.take(i) == b.take(i),
        a[i] < b[i],
    ensures
        frac_lt(a, b),
        !frac_lt(b, a),
        a != b,
{
    assert forall|j: int| 0 <= j < i implies a[j] == b[j] by {
        assert(a.take(i)[j] == a[j]);
        assert(b.take(i)[j] == b[j]);
        assert(a.take(i)[j] == b.take(i)[j]);
    }
    assert(lex_lt(a, b));
    if b.len() < a.len() && b == a.take(b.len() as int) {
        assert(b[i] == a.take(b.len() as int)[i]);
        assert(false);
    }
    if lex_lt(b, a) {
        let j = choose|j: int|
            0 <= j < b.len() && j < a.len() && b.take(j) == a.take(j) && b[j] < a[j];
        assert forall|m: int| 0 <= m < j implies a[m] == b[m] by {
            assert(a.take(j)[m] == b.take(j)[m]);
        }
        if j < i {
            assert(a[j] == b[j]);
        } else if j == i {
        } else {
            assert(a[i] == b[i]);
        }
        assert(false);
    }
}

/// A proper prefix is smaller; what extends it is not smaller; they differ.
proof fn lemma_cmp_lex_prefix(a: Seq<char>, b: Seq<char>)
    requires
        a.len() < b.len(),
        a == b.take(a.len() as int),
    ensures
        frac_lt(a, b),
        !frac_lt(b, a),
        a != b,
{
    assert forall|j: int| 0 <= j < a.len() implies a[j] == b[j] by {
        assert(b.take(a.len() as int)[j] == b[j]);
    }
    if lex_lt(b, a) {
        let j = choose|j: int|
            0 <= j < b.len() && j < a.len() && b.take(j) == a.take(j) && b[j] < a[j];
        assert(a[j] == b[j]);
        assert(false);
    }
}

/// A sequence is not smaller than itself.
proof fn lemma_cmp_lex_refl(a: Seq<char>)
    ensures
        !frac_lt(a, a),
{
    if lex_lt(a, a) {
        let j = choose|j: int|
            0 <= j < a.len() && j < a.len() && a.take(j) == a.take(j) && a[j] < a[j];
        assert(false);
    }
}

/// Compares two keys numerically.
pub fn cmp_keys(a: &SortKey, b: &SortKey) -> (r: core::cmp::Ordering)
    ensures
        (r == core::cmp::Ordering::Less) == key_lt(a@, b@),
        (r == core::cmp::Ordering::Greater) == key_lt(b@, a@),
        (r == core::cmp::Ordering::Equal) == (a@ == b@),
{
    if a.int_digits.len() < b.int_digits.len() {
        core::cmp::Ordering::Less
    } else if b.int_digits.len() < a.int_digits.len() {
        core::cmp::Ordering::Greater
    } else {
        match cmp_lex(&a.int_digits, &b.int_digits) {
            core::cmp::Ordering::Less => core::cmp::Ordering::Less,
            core::cmp::Ordering::Greater => core::cmp::Ordering::Greater,
            core::cmp::Ordering::Equal => cmp_lex(&a.frac_digits, &b.frac_digits),
        }
    }
}

/// Compares two optional keys: a missing key sorts before every key, and two
/// missing keys are equal.
pub fn cmp_opt_keys(a: &Option<SortKey>, b: &Option<SortKey>) -> (r: core::cmp::Ordering)
    ensures
        (r == core::cmp::Ordering::Less) == opt_key_lt(opt_key_view(*a), opt_key_view(*b)),
        (r == core::cmp::Ordering::Greater) == opt_key_lt(opt_key_view(*b), opt_key_view(*a)),
        (r == core::cmp::Ordering::Equal) == (opt_key_view(*a) == opt_key_view(*b)),
{
    match (a, b) {
        (Option::None, Option::None) => core::cmp::Ordering::Equal,
        (Option::None, Option::Some(_)) => core::cmp::Ordering::Less,
        (Option::Some(_), Option::None) => core::cmp::Ordering::Greater,
        (Option::Some(x), Option::Some(y)) => cmp_keys(x, y),
    }
}

/// The numeric value of a digit string.
pub open spec fn digits_val(s: Seq<char>) -> int
    decreases s.len(),
{
    if s.len() == 0 {
        0
    } else {
        digits_val(s.drop_last()) * 10 + (s.last() as int - 48)
    }
}

/// Powers of ten.
pub open spec fn pow10(n: nat) -> int
    decreases n,
{
    if n == 0 {
        1
    } else {
        10 * pow10((n - 1) as nat)
    }
}

proof fn lemma_pow10_pos(n: nat)
    ensures
        pow10(n) >= 1,
    decreases n,
{
    if n > 0 {
        lemma_pow10_pos((n - 1) as nat);
    }
}

proof fn lemma_pow10_mono(a: nat, b: nat)
    requires
        a <= b,
    ensures
        pow10(a) <= pow10(b),
    decreases b,
{
    if a < b {
        lemma_pow10_mono(a, (b - 1) as nat);
        lemma_pow10_pos((b - 1) as nat);
    }
}

proof fn lemma_digits_val_upper(s: Seq<char>)
    requires
        all_digits(s),
    ensures
        0 <= digits_val(s) < pow10(s.len()),
    decreases s.len(),
{
    if s.len() > 0 {
        assert forall|j: int| 0 <= j < s.drop_last().len() implies is_digit(
            #[trigger] s.drop_last()[j],
        ) by {
            assert(s.drop_last()[j] == s[j]);
        }
        lemma_digits_val_upper(s.drop_last());
        assert(is_digit(s.last()));
    }
}

proof fn lemma_digits_val_lower(s: Seq<char>)
    requires
        all_digits(s),
        s.len() > 0,
        s[0] != '0',
    ensures
        digits_val(s) >= pow10((s.len() - 1) as nat),
    decreases s.len(),
{
    if s.len() == 1 {
        assert(is_digit(s[0]));
        assert(s.drop_last() =~= Seq::<char>::empty());
        assert(digits_val(s) == s[0] as int - 48);
        assert(s[0] as int != 48);
    } else {
        assert forall|j: int| 0 <= j < s.drop_last().len() implies is_digit(
            #[trigger] s.drop_last()[j],
        ) by {
            assert(s.drop_last()[j] == s[j]);
        }
        assert(s.drop_last()[0] == s[0]);
        lemma_digits_val_lower(s.drop_last());
        assert(is_digit(s.last()));
        assert(digits_val(s.drop_last()) * 10 >= pow10((s.len() - 2) as nat) * 10) by {
            assert(digits_val(s.drop_last()) >= pow10((s.len() - 2) as nat));
        }
        assert(pow10((s.len() - 1) as nat) == 10 * pow10((s.len() - 2) as nat));
    }
}

proof fn lemma_lex_lt_val(a: Seq<char>, b: Seq<char>)
    requires
        a.len() == b.len(),
        all_digits(a),
        all_digits(b),
        lex_lt(a, b),
    ensures
        digits_val(a) < digits_val(b),
    decreases a.len(),
{
    let i = choose|i: int|
        0 <= i < a.len() && i < b.len() && a.take(i) == b.take(i) && a[i] < b[i];
    if i == a.len() - 1 {
        assert(a.drop_last() =~= a.take(i));
        assert(b.drop_last() =~= b.take(i));
        assert(digits_val(a.drop_last()) == digits_val(b.drop_last()));
        assert(is_digit(a.last()) && is_digit(b.last()));
        assert(a.last() == a[i] && b.last() == b[i]);
    } else {
        let a1 = a.drop_last();
        let b1 = b.drop_last();
        assert forall|j: int| 0 <= j < a1.len() implies is_digit(#[trigger] a1[j]) by {
            assert(a1[j] == a[j]);
        }
        assert forall|j: int| 0 <= j < b1.len() implies is_digit(#[trigger] b1[j]) by {
            assert(b1[j] == b[j]);
        }
        assert(lex_lt(a1, b1)) by {
            assert(a1.take(i) =~= a.take(i));
            assert(b1.take(i) =~= b.take(i));
            assert(a1[i] == a[i] && b1[i] == b[i]);
        }
        lemma_lex_lt_val(a1, b1);
        assert(is_digit(a.last()) && is_digit(b.last()));
    }
}

proof fn lemma_lex_trichotomy(a: Seq<char>, b: Seq<char>)
    requires
        a.len() == b.len(),
        !lex_lt(a, b),
        !lex_lt(b, a),
    ensures
        a == b,
    decreases a.len(),
{
    if a.len() == 0 {
        assert(a =~= b);
    } else if a[0] != b[0] {
        if a[0] < b[0] {
            assert(a.take(0) =~= b.take(0));
            assert(lex_lt(a, b));
        } else {
            assert(b[0] < a[0]);
            assert(b.take(0) =~= a.take(0));
            assert(lex_lt(b, a));
        }
    } else {
        let a1 = a.drop_first();
        let b1 = b.drop_first();
        assert(!lex_lt(a1, b1)) by {
            if lex_lt(a1, b1) {
                let j = choose|j: int|
                    0 <= j < a1.len() && j < b1.len() && a1.take(j) == b1.take(j) && a1[j]
                        < b1[j];
                assert(a.take(j + 1) =~= b.take(j + 1)) by {
                    assert forall|m: int| 0 <= m < j + 1 implies a[m] == b[m] by {
                        if m > 0 {
                            assert(a1.take(j)[m - 1] == b1.take(j)[m - 1]);
                        }
                    }
                }
                assert(a[j + 1] == a1[j] && b[j + 1] == b1[j]);
                assert(lex_lt(a, b));
            }
        }
        assert(!lex_lt(b1, a1)) by {
            if lex_lt(b1, a1) {
                let j = choose|j: int|
                    0 <= j < b1.len() && j < a1.len() && b1.take(j) == a1.take(j) && b1[j]
                        < a1[j];
                assert(b.take(j + 1) =~= a.take(j + 1)) by {
                    assert forall|m: int| 0 <= m < j + 1 implies b[m] == a[m] by {
                        if m > 0 {
                            assert(b1.take(j)[m - 1] == a1.take(j)[m - 1]);
                        }
                    }
                }
                assert(b[j + 1] == b1[j] && a[j + 1] == a1[j]);
                assert(lex_lt(b, a));
            }
        }
        lemma_lex_trichotomy(a1, b1);
        assert(a =~= b) by {
            assert forall|m: int| 0 <= m < a.len() implies a[m] == b[m] by {
                if m > 0 {
                    assert(a1[m - 1] == b1[m - 1]);
                }
            }
        }
    }
}

/// The integer-key order is exactly numeric order: for canonical digit
/// strings — all digits, no leading zeros — comparing by length and then
/// lexicographically compares the numbers they denote.
pub proof fn lemma_digits_lt_is_numeric_order(a: Seq<char>, b: Seq<char>)
    requires
        all_digits(a),
        all_digits(b),
        a.len() > 0 ==> a[0] != '0',
        b.len() > 0 ==> b[0] != '0',
    ensures
        digits_lt(a, b) <==> digits_val(a) < digits_val(b),
{
    if digits_lt(a, b) {
        if a.len() < b.len() {
            lemma_digits_val_upper(a);
            lemma_digits_val_lower(b);
            lemma_pow10_mono(a.len(), (b.len() - 1) as nat);
        } else {
            lemma_lex_lt_val(a, b);
        }
    }
    if digits_lt(b, a) {
        if b.len() < a.len() {
            lemma_digits_val_upper(b);
            lemma_digits_val_lower(a);
            lemma_pow10_mono(b.len(), (a.len() - 1) as nat);
        } else {
            lemma_lex_lt_val(b, a);
        }
    }
    if !digits_lt(a, b) && !digits_lt(b, a) {
        assert(a.len() == b.len());
        lemma_lex_trichotomy(a, b);
    }
}

/// The file name used for key extraction: the final path segment, or
/// `unknown` where the path names no file.
pub open spec fn spec_lossy_name(path: Seq<char>) -> Seq<char> {
    match spec_file_name(path) {
        Option::Some(t) => t,
        Option::None => "unknown"@,
    }
}

/// The key that `extract_number_from_filename_safe` returns: the last
/// capture of the pattern in the file name, parsed as a decimal.
pub open spec fn spec_extract_number(path: Seq<char>, pattern: Seq<char>) -> Option<
    (Seq<char>, Seq<char>),
> {
    match last_capture(pattern, spec_lossy_name(path)) {
        Option::Some(cap) => spec_parse_capture(cap),
        Option::None => Option::None,
    }
}

/// Extracts a numeric key from a path's file name with the given pattern.
///
/// The *last* match of the pattern in the name is taken, and parsed exactly
/// as `spec_parse_capture` says: leading zeros are stripped, a fraction is
/// kept verbatim, and a capture that is no plain decimal yields `None`.
pub fn extract_number_from_filename_safe(path: &str, pattern: &NamePattern) -> (r: Option<
    SortKey,
>)
    ensures
        opt_key_view(r) == spec_extract_number(path@, pattern.source()),
{
    let name = get_file_name_lossy(path);
    match pattern.last_capture_in(name.as_str()) {
        Some(cap) => {
            let chars = str_chars(cap.as_str());
            parse_capture(&chars)
        },
        None => None,
    }
}

/// Compares two paths by their extracted numeric keys.  A path without a key
/// sorts before one with a key; equal or both-missing keys compare equal.
pub fn compare_paths_by_number_safe(a: &str, b: &str, pattern: &NamePattern) -> (r:
    core::cmp::Ordering)
    ensures
        (r == core::cmp::Ordering::Less) == opt_key_lt(
            spec_extract_number(a@, pattern.source()),
            spec_extract_number(b@, pattern.source()),
        ),
        (r == core::cmp::Ordering::Greater) == opt_key_lt(
            spec_extract_number(b@, pattern.source()),
            spec_extract_number(a@, pattern.source()),
        ),
        (r == core::cmp::Ordering::Equal) == (spec_extract_number(a@, pattern.source())
            == spec_extract_number(b@, pattern.source())),
{
    let ka = extract_number_from_filename_safe(a, pattern);
    let kb = extract_number_from_filename_safe(b, pattern);
    cmp_opt_keys(&ka, &kb)
}

} // verus!
