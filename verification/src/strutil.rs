//! Verified string primitives: comparison, affix tests, searching,
//! decimal parsing and simple rewriting, all specified over `Seq<char>`.

use vstd::prelude::*;
use vstd::string::StrSliceExecFns;
use vstd::string::StringExecFns;

verus! {

/// Relies on alloc's `String::push`: appends the given char to the end
/// of the string.
pub assume_specification[ String::push ](s: &mut String, c: char)
    ensures
        final(s)@ == old(s)@.push(c),
;

/// The two string views are equal.
pub fn str_eq(a: &str, b: &str) -> (r: bool)
    ensures
        r == (a@ == b@),
{
    let n = a.unicode_len();
    if n != b.unicode_len() {
        proof {
            assert(a@ != b@) by {
                if a@ == b@ {
                    assert(a@.len() == b@.len());
                }
            }
        }
        return false;
    }
    let mut i: usize = 0;
    while i < n
        invariant
            i <= n,
            n == a@.len(),
            n == b@.len(),
            forall|j: int| 0 <= j < i ==> a@[j] == b@[j],
        decreases n - i,
    {
        if a.get_char(i) != b.get_char(i) {
            proof {
                assert(a@ != b@) by {
                    if a@ == b@ {
                        assert(a@[i as int] == b@[i as int]);
                    }
                }
            }
            return false;
        }
        i += 1;
    }
    proof {
        assert(a@ =~= b@);
    }
    true
}

pub open spec fn starts_with_spec(s: Seq<char>, p: Seq<char>) -> bool {
    p.len() <= s.len() && s.subrange(0, p.len() as int) == p
}

pub open spec fn ends_with_spec(s: Seq<char>, p: Seq<char>) -> bool {
    p.len() <= s.len() && s.subrange(s.len() - p.len(), s.len() as int) == p
}

/// The string begins with the given prefix.
pub fn str_starts_with(s: &str, p: &str) -> (r: bool)
    ensures
        r == starts_with_spec(s@, p@),
{
    let np = p.unicode_len();
    if np > s.unicode_len() {
        return false;
    }
    let mut i: usize = 0;
    while i < np
        invariant
            i <= np,
            np == p@.len(),
            np <= s@.len(),
            forall|j: int| 0 <= j < i ==> s@[j] == p@[j],
        decreases np - i,
    {
        if s.get_char(i) != p.get_char(i) {
            proof {
                assert(!starts_with_spec(s@, p@)) by {
                    if s@.subrange(0, p@.len() as int) == p@ {
                        assert(s@.subrange(0, p@.len() as int)[i as int] == s@[i as int]);
                    }
                }
            }
            return false;
        }
        i += 1;
    }
    proof {
        assert(s@.subrange(0, p@.len() as int) =~= p@);
    }
    true
}

/// The string ends with the given suffix.
pub fn str_ends_with(s: &str, p: &str) -> (r: bool)
    ensures
        r == ends_with_spec(s@, p@),
{
    let np = p.unicode_len();
    let ns = s.unicode_len();
    if np > ns {
        return false;
    }
    let k = ns - np;
    let mut i: usize = 0;
    while i < np
        invariant
            i <= np,
            np == p@.len(),
            ns == s@.len(),
            k == ns - np,
            forall|j: int| 0 <= j < i ==> s@[k + j] == p@[j],
        decreases np - i,
    {
        if s.get_char(k + i) != p.get_char(i) {
            proof {
                assert(!ends_with_spec(s@, p@)) by {
                    if s@.subrange(s@.len() - p@.len(), s@.len() as int) == p@ {
                        assert(s@.subrange(s@.len() - p@.len(), s@.len() as int)[i as int]
                            == s@[k + i]);
                    }
                }
            }
            return false;
        }
        i += 1;
    }
    proof {
        assert(s@.subrange(s@.len() - p@.len(), s@.len() as int) =~= p@);
    }
    true
}

/// The pattern `p` occurs in `s` at position `i`.
pub open spec fn occurs_at(s: Seq<char>, p: Seq<char>, i: int) -> bool {
    0 <= i && i + p.len() <= s.len() && s.subrange(i, i + p.len() as int) == p
}

/// The pattern occurs in `s` exactly at position `i`.
pub fn matches_at(s: &str, p: &str, i: usize) -> (r: bool)
    requires
        i + p@.len() <= s@.len(),
    ensures
        r == occurs_at(s@, p@, i as int),
{
    let np = p.unicode_len();
    let ns = s.unicode_len();
    let mut j: usize = 0;
    while j < np
        invariant
            j <= np,
            np == p@.len(),
            ns == s@.len(),
            i + np <= ns,
            forall|m: int| 0 <= m < j ==> s@[i + m] == p@[m],
        decreases np - j,
    {
        if s.get_char(i + j) != p.get_char(j) {
            proof {
                assert(!occurs_at(s@, p@, i as int)) by {
                    if s@.subrange(i as int, i + p@.len() as int) == p@ {
                        assert(s@.subrange(i as int, i + p@.len() as int)[j as int]
                            == s@[i + j]);
                    }
                }
            }
            return false;
        }
        j += 1;
    }
    proof {
        assert(s@.subrange(i as int, i + p@.len() as int) =~= p@);
    }
    true
}

/// The position of the last occurrence of `p` strictly before `i`, or -1.
pub open spec fn last_occ_before(s: Seq<char>, p: Seq<char>, i: int) -> int
    decreases i when i >= 0
{
    if i <= 0 {
        -1
    } else if occurs_at(s, p, i - 1) {
        i - 1
    } else {
        last_occ_before(s, p, i - 1)
    }
}

/// Everything after the last occurrence of `p` in `s`, or the whole of
/// `s` when `p` never occurs: the trailing element of a split on `p`.
pub open spec fn tail_after_last_spec(s: Seq<char>, p: Seq<char>) -> Seq<char> {
    let j = last_occ_before(s, p, s.len() as int);
    if j < 0 {
        s
    } else {
        s.subrange(j + p.len(), s.len() as int)
    }
}

proof fn lemma_last_occ_before_none(s: Seq<char>, p: Seq<char>, i: int)
    requires
        0 <= i,
        forall|j: int| 0 <= j < i ==> !occurs_at(s, p, j),
    ensures
        last_occ_before(s, p, i) == -1,
    decreases i,
{
    if i > 0 {
        lemma_last_occ_before_none(s, p, i - 1);
    }
}

proof fn lemma_last_occ_before_found(s: Seq<char>, p: Seq<char>, b: int, i: int)
    requires
        0 <= b < i,
        occurs_at(s, p, b),
        forall|j: int| b < j < i ==> !occurs_at(s, p, j),
    ensures
        last_occ_before(s, p, i) == b,
    decreases i,
{
    if i - 1 > b {
        lemma_last_occ_before_found(s, p, b, i - 1);
    }
}

/// Computes `tail_after_last_spec`: the trailing element of a split on `p`.
pub fn tail_after_last(s: &str, p: &str) -> (r: String)
    requires
        p@.len() >= 1,
    ensures
        r@ == tail_after_last_spec(s@, p@),
{
    let ns = s.unicode_len();
    let np = p.unicode_len();
    if np > ns {
        proof {
            assert(forall|j: int| !occurs_at(s@, p@, j));
            lemma_last_occ_before_none(s@, p@, s@.len() as int);
        }
        return s.to_owned();
    }
    let mut best: Option<usize> = None;
    let mut i: usize = 0;
    while i <= ns - np
        invariant
            np == p@.len(),
            ns == s@.len(),
            1 <= np <= ns,
            i <= ns - np + 1,
            match best {
                Some(b) => occurs_at(s@, p@, b as int) && b < i
                    && (forall|j: int| b < j < i ==> !occurs_at(s@, p@, j)),
                None => forall|j: int| 0 <= j < i ==> !occurs_at(s@, p@, j),
            },
        decreases ns - np - i + 1,
    {
        if matches_at(s, p, i) {
            best = Some(i);
        }
        i += 1;
    }
    proof {
        assert(forall|j: int| j > ns - np ==> !occurs_at(s@, p@, j));
    }
    match best {
        Some(b) => {
            proof {
                lemma_last_occ_before_found(s@, p@, b as int, s@.len() as int);
            }
            let cut = b + np;
            let t = s.substring_char(cut, ns);
            t.to_owned()
        },
        None => {
            proof {
                assert(forall|j: int| !occurs_at(s@, p@, j));
                lemma_last_occ_before_none(s@, p@, s@.len() as int);
            }
            s.to_owned()
        },
    }
}

pub open spec fn is_digit(c: char) -> bool {
    '0' <= c && c <= '9'
}

pub open spec fn digit_val(c: char) -> int {
    c as int - '0' as int
}

pub open spec fn all_digits(s: Seq<char>) -> bool {
    forall|i: int| 0 <= i < s.len() ==> is_digit(#[trigger] s[i])
}

/// The value of a digit string read as a decimal numeral.
pub open spec fn dec_value(s: Seq<char>) -> int
    decreases s.len(),
{
    if s.len() == 0 {
        0
    } else {
        dec_value(s.drop_last()) * 10 + digit_val(s.last())
    }
}

pub proof fn lemma_dec_value_nonneg(s: Seq<char>)
    requires
        all_digits(s),
    ensures
        dec_value(s) >= 0,
    decreases s.len(),
{
    if s.len() > 0 {
        assert(all_digits(s.drop_last())) by {
            assert(forall|i: int| 0 <= i < s.drop_last().len()
                ==> s.drop_last()[i] == s[i] && is_digit(#[trigger] s[i]));
        }
        lemma_dec_value_nonneg(s.drop_last());
        assert(dec_value(s.drop_last()) * 10 >= 0) by (nonlinear_arith)
            requires dec_value(s.drop_last()) >= 0;
    }
}

/// What a decimal read of a character string yields: the value when the
/// string is a non-empty digit string whose value fits in `u64`, nothing
/// otherwise.
pub open spec fn parse_u64_spec(s: Seq<char>) -> Option<u64> {
    if s.len() > 0 && all_digits(s) && dec_value(s) <= u64::MAX {
        Some(dec_value(s) as u64)
    } else {
        None
    }
}

/// Reads a string as an unsigned decimal numeral.
pub fn parse_u64(s: &str) -> (r: Option<u64>)
    ensures
        r == parse_u64_spec(s@),
{
    let n = s.unicode_len();
    if n == 0 {
        return None;
    }
    let mut val: u64 = 0;
    let mut overflow = false;
    let mut i: usize = 0;
    while i < n
        invariant
            i <= n,
            n == s@.len(),
            all_digits(s@.subrange(0, i as int)),
            !overflow ==> val == dec_value(s@.subrange(0, i as int)),
            overflow ==> dec_value(s@.subrange(0, i as int)) > u64::MAX,
        decreases n - i,
    {
        let c = s.get_char(i);
        if c < '0' || c > '9' {
            proof {
                assert(!is_digit(s@[i as int]));
                assert(!all_digits(s@));
            }
            return None;
        }
        let d: u64 = (c as u32 - '0' as u32) as u64;
        proof {
            assert(s@.subrange(0, i + 1).drop_last() =~= s@.subrange(0, i as int));
            assert(s@.subrange(0, i + 1).last() == s@[i as int]);
            assert(all_digits(s@.subrange(0, i + 1))) by {
                assert(forall|j: int| 0 <= j < i + 1 ==> s@.subrange(0, i + 1)[j]
                    == #[trigger] s@.subrange(0, i as int).push(s@[i as int])[j]);
            }
            assert(d == digit_val(s@[i as int]));
            assert(0 <= d <= 9);
        }
        if !overflow {
            match val.checked_mul(10) {
                Some(m) => {
                    match m.checked_add(d) {
                        Some(v) => {
                            val = v;
                        },
                        None => {
                            overflow = true;
                        },
                    }
                },
                None => {
                    overflow = true;
                },
            }
        } else {
            proof {
                lemma_dec_value_nonneg(s@.subrange(0, i + 1));
                assert(dec_value(s@.subrange(0, i + 1))
                    == dec_value(s@.subrange(0, i as int)) * 10 + digit_val(s@[i as int]));
                assert(dec_value(s@.subrange(0, i as int)) * 10 > u64::MAX) by (nonlinear_arith)
                    requires dec_value(s@.subrange(0, i as int)) > u64::MAX;
            }
        }
        i += 1;
    }
    proof {
        assert(s@.subrange(0, n as int) =~= s@);
    }
    if overflow {
        proof {
            if s@.len() > 0 && all_digits(s@) && dec_value(s@) <= u64::MAX {
                assert(false);
            }
        }
        None
    } else {
        Some(val)
    }
}

/// Every space replaced by `+`: the word-join rewriting used for catalog
/// search terms.
pub open spec fn plus_joined(s: Seq<char>) -> Seq<char> {
    s.map_values(|c: char| if c == ' ' { '+' } else { c })
}

/// Replaces each space with `+`.
pub fn replace_spaces(s: &str) -> (r: String)
    ensures
        r@ == plus_joined(s@),
{
    let n = s.unicode_len();
    let mut out = String::new();
    let mut i: usize = 0;
    while i < n
        invariant
            i <= n,
            n == s@.len(),
            out@ == plus_joined(s@.subrange(0, i as int)),
        decreases n - i,
    {
        let c = s.get_char(i);
        if c == ' ' {
            out.push('+');
        } else {
            out.push(c);
        }
        proof {
            assert(out@ =~= plus_joined(s@.subrange(0, i + 1)));
        }
        i += 1;
    }
    proof {
        assert(s@.subrange(0, n as int) =~= s@);
    }
    out
}

/// The first position at or after `i` where character `c` stands in `s`,
/// or the length of `s` when there is none.
pub open spec fn idx_of_from(s: Seq<char>, c: char, i: int) -> int
    decreases s.len() - i when 0 <= i <= s.len()
{
    if i >= s.len() {
        s.len() as int
    } else if s[i] == c {
        i
    } else {
        idx_of_from(s, c, i + 1)
    }
}

/// Finds the first occurrence of a character at or after `from`.
pub fn find_char_from(s: &str, c: char, from: usize) -> (r: usize)
    requires
        from <= s@.len(),
    ensures
        r == idx_of_from(s@, c, from as int),
        from <= r <= s@.len(),
        r < s@.len() ==> s@[r as int] == c,
{
    let n = s.unicode_len();
    let mut i: usize = from;
    while i < n
        invariant
            from <= i <= n,
            n == s@.len(),
            idx_of_from(s@, c, from as int) == idx_of_from(s@, c, i as int),
        decreases n - i,
    {
        if s.get_char(i) == c {
            return i;
        }
        i += 1;
    }
    i
}

/// Concatenation of three string slices.
pub fn concat3(a: &str, b: &str, c: &str) -> (r: String)
    ensures
        r@ == a@ + b@ + c@,
{
    let mut out = a.to_owned();
    out.append(b);
    out.append(c);
    out
}

/// Concatenation of two string slices.
pub fn concat2(a: &str, b: &str) -> (r: String)
    ensures
        r@ == a@ + b@,
{
    let mut out = a.to_owned();
    out.append(b);
    out
}

} // verus!
