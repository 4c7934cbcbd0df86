//! A lock-record codec: the four fields written as one line of text and
//! read back exactly. Numbers are decimal; the three string fields are
//! length-prefixed, so any field content round-trips.

use vstd::prelude::*;
use crate::types::AddonLock;
use crate::strutil::{all_digits, dec_value, find_char_from, idx_of_from, is_digit, parse_u64};
use vstd::string::StrSliceExecFns;
use vstd::string::StringExecFns;

verus! {

/// The digit character of one decimal digit value.
pub open spec fn digit_char(d: int) -> char {
    if d == 0 {
        '0'
    } else if d == 1 {
        '1'
    } else if d == 2 {
        '2'
    } else if d == 3 {
        '3'
    } else if d == 4 {
        '4'
    } else if d == 5 {
        '5'
    } else if d == 6 {
        '6'
    } else if d == 7 {
        '7'
    } else if d == 8 {
        '8'
    } else {
        '9'
    }
}

/// The decimal numeral of a non-negative integer.
pub open spec fn dec_repr(n: int) -> Seq<char>
    decreases n when n >= 0
{
    if n <= 9 {
        seq![digit_char(n)]
    } else {
        dec_repr(n / 10).push(digit_char(n % 10))
    }
}

pub proof fn lemma_dec_repr_value(n: int)
    requires
        n >= 0,
    ensures
        dec_repr(n).len() >= 1,
        all_digits(dec_repr(n)),
        dec_value(dec_repr(n)) == n,
    decreases n,
{
    if n <= 9 {
        assert(is_digit(digit_char(n)));
        assert(dec_repr(n) == seq![digit_char(n)]);
        assert(dec_repr(n).drop_last() =~= Seq::<char>::empty());
        assert(dec_value(Seq::<char>::empty()) == 0);
        assert(dec_repr(n).last() == digit_char(n));
        assert(crate::strutil::digit_val(digit_char(n)) == n);
    } else {
        lemma_dec_repr_value(n / 10);
        let pre = dec_repr(n / 10);
        let c = digit_char(n % 10);
        assert(is_digit(c));
        assert(dec_repr(n) == pre.push(c));
        assert(dec_repr(n).drop_last() =~= pre);
        assert(dec_repr(n).last() == c);
        assert(all_digits(dec_repr(n))) by {
            assert(forall|i: int| 0 <= i < pre.len() ==> pre.push(c)[i] == pre[i]
                && is_digit(#[trigger] pre[i]));
            assert(pre.push(c)[pre.len() as int] == c);
        }
        assert(crate::strutil::digit_val(c) == n % 10);
        assert(dec_value(dec_repr(n)) == (n / 10) * 10 + n % 10);
    }
}

/// One encoded lock: the timestamp, then the character counts of the
/// three string fields, each followed by a colon, then the three fields
/// back to back.
pub open spec fn encode_spec(
    name: Seq<char>,
    resolved: Seq<char>,
    version: Seq<char>,
    ts: u64,
) -> Seq<char> {
    dec_repr(ts as int) + seq![':'] + dec_repr(name.len() as int) + seq![':'] + dec_repr(
        resolved.len() as int,
    ) + seq![':'] + dec_repr(version.len() as int) + seq![':'] + name + resolved + version
}

/// The number read at `from`, up to the next colon, and the position
/// just past that colon.
pub open spec fn take_num(s: Seq<char>, from: int) -> Option<(int, int)> {
    let ci = idx_of_from(s, ':', from);
    if ci >= s.len() || ci == from || !all_digits(s.subrange(from, ci)) || dec_value(
        s.subrange(from, ci),
    ) > u64::MAX {
        None
    } else {
        Some((dec_value(s.subrange(from, ci)), ci + 1))
    }
}

/// What reading an encoded lock back yields: the three fields and the
/// timestamp, or nothing when the text is not a well-formed record.
pub open spec fn decode_spec(s: Seq<char>) -> Option<(Seq<char>, Seq<char>, Seq<char>, u64)> {
    match take_num(s, 0) {
        None => None,
        Some(t) => match take_num(s, t.1) {
            None => None,
            Some(a) => match take_num(s, a.1) {
                None => None,
                Some(b) => match take_num(s, b.1) {
                    None => None,
                    Some(c) => if s.len() - c.1 == a.0 + b.0 + c.0 {
                        Some(
                            (
                                s.subrange(c.1, c.1 + a.0),
                                s.subrange(c.1 + a.0, c.1 + a.0 + b.0),
                                s.subrange(c.1 + a.0 + b.0, s.len() as int),
                                t.0 as u64,
                            ),
                        )
                    } else {
                        None
                    },
                },
            },
        },
    }
}

proof fn lemma_idx_first_colon(s: Seq<char>, from: int, k: int)
    requires
        0 <= from,
        0 <= k,
        from + k < s.len(),
        s[from + k] == ':',
        forall|j: int| from <= j < from + k ==> is_digit(#[trigger] s[j]),
    ensures
        idx_of_from(s, ':', from) == from + k,
    decreases k,
{
    if k == 0 {
        assert(idx_of_from(s, ':', from) == from);
    } else {
        assert(is_digit(s[from]));
        assert(s[from] != ':');
        lemma_idx_first_colon(s, from + 1, k - 1);
    }
}

proof fn lemma_take_at(s: Seq<char>, from: int, n: int)
    requires
        0 <= from,
        0 <= n <= u64::MAX,
        from + dec_repr(n).len() < s.len(),
        s.subrange(from, from + dec_repr(n).len() as int) == dec_repr(n),
        s[from + dec_repr(n).len()] == ':',
    ensures
        take_num(s, from) == Some((n, from + dec_repr(n).len() + 1)),
{
    lemma_dec_repr_value(n);
    let k = dec_repr(n).len() as int;
    assert(forall|j: int| from <= j < from + k ==> is_digit(#[trigger] s[j])) by {
        assert(forall|j: int| from <= j < from + k
            ==> s.subrange(from, from + k)[j - from] == #[trigger] s[j]);
        assert(forall|i: int| 0 <= i < k ==> is_digit(#[trigger] dec_repr(n)[i]));
    }
    lemma_idx_first_colon(s, from, k);
}

/// Law: reading an encoded lock back yields exactly the four fields that
/// were written, for every lock value.
pub proof fn lemma_lock_round_trip(
    name: Seq<char>,
    resolved: Seq<char>,
    version: Seq<char>,
    ts: u64,
)
    requires
        name.len() <= u64::MAX,
        resolved.len() <= u64::MAX,
        version.len() <= u64::MAX,
    ensures
        decode_spec(encode_spec(name, resolved, version, ts)) == Some(
            (name, resolved, version, ts),
        ),
{
    let e = encode_spec(name, resolved, version, ts);
    let r1 = dec_repr(ts as int);
    let r2 = dec_repr(name.len() as int);
    let r3 = dec_repr(resolved.len() as int);
    let r4 = dec_repr(version.len() as int);
    lemma_dec_repr_value(ts as int);
    lemma_dec_repr_value(name.len() as int);
    lemma_dec_repr_value(resolved.len() as int);
    lemma_dec_repr_value(version.len() as int);
    let k1 = r1.len() as int;
    let k2 = r2.len() as int;
    let k3 = r3.len() as int;
    let k4 = r4.len() as int;
    let p1 = k1 + 1;
    let p2 = p1 + k2 + 1;
    let p3 = p2 + k3 + 1;
    let p4 = p3 + k4 + 1;
    assert(e.len() == p4 + name.len() + resolved.len() + version.len());
    assert(e.subrange(0, k1) =~= r1);
    assert(e[k1] == ':');
    lemma_take_at(e, 0, ts as int);
    assert(e.subrange(p1, p1 + k2) =~= r2);
    assert(e[p1 + k2] == ':');
    lemma_take_at(e, p1, name.len() as int);
    assert(e.subrange(p2, p2 + k3) =~= r3);
    assert(e[p2 + k3] == ':');
    lemma_take_at(e, p2, resolved.len() as int);
    assert(e.subrange(p3, p3 + k4) =~= r4);
    assert(e[p3 + k4] == ':');
    lemma_take_at(e, p3, version.len() as int);
    assert(e.subrange(p4, p4 + name.len() as int) =~= name);
    assert(e.subrange(p4 + name.len(), p4 + name.len() + resolved.len()) =~= resolved);
    assert(e.subrange(p4 + name.len() + resolved.len(), e.len() as int) =~= version);
}

/// The digit character of a value below ten.
fn digit_char_exec(d: u64) -> (c: char)
    requires
        d <= 9,
    ensures
        c == digit_char(d as int),
{
    if d == 0 {
        '0'
    } else if d == 1 {
        '1'
    } else if d == 2 {
        '2'
    } else if d == 3 {
        '3'
    } else if d == 4 {
        '4'
    } else if d == 5 {
        '5'
    } else if d == 6 {
        '6'
    } else if d == 7 {
        '7'
    } else if d == 8 {
        '8'
    } else {
        '9'
    }
}

/// Writes a number as its decimal numeral.
pub fn u64_to_string(n: u64) -> (r: String)
    ensures
        r@ == dec_repr(n as int),
{
    let ghost full = dec_repr(n as int);
    let mut digits: Vec<char> = Vec::new();
    let mut m = n;
    proof {
        assert(full.subrange(0, full.len() as int) =~= full);
    }
    loop
        invariant_except_break
            full == dec_repr(n as int),
            full.len() == dec_repr(m as int).len() + digits.len(),
            dec_repr(m as int) == full.subrange(0, dec_repr(m as int).len() as int),
            forall|k: int| 0 <= k < digits.len() ==> digits@[k] == full[full.len() - 1 - k],
        ensures
            full.len() == digits.len(),
            forall|k: int| 0 <= k < digits.len() ==> digits@[k] == full[full.len() - 1 - k],
        decreases m,
    {
        let d = digit_char_exec(m % 10);
        let ghost lm = dec_repr(m as int).len() as int;
        digits.push(d);
        if m < 10 {
            proof {
                assert(dec_repr(m as int) =~= seq![digit_char(m as int)]);
                assert(full.subrange(0, 1)[0] == full[0]);
                assert(full[0] == d);
                assert(full.len() == digits.len());
                assert(forall|k: int| 0 <= k < digits.len() ==> digits@[k] == full[full.len() - 1
                    - k]);
            }
            break;
        }
        proof {
            assert(dec_repr(m as int) == dec_repr(m as int / 10).push(digit_char(m as int % 10)));
            assert(dec_repr(m as int).last() == d);
            assert(full.subrange(0, lm)[lm - 1] == full[lm - 1]);
            assert(full[lm - 1] == d);
            assert(dec_repr(m as int / 10) =~= full.subrange(0, lm - 1));
            assert((m / 10) as int == m as int / 10);
        }
        m = m / 10;
    }
    let dlen = digits.len();
    proof {
        assert(full.len() == dlen);
    }
    let mut out = String::new();
    let mut i = dlen;
    while i > 0
        invariant
            i <= dlen,
            dlen == digits.len(),
            dlen == full.len(),
            forall|k: int| 0 <= k < digits.len() ==> digits@[k] == full[full.len() - 1 - k],
            out@.len() == dlen - i,
            forall|j: int| 0 <= j < out@.len() ==> out@[j] == digits@[dlen - 1 - j],
        decreases i,
    {
        i = i - 1;
        out.push(digits[i]);
    }
    proof {
        assert(out@ =~= full);
    }
    out
}

/// Writes a lock as one line of text that `decode_lock` reads back.
pub fn encode_lock(l: &AddonLock) -> (r: String)
    ensures
        r@ == encode_spec(l.name@, l.resolved@, l.version@, l.timestamp),
{
    let mut out = u64_to_string(l.timestamp);
    out.append(":");
    let ln = u64_to_string(l.name.as_str().unicode_len() as u64);
    out.append(ln.as_str());
    out.append(":");
    let lr = u64_to_string(l.resolved.as_str().unicode_len() as u64);
    out.append(lr.as_str());
    out.append(":");
    let lv = u64_to_string(l.version.as_str().unicode_len() as u64);
    out.append(lv.as_str());
    out.append(":");
    out.append(l.name.as_str());
    out.append(l.resolved.as_str());
    out.append(l.version.as_str());
    proof {
        reveal_strlit(":");
        assert(":"@ =~= seq![':']);
        assert(out@ =~= encode_spec(l.name@, l.resolved@, l.version@, l.timestamp));
    }
    out
}

/// Reads one number and the position just past its colon.
fn take_num_exec(s: &str, from: usize) -> (r: Option<(u64, usize)>)
    requires
        from <= s@.len(),
    ensures
        r is Some <==> (take_num(s@, from as int) is Some && (take_num(s@, from as int)->0).0
            <= u64::MAX),
        r is Some ==> (r->0).0 == (take_num(s@, from as int)->0).0 && (r->0).1 == (take_num(
            s@,
            from as int,
        )->0).1,
{
    let n = s.unicode_len();
    let ci = find_char_from(s, ':', from);
    if ci >= n || ci == from {
        return None;
    }
    let part = s.substring_char(from, ci);
    let r = parse_u64(part);
    proof {
        if all_digits(s@.subrange(from as int, ci as int)) {
            crate::strutil::lemma_dec_value_nonneg(s@.subrange(from as int, ci as int));
        }
    }
    match r {
        Some(v) => Some((v, ci + 1)),
        None => None,
    }
}

/// Reads a lock written by `encode_lock`; malformed text yields nothing.
pub fn decode_lock(s: &str) -> (r: Option<AddonLock>)
    ensures
        r is Some <==> decode_spec(s@) is Some,
        r is Some ==> ({
            let d = decode_spec(s@)->0;
            &&& r->0.name@ == d.0
            &&& r->0.resolved@ == d.1
            &&& r->0.version@ == d.2
            &&& r->0.timestamp == d.3
        }),
{
    let n = s.unicode_len();
    let t = match take_num_exec(s, 0) {
        Some(t) => t,
        None => {
            return None;
        },
    };
    let a = match take_num_exec(s, t.1) {
        Some(a) => a,
        None => {
            return None;
        },
    };
    let b = match take_num_exec(s, a.1) {
        Some(b) => b,
        None => {
            return None;
        },
    };
    let c = match take_num_exec(s, b.1) {
        Some(c) => c,
        None => {
            return None;
        },
    };
    let rest = (n - c.1) as u64;
    let la = a.0;
    let lb = b.0;
    let lc = c.0;
    if la > rest || lb > rest - la || lc != rest - la - lb {
        return None;
    }
    let q0 = c.1;
    let q1 = q0 + la as usize;
    let q2 = q1 + lb as usize;
    let name = s.substring_char(q0, q1).to_owned();
    let resolved = s.substring_char(q1, q2).to_owned();
    let version = s.substring_char(q2, n).to_owned();
    Some(AddonLock { name, resolved, version, timestamp: t.0 })
}

} // verus!
