use vstd::prelude::*;

verus! {

pub open spec fn is_digit(b: u8) -> bool {
    0x30 <= b <= 0x39
}

pub open spec fn all_digits(s: Seq<u8>) -> bool {
    forall|i: int| 0 <= i < s.len() ==> is_digit(#[trigger] s[i])
}

/// The decimal value of a run of digits, most significant first.
pub open spec fn digits_value(s: Seq<u8>) -> int
    decreases s.len(),
{
    if s.len() == 0 {
        0
    } else {
        digits_value(s.drop_last()) * 10 + (s.last() - 0x30)
    }
}

pub open spec fn pow10(n: nat) -> int
    decreases n,
{
    if n == 0 {
        1
    } else {
        10 * pow10((n - 1) as nat)
    }
}

/// A fixed-width field: one or more bytes, all decimal digits.
pub open spec fn field_value(s: Seq<u8>) -> Option<int> {
    if s.len() > 0 && all_digits(s) {
        Some(digits_value(s))
    } else {
        None
    }
}

/// A signed decimal `i32`: an optional `+` or `-`, then one or more digits.
pub open spec fn signed_value(s: Seq<u8>) -> Option<int> {
    if s.len() > 0 && s[0] == 0x2d {
        let d = s.drop_first();
        if d.len() > 0 && all_digits(d) && digits_value(d) <= 0x8000_0000 {
            Some(-digits_value(d))
        } else {
            None
        }
    } else {
        let d = if s.len() > 0 && s[0] == 0x2b { s.drop_first() } else { s };
        if d.len() > 0 && all_digits(d) && digits_value(d) <= 0x7fff_ffff {
            Some(digits_value(d))
        } else {
            None
        }
    }
}

pub proof fn lemma_digits_bound(s: Seq<u8>)
    requires
        all_digits(s),
    ensures
        0 <= digits_value(s) < pow10(s.len()),
    decreases s.len(),
{
    if s.len() > 0 {
        lemma_digits_bound(s.drop_last());
    }
}

/// A prefix of a run of digits is worth no more than the run.
pub proof fn lemma_digits_prefix(s: Seq<u8>, j: int)
    requires
        all_digits(s),
        0 <= j <= s.len(),
    ensures
        digits_value(s.subrange(0, j)) <= digits_value(s),
    decreases s.len(),
{
    if j < s.len() {
        let t = s.drop_last();
        lemma_digits_prefix(t, j);
        assert(t.subrange(0, j) =~= s.subrange(0, j));
        lemma_digits_bound(t);
    } else {
        assert(s.subrange(0, j) =~= s);
    }
}

pub proof fn lemma_digits_step(b: Seq<u8>, lo: int, i: int)
    requires
        0 <= lo <= i < b.len(),
    ensures
        digits_value(b.subrange(lo, i + 1)) == digits_value(b.subrange(lo, i)) * 10 + (b[i] - 0x30),
        all_digits(b.subrange(lo, i)) && is_digit(b[i]) ==> all_digits(b.subrange(lo, i + 1)),
{
    let t = b.subrange(lo, i + 1);
    assert(t.drop_last() =~= b.subrange(lo, i));
    if all_digits(b.subrange(lo, i)) && is_digit(b[i]) {
        assert forall|k: int| 0 <= k < t.len() implies is_digit(#[trigger] t[k]) by {
            if k < t.len() - 1 {
                assert(t[k] == b.subrange(lo, i)[k]);
            }
        }
    }
}

/// Reads `b[lo..hi)` as a fixed-width run of digits.
pub fn parse_digits(b: &[u8], lo: usize, hi: usize) -> (r: Option<u32>)
    requires
        lo < hi <= b@.len(),
        hi - lo <= 9,
    ensures
        r is Some <==> field_value(b@.subrange(lo as int, hi as int)) is Some,
        r is Some ==> r->0 == field_value(b@.subrange(lo as int, hi as int))->0,
{
    let mut acc: u32 = 0;
    let mut i: usize = lo;
    assert(b@.subrange(lo as int, lo as int) =~= Seq::<u8>::empty());
    proof {
        lemma_pow10_monotone(0, 9);
    }
    while i < hi
        invariant
            lo <= i <= hi <= b@.len(),
            hi - lo <= 9,
            all_digits(b@.subrange(lo as int, i as int)),
            acc == digits_value(b@.subrange(lo as int, i as int)),
            acc < pow10((i - lo) as nat),
            pow10((i - lo) as nat) <= pow10(9),
        decreases hi - i,
    {
        let c = b[i];
        if c < 0x30 || c > 0x39 {
            proof {
                let t = b@.subrange(lo as int, hi as int);
                assert(t[i - lo] == c);
            }
            return None;
        }
        proof {
            lemma_digits_step(b@, lo as int, i as int);
            lemma_pow10_monotone((i + 1 - lo) as nat, 9);
            reveal_with_fuel(pow10, 10);
        }
        acc = acc * 10 + (c - 0x30) as u32;
        i = i + 1;
    }
    Some(acc)
}

pub proof fn lemma_pow10_monotone(m: nat, n: nat)
    requires
        m <= n,
    ensures
        1 <= pow10(m) <= pow10(n),
    decreases n,
{
    if m < n {
        lemma_pow10_monotone(m, (n - 1) as nat);
    } else if n > 0 {
        lemma_pow10_monotone(0, (n - 1) as nat);
    }
}

/// Reads `b[lo..]` as a signed decimal `i32`.
#[verifier::loop_isolation(false)]
pub fn parse_signed(b: &[u8], lo: usize) -> (r: Option<i32>)
    requires
        lo <= b@.len(),
    ensures
        r is Some <==> signed_value(b@.subrange(lo as int, b@.len() as int)) is Some,
        r is Some ==> r->0 == signed_value(b@.subrange(lo as int, b@.len() as int))->0,
{
    let n = b.len();
    let ghost s = b@.subrange(lo as int, n as int);
    let mut neg = false;
    let mut start = lo;
    if lo < n && b[lo] == 0x2d {
        neg = true;
        start = lo + 1;
    } else if lo < n && b[lo] == 0x2b {
        start = lo + 1;
    }
    let ghost d = b@.subrange(start as int, n as int);
    assert(start == lo + 1 ==> d =~= s.drop_first());
    assert(start == lo ==> d =~= s);
    if start == n {
        return None;
    }
    let limit: u64 = if neg { 0x8000_0000 } else { 0x7fff_ffff };
    let mut acc: u64 = 0;
    let mut i: usize = start;
    assert(b@.subrange(start as int, start as int) =~= Seq::<u8>::empty());
    while i < n
        invariant
            start <= i <= n == b@.len(),
            d == b@.subrange(start as int, n as int),
            all_digits(b@.subrange(start as int, i as int)),
            acc == digits_value(b@.subrange(start as int, i as int)),
            acc <= limit <= 0x8000_0000,
        decreases n - i,
    {
        let c = b[i];
        if c < 0x30 || c > 0x39 {
            assert(d[i - start] == c);
            return None;
        }
        proof {
            lemma_digits_step(b@, start as int, i as int);
        }
        acc = acc * 10 + (c - 0x30) as u64;
        i = i + 1;
        if acc > limit {
            proof {
                if all_digits(d) {
                    lemma_digits_prefix(d, i - start);
                    assert(d.subrange(0, i - start) =~= b@.subrange(start as int, i as int));
                }
            }
            return None;
        }
    }
    assert(b@.subrange(start as int, n as int) == d);
    if neg {
        let v: i64 = 0 - acc as i64;
        Some(v as i32)
    } else {
        Some(acc as i32)
    }
}

/// An unsigned decimal no greater than `max`, as `str::parse` reads a `u16` or a
/// `u32`: an optional `+`, then one or more digits.
pub open spec fn unsigned_value(s: Seq<u8>, max: int) -> Option<int> {
    let d = if s.len() > 0 && s[0] == 0x2b { s.drop_first() } else { s };
    if d.len() > 0 && all_digits(d) && digits_value(d) <= max {
        Some(digits_value(d))
    } else {
        None
    }
}

/// Reads `b` as an unsigned decimal no greater than `max`.
#[verifier::loop_isolation(false)]
pub fn parse_unsigned(b: &[u8], max: u32) -> (r: Option<u32>)
    ensures
        r is Some <==> unsigned_value(b@, max as int) is Some,
        r is Some ==> r->0 == unsigned_value(b@, max as int)->0,
{
    let n = b.len();
    let mut start: usize = 0;
    if n > 0 && b[0] == 0x2b {
        start = 1;
    }
    let ghost d = b@.subrange(start as int, n as int);
    assert(start == 1 ==> d =~= b@.drop_first());
    assert(start == 0 ==> d =~= b@);
    if start == n {
        return None;
    }
    let mut acc: u64 = 0;
    let mut i: usize = start;
    assert(b@.subrange(start as int, start as int) =~= Seq::<u8>::empty());
    while i < n
        invariant
            start <= i <= n == b@.len(),
            d == b@.subrange(start as int, n as int),
            all_digits(b@.subrange(start as int, i as int)),
            acc == digits_value(b@.subrange(start as int, i as int)),
            acc <= max,
        decreases n - i,
    {
        let c = b[i];
        if c < 0x30 || c > 0x39 {
            assert(d[i - start] == c);
            return None;
        }
        proof {
            lemma_digits_step(b@, start as int, i as int);
        }
        acc = acc * 10 + (c - 0x30) as u64;
        i = i + 1;
        if acc > max as u64 {
            proof {
                if all_digits(d) {
                    lemma_digits_prefix(d, i - start);
                    assert(d.subrange(0, i - start) =~= b@.subrange(start as int, i as int));
                }
            }
            return None;
        }
    }
    assert(b@.subrange(start as int, n as int) == d);
    Some(acc as u32)
}

} // verus!
