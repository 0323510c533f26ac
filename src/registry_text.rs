use vstd::prelude::*;

verus! {

/// Code units of a value buffer that are searched for the terminator. A value whose
/// terminator lies beyond them is cut to this many units without notice.
pub const WINDOW_UNITS: usize = 12;

pub open spec fn is_surrogate(u: u16) -> bool {
    0xD800 <= u <= 0xDFFF
}

pub open spec fn is_high_surrogate(u: u16) -> bool {
    0xD800 <= u <= 0xDBFF
}

pub open spec fn is_low_surrogate(u: u16) -> bool {
    0xDC00 <= u <= 0xDFFF
}

/// UTF-16 decoding in which each unpaired surrogate becomes U+FFFD.
pub open spec fn utf16_lossy(u: Seq<u16>) -> Seq<char>
    decreases u.len(),
{
    if u.len() == 0 {
        Seq::empty()
    } else if !is_surrogate(u[0]) {
        seq![u[0] as char] + utf16_lossy(u.drop_first())
    } else if is_high_surrogate(u[0]) && u.len() >= 2 && is_low_surrogate(u[1]) {
        seq![(0x10000 + (u[0] - 0xD800) * 0x400 + (u[1] - 0xDC00)) as char] + utf16_lossy(
            u.subrange(2, u.len() as int),
        )
    } else {
        seq!['\u{FFFD}'] + utf16_lossy(u.drop_first())
    }
}

/// The UTF-16 encoding of a text.
pub open spec fn utf16_of(s: Seq<char>) -> Seq<u16>
    decreases s.len(),
{
    if s.len() == 0 {
        Seq::empty()
    } else {
        let c = s[0] as int;
        let head = if c < 0x10000 {
            seq![c as u16]
        } else {
            seq![(0xD800 + (c - 0x10000) / 0x400) as u16, (0xDC00 + (c - 0x10000) % 0x400) as u16]
        };
        head + utf16_of(s.drop_first())
    }
}

/// The 16-bit code units of a byte buffer, little-endian; an odd last byte is not read.
pub open spec fn units_of(b: Seq<u8>) -> Seq<u16> {
    Seq::new(b.len() / 2, |k: int| (b[2 * k] + 256 * b[2 * k + 1]) as u16)
}

/// The bytes of code units, little-endian.
pub open spec fn bytes_of(u: Seq<u16>) -> Seq<u8> {
    Seq::new(
        2 * u.len(),
        |k: int|
            if k % 2 == 0 {
                (u[k / 2] % 256) as u8
            } else {
                (u[k / 2] / 256) as u8
            },
    )
}

/// Index of the first zero unit, or the length when there is none.
pub open spec fn first_nul(u: Seq<u16>) -> int
    decreases u.len(),
{
    if u.len() == 0 {
        0
    } else if u[0] == 0 {
        0
    } else {
        1 + first_nul(u.drop_first())
    }
}

/// The code units that a value buffer holds as text: those of the search window,
/// up to the first zero unit in it.
pub open spec fn window_text_units(b: Seq<u8>) -> Seq<u16> {
    let u = units_of(b);
    let w = if u.len() < WINDOW_UNITS { u } else { u.take(WINDOW_UNITS as int) };
    w.take(first_nul(w))
}

/// The text that a value buffer reads as.
pub open spec fn value_text(b: Seq<u8>) -> Seq<char> {
    utf16_lossy(window_text_units(b))
}

proof fn lemma_first_nul_at(u: Seq<u16>, k: int)
    requires
        0 <= k <= u.len(),
        forall|j: int| 0 <= j < k ==> u[j] != 0,
        k == u.len() || u[k] == 0,
    ensures
        first_nul(u) == k,
    decreases k,
{
    if k > 0 {
        lemma_first_nul_at(u.drop_first(), k - 1);
    }
}

/// Relies on `String::from_utf16_lossy`: decodes UTF-16, each unpaired surrogate
/// becoming U+FFFD.
#[verifier::external_body]
fn string_from_utf16_lossy(v: &[u16]) -> (r: String)
    ensures
        r@ == utf16_lossy(v@),
{
    String::from_utf16_lossy(v)
}

/// Reads the text held in a configuration-store value buffer: its first
/// `WINDOW_UNITS` code units at most, up to the first zero unit.
pub fn registry_value_text(buf: &[u8]) -> (r: String)
    ensures
        r@ == value_text(buf@),
{
    let n_units = buf.len() / 2;
    let limit = if n_units < WINDOW_UNITS { n_units } else { WINDOW_UNITS };
    let ghost u = units_of(buf@);
    let ghost w = if u.len() < WINDOW_UNITS { u } else { u.take(WINDOW_UNITS as int) };
    let mut units: Vec<u16> = Vec::new();
    let mut k: usize = 0;
    while k < limit
        invariant_except_break
            units@ =~= w.take(k as int),
        invariant
            k <= limit == w.len(),
            limit <= n_units == buf@.len() / 2,
            u == units_of(buf@),
            w == (if u.len() < WINDOW_UNITS { u } else { u.take(WINDOW_UNITS as int) }),
            forall|j: int| 0 <= j < k ==> w[j] != 0,
        ensures
            units@ =~= w.take(k as int),
            k == limit || w[k as int] == 0,
        decreases limit - k,
    {
        let unit: u16 = buf[2 * k] as u16 + 256u16 * (buf[2 * k + 1] as u16);
        assert(unit == w[k as int]);
        if unit == 0 {
            break;
        }
        units.push(unit);
        k = k + 1;
    }
    proof {
        lemma_first_nul_at(w, k as int);
    }
    string_from_utf16_lossy(units.as_slice())
}

proof fn lemma_decode_encode(s: Seq<char>)
    ensures
        utf16_lossy(utf16_of(s)) == s,
        s.len() <= utf16_of(s).len(),
        (forall|i: int| 0 <= i < s.len() ==> s[i] != '\0') ==> (forall|k: int|
            0 <= k < utf16_of(s).len() ==> utf16_of(s)[k] != 0),
    decreases s.len(),
{
    if s.len() > 0 {
        let c = s[0] as int;
        let rest = s.drop_first();
        let tail = utf16_of(rest);
        let e = utf16_of(s);
        lemma_decode_encode(rest);
        vstd::utf8::char_is_scalar(s[0]);
        vstd::utf8::char_u32_cast(s[0], s[0] as u32);
        if c < 0x10000 {
            assert(e.drop_first() =~= tail);
            assert(!is_surrogate(e[0]));
            assert(e[0] as char == s[0]);
        } else {
            let hi = 0xD800 + (c - 0x10000) / 0x400;
            let lo = 0xDC00 + (c - 0x10000) % 0x400;
            vstd::arithmetic::div_mod::lemma_fundamental_div_mod(c - 0x10000, 0x400);
            assert(e[0] == hi && e[1] == lo);
            assert(e.subrange(2, e.len() as int) =~= tail);
            assert(0x10000 + (hi - 0xD800) * 0x400 + (lo - 0xDC00) == c);
        }
        assert(s =~= seq![s[0]] + rest);
        if forall|i: int| 0 <= i < s.len() ==> s[i] != '\0' {
            assert forall|i: int| 0 <= i < rest.len() implies rest[i] != '\0' by {
                assert(rest[i] == s[i + 1]);
            }
        }
    }
}

proof fn lemma_units_of_prefix(v: Seq<u16>, rest: Seq<u8>)
    ensures
        units_of(bytes_of(v) + rest).len() >= v.len(),
        units_of(bytes_of(v) + rest).take(v.len() as int) =~= v,
{
    let b = bytes_of(v) + rest;
    assert forall|k: int| 0 <= k < v.len() implies units_of(b)[k] == v[k] by {
        assert(b[2 * k] == bytes_of(v)[2 * k]);
        assert(b[2 * k + 1] == bytes_of(v)[2 * k + 1]);
        assert((2 * k) / 2 == k && (2 * k) % 2 == 0);
        assert((2 * k + 1) / 2 == k && (2 * k + 1) % 2 == 1);
    }
}

/// Text of fewer than `WINDOW_UNITS` UTF-16 code units and without U+0000, stored
/// as the configuration store keeps it (its code units, a zero unit, then anything),
/// reads back unchanged.
pub proof fn lemma_short_value_round_trip(s: Seq<char>, rest: Seq<u8>)
    requires
        utf16_of(s).len() < WINDOW_UNITS,
        forall|i: int| 0 <= i < s.len() ==> s[i] != '\0',
    ensures
        value_text(bytes_of(utf16_of(s).push(0u16)) + rest) == s,
{
    let e = utf16_of(s);
    let v = e.push(0u16);
    let b = bytes_of(v) + rest;
    lemma_decode_encode(s);
    lemma_units_of_prefix(v, rest);
    let u = units_of(b);
    let w = if u.len() < WINDOW_UNITS { u } else { u.take(WINDOW_UNITS as int) };
    assert(w.take(v.len() as int) =~= v);
    assert forall|j: int| 0 <= j < e.len() implies w[j] != 0 by {
        assert(w[j] == v[j]);
    }
    assert(w[e.len() as int] == v[e.len() as int]);
    lemma_first_nul_at(w, e.len() as int);
    assert(w.take(e.len() as int) =~= e);
}

} // verus!
