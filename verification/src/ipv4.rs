//! Dotted-quad IPv4 text and subnet masks.
//!
//! An address is four octets. Its text is the four canonical decimal numbers
//! joined by dots, which is both what `Ipv4Addr`'s `Display` writes and the
//! only form its `FromStr` accepts (no leading zeros, no signs, no spaces).

use vstd::prelude::*;

use crate::text::{
    all_digits, canonical_digits, contains_char, decimal, digit_value, digits_value, is_digit,
    lemma_canonical_is_decimal, lemma_decimal, lemma_decimal_injective, push_decimal, to_chars,
};

verus! {

/// The four octets of an IPv4 address, most significant first.
pub type Octets = (u8, u8, u8, u8);

/// The dotted-quad text of an address, e.g. `192.168.0.245`.
pub open spec fn ipv4_text(a: Octets) -> Seq<char> {
    decimal(a.0 as nat) + (seq!['.'] + (decimal(a.1 as nat) + (seq!['.'] + (decimal(a.2 as nat)
        + (seq!['.'] + decimal(a.3 as nat))))))
}

/// `s` is the text of some IPv4 address.
pub open spec fn is_ipv4_text(s: Seq<char>) -> bool {
    exists|a: Octets| s == ipv4_text(a)
}

/// `t` stands in `s` at position `i`.
pub open spec fn prefix_at(s: Seq<char>, i: int, t: Seq<char>) -> bool {
    0 <= i && i + t.len() <= s.len() && s.subrange(i, i + t.len()) == t
}

/// Position `i` of `s` ends a number: the text ends there or a non-digit follows.
pub open spec fn number_ends(s: Seq<char>, i: int) -> bool {
    i == s.len() || (0 <= i < s.len() && !is_digit(s[i]))
}

/// The decimal text of an octet has one to three digits and no dot.
pub proof fn lemma_octet_decimal(n: u8)
    ensures
        canonical_digits(decimal(n as nat)),
        digits_value(decimal(n as nat)) == n,
        1 <= decimal(n as nat).len() <= 3,
        !contains_char(decimal(n as nat), '.'),
{
    lemma_decimal(n as nat);
    let d = decimal(n as nat);
    assert forall|i: int| 0 <= i < d.len() implies d[i] != '.' by {
        assert(is_digit(d[i]));
    }
}

/// Where the pieces of an address text stand.
pub proof fn lemma_text_layout(a: Octets)
    ensures
        ({
            let s = ipv4_text(a);
            let l0 = decimal(a.0 as nat).len() as int;
            let l1 = decimal(a.1 as nat).len() as int;
            let l2 = decimal(a.2 as nat).len() as int;
            let l3 = decimal(a.3 as nat).len() as int;
            &&& s.len() == l0 + l1 + l2 + l3 + 3
            &&& prefix_at(s, 0, decimal(a.0 as nat))
            &&& s[l0] == '.'
            &&& prefix_at(s, l0 + 1, decimal(a.1 as nat))
            &&& s[l0 + 1 + l1] == '.'
            &&& prefix_at(s, l0 + l1 + 2, decimal(a.2 as nat))
            &&& s[l0 + l1 + 2 + l2] == '.'
            &&& prefix_at(s, l0 + l1 + l2 + 3, decimal(a.3 as nat))
        }),
{
    let s = ipv4_text(a);
    let d0 = decimal(a.0 as nat);
    let d1 = decimal(a.1 as nat);
    let d2 = decimal(a.2 as nat);
    let d3 = decimal(a.3 as nat);
    let l0 = d0.len() as int;
    let l1 = d1.len() as int;
    let l2 = d2.len() as int;
    let l3 = d3.len() as int;
    let dot = seq!['.'];
    assert(s =~= d0 + dot + d1 + dot + d2 + dot + d3);
    assert(s.subrange(0, l0) =~= d0);
    assert(s.subrange(l0 + 1, l0 + 1 + l1) =~= d1);
    assert(s.subrange(l0 + l1 + 2, l0 + l1 + 2 + l2) =~= d2);
    assert(s.subrange(l0 + l1 + l2 + 3, l0 + l1 + l2 + 3 + l3) =~= d3);
}

/// A dot-terminated octet at the start of a text fixes the octet and the rest.
proof fn lemma_octet_then_dot(m: u8, n: u8, r1: Seq<char>, r2: Seq<char>)
    requires
        decimal(m as nat) + (seq!['.'] + r1) == decimal(n as nat) + (seq!['.'] + r2),
    ensures
        m == n,
        r1 == r2,
{
    let dm = decimal(m as nat);
    let dn = decimal(n as nat);
    let s = dm + (seq!['.'] + r1);
    lemma_octet_decimal(m);
    lemma_octet_decimal(n);
    if dm.len() < dn.len() {
        assert(s[dm.len() as int] == '.');
        assert(s[dm.len() as int] == dn[dm.len() as int]);
        assert(is_digit(dn[dm.len() as int]));
    } else if dn.len() < dm.len() {
        assert(s[dn.len() as int] == dm[dn.len() as int]);
        assert(is_digit(dm[dn.len() as int]));
    }
    assert(dm.len() == dn.len());
    assert(dm =~= s.subrange(0, dm.len() as int));
    assert(dn =~= s.subrange(0, dn.len() as int));
    lemma_decimal_injective(m as nat, n as nat);
    assert(r1 =~= s.subrange(dm.len() as int + 1, s.len() as int));
    assert(r2 =~= s.subrange(dn.len() as int + 1, s.len() as int));
}

/// Different addresses have different texts.
pub proof fn lemma_ipv4_text_injective(a: Octets, b: Octets)
    requires
        ipv4_text(a) == ipv4_text(b),
    ensures
        a == b,
{
    let dot = seq!['.'];
    lemma_octet_then_dot(
        a.0,
        b.0,
        decimal(a.1 as nat) + (dot + (decimal(a.2 as nat) + (dot + decimal(a.3 as nat)))),
        decimal(b.1 as nat) + (dot + (decimal(b.2 as nat) + (dot + decimal(b.3 as nat)))),
    );
    lemma_octet_then_dot(
        a.1,
        b.1,
        decimal(a.2 as nat) + (dot + decimal(a.3 as nat)),
        decimal(b.2 as nat) + (dot + decimal(b.3 as nat)),
    );
    lemma_octet_then_dot(a.2, b.2, decimal(a.3 as nat), decimal(b.3 as nat));
    lemma_decimal_injective(a.3 as nat, b.3 as nat);
}

/// The dotted-quad text of an address (`Ipv4Addr::to_string`).
pub fn format_ipv4(a: Octets) -> (res: String)
    ensures
        res@ == ipv4_text(a),
{
    let mut out = String::new();
    push_decimal(&mut out, a.0 as u64);
    out.append(".");
    push_decimal(&mut out, a.1 as u64);
    out.append(".");
    push_decimal(&mut out, a.2 as u64);
    out.append(".");
    push_decimal(&mut out, a.3 as u64);
    proof {
        reveal_strlit(".");
    }
    assert(out@ =~= ipv4_text(a));
    out
}

/// Reads one octet of an address starting at `start`: the longest run of
/// digits there, which must be a canonical decimal number below 256.
fn parse_octet(s: &Vec<char>, start: usize) -> (res: Option<(u8, usize)>)
    requires
        start <= s.len(),
    ensures
        res matches Some((n, end)) ==> {
            &&& start < end <= s.len()
            &&& end == start + decimal(n as nat).len()
            &&& prefix_at(s@, start as int, decimal(n as nat))
            &&& number_ends(s@, end as int)
        },
        forall|n: u8|
            prefix_at(s@, start as int, decimal(n as nat)) && number_ends(
                s@,
                start + decimal(n as nat).len(),
            ) ==> res == Some((n, (start + decimal(n as nat).len()) as usize)),
{
    let len = s.len();
    let mut end = start;
    let mut value: u32 = 0;
    while end < len && end - start < 4 && s[end] >= '0' && s[end] <= '9'
        invariant
            start <= end <= len,
            len == s.len(),
            end - start <= 4,
            all_digits(s@.subrange(start as int, end as int)),
            value == digits_value(s@.subrange(start as int, end as int)),
            end - start <= 1 ==> value < 10,
            end - start <= 2 ==> value < 100,
            end - start <= 3 ==> value < 1000,
            value < 10000,
        decreases len - end,
    {
        let ghost old_run = s@.subrange(start as int, end as int);
        let ghost run = s@.subrange(start as int, end + 1);
        assert(run.drop_last() =~= old_run);
        assert(digit_value(s@[end as int]) < 10);
        value = value * 10 + (s[end] as u32 - '0' as u32);
        end = end + 1;
        assert(all_digits(run)) by {
            assert forall|i: int| 0 <= i < run.len() implies #[trigger] is_digit(run[i]) by {
                if i < run.len() - 1 {
                    assert(run[i] == old_run[i]);
                }
            }
        }
    }
    let ghost run = s@.subrange(start as int, end as int);
    // Whatever address text stands here, its octet is exactly this run.
    assert forall|n: u8|
        prefix_at(s@, start as int, decimal(n as nat)) && number_ends(
            s@,
            start + decimal(n as nat).len(),
        ) implies {
            &&& end == start + decimal(n as nat).len()
            &&& run == decimal(n as nat)
            &&& canonical_digits(run)
            &&& digits_value(run) == n
            &&& 1 <= run.len() <= 3
        } by {
        lemma_octet_decimal(n);
        let d = decimal(n as nat);
        let e = start + d.len();
        if end < e {
            assert(s@[end as int] == d[end - start]);
            assert(is_digit(d[end - start]));
        } else if end > e {
            assert(run[e - start] == s@[e]);
            assert(is_digit(run[e - start]));
        }
        assert(run =~= d);
    }
    if end == start || end - start > 3 {
        return None;
    }
    if end - start > 1 && s[start] == '0' {
        assert(run[0] == '0');
        return None;
    }
    if value > 255 {
        return None;
    }
    let n = value as u8;
    proof {
        assert(canonical_digits(run));
        lemma_canonical_is_decimal(run);
        assert(decimal(n as nat) == run);
        if end < len {
            assert(!is_digit(s@[end as int]));
        }
    }
    Some((n, end))
}

/// Where the octets and dots of an address text stand, in the terms that
/// `parse_octet` speaks of.
proof fn lemma_text_octets(v: Seq<char>, a: Octets)
    requires
        v == ipv4_text(a),
    ensures
        ({
            let l0 = decimal(a.0 as nat).len() as int;
            let l1 = decimal(a.1 as nat).len() as int;
            let l2 = decimal(a.2 as nat).len() as int;
            &&& prefix_at(v, 0, decimal(a.0 as nat))
            &&& number_ends(v, 0 + l0)
            &&& l0 < v.len() && v[l0] == '.'
            &&& prefix_at(v, l0 + 1, decimal(a.1 as nat))
            &&& number_ends(v, l0 + 1 + l1)
            &&& l0 + 1 + l1 < v.len() && v[l0 + 1 + l1] == '.'
            &&& prefix_at(v, l0 + 1 + l1 + 1, decimal(a.2 as nat))
            &&& number_ends(v, l0 + 1 + l1 + 1 + l2)
            &&& l0 + 1 + l1 + 1 + l2 < v.len() && v[l0 + 1 + l1 + 1 + l2] == '.'
            &&& prefix_at(v, l0 + 1 + l1 + 1 + l2 + 1, decimal(a.3 as nat))
            &&& number_ends(v, l0 + 1 + l1 + 1 + l2 + 1 + decimal(a.3 as nat).len())
            &&& l0 + 1 + l1 + 1 + l2 + 1 + decimal(a.3 as nat).len() == v.len()
        }),
{
    lemma_text_layout(a);
}

/// Parses the dotted-quad text of an IPv4 address (`str::parse::<Ipv4Addr>`).
pub fn parse_ipv4(s: &str) -> (res: Option<Octets>)
    ensures
        res matches Some(a) ==> s@ == ipv4_text(a),
        res is None <==> !is_ipv4_text(s@),
{
    let v = to_chars(s);
    let len = v.len();
    let ghost w = choose|a: Octets| s@ == ipv4_text(a);
    proof {
        if is_ipv4_text(s@) {
            lemma_text_octets(v@, w);
        }
    }
    let (a0, p0) = match parse_octet(&v, 0) {
        Some(r) => r,
        None => return None,
    };
    if p0 >= len || v[p0] != '.' {
        return None;
    }
    let (a1, p1) = match parse_octet(&v, p0 + 1) {
        Some(r) => r,
        None => return None,
    };
    if p1 >= len || v[p1] != '.' {
        return None;
    }
    let (a2, p2) = match parse_octet(&v, p1 + 1) {
        Some(r) => r,
        None => return None,
    };
    if p2 >= len || v[p2] != '.' {
        return None;
    }
    let (a3, p3) = match parse_octet(&v, p2 + 1) {
        Some(r) => r,
        None => return None,
    };
    if p3 != len {
        return None;
    }
    let a = (a0, a1, a2, a3);
    proof {
        assert(v@ =~= v@.subrange(0, p0 as int) + (seq![v@[p0 as int]] + (v@.subrange(
            p0 + 1,
            p1 as int,
        ) + (seq![v@[p1 as int]] + (v@.subrange(p1 + 1, p2 as int) + (seq![v@[p2 as int]]
            + v@.subrange(p2 + 1, p3 as int)))))));
        assert(v@ =~= ipv4_text(a));
    }
    Some(a)
}

// ---------------------------------------------------------------------------
// Subnet masks
// ---------------------------------------------------------------------------

/// `2` raised to the power `n`.
pub open spec fn two_pow(n: nat) -> nat
    decreases n,
{
    if n == 0 {
        1
    } else {
        2 * two_pow((n - 1) as nat)
    }
}

/// The octet whose `k` most significant bits are set and the others clear
/// (`k` is clamped to `0..=8`).
pub open spec fn mask_byte(k: int) -> u8 {
    if k <= 0 {
        0
    } else if k >= 8 {
        255
    } else {
        (256 - two_pow((8 - k) as nat)) as u8
    }
}

/// The subnet mask of a CIDR prefix: `prefix` leading one bits, then zeros.
pub open spec fn mask_octets(prefix: int) -> Octets {
    (mask_byte(prefix), mask_byte(prefix - 8), mask_byte(prefix - 16), mask_byte(prefix - 24))
}

/// The mask octets for each number of leading ones.
pub proof fn lemma_mask_byte_values()
    ensures
        mask_byte(0) == 0,
        mask_byte(1) == 128,
        mask_byte(2) == 192,
        mask_byte(3) == 224,
        mask_byte(4) == 240,
        mask_byte(5) == 248,
        mask_byte(6) == 252,
        mask_byte(7) == 254,
        mask_byte(8) == 255,
{
    reveal_with_fuel(two_pow, 8);
}

/// More leading ones give a larger octet.
proof fn lemma_mask_byte_strictly_increasing(j: int, k: int)
    requires
        0 <= j < k <= 8,
    ensures
        mask_byte(j) < mask_byte(k),
{
    lemma_mask_byte_values();
}

/// Different prefixes have different masks.
pub proof fn lemma_mask_octets_injective(p: int, q: int)
    requires
        0 <= p <= 32,
        0 <= q <= 32,
        mask_octets(p) == mask_octets(q),
    ensures
        p == q,
{
    if p != q {
        let (lo, hi) = if p < q {
            (p, q)
        } else {
            (q, p)
        };
        // The octet in which the shorter mask ends tells them apart.
        let i = lo / 8;
        assert(0 <= i <= 3);
        let kl = lo - 8 * i;
        let kh = if hi - 8 * i >= 8 {
            8
        } else {
            hi - 8 * i
        };
        lemma_mask_byte_strictly_increasing(kl, kh);
        assert(mask_byte(hi - 8 * i) == mask_byte(kh));
        if i == 0 {
            assert(mask_octets(lo).0 != mask_octets(hi).0);
        } else if i == 1 {
            assert(mask_octets(lo).1 != mask_octets(hi).1);
        } else if i == 2 {
            assert(mask_octets(lo).2 != mask_octets(hi).2);
        } else {
            assert(mask_octets(lo).3 != mask_octets(hi).3);
        }
    }
}

/// The mask octet with `ones` leading one bits, `ones` clamped to `0..=8`.
fn mask_byte_exec(ones: i32) -> (res: u8)
    ensures
        res == mask_byte(ones as int),
{
    proof {
        lemma_mask_byte_values();
    }
    if ones <= 0 {
        0
    } else if ones == 1 {
        128
    } else if ones == 2 {
        192
    } else if ones == 3 {
        224
    } else if ones == 4 {
        240
    } else if ones == 5 {
        248
    } else if ones == 6 {
        252
    } else if ones == 7 {
        254
    } else {
        255
    }
}

/// The octets of the subnet mask of a CIDR prefix.
pub fn mask_octets_of(prefix: u8) -> (res: Octets)
    requires
        prefix <= 32,
    ensures
        res == mask_octets(prefix as int),
{
    let p = prefix as i32;
    (mask_byte_exec(p), mask_byte_exec(p - 8), mask_byte_exec(p - 16), mask_byte_exec(p - 24))
}

} // verus!
