use vstd::prelude::*;

use vstd::arithmetic::div_mod::{
    lemma_fundamental_div_mod, lemma_fundamental_div_mod_converse_mod, lemma_small_mod,
};

use crate::text::push_char;

verus! {

// Row identifiers are 128-bit values. Their canonical text form is the
// hyphenated lowercase hexadecimal layout 8-4-4-4-12 (36 characters), which
// is how they travel inside token subjects; `parse_id` accepts upper and
// lower case digits but demands that exact layout.
pub open spec fn hex_char(d: int) -> char {
    if d == 0 {
        '0'
    } else if d == 1 {
        '1'
    } else if d == 2 {
        '2'
    } else if d == 3 {
        '3'
    } else if d == 4 {
        '4'
    } else if d == 5 {
        '5'
    } else if d == 6 {
        '6'
    } else if d == 7 {
        '7'
    } else if d == 8 {
        '8'
    } else if d == 9 {
        '9'
    } else if d == 10 {
        'a'
    } else if d == 11 {
        'b'
    } else if d == 12 {
        'c'
    } else if d == 13 {
        'd'
    } else if d == 14 {
        'e'
    } else {
        'f'
    }
}

/// The value of a hexadecimal digit; 16 marks a character that is none.
pub open spec fn hex_val(c: char) -> int {
    if c == '0' {
        0
    } else if c == '1' {
        1
    } else if c == '2' {
        2
    } else if c == '3' {
        3
    } else if c == '4' {
        4
    } else if c == '5' {
        5
    } else if c == '6' {
        6
    } else if c == '7' {
        7
    } else if c == '8' {
        8
    } else if c == '9' {
        9
    } else if c == 'a' || c == 'A' {
        10
    } else if c == 'b' || c == 'B' {
        11
    } else if c == 'c' || c == 'C' {
        12
    } else if c == 'd' || c == 'D' {
        13
    } else if c == 'e' || c == 'E' {
        14
    } else if c == 'f' || c == 'F' {
        15
    } else {
        16
    }
}

pub open spec fn is_hex(c: char) -> bool {
    hex_val(c) < 16
}

pub open spec fn pow16(k: nat) -> nat
    decreases k,
{
    if k == 0 {
        1
    } else {
        16 * pow16((k - 1) as nat)
    }
}

/// The last `k` hexadecimal digits of `v`, most significant first.
pub open spec fn to_hex(v: nat, k: nat) -> Seq<char>
    decreases k,
{
    if k == 0 {
        Seq::empty()
    } else {
        to_hex(v / 16, (k - 1) as nat).push(hex_char((v % 16) as int))
    }
}

/// The value of a big-endian digit string.
pub open spec fn from_hex(s: Seq<char>) -> nat
    decreases s.len(),
{
    if s.len() == 0 {
        0
    } else {
        (from_hex(s.drop_last()) * 16 + hex_val(s.last())) as nat
    }
}

pub open spec fn all_hex(s: Seq<char>) -> bool {
    forall|i: int| 0 <= i < s.len() ==> is_hex(#[trigger] s[i])
}

/// The canonical text of identifier `v`.
pub open spec fn uuid_str(v: u128) -> Seq<char> {
    let h = to_hex(v as nat, 32);
    h.subrange(0, 8) + seq!['-'] + h.subrange(8, 12) + seq!['-'] + h.subrange(12, 16) + seq!['-']
        + h.subrange(16, 20) + seq!['-'] + h.subrange(20, 32)
}

/// The 32 digit positions of a 36-character hyphenated layout.
pub open spec fn strip_dashes(s: Seq<char>) -> Seq<char> {
    s.subrange(0, 8) + s.subrange(9, 13) + s.subrange(14, 18) + s.subrange(19, 23) + s.subrange(
        24,
        36,
    )
}

/// What `parse_id` accepts: exactly the 8-4-4-4-12 hyphenated layouts whose
/// other positions are hexadecimal digits of either case.
pub open spec fn uuid_parse_spec(s: Seq<char>) -> Option<u128> {
    if s.len() == 36 && s[8] == '-' && s[13] == '-' && s[18] == '-' && s[23] == '-' && all_hex(
        strip_dashes(s),
    ) {
        Some(from_hex(strip_dashes(s)) as u128)
    } else {
        None
    }
}

fn hex_char_exec(d: u8) -> (c: char)
    requires
        d < 16,
    ensures
        c == hex_char(d as int),
{
    if d == 0 {
        '0'
    } else if d == 1 {
        '1'
    } else if d == 2 {
        '2'
    } else if d == 3 {
        '3'
    } else if d == 4 {
        '4'
    } else if d == 5 {
        '5'
    } else if d == 6 {
        '6'
    } else if d == 7 {
        '7'
    } else if d == 8 {
        '8'
    } else if d == 9 {
        '9'
    } else if d == 10 {
        'a'
    } else if d == 11 {
        'b'
    } else if d == 12 {
        'c'
    } else if d == 13 {
        'd'
    } else if d == 14 {
        'e'
    } else {
        'f'
    }
}

fn hex_val_exec(c: char) -> (r: u8)
    ensures
        r as int == hex_val(c),
{
    if c == '0' {
        0
    } else if c == '1' {
        1
    } else if c == '2' {
        2
    } else if c == '3' {
        3
    } else if c == '4' {
        4
    } else if c == '5' {
        5
    } else if c == '6' {
        6
    } else if c == '7' {
        7
    } else if c == '8' {
        8
    } else if c == '9' {
        9
    } else if c == 'a' || c == 'A' {
        10
    } else if c == 'b' || c == 'B' {
        11
    } else if c == 'c' || c == 'C' {
        12
    } else if c == 'd' || c == 'D' {
        13
    } else if c == 'e' || c == 'E' {
        14
    } else if c == 'f' || c == 'F' {
        15
    } else {
        16
    }
}

proof fn lemma_to_hex_len(v: nat, k: nat)
    ensures
        to_hex(v, k).len() == k,
    decreases k,
{
    if k > 0 {
        lemma_to_hex_len(v / 16, (k - 1) as nat);
    }
}

proof fn lemma_to_hex_all_hex(v: nat, k: nat)
    ensures
        all_hex(to_hex(v, k)),
    decreases k,
{
    if k > 0 {
        lemma_to_hex_all_hex(v / 16, (k - 1) as nat);
        let s = to_hex(v, k);
        assert forall|i: int| 0 <= i < s.len() implies is_hex(#[trigger] s[i]) by {
            if i < s.len() - 1 {
                lemma_to_hex_len(v / 16, (k - 1) as nat);
                assert(s[i] == to_hex(v / 16, (k - 1) as nat)[i]);
            } else {
                assert(s[i] == hex_char((v % 16) as int));
            }
        }
    }
}

proof fn lemma_pow16_pos(k: nat)
    ensures
        pow16(k) >= 1,
    decreases k,
{
    if k > 0 {
        lemma_pow16_pos((k - 1) as nat);
    }
}

/// The value of 16^32, the bound of a 32-digit string: one above `u128::MAX`.
pub proof fn lemma_pow16_32()
    ensures
        pow16(32) == 0x1_0000_0000_0000_0000_0000_0000_0000_0000,
{
    reveal_with_fuel(pow16, 33);
}

/// Reading back the digits of `v` yields `v` modulo the digit capacity.
proof fn lemma_from_to_hex(v: nat, k: nat)
    ensures
        from_hex(to_hex(v, k)) == v % pow16(k),
    decreases k,
{
    lemma_pow16_pos(k);
    if k == 0 {
        lemma_small_mod(0, 1);
        assert(v % pow16(0) == v % 1);
        lemma_fundamental_div_mod(v as int, 1);
        assert(v as int == 1 * (v as int / 1) + (v as int) % 1);
        assert((v as int) % 1 == 0) by {
            lemma_fundamental_div_mod_converse_mod(v as int, 1, v as int, 0);
        }
    } else {
        let p = pow16((k - 1) as nat) as int;
        lemma_pow16_pos((k - 1) as nat);
        lemma_from_to_hex(v / 16, (k - 1) as nat);
        let s = to_hex(v, k);
        lemma_to_hex_len(v / 16, (k - 1) as nat);
        assert(s.drop_last() =~= to_hex(v / 16, (k - 1) as nat));
        assert(s.last() == hex_char((v % 16) as int));
        assert(hex_val(hex_char((v % 16) as int)) == v % 16);
        let vi = v as int;
        let r = (vi / 16) % p;
        let q = (vi / 16) / p;
        lemma_fundamental_div_mod(vi, 16);
        lemma_fundamental_div_mod(vi / 16, p);
        assert(vi == 16 * (p * q + r) + vi % 16);
        assert(vi == q * (16 * p) + (16 * r + vi % 16)) by (nonlinear_arith)
            requires
                vi == 16 * (p * q + r) + vi % 16,
        ;
        assert(0 <= r < p);
        assert(0 <= 16 * r + vi % 16 < 16 * p) by (nonlinear_arith)
            requires
                0 <= r < p,
                0 <= vi % 16 < 16,
        ;
        lemma_fundamental_div_mod_converse_mod(vi, 16 * p, q, 16 * r + vi % 16);
        assert(vi % (16 * p) == 16 * r + vi % 16);
        assert(pow16(k) == 16 * p);
        assert(from_hex(s) == r * 16 + v % 16);
    }
}

/// The canonical text of an identifier parses back to it: text form and
/// parse are mutually inverse on canonical forms.
pub proof fn lemma_uuid_round_trip(v: u128)
    ensures
        uuid_parse_spec(uuid_str(v)) == Some(v),
{
    let h = to_hex(v as nat, 32);
    lemma_to_hex_len(v as nat, 32);
    lemma_to_hex_all_hex(v as nat, 32);
    let u = uuid_str(v);
    assert(u.len() == 36);
    assert(u[8] == '-' && u[13] == '-' && u[18] == '-' && u[23] == '-');
    assert(strip_dashes(u) =~= h);
    lemma_from_to_hex(v as nat, 32);
    lemma_pow16_32();
    lemma_small_mod(v as nat, pow16(32));
    assert(from_hex(strip_dashes(u)) == v as nat);
}

/// Renders an identifier in its canonical text form.
pub fn format_id(v: u128) -> (r: String)
    ensures
        r@ == uuid_str(v),
{
    let h = to_hex_exec(v, 32);
    proof {
        lemma_to_hex_len(v as nat, 32);
    }
    let mut r = h.as_str().substring_char(0, 8).to_owned();
    r.append("-");
    r.append(h.as_str().substring_char(8, 12));
    r.append("-");
    r.append(h.as_str().substring_char(12, 16));
    r.append("-");
    r.append(h.as_str().substring_char(16, 20));
    r.append("-");
    r.append(h.as_str().substring_char(20, 32));
    proof {
        reveal_strlit("-");
        assert("-"@ =~= seq!['-']);
        assert(r@ =~= uuid_str(v));
    }
    r
}

fn to_hex_exec(v: u128, k: usize) -> (r: String)
    ensures
        r@ == to_hex(v as nat, k as nat),
    decreases k,
{
    if k == 0 {
        String::new()
    } else {
        let mut s = to_hex_exec(v / 16, k - 1);
        push_char(&mut s, hex_char_exec((v % 16) as u8));
        s
    }
}

/// Parses the canonical hyphenated layout back to an identifier; any other
/// shape is refused.
pub fn parse_id(s: &str) -> (r: Option<u128>)
    ensures
        r == uuid_parse_spec(s@),
{
    let n = s.unicode_len();
    if n != 36 {
        return None;
    }
    if s.get_char(8) != '-' || s.get_char(13) != '-' || s.get_char(18) != '-' || s.get_char(23)
        != '-' {
        return None;
    }
    let mut t = s.substring_char(0, 8).to_owned();
    t.append(s.substring_char(9, 13));
    t.append(s.substring_char(14, 18));
    t.append(s.substring_char(19, 23));
    t.append(s.substring_char(24, 36));
    proof {
        assert(t@ =~= strip_dashes(s@));
    }
    let mut x: u128 = 0;
    let mut i: usize = 0;
    while i < 32
        invariant
            i <= 32,
            t@.len() == 32,
            t@ == strip_dashes(s@),
            all_hex(t@.take(i as int)),
            x as nat == from_hex(t@.take(i as int)),
            (x as nat) < pow16(i as nat),
        decreases 32 - i,
    {
        let c = t.as_str().get_char(i);
        let v = hex_val_exec(c);
        if v >= 16 {
            proof {
                assert(!is_hex(t@[i as int]));
                assert(!all_hex(strip_dashes(s@)));
            }
            return None;
        }
        proof {
            assert(t@.take((i + 1) as int).drop_last() =~= t@.take(i as int));
            assert(t@.take((i + 1) as int).last() == t@[i as int]);
            lemma_pow16_32();
            lemma_pow16_monotone((i + 1) as nat, 32);
            assert(pow16((i + 1) as nat) == 16 * pow16(i as nat));
            assert((x as nat) * 16 + (v as nat) < pow16((i + 1) as nat)) by (nonlinear_arith)
                requires
                    (x as nat) < pow16(i as nat),
                    (v as nat) < 16,
                    pow16((i + 1) as nat) == 16 * pow16(i as nat),
            ;
        }
        x = x * 16 + (v as u128);
        i += 1;
    }
    proof {
        assert(t@.take(32) =~= t@);
        lemma_pow16_32();
    }
    Some(x)
}

proof fn lemma_pow16_monotone(a: nat, b: nat)
    requires
        a <= b,
    ensures
        pow16(a) <= pow16(b),
    decreases b,
{
    lemma_pow16_pos(a);
    if a < b {
        lemma_pow16_monotone(a, (b - 1) as nat);
        lemma_pow16_pos((b - 1) as nat);
    }
}

} // verus!
