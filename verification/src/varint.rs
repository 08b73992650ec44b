use vstd::prelude::*;

verus! {

/// 128 to the power `n`: how many values `n` seven-bit groups can carry.
pub open spec fn pow128(n: nat) -> nat
    decreases n,
{
    if n == 0 {
        1
    } else {
        128 * pow128((n - 1) as nat)
    }
}

pub proof fn lemma_pow128_le(a: nat, b: nat)
    requires
        a <= b,
    ensures
        pow128(a) <= pow128(b),
    decreases b,
{
    if a < b {
        lemma_pow128_le(a, (b - 1) as nat);
    }
}

pub proof fn lemma_pow128_concrete()
    ensures
        pow128(1) == 128,
        pow128(7) == 0x2_0000_0000_0000,
        pow128(8) == 0x100_0000_0000_0000,
{
    reveal_with_fuel(pow128, 9);
}

/// What a decode of at most `fuel` bytes takes from the front of `s`: the
/// value and the number of bytes consumed. `None` when `s` ends while the
/// last byte seen still had its continuation bit set and fewer than `fuel`
/// bytes were available. The final permitted byte contributes its low seven
/// bits whether or not its continuation bit is set.
pub open spec fn decode_rec(s: Seq<u8>, fuel: nat) -> Option<(int, int)>
    decreases fuel,
{
    if s.len() == 0 {
        None
    } else if s[0] < 128 {
        Some((s[0] as int, 1))
    } else if fuel <= 1 {
        Some((s[0] - 128, 1))
    } else {
        match decode_rec(s.drop_first(), (fuel - 1) as nat) {
            Some((v, n)) => Some((s[0] - 128 + 128 * v, n + 1)),
            None => None,
        }
    }
}

/// The protocol's variable-length integer decode: at most eight groups.
pub open spec fn decode_spec(s: Seq<u8>) -> Option<(int, int)> {
    decode_rec(s, 8)
}

pub proof fn lemma_decode_bound(s: Seq<u8>, fuel: nat)
    requires
        1 <= fuel,
    ensures
        decode_rec(s, fuel) matches Some((v, n)) ==> 0 <= v < pow128(fuel) && 1 <= n <= fuel
            && n <= s.len(),
    decreases fuel,
{
    lemma_pow128_concrete();
    lemma_pow128_le(1, fuel);
    if s.len() == 0 {
    } else if s[0] < 128 {
    } else if fuel <= 1 {
    } else {
        lemma_decode_bound(s.drop_first(), (fuel - 1) as nat);
        assert(pow128(fuel) == 128 * pow128((fuel - 1) as nat));
    }
}

pub proof fn lemma_decode_none(s: Seq<u8>, fuel: nat)
    requires
        1 <= fuel,
        decode_rec(s, fuel) is None,
    ensures
        s.len() < fuel,
    decreases fuel,
{
    if s.len() == 0 {
    } else if s[0] < 128 {
    } else if fuel <= 1 {
    } else {
        lemma_decode_none(s.drop_first(), (fuel - 1) as nat);
    }
}

pub proof fn lemma_decode_take(s: Seq<u8>, fuel: nat)
    requires
        1 <= fuel <= s.len(),
    ensures
        decode_rec(s, fuel) is Some,
        decode_rec(s, fuel) == decode_rec(s.take(fuel as int), fuel),
    decreases fuel,
{
    let t = s.take(fuel as int);
    assert(t[0] == s[0]);
    if s[0] < 128 {
    } else if fuel <= 1 {
    } else {
        lemma_decode_take(s.drop_first(), (fuel - 1) as nat);
        assert(s.drop_first().take((fuel - 1) as int) =~= t.drop_first());
    }
}

/// Law: a decode never consumes more than eight bytes. With eight bytes
/// available it always yields a value, whatever the continuation bits say,
/// and bytes past the eighth play no part in the result.
pub proof fn lemma_varint_truncation(s: Seq<u8>)
    requires
        s.len() >= 8,
    ensures
        decode_spec(s) is Some,
        1 <= decode_spec(s)->Some_0.1 <= 8,
        decode_spec(s) == decode_spec(s.take(8)),
{
    lemma_decode_take(s, 8);
    lemma_decode_bound(s, 8);
}

/// The protocol encoding of `x`: seven-bit groups, least significant first,
/// the high bit of a byte marking that another group follows.
pub open spec fn encode_spec(x: nat) -> Seq<u8>
    decreases x,
{
    if x < 128 {
        seq![x as u8]
    } else {
        seq![(x % 128 + 128) as u8] + encode_spec(x / 128)
    }
}

proof fn lemma_div128_bound(x: nat, k: nat)
    requires
        x < 128 * k,
    ensures
        x / 128 < k,
{
    assert(x / 128 < k) by (nonlinear_arith)
        requires x < 128 * k;
}

pub proof fn lemma_encode_len(x: nat, fuel: nat)
    requires
        1 <= fuel,
        x < pow128(fuel),
    ensures
        1 <= encode_spec(x).len() <= fuel,
    decreases fuel,
{
    if x >= 128 {
        lemma_pow128_concrete();
        lemma_pow128_le(1, fuel);
        if fuel == 1 {
            assert(false);
        } else {
            assert(pow128(fuel) == 128 * pow128((fuel - 1) as nat));
            lemma_div128_bound(x, pow128((fuel - 1) as nat));
            lemma_encode_len(x / 128, (fuel - 1) as nat);
        }
    }
}

proof fn lemma_round_trip_rec(x: nat, rest: Seq<u8>, fuel: nat)
    requires
        1 <= fuel,
        x < pow128(fuel),
    ensures
        decode_rec(encode_spec(x) + rest, fuel) == Some((x as int, encode_spec(x).len() as int)),
    decreases fuel,
{
    let e = encode_spec(x);
    let s = e + rest;
    if x < 128 {
        assert(s[0] == x as u8);
        assert(decode_rec(s, fuel) == Some((x as int, 1int)));
    } else {
        lemma_pow128_concrete();
        lemma_pow128_le(1, fuel);
        assert(pow128(fuel) == 128 * pow128((fuel - 1) as nat));
        assert(fuel >= 2);
        let b = (x % 128 + 128) as u8;
        assert(s[0] == b);
        assert(b >= 128);
        lemma_div128_bound(x, pow128((fuel - 1) as nat));
        lemma_round_trip_rec(x / 128, rest, (fuel - 1) as nat);
        assert(s.drop_first() =~= encode_spec(x / 128) + rest);
        let tail = decode_rec(s.drop_first(), (fuel - 1) as nat);
        assert(tail == Some(((x / 128) as int, encode_spec(x / 128).len() as int)));
        assert(s[0] - 128 + 128 * ((x / 128) as int) == x as int);
    }
}

/// Law: decoding is a left inverse of encoding. For every value that fits in
/// at most eight groups, decoding its encoding — followed by any further
/// bytes — yields the value back and consumes exactly the encoded bytes.
pub proof fn lemma_varint_round_trip(x: nat, rest: Seq<u8>)
    requires
        x < 0x100_0000_0000_0000,
    ensures
        decode_spec(encode_spec(x) + rest) == Some((x as int, encode_spec(x).len() as int)),
        1 <= encode_spec(x).len() <= 8,
{
    lemma_pow128_concrete();
    lemma_round_trip_rec(x, rest, 8);
    lemma_encode_len(x, 8);
}

/// `r` is exactly what `decode_rec(s, fuel)` prescribes.
pub open spec fn matches_decode(s: Seq<u8>, fuel: nat, r: Option<(i64, usize)>) -> bool {
    match r {
        Some((v, n)) => decode_rec(s, fuel) == Some((v as int, n as int)),
        None => decode_rec(s, fuel) is None,
    }
}

fn decode_from(bytes: &[u8], pos: usize, fuel: u8) -> (r: Option<(i64, usize)>)
    requires
        pos <= bytes@.len(),
        1 <= fuel <= 8,
    ensures
        matches_decode(bytes@.skip(pos as int), fuel as nat, r),
        r matches Some((v, n)) ==> 0 <= v < pow128(fuel as nat) && 1 <= n <= fuel as usize
            && pos + n <= bytes@.len(),
    decreases fuel,
{
    let ghost s = bytes@.skip(pos as int);
    proof {
        lemma_pow128_concrete();
        lemma_pow128_le(1, fuel as nat);
    }
    if pos == bytes.len() {
        assert(s.len() == 0);
        return None;
    }
    let b = bytes[pos];
    assert(s[0] == b);
    if b < 128 {
        Some((b as i64, 1))
    } else if fuel == 1 {
        Some((b as i64 - 128, 1))
    } else {
        proof {
            assert(s.drop_first() =~= bytes@.skip(pos as int + 1));
        }
        match decode_from(bytes, pos + 1, fuel - 1) {
            None => None,
            Some((v, n)) => {
                proof {
                    lemma_pow128_le((fuel - 1) as nat, 7);
                    assert(pow128(fuel as nat) == 128 * pow128((fuel - 1) as nat));
                }
                Some((b as i64 - 128 + 128 * v, n + 1))
            },
        }
    }
}

/// Decode one variable-length integer starting at `pos`, consuming at most
/// eight bytes. Returns the value and the number of bytes consumed, or
/// `None` when the data ends before the integer does.
pub fn decode_varint_at(bytes: &[u8], pos: usize) -> (r: Option<(i64, usize)>)
    requires
        pos <= bytes@.len(),
    ensures
        matches_decode(bytes@.skip(pos as int), 8, r),
        r matches Some((v, n)) ==> 0 <= v < 0x100_0000_0000_0000 && 1 <= n <= 8
            && pos + n <= bytes@.len(),
        r is None ==> bytes@.len() - pos < 8,
    {
    let r = decode_from(bytes, pos, 8);
    proof {
        lemma_pow128_concrete();
        if r is None {
            lemma_decode_none(bytes@.skip(pos as int), 8);
        }
    }
    r
}

/// Decode one variable-length integer from the front of `bytes`.
pub fn decode_varint(bytes: &[u8]) -> (r: Option<(i64, usize)>)
    ensures
        matches_decode(bytes@, 8, r),
        r matches Some((v, n)) ==> 0 <= v < 0x100_0000_0000_0000 && 1 <= n <= 8
            && n <= bytes@.len(),
        r is None ==> bytes@.len() < 8,
    {
    let r = decode_varint_at(bytes, 0);
    proof {
        assert(bytes@.skip(0) =~= bytes@);
    }
    r
}

/// Encode a non-negative value that fits in at most eight groups.
pub fn encode_varint(x: i64) -> (r: Vec<u8>)
    requires
        0 <= x < 0x100_0000_0000_0000,
    ensures
        r@ == encode_spec(x as nat),
        1 <= r@.len() <= 8,
    decreases x,
{
    proof {
        lemma_pow128_concrete();
        lemma_encode_len(x as nat, 8);
    }
    if x < 128 {
        let mut v: Vec<u8> = Vec::new();
        v.push(x as u8);
        proof {
            assert(v@ =~= encode_spec(x as nat));
        }
        v
    } else {
        let mut v: Vec<u8> = Vec::new();
        v.push((x % 128 + 128) as u8);
        let mut tail = encode_varint(x / 128);
        v.append(&mut tail);
        proof {
            assert(v@ =~= encode_spec(x as nat));
        }
        v
    }
}

} // verus!
