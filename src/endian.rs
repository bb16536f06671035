//! Byte order: the directive a schema names, and the decoding of integers.
use vstd::prelude::*;

verus! {

/// The byte order a schema asks for.
#[derive(Clone, Copy, Debug, PartialEq, Eq, Structural)]
pub enum Endian {
    Big,
    Little,
    /// The byte order of the machine the parse runs on.
    Native,
}

/// A byte order with `Native` resolved to one of the two.
#[derive(Clone, Copy, Debug, PartialEq, Eq, Structural)]
pub enum ByteOrder {
    Big,
    Little,
}

/// The value of `s` read most significant byte first.
pub open spec fn be_value(s: Seq<u8>) -> nat
    decreases s.len(),
{
    if s.len() == 0 {
        0
    } else {
        be_value(s.drop_last()) * 256 + s.last() as nat
    }
}

/// The value of `s` read least significant byte first.
pub open spec fn le_value(s: Seq<u8>) -> nat
    decreases s.len(),
{
    if s.len() == 0 {
        0
    } else {
        s[0] as nat + 256 * le_value(s.drop_first())
    }
}

pub open spec fn decode(order: ByteOrder, s: Seq<u8>) -> nat {
    match order {
        ByteOrder::Big => be_value(s),
        ByteOrder::Little => le_value(s),
    }
}

pub open spec fn pow256(n: nat) -> nat
    decreases n,
{
    if n == 0 {
        1
    } else {
        256 * pow256((n - 1) as nat)
    }
}

proof fn lemma_pow256_mono(a: nat, b: nat)
    requires
        a <= b,
    ensures
        pow256(a) <= pow256(b),
    decreases b,
{
    if a < b {
        lemma_pow256_mono(a, (b - 1) as nat);
    }
}

proof fn lemma_be_bound(s: Seq<u8>)
    ensures
        be_value(s) < pow256(s.len()),
    decreases s.len(),
{
    if s.len() > 0 {
        lemma_be_bound(s.drop_last());
        let p = pow256((s.len() - 1) as nat);
        let v = be_value(s.drop_last());
        assert(v * 256 + s.last() < p * 256) by (nonlinear_arith)
            requires
                v < p,
                s.last() < 256,
        ;
    }
}

proof fn lemma_le_bound(s: Seq<u8>)
    ensures
        le_value(s) < pow256(s.len()),
    decreases s.len(),
{
    if s.len() > 0 {
        lemma_le_bound(s.drop_first());
        let p = pow256((s.len() - 1) as nat);
        let v = le_value(s.drop_first());
        assert(s[0] + 256 * v < 256 * p) by (nonlinear_arith)
            requires
                v < p,
                s[0] < 256,
        ;
    }
}

/// Decodes an unsigned integer of up to eight bytes in the given byte order.
pub fn decode_uint(order: ByteOrder, b: &Vec<u8>) -> (r: u64)
    requires
        b@.len() <= 8,
    ensures
        r as nat == decode(order, b@),
{
    proof {
        lemma_pow256_mono(b@.len(), 8);
        reveal_with_fuel(pow256, 9);
        assert(pow256(8) == 0x1_0000_0000_0000_0000);
    }
    let n = b.len();
    let mut acc: u64 = 0;
    match order {
        ByteOrder::Big => {
            let mut i: usize = 0;
            while i < n
                invariant
                    n == b@.len() <= 8,
                    i <= n,
                    acc as nat == be_value(b@.subrange(0, i as int)),
                    pow256(8) == 0x1_0000_0000_0000_0000,
                decreases n - i,
            {
                proof {
                    let s = b@.subrange(0, i as int + 1);
                    assert(s.drop_last() =~= b@.subrange(0, i as int));
                    lemma_be_bound(s);
                    lemma_pow256_mono(s.len(), 8);
                    assert(be_value(s) == acc * 256 + b@[i as int]);
                }
                acc = acc * 256 + b[i] as u64;
                i = i + 1;
            }
            assert(b@.subrange(0, n as int) =~= b@);
        },
        ByteOrder::Little => {
            let mut i: usize = n;
            while i > 0
                invariant
                    n == b@.len() <= 8,
                    i <= n,
                    acc as nat == le_value(b@.subrange(i as int, n as int)),
                    pow256(8) == 0x1_0000_0000_0000_0000,
                decreases i,
            {
                proof {
                    let s = b@.subrange(i - 1, n as int);
                    assert(s.drop_first() =~= b@.subrange(i as int, n as int));
                    lemma_le_bound(s);
                    lemma_pow256_mono(s.len(), 8);
                    assert(le_value(s) == b@[i - 1] + 256 * acc);
                }
                acc = b[i - 1] as u64 + 256 * acc;
                i = i - 1;
            }
            assert(b@.subrange(0, n as int) =~= b@);
        },
    }
    acc
}

proof fn lemma_le_push(s: Seq<u8>, x: u8)
    ensures
        le_value(s.push(x)) == le_value(s) + pow256(s.len()) * x,
    decreases s.len(),
{
    if s.len() > 0 {
        lemma_le_push(s.drop_first(), x);
        assert(s.push(x).drop_first() =~= s.drop_first().push(x));
        let a = le_value(s.drop_first());
        let p = pow256((s.len() - 1) as nat);
        assert(s.push(x)[0] == s[0]);
        assert(le_value(s.push(x)) == s[0] + 256 * (a + p * x));
        assert(pow256(s.len()) == 256 * p);
        assert(256 * (a + p * x) == 256 * a + (256 * p) * x) by (nonlinear_arith);
    } else {
        assert(s.push(x).drop_first() =~= Seq::<u8>::empty());
        assert(le_value(Seq::<u8>::empty()) == 0);
        assert(s.push(x)[0] == x);
        assert(pow256(0) == 1);
    }
}

proof fn lemma_be_prepend(s: Seq<u8>, x: u8)
    ensures
        be_value(seq![x] + s) == x * pow256(s.len()) + be_value(s),
    decreases s.len(),
{
    if s.len() > 0 {
        lemma_be_prepend(s.drop_last(), x);
        assert((seq![x] + s).drop_last() =~= seq![x] + s.drop_last());
        let b = be_value(s.drop_last());
        let p = pow256((s.len() - 1) as nat);
        assert((seq![x] + s).last() == s.last());
        assert(be_value(seq![x] + s) == (x * p + b) * 256 + s.last());
        assert(pow256(s.len()) == 256 * p);
        assert((x * p + b) * 256 == x * (256 * p) + b * 256) by (nonlinear_arith);
    } else {
        assert((seq![x] + s).drop_last() =~= Seq::<u8>::empty());
        assert(be_value(Seq::<u8>::empty()) == 0);
        assert((seq![x] + s).last() == x);
        assert(pow256(0) == 1);
    }
}

/// The `n` bytes that hold `value` in the given byte order: how a numeric
/// magic literal becomes the pattern to compare.
pub fn encode_uint(order: ByteOrder, value: u64, n: usize) -> (r: Vec<u8>)
    requires
        n <= 8,
        value < pow256(n as nat),
    ensures
        r@.len() == n,
        decode(order, r@) == value,
{
    let mut out: Vec<u8> = Vec::new();
    let mut rest: u64 = value;
    let mut k: usize = 0;
    assert(decode(order, out@) == 0 && pow256(0) == 1);
    while k < n
        invariant
            k <= n <= 8,
            out@.len() == k,
            value == decode(order, out@) + pow256(k as nat) * rest,
        decreases n - k,
    {
        let byte = (rest % 256) as u8;
        let ghost prev = out@;
        proof {
            if order == ByteOrder::Big {
                lemma_be_prepend(out@, byte);
            } else {
                lemma_le_push(out@, byte);
            }
            let p = pow256(k as nat);
            assert(pow256(k as nat + 1) == 256 * p);
            assert(p * rest == p * byte + (256 * p) * (rest / 256)) by (nonlinear_arith)
                requires
                    byte == rest % 256,
            ;
        }
        match order {
            ByteOrder::Big => out.insert(0, byte),
            ByteOrder::Little => out.push(byte),
        }
        proof {
            if order == ByteOrder::Big {
                assert(out@ =~= seq![byte] + prev);
            }
        }
        rest = rest / 256;
        k = k + 1;
    }
    proof {
        assert(rest == 0) by (nonlinear_arith)
            requires
                value == decode(order, out@) + pow256(n as nat) * rest,
                value < pow256(n as nat),
        ;
    }
    out
}

/// Relies on `u16::from_ne_bytes`: the bytes read in the machine's byte
/// order, which is one of the two.
#[verifier::external_body]
fn native_u16(b: [u8; 2]) -> (r: u16)
    ensures
        r == b@[0] * 256 + b@[1] || r == b@[1] * 256 + b@[0],
{
    u16::from_ne_bytes(b)
}

impl Endian {
    /// The byte order this directive stands for on this machine.
    pub fn resolve(self) -> (r: ByteOrder)
        ensures
            self == Endian::Big ==> r == ByteOrder::Big,
            self == Endian::Little ==> r == ByteOrder::Little,
    {
        match self {
            Endian::Big => ByteOrder::Big,
            Endian::Little => ByteOrder::Little,
            Endian::Native => {
                if native_u16([1u8, 0u8]) == 256 {
                    ByteOrder::Big
                } else {
                    ByteOrder::Little
                }
            },
        }
    }
}

} // verus!
