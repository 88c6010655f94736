//! Numbers on the wire: big-endian bytes and two's complement.
use vstd::arithmetic::power::pow;
use vstd::prelude::*;

verus! {

/// The low `width` bytes of `n`, high byte first.
pub open spec fn be_bytes(n: nat, width: nat) -> Seq<u8>
    decreases width,
{
    if width == 0 {
        Seq::empty()
    } else {
        be_bytes(n / 256, (width - 1) as nat).push((n % 256) as u8)
    }
}

/// The number that the bytes spell, high byte first.
pub open spec fn be_value(s: Seq<u8>) -> nat
    decreases s.len(),
{
    if s.len() == 0 {
        0
    } else {
        be_value(s.drop_last()) * 256 + s.last() as nat
    }
}

/// The two's complement of a 32-bit number, read as a number without sign.
pub open spec fn i32_bits(n: i32) -> nat {
    if n >= 0 {
        n as nat
    } else {
        (n + 0x1_0000_0000) as nat
    }
}

/// The 32-bit number whose two's complement the bytes spell, high byte first.
pub open spec fn be_i32(s: Seq<u8>) -> i32 {
    if be_value(s) < 0x8000_0000 {
        be_value(s) as i32
    } else {
        (be_value(s) - 0x1_0000_0000) as i32
    }
}

/// `be_bytes` gives as many bytes as asked for.
pub broadcast proof fn lemma_be_bytes_len(n: nat, width: nat)
    ensures
        #[trigger] be_bytes(n, width).len() == width,
    decreases width,
{
    if width > 0 {
        lemma_be_bytes_len(n / 256, (width - 1) as nat);
    }
}

/// Reading what was written gives the number back, if it fits the width.
pub proof fn lemma_be_value_of_bytes(n: nat, width: nat)
    requires
        n < pow(256, width),
    ensures
        be_value(be_bytes(n, width)) == n,
    decreases width,
{
    reveal(pow);
    if width > 0 {
        let upper = pow(256, (width - 1) as nat);
        assert(n / 256 < upper) by (nonlinear_arith)
            requires
                n < 256 * upper,
        ;
        lemma_be_value_of_bytes(n / 256, (width - 1) as nat);
        let s = be_bytes(n, width);
        assert(s.drop_last() =~= be_bytes(n / 256, (width - 1) as nat));
    }
}

/// Writing what was read gives the bytes back.
pub proof fn lemma_be_bytes_of_value(s: Seq<u8>)
    ensures
        be_bytes(be_value(s), s.len()) == s,
    decreases s.len(),
{
    if s.len() > 0 {
        lemma_be_bytes_of_value(s.drop_last());
        assert(be_value(s) / 256 == be_value(s.drop_last()));
        assert(be_value(s) % 256 == s.last());
        assert(s.drop_last().push(s.last()) =~= s);
    } else {
        assert(be_bytes(0, 0) =~= s);
    }
}

/// `k` bytes spell a number below 256 to the power of `k`.
pub proof fn lemma_be_value_bound(s: Seq<u8>)
    ensures
        be_value(s) < pow(256, s.len()),
    decreases s.len(),
{
    reveal(pow);
    if s.len() > 0 {
        lemma_be_value_bound(s.drop_last());
        let upper = pow(256, (s.len() - 1) as nat);
        assert(be_value(s.drop_last()) * 256 + 255 < 256 * upper) by (nonlinear_arith)
            requires
                be_value(s.drop_last()) < upper,
        ;
    }
}

/// The widths on the wire, in numbers.
pub proof fn lemma_wire_widths()
    ensures
        pow(256, 2) == 0x1_0000,
        pow(256, 4) == 0x1_0000_0000,
{
    reveal_with_fuel(pow, 5);
}

/// Reading a two's complement that was written gives the number back.
pub proof fn lemma_be_i32_of_bytes(n: i32)
    ensures
        be_i32(be_bytes(i32_bits(n), 4)) == n,
{
    lemma_wire_widths();
    lemma_be_value_of_bytes(i32_bits(n), 4);
}

/// Writing a two's complement that was read gives the bytes back.
pub proof fn lemma_be_bytes_of_i32(s: Seq<u8>)
    requires
        s.len() == 4,
    ensures
        be_bytes(i32_bits(be_i32(s)), 4) == s,
{
    lemma_wire_widths();
    lemma_be_value_bound(s);
    lemma_be_bytes_of_value(s);
}

/// The bytes on the wire, high byte first: each byte counts 256 times what the
/// next one does.
pub proof fn law_high_byte_first(n: nat)
    ensures
        n < 0x1_0000 ==> be_bytes(n, 2).len() == 2 && be_bytes(n, 2)[0] * 0x100 + be_bytes(n, 2)[1]
            == n,
        n < 0x1_0000_0000 ==> be_bytes(n, 4).len() == 4 && be_bytes(n, 4)[0] * 0x100_0000
            + be_bytes(n, 4)[1] * 0x1_0000 + be_bytes(n, 4)[2] * 0x100 + be_bytes(n, 4)[3] == n,
{
    reveal_with_fuel(be_bytes, 5);
}

/// Reading bytes, high byte first.
pub proof fn law_high_byte_is_read_first(s: Seq<u8>)
    ensures
        s.len() == 2 ==> be_value(s) == s[0] * 0x100 + s[1],
        s.len() == 4 ==> be_value(s) == s[0] * 0x100_0000 + s[1] * 0x1_0000 + s[2] * 0x100 + s[3],
{
    reveal_with_fuel(be_value, 5);
}

/// A negative number and its two's complement are 2 to the power of 32 apart.
pub proof fn law_twos_complement(n: i32)
    ensures
        n >= 0 ==> i32_bits(n) == n,
        n < 0 ==> i32_bits(n) - n == 0x1_0000_0000,
{
}

} // verus!
