//! Utility passes shared by decoding and encoding.

use vstd::prelude::*;

use crate::ByteOrder;

verus! {

/// The group width, in bytes, that a bit depth normalizes over.
pub open spec fn group_width(bit_depth: u8) -> nat {
    if bit_depth <= 8 {
        1
    } else if bit_depth <= 16 {
        2
    } else if bit_depth <= 32 {
        4
    } else {
        8
    }
}

/// The buffer with each complete `w`-byte group brought into canonical
/// (least-significant-byte-first) order: groups read under a big-endian
/// order are reversed, anything else stays; a trailing partial group is
/// left untouched.
pub open spec fn normalized(s: Seq<u8>, order: ByteOrder, w: nat) -> Seq<u8> {
    match order {
        ByteOrder::LittleEndian => s,
        ByteOrder::BigEndian => Seq::new(
            s.len(),
            |i: int|
                if i < (s.len() as int / w as int) * w {
                    s[(i / w as int) * w + (w - 1 - (i % w as int))]
                } else {
                    s[i]
                },
        ),
    }
}

/// Bring a buffer of fixed-width groups, read under the given byte order,
/// into the crate's canonical order. If the groups were read
/// least-significant-byte first the buffer is already canonical and nothing
/// changes.
pub fn fix_endianness(buf: &mut Vec<u8>, byte_order: ByteOrder, bit_depth: u8)
    ensures
        final(buf)@ == normalized(old(buf)@, byte_order, group_width(bit_depth)),
{
    let w: usize = if bit_depth <= 8 {
        1
    } else if bit_depth <= 16 {
        2
    } else if bit_depth <= 32 {
        4
    } else {
        8
    };
    match byte_order {
        ByteOrder::LittleEndian => (),
        ByteOrder::BigEndian => {
            let len = buf.len();
            let groups = len / w;
            let mut out: Vec<u8> = Vec::new();
            let mut g: usize = 0;
            while g < groups
                invariant
                    g <= groups,
                    groups == buf@.len() as int / w as int,
                    w == group_width(bit_depth),
                    len == buf@.len(),
                    out@.len() == g * w,
                    forall|j: int|
                        0 <= j < out@.len() ==> out@[j] == normalized(
                            buf@,
                            ByteOrder::BigEndian,
                            w as nat,
                        )[j],
                decreases groups - g,
            {
                proof {
                    assert((g + 1) * w <= groups * w && groups * w <= buf@.len() && g * w + w == (g
                        + 1) * w) by (nonlinear_arith)
                        requires
                            g < groups,
                            groups == buf@.len() as int / w as int,
                            w >= 1,
                    ;
                }
                let mut k: usize = 0;
                while k < w
                    invariant
                        k <= w,
                        g < groups,
                        groups == buf@.len() as int / w as int,
                        w == group_width(bit_depth),
                        len == buf@.len(),
                        g * w + w <= buf@.len(),
                        out@.len() == g * w + k,
                        forall|j: int|
                            0 <= j < out@.len() ==> out@[j] == normalized(
                                buf@,
                                ByteOrder::BigEndian,
                                w as nat,
                            )[j],
                    decreases w - k,
                {
                    let src: usize = g * w + (w - 1 - k);
                    out.push(buf[src]);
                    proof {
                        let i = g * w + k;
                        vstd::arithmetic::div_mod::lemma_fundamental_div_mod_converse(
                            i as int,
                            w as int,
                            g as int,
                            k as int,
                        );
                        assert(i / w as int == g && i % w as int == k);
                        assert((i as int / w as int) * w + (w - 1 - (i as int % w as int))
                            == src);
                        assert(i < (buf@.len() as int / w as int) * w) by (nonlinear_arith)
                            requires
                                i < g * w + w,
                                g * w + w == (g + 1) * w,
                                g + 1 <= groups,
                                groups == buf@.len() as int / w as int,
                                w >= 1,
                                (g + 1) * w <= groups * w,
                        ;
                        assert(out@[i as int] == normalized(
                            buf@,
                            ByteOrder::BigEndian,
                            w as nat,
                        )[i as int]);
                    }
                    k = k + 1;
                }
                g = g + 1;
            }
            let mut t: usize = groups * w;
            proof {
                assert(groups * w <= buf@.len()) by (nonlinear_arith)
                    requires
                        groups == buf@.len() as int / w as int,
                        w >= 1,
                ;
            }
            while t < len
                invariant
                    groups * w <= t <= len,
                    groups == buf@.len() as int / w as int,
                    w == group_width(bit_depth),
                    len == buf@.len(),
                    out@.len() == t,
                    forall|j: int|
                        0 <= j < out@.len() ==> out@[j] == normalized(
                            buf@,
                            ByteOrder::BigEndian,
                            w as nat,
                        )[j],
                decreases len - t,
            {
                out.push(buf[t]);
                proof {
                    assert(t >= (buf@.len() as int / w as int) * w);
                    assert(out@[t as int] == normalized(
                        buf@,
                        ByteOrder::BigEndian,
                        w as nat,
                    )[t as int]);
                }
                t = t + 1;
            }
            proof {
                assert(out@ =~= normalized(buf@, ByteOrder::BigEndian, w as nat));
            }
            *buf = out;
        },
    }
}

} // verus!
