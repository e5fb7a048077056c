//! Hexadecimal rendering of byte sequences.
//!
//! Hash-shaped values are displayed in reversed byte order, the usual
//! convention for block and transaction hashes: the last stored byte is
//! printed first.

use vstd::prelude::*;

verus! {

/// The lower-case hexadecimal digit character for `d` in `0 ..= 15`.
pub open spec fn hex_char(d: int) -> char {
    if d < 10 {
        crate::num::digit_char(d)
    } else if d == 10 {
        'a'
    } else if d == 11 {
        'b'
    } else if d == 12 {
        'c'
    } else if d == 13 {
        'd'
    } else if d == 14 {
        'e'
    } else {
        'f'
    }
}

/// The two hexadecimal digits of one byte, high nibble first.
pub open spec fn byte_hex(b: u8) -> Seq<char> {
    seq![hex_char((b >> 4) as int), hex_char((b & 0x0F) as int)]
}

/// Hexadecimal rendering of `bs` in reversed byte order: the last byte's two
/// digits come first.
pub open spec fn rev_hex_seq(bs: Seq<u8>) -> Seq<char>
    decreases bs.len(),
{
    if bs.len() == 0 {
        Seq::empty()
    } else {
        byte_hex(bs.last()) + rev_hex_seq(bs.drop_last())
    }
}

/// A lower-case hexadecimal digit character.
pub open spec fn is_hex_digit(c: char) -> bool {
    ('0' <= c && c <= '9') || ('a' <= c && c <= 'f')
}

/// The reversed-order rendering has two digits per byte, all hexadecimal.
pub proof fn lemma_rev_hex_shape(bs: Seq<u8>)
    ensures
        rev_hex_seq(bs).len() == 2 * bs.len(),
        forall|i: int| 0 <= i < rev_hex_seq(bs).len() ==> is_hex_digit(#[trigger] rev_hex_seq(bs)[i]),
    decreases bs.len(),
{
    if bs.len() > 0 {
        lemma_rev_hex_shape(bs.drop_last());
        assert forall|i: int| 0 <= i < rev_hex_seq(bs).len() implies is_hex_digit(
            #[trigger] rev_hex_seq(bs)[i],
        ) by {
            if i < 2 {
                assert(rev_hex_seq(bs)[i] == byte_hex(bs.last())[i]);
            } else {
                assert(rev_hex_seq(bs)[i] == rev_hex_seq(bs.drop_last())[i - 2]);
            }
        }
    }
}

/// The one-character string for a single hexadecimal digit.
pub fn hex_char_str(d: u8) -> (r: &'static str)
    requires
        d < 16,
    ensures
        r@ == seq![hex_char(d as int)],
{
    if d < 10 {
        crate::num::digit_str(d)
    } else {
        proof {
            reveal_strlit("a");
            reveal_strlit("b");
            reveal_strlit("c");
            reveal_strlit("d");
            reveal_strlit("e");
            reveal_strlit("f");
        }
        let r: &'static str = if d == 10 {
            "a"
        } else if d == 11 {
            "b"
        } else if d == 12 {
            "c"
        } else if d == 13 {
            "d"
        } else if d == 14 {
            "e"
        } else {
            "f"
        };
        proof {
            assert(r@ =~= seq![hex_char(d as int)]);
        }
        r
    }
}

/// Renders `bs` as lower-case hexadecimal in reversed byte order.
pub fn fmt_hex_rev(bs: &Vec<u8>) -> (r: String)
    ensures
        r@ == rev_hex_seq(bs@),
{
    let mut r = String::new();
    let len = bs.len();
    let mut k: usize = 0;
    proof {
        assert(bs@.take(len as int) =~= bs@);
        assert(r@ + rev_hex_seq(bs@) =~= rev_hex_seq(bs@));
    }
    while k < len
        invariant
            len == bs@.len(),
            0 <= k <= len,
            r@ + rev_hex_seq(bs@.take((len - k) as int)) =~= rev_hex_seq(bs@),
        decreases len - k,
    {
        let b = bs[len - 1 - k];
        proof {
            assert(b >> 4 < 16 && b & 0x0F < 16) by (bit_vector);
        }
        r.append(hex_char_str(b >> 4));
        r.append(hex_char_str(b & 0x0F));
        proof {
            let prefix = bs@.take((len - k) as int);
            assert(prefix.last() == bs@[len - 1 - k]);
            assert(prefix.drop_last() =~= bs@.take((len - k - 1) as int));
            assert(rev_hex_seq(prefix) == byte_hex(b) + rev_hex_seq(
                bs@.take((len - k - 1) as int),
            ));
            assert(r@ + rev_hex_seq(bs@.take((len - k - 1) as int)) =~= rev_hex_seq(bs@));
        }
        k = k + 1;
    }
    proof {
        assert(bs@.take((len - k) as int) =~= Seq::<u8>::empty());
        assert(r@ =~= rev_hex_seq(bs@));
    }
    r
}

} // verus!
