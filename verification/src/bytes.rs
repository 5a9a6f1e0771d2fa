use vstd::prelude::*;

use vstd::arithmetic::div_mod::{
    lemma_fundamental_div_mod_converse_div, lemma_fundamental_div_mod_converse_mod,
};

verus! {

/// The non-negative integer that a byte sequence denotes when read in
/// big-endian order (most significant byte first).
pub open spec fn be_value(s: Seq<u8>) -> nat
    decreases s.len(),
{
    if s.len() == 0 {
        0
    } else {
        (be_value(s.drop_last()) * 256 + s.last()) as nat
    }
}

/// The non-negative integer that a byte sequence denotes when read in
/// little-endian order (least significant byte first).
pub open spec fn le_value(s: Seq<u8>) -> nat
    decreases s.len(),
{
    if s.len() == 0 {
        0
    } else {
        (s.first() + 256 * le_value(s.drop_first())) as nat
    }
}

/// The shortest big-endian encoding of a value: no leading zero byte,
/// except that zero itself is the single byte `0`.
pub open spec fn be_encoding(n: nat) -> Seq<u8>
    decreases n,
{
    if n == 0 {
        seq![0u8]
    } else if n < 256 {
        seq![n as u8]
    } else {
        be_encoding(n / 256).push((n % 256) as u8)
    }
}

/// The shortest little-endian encoding of a value: no trailing zero byte,
/// except that zero itself is the single byte `0`.
pub open spec fn le_encoding(n: nat) -> Seq<u8>
    decreases n,
{
    if n == 0 {
        seq![0u8]
    } else if n < 256 {
        seq![n as u8]
    } else {
        seq![(n % 256) as u8] + le_encoding(n / 256)
    }
}

/// A byte sequence with its leading zero bytes removed.
pub open spec fn strip_leading_zeros(s: Seq<u8>) -> Seq<u8>
    decreases s.len(),
{
    if s.len() == 0 || s.first() != 0 {
        s
    } else {
        strip_leading_zeros(s.drop_first())
    }
}

/// A byte sequence with its trailing zero bytes removed.
pub open spec fn strip_trailing_zeros(s: Seq<u8>) -> Seq<u8>
    decreases s.len(),
{
    if s.len() == 0 || s.last() != 0 {
        s
    } else {
        strip_trailing_zeros(s.drop_last())
    }
}

/// Three big-endian bytes denote a value below two to the twenty-fourth power.
pub proof fn lemma_be_value_three_bytes(s: Seq<u8>)
    requires
        s.len() == 3,
    ensures
        be_value(s) < 0x1000000,
{
    let s2 = s.drop_last();
    let s1 = s2.drop_last();
    let s0 = s1.drop_last();
    assert(s0.len() == 0);
    assert(be_value(s0) == 0);
    assert(be_value(s1) == be_value(s0) * 256 + s1.last());
    assert(be_value(s2) == be_value(s1) * 256 + s2.last());
    assert(be_value(s) == be_value(s2) * 256 + s.last());
    assert(be_value(s1) <= 255);
    assert(be_value(s2) <= 255 * 256 + 255);
    assert(be_value(s) <= 65535 * 256 + 255);
}

/// A leading zero byte does not change the big-endian value.
proof fn lemma_be_value_drop_leading_zero(s: Seq<u8>)
    requires
        s.len() > 0,
        s.first() == 0,
    ensures
        be_value(s.drop_first()) == be_value(s),
    decreases s.len(),
{
    if s.len() == 1 {
        assert(s.drop_last().len() == 0);
        assert(s.drop_first().len() == 0);
        assert(s.last() == 0);
        assert(be_value(s) == be_value(s.drop_last()) * 256 + s.last());
        assert(be_value(s.drop_last()) == 0);
    } else {
        let t = s.drop_last();
        lemma_be_value_drop_leading_zero(t);
        assert(t.drop_first() =~= s.drop_first().drop_last());
        assert(s.drop_first().last() == s.last());
        assert(s.drop_first().len() > 0);
        assert(be_value(s) == be_value(t) * 256 + s.last());
        assert(be_value(s.drop_first()) == be_value(s.drop_first().drop_last()) * 256 + s.drop_first().last());
    }
}

/// A big-endian sequence with a non-zero first byte denotes a positive value.
proof fn lemma_be_value_positive(s: Seq<u8>)
    requires
        s.len() > 0,
        s.first() != 0,
    ensures
        be_value(s) > 0,
    decreases s.len(),
{
    if s.len() == 1 {
        assert(s.drop_last().len() == 0);
        assert(s.last() == s.first());
    } else {
        let t = s.drop_last();
        lemma_be_value_positive(t);
    }
}

/// Encoding the value of a big-endian sequence with no leading zero gives
/// that sequence back.
proof fn lemma_be_encoding_of_value(s: Seq<u8>)
    requires
        s.len() > 0,
        s.first() != 0,
    ensures
        be_encoding(be_value(s)) == s,
    decreases s.len(),
{
    let v = be_value(s);
    if s.len() == 1 {
        assert(s.drop_last().len() == 0);
        assert(be_value(s.drop_last()) == 0);
        assert(v == be_value(s.drop_last()) * 256 + s.last());
        assert(v == s.last());
        assert(s.last() == s.first());
        assert(be_encoding(v) =~= s);
    } else {
        let t = s.drop_last();
        lemma_be_value_positive(t);
        lemma_be_encoding_of_value(t);
        assert(v as int == (be_value(t) as int) * 256 + (s.last() as int));
        lemma_fundamental_div_mod_converse_div(v as int, 256, be_value(t) as int, s.last() as int);
        lemma_fundamental_div_mod_converse_mod(v as int, 256, be_value(t) as int, s.last() as int);
        assert(v >= 256);
        assert(be_encoding(v) == be_encoding(v / 256).push((v % 256) as u8));
        assert(be_encoding(v) =~= s);
    }
}

/// Round trip, big-endian: re-encoding the value a byte sequence denotes
/// yields that sequence with its leading zero bytes stripped; a sequence that
/// denotes zero yields the single zero byte.
pub proof fn lemma_be_round_trip(s: Seq<u8>)
    ensures
        strip_leading_zeros(s).len() > 0 ==> be_encoding(be_value(s)) == strip_leading_zeros(s),
        strip_leading_zeros(s).len() == 0 ==> be_value(s) == 0,
        strip_leading_zeros(s).len() == 0 ==> be_encoding(be_value(s)) == seq![0u8],
    decreases s.len(),
{
    if s.len() == 0 {
    } else if s.first() == 0 {
        lemma_be_value_drop_leading_zero(s);
        lemma_be_round_trip(s.drop_first());
    } else {
        lemma_be_value_positive(s);
        lemma_be_encoding_of_value(s);
    }
}

/// A trailing zero byte does not change the little-endian value.
proof fn lemma_le_value_drop_trailing_zero(s: Seq<u8>)
    requires
        s.len() > 0,
        s.last() == 0,
    ensures
        le_value(s.drop_last()) == le_value(s),
    decreases s.len(),
{
    if s.len() == 1 {
        assert(s.drop_last().len() == 0);
        assert(s.drop_first().len() == 0);
        assert(s.first() == 0);
        assert(le_value(s) == s.first() + 256 * le_value(s.drop_first()));
        assert(le_value(s.drop_first()) == 0);
    } else {
        let t = s.drop_first();
        assert(t.last() == s.last());
        lemma_le_value_drop_trailing_zero(t);
        assert(t.drop_last() =~= s.drop_last().drop_first());
        assert(s.drop_last().first() == s.first());
        assert(s.drop_last().len() > 0);
        assert(le_value(s) == s.first() + 256 * le_value(t));
        assert(le_value(s.drop_last()) == s.drop_last().first() + 256 * le_value(
            s.drop_last().drop_first(),
        ));
    }
}

/// A little-endian sequence with a non-zero last byte denotes a positive value.
proof fn lemma_le_value_positive(s: Seq<u8>)
    requires
        s.len() > 0,
        s.last() != 0,
    ensures
        le_value(s) > 0,
    decreases s.len(),
{
    if s.len() == 1 {
        assert(s.drop_first().len() == 0);
        assert(s.last() == s.first());
    } else {
        let t = s.drop_first();
        assert(t.last() == s.last());
        lemma_le_value_positive(t);
    }
}

/// Encoding the value of a little-endian sequence with no trailing zero gives
/// that sequence back.
proof fn lemma_le_encoding_of_value(s: Seq<u8>)
    requires
        s.len() > 0,
        s.last() != 0,
    ensures
        le_encoding(le_value(s)) == s,
    decreases s.len(),
{
    let v = le_value(s);
    if s.len() == 1 {
        assert(s.drop_first().len() == 0);
        assert(le_value(s.drop_first()) == 0);
        assert(v == s.first() + 256 * le_value(s.drop_first()));
        assert(v == s.first());
        assert(s.last() == s.first());
        assert(le_encoding(v) =~= s);
    } else {
        let t = s.drop_first();
        assert(t.last() == s.last());
        lemma_le_value_positive(t);
        lemma_le_encoding_of_value(t);
        assert(v as int == (le_value(t) as int) * 256 + (s.first() as int));
        lemma_fundamental_div_mod_converse_div(v as int, 256, le_value(t) as int, s.first() as int);
        lemma_fundamental_div_mod_converse_mod(v as int, 256, le_value(t) as int, s.first() as int);
        assert(v >= 256);
        assert(le_encoding(v) == seq![(v % 256) as u8] + le_encoding(v / 256));
        assert(le_encoding(v) =~= s);
    }
}

/// Round trip, little-endian: re-encoding the value a byte sequence denotes
/// yields that sequence with its trailing zero bytes stripped; a sequence
/// that denotes zero yields the single zero byte.
pub proof fn lemma_le_round_trip(s: Seq<u8>)
    ensures
        strip_trailing_zeros(s).len() > 0 ==> le_encoding(le_value(s)) == strip_trailing_zeros(s),
        strip_trailing_zeros(s).len() == 0 ==> le_value(s) == 0,
        strip_trailing_zeros(s).len() == 0 ==> le_encoding(le_value(s)) == seq![0u8],
    decreases s.len(),
{
    if s.len() == 0 {
    } else if s.last() == 0 {
        lemma_le_value_drop_trailing_zero(s);
        lemma_le_round_trip(s.drop_last());
    } else {
        lemma_le_value_positive(s);
        lemma_le_encoding_of_value(s);
    }
}

} // verus!
