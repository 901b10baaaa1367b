use vstd::prelude::*;

verus! {

/// The compact length prefix used by the canonical message encoding: a u16
/// written in little-endian groups of seven bits, a set top bit marking that
/// another byte follows. One to three bytes; the shortest form is the only
/// one written, and the only one the reader accepts.
pub open spec fn spec_shortvec(n: u16) -> Seq<u8> {
    if n < 0x80 {
        seq![n as u8]
    } else if n < 0x4000 {
        seq![((n & 0x7f) | 0x80) as u8, (n >> 7) as u8]
    } else {
        seq![((n & 0x7f) | 0x80) as u8, (((n >> 7) & 0x7f) | 0x80) as u8, (n >> 14) as u8]
    }
}

/// Appends the compact encoding of `n`.
pub fn push_shortvec(out: &mut Vec<u8>, n: u16)
    ensures
        final(out)@ == old(out)@ + spec_shortvec(n),
{
    if n < 0x80 {
        out.push(n as u8);
        assert(out@ =~= old(out)@ + spec_shortvec(n));
    } else if n < 0x4000 {
        out.push(((n & 0x7f) | 0x80) as u8);
        out.push((n >> 7) as u8);
        assert(out@ =~= old(out)@ + spec_shortvec(n));
    } else {
        out.push(((n & 0x7f) | 0x80) as u8);
        out.push((((n >> 7) & 0x7f) | 0x80) as u8);
        out.push((n >> 14) as u8);
        assert(out@ =~= old(out)@ + spec_shortvec(n));
    }
}

proof fn lemma_shortvec_shape(z: u16)
    ensures
        1 <= spec_shortvec(z).len() <= 3,
        (spec_shortvec(z)[0] & 0x80 == 0) <==> z < 0x80,
        spec_shortvec(z).len() >= 2 ==> ((spec_shortvec(z)[1] & 0x80 == 0) <==> z < 0x4000),
        z < 0x80 ==> spec_shortvec(z).len() == 1,
        0x80 <= z < 0x4000 ==> spec_shortvec(z).len() == 2,
        z >= 0x4000 ==> spec_shortvec(z).len() == 3,
{
    if z < 0x80 {
        assert((z as u8) & 0x80 == 0) by (bit_vector)
            requires
                z < 0x80,
        ;
    } else if z < 0x4000 {
        assert((((z & 0x7f) | 0x80) as u8) & 0x80 != 0) by (bit_vector);
        assert(((z >> 7) as u8) & 0x80 == 0) by (bit_vector)
            requires
                z < 0x4000,
        ;
    } else {
        assert((((z & 0x7f) | 0x80) as u8) & 0x80 != 0) by (bit_vector);
        assert((((((z >> 7) & 0x7f)) | 0x80) as u8) & 0x80 != 0) by (bit_vector);
    }
}

/// The compact length encoding is a prefix code: equal streams that each
/// begin with an encoded length carry the same length and the same rest.
pub proof fn lemma_shortvec_prefix(x: u16, y: u16, s1: Seq<u8>, s2: Seq<u8>)
    requires
        spec_shortvec(x) + s1 == spec_shortvec(y) + s2,
    ensures
        x == y,
        s1 == s2,
{
    let e1 = spec_shortvec(x);
    let e2 = spec_shortvec(y);
    lemma_shortvec_shape(x);
    lemma_shortvec_shape(y);
    let t = e1 + s1;
    assert(t[0] == e1[0] && t[0] == e2[0]);
    if x < 0x80 {
        assert(y < 0x80);
        assert(x as u8 == y as u8);
        assert(x == y) by (bit_vector)
            requires
                x < 0x80 && y < 0x80 && x as u8 == y as u8,
        ;
    } else {
        assert(y >= 0x80);
        assert(t[1] == e1[1] && t[1] == e2[1]);
        if x < 0x4000 {
            assert(y < 0x4000);
            assert(x == y) by (bit_vector)
                requires
                    0x80 <= x < 0x4000 && 0x80 <= y < 0x4000 && ((x & 0x7f) | 0x80) as u8 == ((y
                        & 0x7f) | 0x80) as u8 && (x >> 7) as u8 == (y >> 7) as u8,
            ;
        } else {
            assert(y >= 0x4000);
            assert(t[2] == e1[2] && t[2] == e2[2]);
            assert(x == y) by (bit_vector)
                requires
                    x >= 0x4000 && y >= 0x4000 && ((x & 0x7f) | 0x80) as u8 == ((y & 0x7f)
                        | 0x80) as u8 && (((x >> 7) & 0x7f) | 0x80) as u8 == (((y >> 7) & 0x7f)
                        | 0x80) as u8 && (x >> 14) as u8 == (y >> 14) as u8,
            ;
        }
    }
    assert(e1 == e2);
    assert((e1 + s1).len() == e1.len() + s1.len());
    assert((e2 + s2).len() == e2.len() + s2.len());
    assert(s1.len() == s2.len());
    assert forall|i: int| 0 <= i < s1.len() implies s1[i] == s2[i] by {
        assert((e1 + s1)[e1.len() + i] == s1[i]);
        assert((e2 + s2)[e2.len() + i] == s2[i]);
    }
    assert(s1 =~= s2);
}

/// Reads one compact length starting at `pos`. Returns the value and the
/// position after it; `None` when the bytes run out, when the value would
/// not fit a u16, or when the encoding is not the shortest form — and then
/// no canonical length encoding stands at `pos` at all, so every canonical
/// stream is accepted.
pub fn read_shortvec(d: &Vec<u8>, pos: usize) -> (r: Option<(u16, usize)>)
    requires
        pos <= d@.len(),
    ensures
        match r {
            Some((v, end)) => pos < end <= d@.len() && d@.subrange(pos as int, end as int)
                == spec_shortvec(v),
            None => forall|v: u16|
                !(pos as int + spec_shortvec(v).len() <= d@.len() && d@.subrange(
                    pos as int,
                    pos as int + spec_shortvec(v).len() as int,
                ) == spec_shortvec(v)),
        },
{
    if pos >= d.len() {
        proof {
            assert forall|v: u16|
                !(pos as int + spec_shortvec(v).len() <= d@.len() && d@.subrange(
                    pos as int,
                    pos as int + spec_shortvec(v).len() as int,
                ) == spec_shortvec(v)) by {
                lemma_shortvec_shape(v);
            }
        }
        return None;
    }
    let b0 = d[pos];
    if b0 & 0x80 == 0 {
        let v = b0 as u16;
        assert(v < 0x80 && v as u8 == b0) by (bit_vector)
            requires
                b0 & 0x80 == 0 && v == b0 as u16,
        ;
        assert(d@.subrange(pos as int, pos + 1 as int) =~= spec_shortvec(v));
        return Some((v, pos + 1));
    }
    if pos + 1 >= d.len() {
        proof {
            assert forall|v: u16|
                !(pos as int + spec_shortvec(v).len() <= d@.len() && d@.subrange(
                    pos as int,
                    pos as int + spec_shortvec(v).len() as int,
                ) == spec_shortvec(v)) by {
                lemma_shortvec_shape(v);
                let e = spec_shortvec(v);
                if pos as int + e.len() <= d@.len() && d@.subrange(
                    pos as int,
                    pos as int + e.len() as int,
                ) == e {
                    assert(e.len() == 1);
                    assert(d@.subrange(pos as int, pos as int + e.len() as int)[0] == d@[pos as int]);
                    assert(b0 & 0x80 == 0);
                    assert(false);
                }
            }
        }
        return None;
    }
    let b1 = d[pos + 1];
    if b1 & 0x80 == 0 {
        if b1 == 0 {
            // an aliased long form of a one-byte value is rejected
            proof {
                assert forall|v: u16|
                    !(pos as int + spec_shortvec(v).len() <= d@.len() && d@.subrange(
                        pos as int,
                        pos as int + spec_shortvec(v).len() as int,
                    ) == spec_shortvec(v)) by {
                    lemma_shortvec_shape(v);
                    assert(0x80 <= v && v < 0x4000 ==> ((v >> 7) as u8) != 0) by (bit_vector);
                    let e = spec_shortvec(v);
                    if pos as int + e.len() <= d@.len() && d@.subrange(
                        pos as int,
                        pos as int + e.len() as int,
                    ) == e {
                        assert(d@.subrange(pos as int, pos as int + e.len() as int)[0] == d@[pos as int]);
                        if e.len() >= 2 {
                            assert(d@.subrange(pos as int, pos as int + e.len() as int)[1] == d@[pos as int + 1]);
                        }
                        assert(false);
                    }
                }
            }
            return None;
        }
        let v = (b0 & 0x7f) as u16 | ((b1 as u16) << 7);
        assert(0x80 <= v < 0x4000 && ((v & 0x7f) | 0x80) as u8 == b0 && (v >> 7) as u8 == b1)
            by (bit_vector)
            requires
                b0 & 0x80 != 0 && b1 & 0x80 == 0 && b1 != 0 && v == (b0 & 0x7f) as u16 | (
                (b1 as u16) << 7),
        ;
        assert(d@.subrange(pos as int, pos + 2 as int) =~= spec_shortvec(v));
        return Some((v, pos + 2));
    }
    if pos + 2 >= d.len() {
        proof {
            assert forall|v: u16|
                !(pos as int + spec_shortvec(v).len() <= d@.len() && d@.subrange(
                    pos as int,
                    pos as int + spec_shortvec(v).len() as int,
                ) == spec_shortvec(v)) by {
                lemma_shortvec_shape(v);
                let e = spec_shortvec(v);
                if pos as int + e.len() <= d@.len() && d@.subrange(
                    pos as int,
                    pos as int + e.len() as int,
                ) == e {
                    assert(d@.subrange(pos as int, pos as int + e.len() as int)[0] == d@[pos as int]);
                    if e.len() >= 2 {
                        assert(d@.subrange(pos as int, pos as int + e.len() as int)[1] == d@[pos as int + 1]);
                    }
                    assert(false);
                }
            }
        }
        return None;
    }
    let b2 = d[pos + 2];
    if b2 == 0 || b2 > 3 {
        // zero would alias a shorter form; above three the value overflows u16
        proof {
            assert forall|v: u16|
                !(pos as int + spec_shortvec(v).len() <= d@.len() && d@.subrange(
                    pos as int,
                    pos as int + spec_shortvec(v).len() as int,
                ) == spec_shortvec(v)) by {
                lemma_shortvec_shape(v);
                assert(v >= 0x4000 ==> 1 <= ((v >> 14) as u8) && ((v >> 14) as u8) <= 3)
                    by (bit_vector);
                let e = spec_shortvec(v);
                if pos as int + e.len() <= d@.len() && d@.subrange(
                    pos as int,
                    pos as int + e.len() as int,
                ) == e {
                    assert(d@.subrange(pos as int, pos as int + e.len() as int)[0] == d@[pos as int]);
                    if e.len() >= 2 {
                        assert(d@.subrange(pos as int, pos as int + e.len() as int)[1] == d@[pos as int + 1]);
                    }
                    if e.len() >= 3 {
                        assert(d@.subrange(pos as int, pos as int + e.len() as int)[2] == d@[pos as int + 2]);
                    }
                    assert(false);
                }
            }
        }
        return None;
    }
    let v = (b0 & 0x7f) as u16 | (((b1 & 0x7f) as u16) << 7) | ((b2 as u16) << 14);
    assert(v >= 0x4000 && ((v & 0x7f) | 0x80) as u8 == b0 && (((v >> 7) & 0x7f) | 0x80) as u8 == b1
        && (v >> 14) as u8 == b2) by (bit_vector)
        requires
            b0 & 0x80 != 0 && b1 & 0x80 != 0 && b2 != 0 && b2 <= 3 && v == (b0 & 0x7f) as u16 | ((
            (b1 & 0x7f) as u16) << 7) | ((b2 as u16) << 14),
    ;
    assert(d@.subrange(pos as int, pos + 3 as int) =~= spec_shortvec(v));
    Some((v, pos + 3))
}

} // verus!
