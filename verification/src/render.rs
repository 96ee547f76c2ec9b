//! Text rendering of values, with a full specification: the nil value
//! renders as `null`, integers render in decimal, booleans as `true` or
//! `false`, a byte vector renders as its own bytes, and an integer vector
//! as its elements in decimal separated by single spaces. Rendering never
//! fails, and the rendered text is a function of the mathematical value
//! alone.

use vstd::prelude::*;

use crate::value::{Payload, RayObj, RayVal};

verus! {

/// The decimal digits of `m`, most significant first; empty for zero.
pub open spec fn digs(m: nat) -> Seq<u8>
    decreases m,
{
    if m == 0 {
        Seq::empty()
    } else {
        digs(m / 10) + seq![(48 + m % 10) as u8]
    }
}

/// The decimal rendering of a natural number (`0` renders as one digit).
pub open spec fn dec_nat(n: nat) -> Seq<u8> {
    if n == 0 {
        seq![48u8]
    } else {
        digs(n)
    }
}

/// The decimal rendering of an integer, with a leading minus sign when
/// negative.
pub open spec fn dec_int(v: int) -> Seq<u8> {
    if v < 0 {
        seq![45u8] + dec_nat((-v) as nat)
    } else {
        dec_nat(v as nat)
    }
}

/// Decimal renderings separated by single spaces.
pub open spec fn render_i16_list(s: Seq<i16>) -> Seq<u8>
    decreases s.len(),
{
    if s.len() == 0 {
        Seq::empty()
    } else if s.len() == 1 {
        dec_int(s[0] as int)
    } else {
        render_i16_list(s.drop_last()) + seq![32u8] + dec_int(s.last() as int)
    }
}

/// Decimal renderings separated by single spaces.
pub open spec fn render_i32_list(s: Seq<i32>) -> Seq<u8>
    decreases s.len(),
{
    if s.len() == 0 {
        Seq::empty()
    } else if s.len() == 1 {
        dec_int(s[0] as int)
    } else {
        render_i32_list(s.drop_last()) + seq![32u8] + dec_int(s.last() as int)
    }
}

/// Decimal renderings separated by single spaces.
pub open spec fn render_i64_list(s: Seq<i64>) -> Seq<u8>
    decreases s.len(),
{
    if s.len() == 0 {
        Seq::empty()
    } else if s.len() == 1 {
        dec_int(s[0] as int)
    } else {
        render_i64_list(s.drop_last()) + seq![32u8] + dec_int(s.last() as int)
    }
}

/// The rendered text of a value, as bytes.
pub open spec fn render_spec(v: RayVal) -> Seq<u8> {
    match v {
        RayVal::Null => seq![110u8, 117u8, 108u8, 108u8],  // "null"
        RayVal::Bool(b) => if b {
            seq![116u8, 114u8, 117u8, 101u8]  // "true"
        } else {
            seq![102u8, 97u8, 108u8, 115u8, 101u8]  // "false"
        },
        RayVal::Byte(n) => dec_nat(n as nat),
        RayVal::I16(n) => dec_int(n as int),
        RayVal::I32(n) => dec_int(n as int),
        RayVal::I64(n) => dec_int(n as int),
        RayVal::Bytes(s) => s,
        RayVal::VecI16(s) => render_i16_list(s),
        RayVal::VecI32(s) => render_i32_list(s),
        RayVal::VecI64(s) => render_i64_list(s),
    }
}

/// Cloning a value and then dropping the clone leaves the rendered text of
/// the original unchanged: a clone denotes the same mathematical value as
/// its original, dropping a clone destroys only the clone's own handle,
/// and rendering is a function of the mathematical value alone.
pub proof fn lemma_clone_drop_preserves_rendering(original: RayVal, duplicate: RayVal)
    requires
        duplicate == original,
    ensures
        render_spec(duplicate) == render_spec(original),
{
}

/// The reversal of a byte sequence.
spec fn seq_rev(s: Seq<u8>) -> Seq<u8>
    decreases s.len(),
{
    if s.len() == 0 {
        Seq::empty()
    } else {
        seq![s.last()] + seq_rev(s.drop_last())
    }
}

proof fn lemma_seq_rev_push(s: Seq<u8>, x: u8)
    ensures
        seq_rev(s.push(x)) == seq![x] + seq_rev(s),
{
    assert(s.push(x).drop_last() =~= s);
    assert(seq_rev(s.push(x)) == seq![x] + seq_rev(s.push(x).drop_last()));
}

/// Append the decimal rendering of `n`.
fn push_dec_u64(out: &mut Vec<u8>, n: u64)
    ensures
        final(out)@ == old(out)@ + dec_nat(n as nat),
{
    if n == 0 {
        out.push(48u8);
        proof {
            assert(out@ =~= old(out)@ + dec_nat(n as nat));
        }
        return ;
    }
    let mut digits: Vec<u8> = Vec::new();
    let mut m: u64 = n;
    while m > 0
        invariant
            digs(n as nat) == digs(m as nat) + seq_rev(digits@),
        decreases m,
    {
        let d: u8 = (m % 10) as u8;
        let b: u8 = 48 + d;
        proof {
            lemma_seq_rev_push(digits@, b);
            assert(b == (48 + m as nat % 10) as u8);
            assert(digs(m as nat) == digs(m as nat / 10) + seq![b]);
            assert(digs(m as nat / 10) + (seq![b] + seq_rev(digits@)) =~= (digs(m as nat / 10)
                + seq![b]) + seq_rev(digits@));
            assert(digs(n as nat) =~= digs(m as nat / 10) + (seq![b] + seq_rev(digits@)));
        }
        digits.push(b);
        m = m / 10;
    }
    assert(digs(n as nat) == seq_rev(digits@));
    while digits.len() > 0
        invariant
            out@ + seq_rev(digits@) == old(out)@ + digs(n as nat),
        decreases digits.len(),
    {
        proof {
            assert(seq_rev(digits@) == seq![digits@.last()] + seq_rev(digits@.drop_last()));
        }
        let ghost prev_out = out@;
        let d: u8 = match digits.pop() {
            Some(b) => b,
            None => 0u8,  // unreachable: the loop condition keeps the vector non-empty
        };
        out.push(d);
        proof {
            assert(out@ + seq_rev(digits@) =~= prev_out + (seq![d] + seq_rev(digits@)));
        }
    }
    proof {
        assert(seq_rev(digits@) =~= Seq::<u8>::empty());
        assert(out@ =~= out@ + seq_rev(digits@));
        assert(out@ =~= old(out)@ + dec_nat(n as nat));
    }
}

/// Append the decimal rendering of `v`, sign included.
fn push_dec_i64(out: &mut Vec<u8>, v: i64)
    ensures
        final(out)@ == old(out)@ + dec_int(v as int),
{
    if v >= 0 {
        push_dec_u64(out, v as u64);
        proof {
            assert(out@ =~= old(out)@ + dec_int(v as int));
        }
    } else {
        out.push(45u8);
        // -(v + 1) avoids the overflow of negating the smallest value.
        let mag: u64 = (-(v + 1)) as u64 + 1;
        proof {
            assert(mag as int == -(v as int));
        }
        let ghost mid_out = out@;
        push_dec_u64(out, mag);
        proof {
            assert(mid_out =~= old(out)@ + seq![45u8]);
            assert(out@ =~= (old(out)@ + seq![45u8]) + dec_nat(mag as nat));
            assert(out@ =~= old(out)@ + (seq![45u8] + dec_nat(mag as nat)));
        }
    }
}

proof fn lemma_render_i16_list_push(t: Seq<i16>, x: i16)
    ensures
        t.len() == 0 ==> render_i16_list(t.push(x)) == dec_int(x as int),
        t.len() > 0 ==> render_i16_list(t.push(x)) == render_i16_list(t) + seq![32u8] + dec_int(
            x as int,
        ),
{
    let s = t.push(x);
    assert(s.drop_last() =~= t);
    assert(s.last() == x);
    if t.len() == 0 {
        assert(render_i16_list(s) == dec_int(s[0] as int));
    }
}

proof fn lemma_render_i32_list_push(t: Seq<i32>, x: i32)
    ensures
        t.len() == 0 ==> render_i32_list(t.push(x)) == dec_int(x as int),
        t.len() > 0 ==> render_i32_list(t.push(x)) == render_i32_list(t) + seq![32u8] + dec_int(
            x as int,
        ),
{
    let s = t.push(x);
    assert(s.drop_last() =~= t);
    assert(s.last() == x);
    if t.len() == 0 {
        assert(render_i32_list(s) == dec_int(s[0] as int));
    }
}

proof fn lemma_render_i64_list_push(t: Seq<i64>, x: i64)
    ensures
        t.len() == 0 ==> render_i64_list(t.push(x)) == dec_int(x as int),
        t.len() > 0 ==> render_i64_list(t.push(x)) == render_i64_list(t) + seq![32u8] + dec_int(
            x as int,
        ),
{
    let s = t.push(x);
    assert(s.drop_last() =~= t);
    assert(s.last() == x);
    if t.len() == 0 {
        assert(render_i64_list(s) == dec_int(s[0] as int));
    }
}

impl RayObj {
    /// The rendered text of this value, as bytes. Never fails; adapters
    /// decode the bytes for their transport.
    pub fn render(&self) -> (r: Vec<u8>)
        ensures
            r@ == render_spec(self@),
    {
        let mut out: Vec<u8> = Vec::new();
        match &self.payload {
            Payload::Null => {
                out.push(110u8);
                out.push(117u8);
                out.push(108u8);
                out.push(108u8);
                proof {
                    assert(out@ =~= render_spec(self@));
                }
            },
            Payload::Bool(b) => {
                if *b {
                    out.push(116u8);
                    out.push(114u8);
                    out.push(117u8);
                    out.push(101u8);
                } else {
                    out.push(102u8);
                    out.push(97u8);
                    out.push(108u8);
                    out.push(115u8);
                    out.push(101u8);
                }
                proof {
                    assert(out@ =~= render_spec(self@));
                }
            },
            Payload::Byte(n) => {
                push_dec_u64(&mut out, *n as u64);
                proof {
                    assert(out@ =~= render_spec(self@));
                }
            },
            Payload::I16(n) => {
                push_dec_i64(&mut out, *n as i64);
                proof {
                    assert(out@ =~= render_spec(self@));
                }
            },
            Payload::I32(n) => {
                push_dec_i64(&mut out, *n as i64);
                proof {
                    assert(out@ =~= render_spec(self@));
                }
            },
            Payload::I64(n) => {
                push_dec_i64(&mut out, *n);
                proof {
                    assert(out@ =~= render_spec(self@));
                }
            },
            Payload::Bytes(v) => {
                let mut i: usize = 0;
                while i < v.len()
                    invariant
                        i <= v.len(),
                        out@ == v@.take(i as int),
                    decreases v.len() - i,
                {
                    out.push(v[i]);
                    i = i + 1;
                    proof {
                        assert(out@ =~= v@.take(i as int));
                    }
                }
                proof {
                    assert(out@ =~= v@);
                }
            },
            Payload::VecI16(v) => {
                let mut i: usize = 0;
                while i < v.len()
                    invariant
                        i <= v.len(),
                        out@ == render_i16_list(v@.take(i as int)),
                    decreases v.len() - i,
                {
                    let ghost t = v@.take(i as int);
                    if i > 0 {
                        out.push(32u8);
                    }
                    push_dec_i64(&mut out, v[i] as i64);
                    proof {
                        lemma_render_i16_list_push(t, v@[i as int]);
                        assert(v@.take(i + 1 as int) =~= t.push(v@[i as int]));
                        if i > 0 {
                            assert(out@ =~= render_i16_list(t) + seq![32u8] + dec_int(
                                v@[i as int] as int,
                            ));
                        }
                    }
                    i = i + 1;
                }
                proof {
                    assert(v@.take(v@.len() as int) =~= v@);
                }
            },
            Payload::VecI32(v) => {
                let mut i: usize = 0;
                while i < v.len()
                    invariant
                        i <= v.len(),
                        out@ == render_i32_list(v@.take(i as int)),
                    decreases v.len() - i,
                {
                    let ghost t = v@.take(i as int);
                    if i > 0 {
                        out.push(32u8);
                    }
                    push_dec_i64(&mut out, v[i] as i64);
                    proof {
                        lemma_render_i32_list_push(t, v@[i as int]);
                        assert(v@.take(i + 1 as int) =~= t.push(v@[i as int]));
                        if i > 0 {
                            assert(out@ =~= render_i32_list(t) + seq![32u8] + dec_int(
                                v@[i as int] as int,
                            ));
                        }
                    }
                    i = i + 1;
                }
                proof {
                    assert(v@.take(v@.len() as int) =~= v@);
                }
            },
            Payload::VecI64(v) => {
                let mut i: usize = 0;
                while i < v.len()
                    invariant
                        i <= v.len(),
                        out@ == render_i64_list(v@.take(i as int)),
                    decreases v.len() - i,
                {
                    let ghost t = v@.take(i as int);
                    if i > 0 {
                        out.push(32u8);
                    }
                    push_dec_i64(&mut out, v[i]);
                    proof {
                        lemma_render_i64_list_push(t, v@[i as int]);
                        assert(v@.take(i + 1 as int) =~= t.push(v@[i as int]));
                        if i > 0 {
                            assert(out@ =~= render_i64_list(t) + seq![32u8] + dec_int(
                                v@[i as int] as int,
                            ));
                        }
                    }
                    i = i + 1;
                }
                proof {
                    assert(v@.take(v@.len() as int) =~= v@);
                }
            },
        }
        out
    }
}

} // verus!
