use vstd::prelude::*;

use crate::ChunkCoordinate;

verus! {

/// The decimal digits of `n`, most significant first.
pub open spec fn spec_decimal(n: nat) -> Seq<u8>
    decreases n,
{
    if n < 10 {
        seq![(48 + n) as u8]
    } else {
        spec_decimal(n / 10) + seq![(48 + n % 10) as u8]
    }
}

/// The signed decimal spelling of `v`: a minus sign before the digits
/// of its magnitude when `v` is negative.
pub open spec fn spec_signed_decimal(v: int) -> Seq<u8> {
    if v < 0 {
        seq![45u8] + spec_decimal((-v) as nat)
    } else {
        spec_decimal(v as nat)
    }
}

/// The text line for one coordinate: `(x, z)` and a line feed.
pub open spec fn spec_coord_line(c: ChunkCoordinate) -> Seq<u8> {
    seq![40u8] + spec_signed_decimal(c.x as int) + seq![44u8, 32u8] + spec_signed_decimal(
        c.z as int,
    ) + seq![41u8, 10u8]
}

/// The whole text output: one line per coordinate, in aggregate order.
pub open spec fn spec_text_output(coords: Seq<ChunkCoordinate>) -> Seq<u8>
    decreases coords.len(),
{
    if coords.len() == 0 {
        Seq::empty()
    } else {
        spec_coord_line(coords[0]) + spec_text_output(coords.drop_first())
    }
}

/// Appending one coordinate appends its line.
pub proof fn lemma_text_output_push(coords: Seq<ChunkCoordinate>, c: ChunkCoordinate)
    ensures
        spec_text_output(coords.push(c)) == spec_text_output(coords) + spec_coord_line(c),
    decreases coords.len(),
{
    if coords.len() == 0 {
        assert(coords.push(c).drop_first() =~= coords);
        assert(coords.push(c)[0] == c);
        assert(spec_text_output(coords.push(c)) =~= spec_text_output(coords) + spec_coord_line(
            c,
        ));
    } else {
        assert(coords.push(c).drop_first() =~= coords.drop_first().push(c));
        lemma_text_output_push(coords.drop_first(), c);
        assert(spec_text_output(coords.push(c)) == spec_coord_line(coords[0]) + spec_text_output(
            coords.drop_first().push(c),
        ));
        assert(spec_text_output(coords.push(c)) =~= spec_text_output(coords) + spec_coord_line(
            c,
        ));
    }
}

/// Appends the decimal digits of `n`.
fn push_decimal(out: &mut Vec<u8>, n: u32)
    ensures
        final(out)@ == old(out)@ + spec_decimal(n as nat),
    decreases n,
{
    if n < 10 {
        out.push((48 + n) as u8);
        assert(out@ =~= old(out)@ + spec_decimal(n as nat));
    } else {
        push_decimal(out, n / 10);
        out.push((48 + (n % 10)) as u8);
        assert(out@ =~= old(out)@ + spec_decimal(n as nat));
    }
}

/// Appends the signed decimal spelling of `x`.
fn push_signed_decimal(out: &mut Vec<u8>, x: i32)
    ensures
        final(out)@ == old(out)@ + spec_signed_decimal(x as int),
{
    if x < 0 {
        out.push(45u8);
        let mag: u32 = (-(x as i64)) as u32;
        assert(mag as int == -(x as int));
        push_decimal(out, mag);
        assert(out@ =~= old(out)@ + spec_signed_decimal(x as int));
    } else {
        let mag: u32 = x as u32;
        assert(mag as nat == x as nat);
        push_decimal(out, mag);
    }
}

/// Appends one coordinate's text line.
fn push_coord_line(out: &mut Vec<u8>, c: &ChunkCoordinate)
    ensures
        final(out)@ == old(out)@ + spec_coord_line(*c),
{
    out.push(40u8);
    push_signed_decimal(out, c.x);
    out.push(44u8);
    out.push(32u8);
    push_signed_decimal(out, c.z);
    out.push(41u8);
    out.push(10u8);
    assert(out@ =~= old(out)@ + spec_coord_line(*c));
}

/// The result encoder's text mode: one `(x, z)` line per aggregated
/// coordinate, in aggregate order.  An empty aggregate yields empty
/// output, not an error.
pub fn encode_text(coords: &Vec<ChunkCoordinate>) -> (out: Vec<u8>)
    ensures
        out@ == spec_text_output(coords@),
        coords@.len() == 0 ==> out@ == Seq::<u8>::empty(),
{
    let mut out: Vec<u8> = Vec::new();
    let mut i: usize = 0;
    assert(coords@.take(0) =~= Seq::<ChunkCoordinate>::empty());
    while i < coords.len()
        invariant
            i <= coords@.len(),
            out@ == spec_text_output(coords@.take(i as int)),
        decreases coords@.len() - i,
    {
        push_coord_line(&mut out, &coords[i]);
        proof {
            lemma_text_output_push(coords@.take(i as int), coords@[i as int]);
            assert(coords@.take(i as int).push(coords@[i as int]) =~= coords@.take(i + 1));
        }
        i += 1;
    }
    assert(coords@.take(i as int) =~= coords@);
    out
}

} // verus!
