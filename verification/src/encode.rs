use vstd::prelude::*;

use vstd::arithmetic::div_mod::{
    lemma_fundamental_div_mod, lemma_fundamental_div_mod_converse, lemma_small_mod,
};

use crate::ChunkCoordinate;

verus! {

// The binary output format: a length-delimited, tag-prefixed wire
// encoding of the schema
//
//     ChunkCoord   { x: int32 = 1; z: int32 = 2 }
//     Chunk        { coord: optional ChunkCoord = 1 }
//     SearchResult { result: repeated Chunk = 1 }
//
// An `int32` field is carried as its 64-bit two's-complement value in
// base-128 varint groups, least significant group first, each group's
// high bit marking a continuation.  A message-typed field is carried
// as a tag byte, a varint byte length, and the nested message's bytes.

/// The varint encoding of `n`: base-128 groups, least significant
/// first, the high bit of every group but the last set.
pub open spec fn spec_varint(n: u64) -> Seq<u8>
    decreases n,
{
    if n < 128 {
        seq![n as u8]
    } else {
        seq![((n % 128) + 128) as u8] + spec_varint(n / 128)
    }
}

/// A varint occupies between one and ten bytes.
pub proof fn lemma_varint_len(n: u64)
    ensures
        1 <= spec_varint(n).len() <= 10,
{
    let n1 = n / 128;
    let n2 = n1 / 128;
    let n3 = n2 / 128;
    let n4 = n3 / 128;
    let n5 = n4 / 128;
    let n6 = n5 / 128;
    let n7 = n6 / 128;
    let n8 = n7 / 128;
    let n9 = n8 / 128;
    assert(n9 < 128);
    assert(spec_varint(n9).len() == 1);
    assert(spec_varint(n8).len() <= 2);
    assert(spec_varint(n7).len() <= 3);
    assert(spec_varint(n6).len() <= 4);
    assert(spec_varint(n5).len() <= 5);
    assert(spec_varint(n4).len() <= 6);
    assert(spec_varint(n3).len() <= 7);
    assert(spec_varint(n2).len() <= 8);
    assert(spec_varint(n1).len() <= 9);
    assert(spec_varint(n).len() <= 10);
}

/// Appends the varint encoding of `n`.
pub fn push_varint(out: &mut Vec<u8>, n: u64)
    ensures
        final(out)@ == old(out)@ + spec_varint(n),
    decreases n,
{
    if n < 128 {
        out.push(n as u8);
        assert(out@ =~= old(out)@ + spec_varint(n));
    } else {
        let b: u8 = ((n % 128) + 128) as u8;
        out.push(b);
        push_varint(out, n / 128);
        assert(out@ =~= old(out)@ + spec_varint(n));
    }
}

/// The 64-bit two's-complement value that carries an `int32` field on
/// the wire.
pub open spec fn spec_wire64(x: i32) -> u64 {
    if x >= 0 {
        x as u64
    } else {
        (0x10000000000000000 + x) as u64
    }
}

/// Computes the wire value of `x`.
pub fn wire64_of_i32(x: i32) -> (r: u64)
    ensures
        r == spec_wire64(x),
{
    if x >= 0 {
        x as u64
    } else {
        let mag: u64 = (-(x as i64)) as u64;
        assert(1 <= mag <= 0x80000000);
        u64::MAX - mag + 1
    }
}

/// The `int32` read back from a wire value: its low 32 bits, as a
/// two's-complement signed value.
pub open spec fn spec_i32_of_wire(v: u64) -> i32 {
    let low = v % 0x100000000;
    if low >= 0x80000000 {
        (low - 0x100000000) as i32
    } else {
        low as i32
    }
}

/// Reads the `int32` back from a wire value.
pub fn i32_of_wire(v: u64) -> (r: i32)
    ensures
        r == spec_i32_of_wire(v),
{
    let low: u64 = v % 0x100000000;
    if low >= 0x80000000 {
        ((low as i64) - 0x100000000i64) as i32
    } else {
        low as i32
    }
}

/// Law: the wire value of an `int32` reads back as that `int32`.
pub proof fn lemma_wire64_round_trip(x: i32)
    ensures
        spec_i32_of_wire(spec_wire64(x)) == x,
{
    if x >= 0 {
        lemma_small_mod(x as nat, 0x100000000);
    } else {
        let v = 0x10000000000000000 + x;
        lemma_fundamental_div_mod_converse(v, 0x100000000, 0xffffffff, 0x100000000 + x);
    }
}

/// The bytes of one `ChunkCoord` message: field 1 is `x`, field 2 is
/// `z`, both varint-carried `int32` values.
pub open spec fn spec_coord_bytes(c: ChunkCoordinate) -> Seq<u8> {
    seq![8u8] + spec_varint(spec_wire64(c.x)) + seq![16u8] + spec_varint(spec_wire64(c.z))
}

/// The bytes of one `Chunk` message: field 1 carries the nested
/// `ChunkCoord` message, length-delimited.
pub open spec fn spec_chunk_bytes(c: ChunkCoordinate) -> Seq<u8> {
    let coord = spec_coord_bytes(c);
    seq![10u8] + spec_varint(coord.len() as u64) + coord
}

/// The bytes one coordinate contributes to the outer `SearchResult`
/// message: one length-delimited occurrence of its repeated field 1.
pub open spec fn spec_chunk_record(c: ChunkCoordinate) -> Seq<u8> {
    let chunk = spec_chunk_bytes(c);
    seq![10u8] + spec_varint(chunk.len() as u64) + chunk
}

/// The whole binary output: the `SearchResult` message, one record
/// per aggregated coordinate, in aggregate order.  An empty aggregate
/// encodes to no bytes at all, which is the valid empty message.
pub open spec fn spec_result_bytes(coords: Seq<ChunkCoordinate>) -> Seq<u8>
    decreases coords.len(),
{
    if coords.len() == 0 {
        Seq::empty()
    } else {
        spec_chunk_record(coords[0]) + spec_result_bytes(coords.drop_first())
    }
}

/// Appending one coordinate appends its record's bytes.
pub proof fn lemma_result_bytes_push(coords: Seq<ChunkCoordinate>, c: ChunkCoordinate)
    ensures
        spec_result_bytes(coords.push(c)) == spec_result_bytes(coords) + spec_chunk_record(c),
    decreases coords.len(),
{
    if coords.len() == 0 {
        assert(coords.push(c).drop_first() =~= coords);
        assert(coords.push(c)[0] == c);
        assert(spec_result_bytes(coords.push(c)) =~= spec_result_bytes(coords)
            + spec_chunk_record(c));
    } else {
        assert(coords.push(c).drop_first() =~= coords.drop_first().push(c));
        lemma_result_bytes_push(coords.drop_first(), c);
        assert(spec_result_bytes(coords.push(c)) == spec_chunk_record(coords[0])
            + spec_result_bytes(coords.drop_first().push(c)));
        assert(spec_result_bytes(coords.push(c)) =~= spec_result_bytes(coords)
            + spec_chunk_record(c));
    }
}

/// Appends a copy of `src`.
pub fn push_all<T: Copy>(out: &mut Vec<T>, src: &Vec<T>)
    ensures
        final(out)@ == old(out)@ + src@,
{
    let mut j: usize = 0;
    assert(out@ =~= old(out)@ + src@.take(0));
    while j < src.len()
        invariant
            j <= src@.len(),
            out@ == old(out)@ + src@.take(j as int),
        decreases src@.len() - j,
    {
        out.push(src[j]);
        assert(src@.take(j as int).push(src@[j as int]) =~= src@.take(j + 1));
        assert(out@ =~= old(out)@ + src@.take(j + 1));
        j += 1;
    }
    assert(src@.take(j as int) =~= src@);
}

/// Encodes one coordinate's `ChunkCoord` message.
fn encode_coord(c: &ChunkCoordinate) -> (out: Vec<u8>)
    ensures
        out@ == spec_coord_bytes(*c),
{
    let mut out: Vec<u8> = Vec::new();
    out.push(8u8);
    push_varint(&mut out, wire64_of_i32(c.x));
    out.push(16u8);
    push_varint(&mut out, wire64_of_i32(c.z));
    assert(out@ =~= spec_coord_bytes(*c));
    out
}

/// Encodes one coordinate's length-delimited record for the outer
/// `SearchResult` message.
fn encode_chunk_record(c: &ChunkCoordinate) -> (out: Vec<u8>)
    ensures
        out@ == spec_chunk_record(*c),
{
    let coord = encode_coord(c);
    let mut chunk: Vec<u8> = Vec::new();
    chunk.push(10u8);
    push_varint(&mut chunk, coord.len() as u64);
    push_all(&mut chunk, &coord);
    assert(chunk@ =~= spec_chunk_bytes(*c));
    let mut out: Vec<u8> = Vec::new();
    out.push(10u8);
    push_varint(&mut out, chunk.len() as u64);
    push_all(&mut out, &chunk);
    assert(out@ =~= spec_chunk_record(*c));
    out
}

/// The result encoder's binary mode: serializes the aggregate as one
/// `SearchResult` message.  An empty aggregate yields the empty byte
/// string, the valid encoding of the empty message.
pub fn encode_search_result(coords: &Vec<ChunkCoordinate>) -> (out: Vec<u8>)
    ensures
        out@ == spec_result_bytes(coords@),
        coords@.len() == 0 ==> out@ == Seq::<u8>::empty(),
{
    let mut out: Vec<u8> = Vec::new();
    let mut i: usize = 0;
    assert(coords@.take(0) =~= Seq::<ChunkCoordinate>::empty());
    while i < coords.len()
        invariant
            i <= coords@.len(),
            out@ == spec_result_bytes(coords@.take(i as int)),
        decreases coords@.len() - i,
    {
        let record = encode_chunk_record(&coords[i]);
        push_all(&mut out, &record);
        proof {
            lemma_result_bytes_push(coords@.take(i as int), coords@[i as int]);
            assert(coords@.take(i as int).push(coords@[i as int]) =~= coords@.take(i + 1));
        }
        i += 1;
    }
    assert(coords@.take(i as int) =~= coords@);
    out
}

/// One varint parsed off the front of `s`: its value and the count of
/// bytes it occupies; nothing when `s` starts with no complete varint
/// or the value overflows 64 bits.
pub open spec fn dec_varint(s: Seq<u8>) -> Option<(u64, nat)>
    decreases s.len(),
{
    if s.len() == 0 {
        Option::None
    } else if s[0] < 128 {
        Option::Some((s[0] as u64, 1 as nat))
    } else {
        match dec_varint(s.drop_first()) {
            Option::None => Option::None,
            Option::Some((v, k)) => {
                let val = (v as int) * 128 + (s[0] - 128);
                if val < 0x10000000000000000 {
                    Option::Some((val as u64, (k + 1) as nat))
                } else {
                    Option::None
                }
            },
        }
    }
}

/// Law: a varint encoding parses back to the value it encodes, and
/// consumes exactly its own bytes, whatever follows it.
pub proof fn lemma_varint_round_trip(n: u64, rest: Seq<u8>)
    ensures
        dec_varint(spec_varint(n) + rest) == Option::Some((n, spec_varint(n).len() as nat)),
    decreases n,
{
    let enc = spec_varint(n);
    if n < 128 {
        assert((enc + rest)[0] == n as u8);
    } else {
        let b = ((n % 128) + 128) as u8;
        assert((enc + rest)[0] == b);
        assert((enc + rest).drop_first() =~= spec_varint(n / 128) + rest);
        lemma_varint_round_trip(n / 128, rest);
        lemma_fundamental_div_mod(n as int, 128);
        assert((n / 128) * 128 + (n % 128) == n);
    }
}

/// One `ChunkCoord` message parsed from exactly the whole of `s`.
pub open spec fn dec_coord(s: Seq<u8>) -> Option<ChunkCoordinate> {
    if s.len() == 0 || s[0] != 8 {
        Option::None
    } else {
        match dec_varint(s.drop_first()) {
            Option::None => Option::None,
            Option::Some((vx, k)) => {
                let after = s.drop_first();
                if k > after.len() {
                    Option::None
                } else {
                    let rest = after.skip(k as int);
                    if rest.len() == 0 || rest[0] != 16 {
                        Option::None
                    } else {
                        match dec_varint(rest.drop_first()) {
                            Option::None => Option::None,
                            Option::Some((vz, k2)) => {
                                if k2 == rest.len() - 1 {
                                    Option::Some(
                                        ChunkCoordinate {
                                            x: spec_i32_of_wire(vx),
                                            z: spec_i32_of_wire(vz),
                                        },
                                    )
                                } else {
                                    Option::None
                                }
                            },
                        }
                    }
                }
            },
        }
    }
}

/// One `Chunk` message parsed from exactly the whole of `s`.
pub open spec fn dec_chunk(s: Seq<u8>) -> Option<ChunkCoordinate> {
    if s.len() == 0 || s[0] != 10 {
        Option::None
    } else {
        match dec_varint(s.drop_first()) {
            Option::None => Option::None,
            Option::Some((len, k)) => {
                let after = s.drop_first();
                if k > after.len() {
                    Option::None
                } else {
                    let body = after.skip(k as int);
                    if body.len() != len {
                        Option::None
                    } else {
                        dec_coord(body)
                    }
                }
            },
        }
    }
}

/// The `SearchResult` message parsed from the whole of `s`: the
/// coordinates of its records, in record order.
pub open spec fn dec_records(s: Seq<u8>) -> Option<Seq<ChunkCoordinate>>
    decreases s.len(),
{
    if s.len() == 0 {
        Option::Some(Seq::empty())
    } else if s[0] != 10 {
        Option::None
    } else {
        match dec_varint(s.drop_first()) {
            Option::None => Option::None,
            Option::Some((len, k)) => {
                let after = s.drop_first();
                if k > after.len() {
                    Option::None
                } else {
                    let body = after.skip(k as int);
                    if body.len() < len {
                        Option::None
                    } else {
                        let payload = body.take(len as int);
                        let rest = body.skip(len as int);
                        match (dec_chunk(payload), dec_records(rest)) {
                            (Option::Some(c), Option::Some(cs)) => Option::Some(seq![c] + cs),
                            _ => Option::None,
                        }
                    }
                }
            },
        }
    }
}

/// Law: a `ChunkCoord` message parses back to the coordinate it
/// encodes.
pub proof fn lemma_coord_round_trip(c: ChunkCoordinate)
    ensures
        dec_coord(spec_coord_bytes(c)) == Option::Some(c),
{
    let s = spec_coord_bytes(c);
    let vx = spec_varint(spec_wire64(c.x));
    let vz = spec_varint(spec_wire64(c.z));
    assert(s[0] == 8);
    assert(s.drop_first() =~= vx + (seq![16u8] + vz));
    lemma_varint_round_trip(spec_wire64(c.x), seq![16u8] + vz);
    let after = s.drop_first();
    assert(after.skip(vx.len() as int) =~= seq![16u8] + vz);
    let rest = after.skip(vx.len() as int);
    assert(rest[0] == 16);
    assert(rest.drop_first() =~= vz + Seq::<u8>::empty());
    lemma_varint_round_trip(spec_wire64(c.z), Seq::<u8>::empty());
    assert(rest.len() - 1 == vz.len());
    lemma_wire64_round_trip(c.x);
    lemma_wire64_round_trip(c.z);
}

/// Law: a `Chunk` message parses back to the coordinate it encodes.
pub proof fn lemma_chunk_round_trip(c: ChunkCoordinate)
    ensures
        dec_chunk(spec_chunk_bytes(c)) == Option::Some(c),
{
    let coord = spec_coord_bytes(c);
    lemma_varint_len(spec_wire64(c.x));
    lemma_varint_len(spec_wire64(c.z));
    assert(coord.len() <= 22);
    let s = spec_chunk_bytes(c);
    let lenv = spec_varint(coord.len() as u64);
    assert(s[0] == 10);
    assert(s.drop_first() =~= lenv + coord);
    lemma_varint_round_trip(coord.len() as u64, coord);
    let after = s.drop_first();
    assert(after.skip(lenv.len() as int) =~= coord);
    lemma_coord_round_trip(c);
}

/// Parsing peels one record off the front of the stream.
proof fn lemma_record_parse(c: ChunkCoordinate, tail: Seq<u8>)
    ensures
        dec_records(spec_chunk_record(c) + tail) == match dec_records(tail) {
            Option::Some(cs) => Option::Some(seq![c] + cs),
            Option::None => Option::None::<Seq<ChunkCoordinate>>,
        },
{
    let s = spec_chunk_record(c) + tail;
    let chunk = spec_chunk_bytes(c);
    let coordb = spec_coord_bytes(c);
    lemma_varint_len(spec_wire64(c.x));
    lemma_varint_len(spec_wire64(c.z));
    lemma_varint_len(coordb.len() as u64);
    assert(chunk.len() <= 33);
    let lenv = spec_varint(chunk.len() as u64);
    assert(s[0] == 10);
    assert(s.drop_first() =~= lenv + (chunk + tail));
    lemma_varint_round_trip(chunk.len() as u64, chunk + tail);
    let after = s.drop_first();
    assert(after.skip(lenv.len() as int) =~= chunk + tail);
    let body = after.skip(lenv.len() as int);
    assert(body.take(chunk.len() as int) =~= chunk);
    assert(body.skip(chunk.len() as int) =~= tail);
    lemma_chunk_round_trip(c);
}

/// Copies the bytes of `s` from `from` (inclusive) to `to` (exclusive).
fn subvec(s: &Vec<u8>, from: usize, to: usize) -> (r: Vec<u8>)
    requires
        from <= to <= s@.len(),
    ensures
        r@ == s@.subrange(from as int, to as int),
{
    let mut r: Vec<u8> = Vec::new();
    let mut j: usize = from;
    assert(r@ =~= s@.subrange(from as int, from as int));
    while j < to
        invariant
            from <= j <= to <= s@.len(),
            r@ == s@.subrange(from as int, j as int),
        decreases to - j,
    {
        r.push(s[j]);
        assert(s@.subrange(from as int, j as int).push(s@[j as int]) =~= s@.subrange(
            from as int,
            j + 1,
        ));
        j += 1;
    }
    r
}

/// Parses one varint starting at `pos`.
fn decode_varint(s: &Vec<u8>, pos: usize) -> (r: Option<(u64, usize)>)
    requires
        pos <= s@.len(),
    ensures
        match r {
            Option::Some((v, k)) => dec_varint(s@.skip(pos as int)) == Option::Some(
                (v, k as nat),
            ) && 1 <= k <= s@.len() - pos,
            Option::None => dec_varint(s@.skip(pos as int)) is None,
        },
    decreases s@.len() - pos,
{
    if pos >= s.len() {
        assert(s@.skip(pos as int) =~= Seq::<u8>::empty());
        return Option::None;
    }
    let b = s[pos];
    let ghost suf = s@.skip(pos as int);
    assert(suf[0] == s@[pos as int]);
    if b < 128 {
        Option::Some((b as u64, 1))
    } else {
        assert(suf.drop_first() =~= s@.skip(pos + 1));
        match decode_varint(s, pos + 1) {
            Option::None => Option::None,
            Option::Some((v, k)) => {
                let low: u64 = (b - 128) as u64;
                proof {
                    lemma_fundamental_div_mod((u64::MAX - low) as int, 128);
                }
                if v > (u64::MAX - low) / 128 {
                    assert((v as int) * 128 + low >= 0x10000000000000000);
                    Option::None
                } else {
                    assert((v as int) * 128 + low <= u64::MAX);
                    let val: u64 = v * 128 + low;
                    Option::Some((val, k + 1))
                }
            },
        }
    }
}

/// Parses a whole `ChunkCoord` message.
fn decode_coord(s: &Vec<u8>) -> (r: Option<ChunkCoordinate>)
    ensures
        match r {
            Option::Some(c) => dec_coord(s@) == Option::Some(c),
            Option::None => dec_coord(s@) is None,
        },
{
    if s.len() == 0 {
        return Option::None;
    }
    if s[0] != 8 {
        return Option::None;
    }
    assert(s@.skip(1) =~= s@.drop_first());
    match decode_varint(s, 1) {
        Option::None => Option::None,
        Option::Some((vx, k)) => {
            let rest_start = 1 + k;
            assert(s@.drop_first().skip(k as int) =~= s@.skip(rest_start as int));
            if rest_start >= s.len() {
                assert(s@.skip(rest_start as int).len() == 0);
                return Option::None;
            }
            assert(s@.skip(rest_start as int)[0] == s@[rest_start as int]);
            if s[rest_start] != 16 {
                return Option::None;
            }
            assert(s@.skip(rest_start as int).drop_first() =~= s@.skip(rest_start + 1));
            match decode_varint(s, rest_start + 1) {
                Option::None => Option::None,
                Option::Some((vz, k2)) => {
                    if k2 == s.len() - rest_start - 1 {
                        Option::Some(ChunkCoordinate { x: i32_of_wire(vx), z: i32_of_wire(vz) })
                    } else {
                        Option::None
                    }
                },
            }
        },
    }
}

/// Parses a whole `Chunk` message.
fn decode_chunk(s: &Vec<u8>) -> (r: Option<ChunkCoordinate>)
    ensures
        match r {
            Option::Some(c) => dec_chunk(s@) == Option::Some(c),
            Option::None => dec_chunk(s@) is None,
        },
{
    if s.len() == 0 {
        return Option::None;
    }
    if s[0] != 10 {
        return Option::None;
    }
    assert(s@.skip(1) =~= s@.drop_first());
    match decode_varint(s, 1) {
        Option::None => Option::None,
        Option::Some((len, k)) => {
            let body_start = 1 + k;
            assert(s@.drop_first().skip(k as int) =~= s@.skip(body_start as int));
            let body_len = s.len() - body_start;
            if (body_len as u64) != len {
                return Option::None;
            }
            let body = subvec(s, body_start, s.len());
            assert(body@ =~= s@.skip(body_start as int));
            decode_coord(&body)
        },
    }
}

/// A conformant decoder for the binary output: parses a whole
/// `SearchResult` message back into its record coordinates.
pub fn decode_search_result(s: &Vec<u8>) -> (r: Option<Vec<ChunkCoordinate>>)
    ensures
        match r {
            Option::Some(v) => dec_records(s@) == Option::Some(v@),
            Option::None => dec_records(s@) is None,
        },
    decreases s@.len(),
{
    if s.len() == 0 {
        let empty: Vec<ChunkCoordinate> = Vec::new();
        assert(empty@ =~= Seq::<ChunkCoordinate>::empty());
        return Option::Some(empty);
    }
    if s[0] != 10 {
        return Option::None;
    }
    assert(s@.skip(1) =~= s@.drop_first());
    match decode_varint(s, 1) {
        Option::None => Option::None,
        Option::Some((len, k)) => {
            let body_start = 1 + k;
            assert(s@.drop_first().skip(k as int) =~= s@.skip(body_start as int));
            let body_len = s.len() - body_start;
            if (body_len as u64) < len {
                return Option::None;
            }
            let len_us = len as usize;
            let payload = subvec(s, body_start, body_start + len_us);
            let rest = subvec(s, body_start + len_us, s.len());
            proof {
                let body = s@.skip(body_start as int);
                assert(payload@ =~= body.take(len as int));
                assert(rest@ =~= body.skip(len as int));
            }
            match decode_chunk(&payload) {
                Option::None => Option::None,
                Option::Some(c) => {
                    match decode_search_result(&rest) {
                        Option::None => Option::None,
                        Option::Some(tail) => {
                            let mut out: Vec<ChunkCoordinate> = Vec::new();
                            out.push(c);
                            push_all(&mut out, &tail);
                            assert(out@ =~= seq![c] + tail@);
                            Option::Some(out)
                        },
                    }
                },
            }
        },
    }
}

/// Law: the binary output parses back, with a conformant decoder for
/// the schema, to exactly the aggregate it was encoded from.
pub proof fn lemma_result_round_trip(coords: Seq<ChunkCoordinate>)
    ensures
        dec_records(spec_result_bytes(coords)) == Option::Some(coords),
    decreases coords.len(),
{
    if coords.len() == 0 {
        assert(Seq::<ChunkCoordinate>::empty() =~= coords);
    } else {
        lemma_record_parse(coords[0], spec_result_bytes(coords.drop_first()));
        lemma_result_round_trip(coords.drop_first());
        assert(seq![coords[0]] + coords.drop_first() =~= coords);
    }
}

} // verus!

