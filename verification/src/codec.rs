//! Binary codec for the attack tables, in a fixed little-endian format.
//!
//! Mask tables are 64 consecutive 8-byte bitboards in square order. Magic
//! hash tables store, per square in order, an 8-byte entry count, the dense
//! attack array (8 bytes per entry), an 8-byte shift and an 8-byte magic
//! constant. Loading validates sizes strictly: any mismatch is a load
//! failure, never a partial table.

use vstd::prelude::*;
use crate::bitboard::Bitboard;
use crate::magic::MagicHashTable;

verus! {

/// Byte `i` (little-endian) of a 64-bit word.
pub open spec fn spec_le_byte(x: u64, i: int) -> u8 {
    (x >> ((8 * i) as u64)) as u8
}

/// The eight little-endian bytes of a 64-bit word.
pub open spec fn spec_u64_bytes(x: u64) -> Seq<u8> {
    Seq::new(8, |i: int| spec_le_byte(x, i))
}

/// The 64-bit word eight little-endian bytes denote.
pub open spec fn spec_u64_of_bytes(b: Seq<u8>) -> u64 {
    (b[0] as u64) | ((b[1] as u64) << 8) | ((b[2] as u64) << 16) | ((b[3] as u64) << 24) | ((
    b[4] as u64) << 32) | ((b[5] as u64) << 40) | ((b[6] as u64) << 48) | ((b[7] as u64) << 56)
}

/// Encoding a word and reading it back yields the word.
pub proof fn lemma_u64_le_roundtrip(x: u64)
    ensures
        spec_u64_of_bytes(spec_u64_bytes(x)) == x,
{
    let b = spec_u64_bytes(x);
    assert(((x >> 0) as u8 as u64) | (((x >> 8) as u8 as u64) << 8) | (((x >> 16) as u8 as u64)
        << 16) | (((x >> 24) as u8 as u64) << 24) | (((x >> 32) as u8 as u64) << 32) | (((x
        >> 40) as u8 as u64) << 40) | (((x >> 48) as u8 as u64) << 48) | (((x >> 56) as u8 as u64)
        << 56) == x) by (bit_vector);
}

/// Reading eight bytes as a word and encoding it again yields the bytes.
pub proof fn lemma_le_bytes_roundtrip(b: Seq<u8>)
    requires
        b.len() == 8,
    ensures
        spec_u64_bytes(spec_u64_of_bytes(b)) =~= b,
{
    let b0 = b[0];
    let b1 = b[1];
    let b2 = b[2];
    let b3 = b[3];
    let b4 = b[4];
    let b5 = b[5];
    let b6 = b[6];
    let b7 = b[7];
    let x = spec_u64_of_bytes(b);
    assert(x == (b0 as u64) | ((b1 as u64) << 8) | ((b2 as u64) << 16) | ((b3 as u64) << 24) | ((
    b4 as u64) << 32) | ((b5 as u64) << 40) | ((b6 as u64) << 48) | ((b7 as u64) << 56));
    assert((x >> 0) as u8 == b0 && (x >> 8) as u8 == b1 && (x >> 16) as u8 == b2 && (x >> 24) as u8
        == b3 && (x >> 32) as u8 == b4 && (x >> 40) as u8 == b5 && (x >> 48) as u8 == b6 && (x
        >> 56) as u8 == b7) by (bit_vector)
        requires
            x == (b0 as u64) | ((b1 as u64) << 8) | ((b2 as u64) << 16) | ((b3 as u64) << 24) | ((
            b4 as u64) << 32) | ((b5 as u64) << 40) | ((b6 as u64) << 48) | ((b7 as u64) << 56),
    ;
    assert forall|i: int| 0 <= i < 8 implies spec_u64_bytes(x)[i] == b[i] by {
        assert(spec_u64_bytes(x)[i] == spec_le_byte(x, i));
        if i == 0 {
            assert(spec_le_byte(x, 0) == (x >> 0) as u8);
        } else if i == 1 {
            assert(spec_le_byte(x, 1) == (x >> 8) as u8);
        } else if i == 2 {
            assert(spec_le_byte(x, 2) == (x >> 16) as u8);
        } else if i == 3 {
            assert(spec_le_byte(x, 3) == (x >> 24) as u8);
        } else if i == 4 {
            assert(spec_le_byte(x, 4) == (x >> 32) as u8);
        } else if i == 5 {
            assert(spec_le_byte(x, 5) == (x >> 40) as u8);
        } else if i == 6 {
            assert(spec_le_byte(x, 6) == (x >> 48) as u8);
        } else {
            assert(spec_le_byte(x, 7) == (x >> 56) as u8);
        }
    }
}

/// Append the eight little-endian bytes of `x`.
pub fn push_u64_le(out: &mut Vec<u8>, x: u64)
    ensures
        final(out)@ =~= old(out)@ + spec_u64_bytes(x),
{
    out.push((x >> 0) as u8);
    out.push((x >> 8) as u8);
    out.push((x >> 16) as u8);
    out.push((x >> 24) as u8);
    out.push((x >> 32) as u8);
    out.push((x >> 40) as u8);
    out.push((x >> 48) as u8);
    out.push((x >> 56) as u8);
}

/// Read the 64-bit word at byte offset `off`.
pub fn read_u64_le(data: &Vec<u8>, off: usize) -> (r: u64)
    requires
        off + 8 <= data@.len(),
    ensures
        r == spec_u64_of_bytes(data@.subrange(off as int, off as int + 8)),
{
    let len = data.len();
    let r = (data[off] as u64) | ((data[off + 1] as u64) << 8) | ((data[off + 2] as u64) << 16) | ((
    data[off + 3] as u64) << 24) | ((data[off + 4] as u64) << 32) | ((data[off + 5] as u64) << 40)
        | ((data[off + 6] as u64) << 48) | ((data[off + 7] as u64) << 56);
    r
}

/// The little-endian concatenation of a list of 64-bit words.
pub open spec fn spec_words_bytes(s: Seq<u64>) -> Seq<u8>
    decreases s.len(),
{
    if s.len() == 0 {
        Seq::empty()
    } else {
        spec_words_bytes(s.drop_last()) + spec_u64_bytes(s.last())
    }
}

/// A word list encodes to eight bytes per word.
pub proof fn lemma_words_bytes_len(s: Seq<u64>)
    ensures
        spec_words_bytes(s).len() == 8 * s.len(),
    decreases s.len(),
{
    if s.len() > 0 {
        lemma_words_bytes_len(s.drop_last());
    }
}

/// Word `i` of a list sits at byte offset `8 * i` of its encoding.
pub proof fn lemma_words_bytes_index(s: Seq<u64>, i: int)
    requires
        0 <= i < s.len(),
    ensures
        spec_words_bytes(s).subrange(8 * i, 8 * i + 8) =~= spec_u64_bytes(s[i]),
    decreases s.len(),
{
    lemma_words_bytes_len(s);
    lemma_words_bytes_len(s.drop_last());
    if i == s.len() - 1 {
        assert(spec_words_bytes(s) == spec_words_bytes(s.drop_last()) + spec_u64_bytes(s.last()));
    } else {
        lemma_words_bytes_index(s.drop_last(), i);
    }
}

/// Serialise a 64-entry mask table: 64 consecutive 8-byte bitboards in
/// square order.
pub fn encode_attack_masks_bin(masks: &Vec<Bitboard>) -> (out: Vec<u8>)
    requires
        masks@.len() == 64,
    ensures
        out@ == spec_words_bytes(masks@),
        out@.len() == 512,
{
    let mut out: Vec<u8> = Vec::new();
    let mut i: usize = 0;
    while i < 64
        invariant
            masks@.len() == 64,
            i <= 64,
            out@ =~= spec_words_bytes(masks@.take(i as int)),
            out@.len() == 8 * i,
        decreases 64 - i,
    {
        push_u64_le(&mut out, masks[i]);
        proof {
            assert(masks@.take(i + 1).drop_last() =~= masks@.take(i as int));
            assert(masks@.take(i + 1).last() == masks@[i as int]);
        }
        i = i + 1;
    }
    proof {
        assert(masks@.take(64) =~= masks@);
    }
    out
}

/// Load a 64-entry mask table. Succeeds exactly on inputs of 512 bytes —
/// any other size marks a corrupt asset — and then reads each square's
/// bitboard from its 8-byte little-endian slot.
pub fn load_attack_masks_bin(data: &Vec<u8>) -> (out: Option<Vec<Bitboard>>)
    ensures
        out is Some <==> data@.len() == 512,
        out matches Some(masks) ==> {
            &&& masks@.len() == 64
            &&& forall|i: int|
                0 <= i < 64 ==> #[trigger] masks@[i] == spec_u64_of_bytes(
                    data@.subrange(8 * i, 8 * i + 8),
                )
        },
{
    if data.len() != 512 {
        return None;
    }
    let mut masks: Vec<u64> = Vec::new();
    let mut i: usize = 0;
    while i < 64
        invariant
            data@.len() == 512,
            i <= 64,
            masks@.len() == i as int,
            forall|j: int|
                0 <= j < i as int ==> #[trigger] masks@[j] == spec_u64_of_bytes(
                    data@.subrange(8 * j, 8 * j + 8),
                ),
        decreases 64 - i,
    {
        let w = read_u64_le(data, 8 * i);
        masks.push(w);
        i = i + 1;
    }
    Some(masks)
}

/// Serialising a mask table and loading it back reproduces the exact 64
/// bitboards.
pub proof fn lemma_attack_masks_roundtrip(masks: Seq<u64>)
    requires
        masks.len() == 64,
    ensures
        spec_words_bytes(masks).len() == 512,
        forall|i: int|
            0 <= i < 64 ==> spec_u64_of_bytes(
                #[trigger] spec_words_bytes(masks).subrange(8 * i, 8 * i + 8),
            ) == masks[i],
{
    lemma_words_bytes_len(masks);
    assert forall|i: int|
        0 <= i < 64 implies spec_u64_of_bytes(
        #[trigger] spec_words_bytes(masks).subrange(8 * i, 8 * i + 8),
    ) == masks[i] by {
        lemma_words_bytes_index(masks, i);
        lemma_u64_le_roundtrip(masks[i]);
    }
}

/// The encoding of one square's magic hash table: entry count, dense
/// attack array, shift, magic constant, all as 8-byte words.
pub open spec fn spec_mht_bytes(t: MagicHashTable) -> Seq<u8> {
    spec_u64_bytes(t.table@.len() as u64) + spec_words_bytes(t.table@) + spec_u64_bytes(t.shift)
        + spec_u64_bytes(t.magic)
}

/// The encoding of a 64-square magic table file, square order.
pub open spec fn spec_mht_list_bytes(ts: Seq<MagicHashTable>) -> Seq<u8>
    decreases ts.len(),
{
    if ts.len() == 0 {
        Seq::empty()
    } else {
        spec_mht_list_bytes(ts.drop_last()) + spec_mht_bytes(ts.last())
    }
}

/// The concatenated encodings of the records from index `i` on.
pub open spec fn spec_mht_suffix_bytes(ts: Seq<MagicHashTable>, i: int) -> Seq<u8>
    decreases ts.len() - i,
{
    if i < 0 || i >= ts.len() {
        Seq::empty()
    } else {
        spec_mht_bytes(ts[i]) + spec_mht_suffix_bytes(ts, i + 1)
    }
}

/// One record encodes to its entry count and three trailing words.
pub proof fn lemma_mht_bytes_len(t: MagicHashTable)
    ensures
        spec_mht_bytes(t).len() == 24 + 8 * t.table@.len(),
{
    lemma_words_bytes_len(t.table@);
}

proof fn lemma_mht_suffix_snoc(ts: Seq<MagicHashTable>, i: int)
    requires
        0 <= i <= ts.len(),
        ts.len() > 0,
    ensures
        spec_mht_suffix_bytes(ts, i) =~= spec_mht_suffix_bytes(ts.drop_last(), i) + (if i
            < ts.len() {
            spec_mht_bytes(ts.last())
        } else {
            Seq::<u8>::empty()
        }),
    decreases ts.len() - i,
{
    if i >= ts.len() {
        assert(spec_mht_suffix_bytes(ts, i) =~= Seq::<u8>::empty());
        assert(spec_mht_suffix_bytes(ts.drop_last(), i) =~= Seq::<u8>::empty());
    } else if i == ts.len() - 1 {
        assert(spec_mht_suffix_bytes(ts.drop_last(), i) =~= Seq::<u8>::empty());
        assert(spec_mht_suffix_bytes(ts, i + 1) =~= Seq::<u8>::empty());
        assert(spec_mht_suffix_bytes(ts, i) == spec_mht_bytes(ts[i]) + spec_mht_suffix_bytes(
            ts,
            i + 1,
        ));
        assert(ts[i] == ts.last());
    } else {
        lemma_mht_suffix_snoc(ts, i + 1);
        assert(ts.drop_last()[i] == ts[i]);
        assert(spec_mht_suffix_bytes(ts, i) == spec_mht_bytes(ts[i]) + spec_mht_suffix_bytes(
            ts,
            i + 1,
        ));
        assert(spec_mht_suffix_bytes(ts.drop_last(), i) == spec_mht_bytes(ts.drop_last()[i])
            + spec_mht_suffix_bytes(ts.drop_last(), i + 1));
    }
}

/// The back-to-front and front-to-back formulations of a file's encoding
/// agree.
pub proof fn lemma_mht_list_bytes_is_suffix(ts: Seq<MagicHashTable>)
    ensures
        spec_mht_list_bytes(ts) =~= spec_mht_suffix_bytes(ts, 0),
    decreases ts.len(),
{
    if ts.len() == 0 {
    } else {
        lemma_mht_list_bytes_is_suffix(ts.drop_last());
        lemma_mht_suffix_snoc(ts, 0);
    }
}

/// Serialise the 64 per-square magic hash tables of one sliding piece.
pub fn encode_magic_hash_table_bin(tables: &Vec<MagicHashTable>) -> (out: Vec<u8>)
    requires
        tables@.len() == 64,
    ensures
        out@ == spec_mht_list_bytes(tables@),
{
    let mut out: Vec<u8> = Vec::new();
    let mut i: usize = 0;
    while i < 64
        invariant
            tables@.len() == 64,
            i <= 64,
            out@ =~= spec_mht_list_bytes(tables@.take(i as int)),
        decreases 64 - i,
    {
        let t = &tables[i];
        let ghost out0 = out@;
        push_u64_le(&mut out, t.table.len() as u64);
        let mut j: usize = 0;
        let ghost out1 = out@;
        while j < t.table.len()
            invariant
                j <= t.table@.len(),
                out@ =~= out1 + spec_words_bytes(t.table@.take(j as int)),
            decreases t.table@.len() - j,
        {
            push_u64_le(&mut out, t.table[j]);
            proof {
                assert(t.table@.take(j + 1).drop_last() =~= t.table@.take(j as int));
                assert(t.table@.take(j + 1).last() == t.table@[j as int]);
            }
            j = j + 1;
        }
        proof {
            assert(t.table@.take(t.table@.len() as int) =~= t.table@);
        }
        push_u64_le(&mut out, t.shift);
        push_u64_le(&mut out, t.magic);
        proof {
            assert(tables@.take(i + 1).drop_last() =~= tables@.take(i as int));
            assert(tables@.take(i + 1).last() == tables@[i as int]);
            assert(out@ =~= out0 + spec_mht_bytes(tables@[i as int]));
        }
        i = i + 1;
    }
    proof {
        assert(tables@.take(64) =~= tables@);
    }
    out
}

/// Load the 64 per-square magic hash tables of one sliding piece.
///
/// The load is strict: every length prefix must fit the remaining bytes,
/// exactly 64 records must be present and no bytes may trail them. On
/// success the returned tables re-encode byte-for-byte to the input, which
/// pins every field of every record.
#[verifier::rlimit(100)]
pub fn load_magic_hash_table_bin(data: &Vec<u8>) -> (out: Option<Vec<MagicHashTable>>)
    ensures
        (out is Some) <==> (exists|ts2: Seq<MagicHashTable>|
            ts2.len() == 64 && #[trigger] spec_mht_list_bytes(ts2) == data@),
        out matches Some(ts) ==> {
            &&& ts@.len() == 64
            &&& spec_mht_list_bytes(ts@) =~= data@
        },
{
    let ghost has_w = exists|ts2: Seq<MagicHashTable>|
        ts2.len() == 64 && #[trigger] spec_mht_list_bytes(ts2) == data@;
    let ghost tsw: Seq<MagicHashTable> = if has_w {
        choose|ts2: Seq<MagicHashTable>|
            ts2.len() == 64 && #[trigger] spec_mht_list_bytes(ts2) == data@
    } else {
        Seq::empty()
    };
    proof {
        if has_w {
            lemma_mht_list_bytes_is_suffix(tsw);
        }
    }
    let data_len = data.len();
    let mut ts: Vec<MagicHashTable> = Vec::new();
    let mut off: usize = 0;
    let mut i: usize = 0;
    while i < 64
        invariant
            i <= 64,
            ts@.len() == i as int,
            off <= data@.len(),
            data@.len() <= usize::MAX,
            data_len == data@.len(),
            spec_mht_list_bytes(ts@) =~= data@.subrange(0, off as int),
            has_w == (exists|ts2: Seq<MagicHashTable>|
                ts2.len() == 64 && #[trigger] spec_mht_list_bytes(ts2) == data@),
            has_w ==> tsw.len() == 64 && data@.subrange(off as int, data@.len() as int)
                =~= spec_mht_suffix_bytes(tsw, i as int),
        decreases 64 - i,
    {
        let ghost ts0 = ts@;
        let ghost off0 = off;
        proof {
            if has_w {
                lemma_mht_bytes_len(tsw[i as int]);
            }
        }
        if data.len() - off < 8 {
            proof {
                assert(!has_w);
            }
            return None;
        }
        let n64 = read_u64_le(data, off);
        off = off + 8;
        let remaining = data.len() - off;
        proof {
            if has_w {
                let nw = tsw[i as int].table@.len();
                assert(data@.subrange(off0 as int, data@.len() as int) =~= spec_mht_bytes(
                    tsw[i as int],
                ) + spec_mht_suffix_bytes(tsw, i + 1));
                assert(data@.subrange(off0 as int, off0 + 8) =~= spec_u64_bytes(nw as u64));
                lemma_le_bytes_roundtrip(data@.subrange(off0 as int, off0 + 8));
                lemma_u64_le_roundtrip(nw as u64);
                assert(nw <= usize::MAX) by {
                    assert(vstd::std_specs::vec::spec_vec_len(&tsw[i as int].table)
                        == tsw[i as int].table@.len());
                }
                assert(n64 == nw);
                let rest_len = spec_mht_suffix_bytes(tsw, i + 1).len() as int;
                assert(data@.len() - off0 == 24 + 8 * nw + rest_len);
                assert(remaining == 16 + 8 * nw + rest_len);
                assert(((remaining - 16) as int) / 8 == (8 * nw + rest_len) / 8);
                assert((8 * (nw as int) + rest_len) / 8 >= nw as int) by (nonlinear_arith)
                    requires
                        rest_len >= 0,
                        nw as int >= 0,
                ;
            }
        }
        if remaining < 16 {
            proof {
                assert(!has_w);
            }
            return None;
        }
        if n64 > ((remaining - 16) / 8) as u64 {
            proof {
                assert(!has_w);
            }
            return None;
        }
        let n = n64 as usize;
        let mut table: Vec<u64> = Vec::new();
        let mut j: usize = 0;
        while j < n
            invariant
                j <= n,
                n == n64,
                off0 + 8 == off - 8 * j,
                off0 + 8 + 8 * n + 16 <= data@.len(),
                data@.len() <= usize::MAX,
                table@.len() == j as int,
                spec_words_bytes(table@) =~= data@.subrange(off0 + 8, off as int),
                has_w ==> tsw.len() == 64 && (i as int) < 64 && n64 as int
                    == tsw[i as int].table@.len() && data@.subrange(off0 as int, data@.len() as int)
                    =~= spec_mht_bytes(tsw[i as int]) + spec_mht_suffix_bytes(tsw, i as int + 1),
            decreases n - j,
        {
            let ghost tb0 = table@;
            let w = read_u64_le(data, off);
            table.push(w);
            proof {
                lemma_le_bytes_roundtrip(data@.subrange(off as int, off as int + 8));
                assert(table@.drop_last() =~= tb0);
                assert(spec_words_bytes(table@) == spec_words_bytes(table@.drop_last())
                    + spec_u64_bytes(w));
                assert(spec_u64_bytes(w) =~= data@.subrange(off as int, off as int + 8));
                assert(spec_words_bytes(table@) =~= data@.subrange(off0 + 8, off as int + 8));
            }
            off = off + 8;
            j = j + 1;
        }
        let ghost off_tbl_end = off as int;
        let shift = read_u64_le(data, off);
        off = off + 8;
        let magic = read_u64_le(data, off);
        off = off + 8;
        let t = MagicHashTable { magic, shift, table };
        proof {
            lemma_le_bytes_roundtrip(data@.subrange(off0 as int, off0 + 8));
            lemma_le_bytes_roundtrip(data@.subrange(off_tbl_end, off_tbl_end + 8));
            lemma_le_bytes_roundtrip(data@.subrange(off_tbl_end + 8, off_tbl_end + 16));
            assert(t.table@.len() as u64 == n64);
            assert(spec_u64_bytes(t.table@.len() as u64) =~= data@.subrange(off0 as int, off0 + 8));
            assert(spec_words_bytes(t.table@) =~= data@.subrange(off0 + 8, off_tbl_end));
            assert(spec_u64_bytes(t.shift) =~= data@.subrange(off_tbl_end, off_tbl_end + 8));
            assert(spec_u64_bytes(t.magic) =~= data@.subrange(off_tbl_end + 8, off_tbl_end + 16));
            assert(spec_mht_bytes(t) =~= data@.subrange(off0 as int, off as int));
            assert(ts@.push(t).drop_last() =~= ts@);
            assert(spec_mht_list_bytes(ts@.push(t)) == spec_mht_list_bytes(ts@) + spec_mht_bytes(
                t,
            ));
            assert(spec_mht_list_bytes(ts@.push(t)) =~= data@.subrange(0, off as int));
            if has_w {
                lemma_mht_bytes_len(tsw[i as int]);
                assert(off as int - off0 == 24 + 8 * (n as int));
                assert(n64 as int == tsw[i as int].table@.len());
                assert(off - off0 == spec_mht_bytes(tsw[i as int]).len());
                let whole = data@.subrange(off0 as int, data@.len() as int);
                let head = spec_mht_bytes(tsw[i as int]);
                let rest = spec_mht_suffix_bytes(tsw, i as int + 1);
                assert(whole == head + rest);
                assert forall|k: int| 0 <= k < data@.len() - off implies data@.subrange(
                    off as int,
                    data@.len() as int,
                )[k] == rest[k] by {
                    assert(whole[(off - off0) + k] == rest[k]);
                    assert(whole[(off - off0) + k] == data@[off + k]);
                    assert(data@.subrange(off as int, data@.len() as int)[k] == data@[off + k]);
                }
                assert(data@.subrange(off as int, data@.len() as int) =~= spec_mht_suffix_bytes(
                    tsw,
                    i + 1,
                ));
            }
        }
        ts.push(t);
        i = i + 1;
    }
    if off != data.len() {
        proof {
            if has_w {
                assert(spec_mht_suffix_bytes(tsw, 64) =~= Seq::<u8>::empty());
                assert(data@.subrange(off as int, data@.len() as int).len() == 0);
            }
            assert(!has_w);
        }
        return None;
    }
    proof {
        assert(data@.subrange(0, data@.len() as int) =~= data@);
        assert(spec_mht_list_bytes(ts@) == data@);
    }
    Some(ts)
}

} // verus!
