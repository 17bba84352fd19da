//! The codec's laws: statements that tie the encoder, the extension codec
//! and the validator together, proved once over every input.

use vstd::prelude::*;
use crate::io::{be_u16, be_u32, be_u64};
use crate::msgpack::encode::{be2_of, be4_of, be8_of, enc_ext, enc_int, enc_uint};
use crate::fragment::Fragment;
use crate::msgpack::ext::{ext_parse, ts_payload, ts_read, ts_unpack};
use crate::msgpack::serializer::{enc, enc_list, Value};
use crate::msgpack::marker::{marker_of, Marker};
use crate::msgpack::validator::{
    lemma_scan_bounds, lemma_scan_seq_bounds, scan_ext, scan_fixed, scan_full, scan_seq, scan_str,
    scan_value, valid_doc, Error,
};

verus! {

/// True of a marker that begins an array or a map.
pub open spec fn is_container_marker(m: Marker) -> bool {
    m matches Marker::FixArray(_) || m is Array16 || m is Array32
        || m matches Marker::FixMap(_) || m is Map16 || m is Map32
}



/// Byte agreement between two spans survives moving the left edge inward.
proof fn lemma_shift_correspondence(b1: Seq<u8>, p1: int, b2: Seq<u8>, p2: int, lo: int, hi: int)
    requires
        0 <= lo,
        forall|k: int| 0 <= k < hi ==> b1[p1 + k] == #[trigger] b2[p2 + k],
    ensures
        forall|k: int| 0 <= k < hi - lo ==> b1[(p1 + lo) + k] == #[trigger] b2[(p2 + lo) + k],
{
    assert forall|k: int| 0 <= k < hi - lo implies b1[(p1 + lo) + k] == #[trigger] b2[(p2 + lo)
        + k] by {
        assert(b1[p1 + (lo + k)] == b2[p2 + (lo + k)]);
    }
}

/// Frame property for a string payload check.
#[verifier::rlimit(100)]
proof fn lemma_scan_str_frame(b1: Seq<u8>, q1: int, b2: Seq<u8>, q2: int, n: int, end1: int)
    requires
        0 <= q1,
        0 <= q2,
        0 <= n,
        scan_str(b1, q1, n) == Ok::<int, Error>(end1),
        q2 + (end1 - q1) <= b2.len(),
        forall|k: int| 0 <= k < end1 - q1 ==> b1[q1 + k] == #[trigger] b2[q2 + k],
    ensures
        scan_str(b2, q2, n) == Ok::<int, Error>(q2 + (end1 - q1)),
{
    assert(end1 == q1 + n);
    assert forall|j: int| 0 <= j < n implies b1.subrange(q1, end1)[j] == #[trigger] b2.subrange(
        q2,
        q2 + n,
    )[j] by {
        assert(b1[q1 + j] == b2[q2 + j]);
    }
    assert(b2.subrange(q2, q2 + n) =~= b1.subrange(q1, end1));
}

/// Frame property for an ext body check, the timestamp extension included.
#[verifier::rlimit(100)]
proof fn lemma_scan_ext_frame(b1: Seq<u8>, q1: int, b2: Seq<u8>, q2: int, n: int, end1: int)
    requires
        0 <= q1,
        0 <= q2,
        0 <= n,
        scan_ext(b1, q1, n) == Ok::<int, Error>(end1),
        q2 + (end1 - q1) <= b2.len(),
        forall|k: int| 0 <= k < end1 - q1 ==> b1[q1 + k] == #[trigger] b2[q2 + k],
    ensures
        scan_ext(b2, q2, n) == Ok::<int, Error>(q2 + (end1 - q1)),
{
    let d = end1 - q1;
    assert(b2[q2 + 0] == b1[q1 + 0]);
    if b1[q1] as i8 == -1 {
        assert(ts_read(b1, q1 + 1, n) matches Ok((t, e)) && e == end1);
        assert(n == 4 || n == 8 || n == 12);
        assert forall|j: int| 0 <= j < n implies b1.subrange(q1 + 1, q1 + 1 + n)[j]
            == #[trigger] b2.subrange(q2 + 1, q2 + 1 + n)[j] by {
            assert(b1[q1 + (1 + j)] == b2[q2 + (1 + j)]);
        }
        assert(b2.subrange(q2 + 1, q2 + 1 + n) =~= b1.subrange(q1 + 1, q1 + 1 + n));
    }
}

/// Frame property for string values.
#[verifier::rlimit(100)]
proof fn lemma_scan_frame_str(b1: Seq<u8>, p1: int, b2: Seq<u8>, p2: int, rec: int, end1: int)
    requires
        0 <= p1,
        0 <= p2,
        scan_value(b1, p1, rec) == Ok::<int, Error>(end1),
        marker_of(b1[p1]) matches Marker::FixStr(_) || marker_of(b1[p1]) is Str8 || marker_of(
            b1[p1],
        ) is Str16 || marker_of(b1[p1]) is Str32,
        p2 + (end1 - p1) <= b2.len(),
        forall|k: int| 0 <= k < end1 - p1 ==> b1[p1 + k] == #[trigger] b2[p2 + k],
    ensures
        scan_value(b2, p2, rec) == Ok::<int, Error>(p2 + (end1 - p1)),
{
    lemma_scan_bounds(b1, p1, rec);
    let d = end1 - p1;
    assert(b2[p2 + 0] == b1[p1 + 0]);
    assert(marker_of(b2[p2]) == marker_of(b1[p1]));
    let (hdr, n): (int, int) = match marker_of(b1[p1]) {
        Marker::FixStr(c) => (1, c as int),
        Marker::Str8 => (2, b1[p1 + 1] as int),
        Marker::Str16 => (3, be_u16(b1, p1 + 1) as int),
        _ => (5, be_u32(b1, p1 + 1) as int),
    };
    assert(scan_str(b1, p1 + hdr, n) == Ok::<int, Error>(end1));
    lemma_shift_correspondence(b1, p1, b2, p2, hdr, d);
    lemma_scan_str_frame(b1, p1 + hdr, b2, p2 + hdr, n, end1);
    match marker_of(b1[p1]) {
        Marker::FixStr(c) => {
            assert(scan_value(b2, p2, rec) == scan_str(b2, p2 + 1, c as int));
        },
        Marker::Str8 => {
            assert(b2[p2 + 1] == b1[p1 + 1]);
            assert(scan_value(b2, p2, rec) == scan_str(b2, p2 + 2, b2[p2 + 1] as int));
        },
        Marker::Str16 => {
            assert(b2[p2 + 1] == b1[p1 + 1] && b2[p2 + 2] == b1[p1 + 2]);
            assert(scan_value(b2, p2, rec) == scan_str(b2, p2 + 3, be_u16(b2, p2 + 1) as int));
        },
        _ => {
            assert(b2[p2 + 1] == b1[p1 + 1] && b2[p2 + 2] == b1[p1 + 2] && b2[p2 + 3] == b1[p1
                + 3] && b2[p2 + 4] == b1[p1 + 4]);
            assert(scan_value(b2, p2, rec) == scan_str(b2, p2 + 5, be_u32(b2, p2 + 1) as int));
        },
    }
}

/// Frame property for ext values.
#[verifier::rlimit(100)]
proof fn lemma_scan_frame_ext(b1: Seq<u8>, p1: int, b2: Seq<u8>, p2: int, rec: int, end1: int)
    requires
        0 <= p1,
        0 <= p2,
        scan_value(b1, p1, rec) == Ok::<int, Error>(end1),
        marker_of(b1[p1]) is FixExt1 || marker_of(b1[p1]) is FixExt2 || marker_of(b1[p1])
            is FixExt4 || marker_of(b1[p1]) is FixExt8 || marker_of(b1[p1]) is FixExt16
            || marker_of(b1[p1]) is Ext8 || marker_of(b1[p1]) is Ext16 || marker_of(b1[p1])
            is Ext32,
        p2 + (end1 - p1) <= b2.len(),
        forall|k: int| 0 <= k < end1 - p1 ==> b1[p1 + k] == #[trigger] b2[p2 + k],
    ensures
        scan_value(b2, p2, rec) == Ok::<int, Error>(p2 + (end1 - p1)),
{
    lemma_scan_bounds(b1, p1, rec);
    let d = end1 - p1;
    assert(b2[p2 + 0] == b1[p1 + 0]);
    assert(marker_of(b2[p2]) == marker_of(b1[p1]));
    let (hdr, n): (int, int) = match marker_of(b1[p1]) {
        Marker::FixExt1 => (1, 1),
        Marker::FixExt2 => (1, 2),
        Marker::FixExt4 => (1, 4),
        Marker::FixExt8 => (1, 8),
        Marker::FixExt16 => (1, 16),
        Marker::Ext8 => (2, b1[p1 + 1] as int),
        Marker::Ext16 => (3, be_u16(b1, p1 + 1) as int),
        _ => (5, be_u32(b1, p1 + 1) as int),
    };
    assert(scan_ext(b1, p1 + hdr, n) == Ok::<int, Error>(end1));
    lemma_shift_correspondence(b1, p1, b2, p2, hdr, d);
    lemma_scan_ext_frame(b1, p1 + hdr, b2, p2 + hdr, n, end1);
    match marker_of(b1[p1]) {
        Marker::Ext8 => {
            assert(b2[p2 + 1] == b1[p1 + 1]);
            assert(scan_value(b2, p2, rec) == scan_ext(b2, p2 + 2, b2[p2 + 1] as int));
        },
        Marker::Ext16 => {
            assert(b2[p2 + 1] == b1[p1 + 1] && b2[p2 + 2] == b1[p1 + 2]);
            assert(scan_value(b2, p2, rec) == scan_ext(b2, p2 + 3, be_u16(b2, p2 + 1) as int));
        },
        Marker::Ext32 => {
            assert(b2[p2 + 1] == b1[p1 + 1] && b2[p2 + 2] == b1[p1 + 2] && b2[p2 + 3] == b1[p1
                + 3] && b2[p2 + 4] == b1[p1 + 4]);
            assert(scan_value(b2, p2, rec) == scan_ext(b2, p2 + 5, be_u32(b2, p2 + 1) as int));
        },
        _ => {
            assert(scan_value(b2, p2, rec) == scan_ext(b2, p2 + 1, n));
        },
    }
}

/// Frame property for the remaining childless values: scalars, fixed-width
/// numbers and binary blobs, whose scans depend on byte counts and at most
/// the length prefix.
#[verifier::rlimit(100)]
proof fn lemma_scan_frame_simple(b1: Seq<u8>, p1: int, b2: Seq<u8>, p2: int, rec: int, end1: int)
    requires
        0 <= p1,
        0 <= p2,
        scan_value(b1, p1, rec) == Ok::<int, Error>(end1),
        !is_container_marker(marker_of(b1[p1])),
        !(marker_of(b1[p1]) matches Marker::FixStr(_) || marker_of(b1[p1]) is Str8 || marker_of(
            b1[p1],
        ) is Str16 || marker_of(b1[p1]) is Str32),
        !(marker_of(b1[p1]) is FixExt1 || marker_of(b1[p1]) is FixExt2 || marker_of(b1[p1])
            is FixExt4 || marker_of(b1[p1]) is FixExt8 || marker_of(b1[p1]) is FixExt16
            || marker_of(b1[p1]) is Ext8 || marker_of(b1[p1]) is Ext16 || marker_of(b1[p1])
            is Ext32),
        p2 + (end1 - p1) <= b2.len(),
        forall|k: int| 0 <= k < end1 - p1 ==> b1[p1 + k] == #[trigger] b2[p2 + k],
    ensures
        scan_value(b2, p2, rec) == Ok::<int, Error>(p2 + (end1 - p1)),
{
    lemma_scan_bounds(b1, p1, rec);
    assert(b2[p2 + 0] == b1[p1 + 0]);
    assert(marker_of(b2[p2]) == marker_of(b1[p1]));
    match marker_of(b1[p1]) {
        Marker::U8 | Marker::I8 => {
            assert(scan_fixed(b1, p1 + 1, 1) == Ok::<int, Error>(end1));
            assert(scan_value(b2, p2, rec) == scan_fixed(b2, p2 + 1, 1));
        },
        Marker::U16 | Marker::I16 => {
            assert(scan_fixed(b1, p1 + 1, 2) == Ok::<int, Error>(end1));
            assert(scan_value(b2, p2, rec) == scan_fixed(b2, p2 + 1, 2));
        },
        Marker::U32 | Marker::I32 | Marker::F32 => {
            assert(scan_fixed(b1, p1 + 1, 4) == Ok::<int, Error>(end1));
            assert(scan_value(b2, p2, rec) == scan_fixed(b2, p2 + 1, 4));
        },
        Marker::U64 | Marker::I64 | Marker::F64 => {
            assert(scan_fixed(b1, p1 + 1, 8) == Ok::<int, Error>(end1));
            assert(scan_value(b2, p2, rec) == scan_fixed(b2, p2 + 1, 8));
        },
        Marker::Bin8 => {
            assert(scan_fixed(b1, p1 + 2, b1[p1 + 1] as int) == Ok::<int, Error>(end1));
            assert(b2[p2 + 1] == b1[p1 + 1]);
            assert(scan_value(b2, p2, rec) == scan_fixed(b2, p2 + 2, b2[p2 + 1] as int));
        },
        Marker::Bin16 => {
            assert(scan_fixed(b1, p1 + 3, be_u16(b1, p1 + 1) as int) == Ok::<int, Error>(end1));
            assert(b2[p2 + 1] == b1[p1 + 1] && b2[p2 + 2] == b1[p1 + 2]);
            assert(be_u16(b2, p2 + 1) == be_u16(b1, p1 + 1));
            assert(scan_value(b2, p2, rec) == scan_fixed(b2, p2 + 3, be_u16(b2, p2 + 1) as int));
        },
        Marker::Bin32 => {
            assert(scan_fixed(b1, p1 + 5, be_u32(b1, p1 + 1) as int) == Ok::<int, Error>(end1));
            assert(b2[p2 + 1] == b1[p1 + 1] && b2[p2 + 2] == b1[p1 + 2] && b2[p2 + 3] == b1[p1
                + 3] && b2[p2 + 4] == b1[p1 + 4]);
            assert(be_u32(b2, p2 + 1) == be_u32(b1, p1 + 1));
            assert(scan_value(b2, p2, rec) == scan_fixed(b2, p2 + 5, be_u32(b2, p2 + 1) as int));
        },
        _ => {},
    }
}

/// Frame property for arrays.
#[verifier::rlimit(100)]
proof fn lemma_scan_frame_arrays(b1: Seq<u8>, p1: int, b2: Seq<u8>, p2: int, rec: int, end1: int)
    requires
        0 <= p1,
        0 <= p2,
        scan_value(b1, p1, rec) == Ok::<int, Error>(end1),
        marker_of(b1[p1]) matches Marker::FixArray(_) || marker_of(b1[p1]) is Array16
            || marker_of(b1[p1]) is Array32,
        p2 + (end1 - p1) <= b2.len(),
        forall|k: int| 0 <= k < end1 - p1 ==> b1[p1 + k] == #[trigger] b2[p2 + k],
    ensures
        scan_value(b2, p2, rec) == Ok::<int, Error>(p2 + (end1 - p1)),
    decreases 255 - rec, 2int,
{
    lemma_scan_bounds(b1, p1, rec);
    let d = end1 - p1;
    assert(b2[p2 + 0] == b1[p1 + 0]);
    assert(marker_of(b2[p2]) == marker_of(b1[p1]));
    let (hdr, count): (int, int) = match marker_of(b1[p1]) {
        Marker::FixArray(c) => (1, c as int),
        Marker::Array16 => (3, be_u16(b1, p1 + 1) as int),
        _ => (5, be_u32(b1, p1 + 1) as int),
    };
    assert(scan_seq(b1, p1 + hdr, count, rec + 1) == Ok::<int, Error>(end1));
    lemma_scan_seq_bounds(b1, p1 + hdr, count, rec + 1);
    lemma_shift_correspondence(b1, p1, b2, p2, hdr, d);
    lemma_scan_seq_frame(b1, p1 + hdr, b2, p2 + hdr, count, rec + 1, end1);
    match marker_of(b1[p1]) {
        Marker::FixArray(c) => {
            assert(scan_value(b2, p2, rec) == scan_seq(b2, p2 + 1, c as int, rec + 1));
        },
        Marker::Array16 => {
            assert(b2[p2 + 1] == b1[p1 + 1] && b2[p2 + 2] == b1[p1 + 2]);
            assert(scan_value(b2, p2, rec) == scan_seq(
                b2,
                p2 + 3,
                be_u16(b2, p2 + 1) as int,
                rec + 1,
            ));
        },
        _ => {
            assert(b2[p2 + 1] == b1[p1 + 1] && b2[p2 + 2] == b1[p1 + 2] && b2[p2 + 3] == b1[p1
                + 3] && b2[p2 + 4] == b1[p1 + 4]);
            assert(scan_value(b2, p2, rec) == scan_seq(
                b2,
                p2 + 5,
                be_u32(b2, p2 + 1) as int,
                rec + 1,
            ));
        },
    }
}

/// Frame property for maps.
#[verifier::rlimit(100)]
proof fn lemma_scan_frame_maps(b1: Seq<u8>, p1: int, b2: Seq<u8>, p2: int, rec: int, end1: int)
    requires
        0 <= p1,
        0 <= p2,
        scan_value(b1, p1, rec) == Ok::<int, Error>(end1),
        marker_of(b1[p1]) matches Marker::FixMap(_) || marker_of(b1[p1]) is Map16 || marker_of(
            b1[p1],
        ) is Map32,
        p2 + (end1 - p1) <= b2.len(),
        forall|k: int| 0 <= k < end1 - p1 ==> b1[p1 + k] == #[trigger] b2[p2 + k],
    ensures
        scan_value(b2, p2, rec) == Ok::<int, Error>(p2 + (end1 - p1)),
    decreases 255 - rec, 2int,
{
    lemma_scan_bounds(b1, p1, rec);
    let d = end1 - p1;
    assert(b2[p2 + 0] == b1[p1 + 0]);
    assert(marker_of(b2[p2]) == marker_of(b1[p1]));
    let (hdr, count): (int, int) = match marker_of(b1[p1]) {
        Marker::FixMap(c) => (1, 2 * (c as int)),
        Marker::Map16 => (3, 2 * (be_u16(b1, p1 + 1) as int)),
        _ => (5, 2 * (be_u32(b1, p1 + 1) as int)),
    };
    assert(scan_seq(b1, p1 + hdr, count, rec + 1) == Ok::<int, Error>(end1));
    lemma_scan_seq_bounds(b1, p1 + hdr, count, rec + 1);
    lemma_shift_correspondence(b1, p1, b2, p2, hdr, d);
    lemma_scan_seq_frame(b1, p1 + hdr, b2, p2 + hdr, count, rec + 1, end1);
    match marker_of(b1[p1]) {
        Marker::FixMap(c) => {
            assert(scan_value(b2, p2, rec) == scan_seq(b2, p2 + 1, 2 * (c as int), rec + 1));
        },
        Marker::Map16 => {
            assert(b2[p2 + 1] == b1[p1 + 1] && b2[p2 + 2] == b1[p1 + 2]);
            assert(scan_value(b2, p2, rec) == scan_seq(
                b2,
                p2 + 3,
                2 * (be_u16(b2, p2 + 1) as int),
                rec + 1,
            ));
        },
        _ => {
            assert(b2[p2 + 1] == b1[p1 + 1] && b2[p2 + 2] == b1[p1 + 2] && b2[p2 + 3] == b1[p1
                + 3] && b2[p2 + 4] == b1[p1 + 4]);
            assert(scan_value(b2, p2, rec) == scan_seq(
                b2,
                p2 + 5,
                2 * (be_u32(b2, p2 + 1) as int),
                rec + 1,
            ));
        },
    }
}

/// A scan reads nothing outside the value it consumes: a value that scans
/// to `end1` in one buffer scans the same way wherever the same bytes stand
/// in another buffer.
#[verifier::rlimit(100)]
pub proof fn lemma_scan_frame(b1: Seq<u8>, p1: int, b2: Seq<u8>, p2: int, rec: int, end1: int)
    requires
        0 <= p1,
        0 <= p2,
        scan_value(b1, p1, rec) == Ok::<int, Error>(end1),
        p2 + (end1 - p1) <= b2.len(),
        forall|k: int| 0 <= k < end1 - p1 ==> b1[p1 + k] == #[trigger] b2[p2 + k],
    ensures
        scan_value(b2, p2, rec) == Ok::<int, Error>(p2 + (end1 - p1)),
    decreases 255 - rec, 3int,
{
    lemma_scan_bounds(b1, p1, rec);
    match marker_of(b1[p1]) {
        Marker::FixArray(_) | Marker::Array16 | Marker::Array32 => {
            lemma_scan_frame_arrays(b1, p1, b2, p2, rec, end1);
        },
        Marker::FixMap(_) | Marker::Map16 | Marker::Map32 => {
            lemma_scan_frame_maps(b1, p1, b2, p2, rec, end1);
        },
        Marker::FixStr(_) | Marker::Str8 | Marker::Str16 | Marker::Str32 => {
            lemma_scan_frame_str(b1, p1, b2, p2, rec, end1);
        },
        Marker::FixExt1 | Marker::FixExt2 | Marker::FixExt4 | Marker::FixExt8
            | Marker::FixExt16 | Marker::Ext8 | Marker::Ext16 | Marker::Ext32 => {
            lemma_scan_frame_ext(b1, p1, b2, p2, rec, end1);
        },
        _ => {
            lemma_scan_frame_simple(b1, p1, b2, p2, rec, end1);
        },
    }
}

/// A run of values reads nothing outside the span it consumes.
#[verifier::rlimit(100)]
#[verifier::spinoff_prover]
pub proof fn lemma_scan_seq_frame(
    b1: Seq<u8>,
    p1: int,
    b2: Seq<u8>,
    p2: int,
    count: int,
    rec: int,
    end1: int,
)
    requires
        0 <= p1,
        0 <= p2,
        scan_seq(b1, p1, count, rec) == Ok::<int, Error>(end1),
        p2 + (end1 - p1) <= b2.len(),
        forall|k: int| 0 <= k < end1 - p1 ==> b1[p1 + k] == #[trigger] b2[p2 + k],
    ensures
        scan_seq(b2, p2, count, rec) == Ok::<int, Error>(p2 + (end1 - p1)),
    decreases 255 - rec, count + 4,
{
    if count <= 0 {
    } else {
        let e = scan_value(b1, p1, rec)->Ok_0;
        lemma_scan_bounds(b1, p1, rec);
        lemma_scan_seq_bounds(b1, e, count - 1, rec);
        lemma_scan_frame(b1, p1, b2, p2, rec, e);
        let d = e - p1;
        assert forall|k: int| 0 <= k < end1 - e implies b1[e + k] == #[trigger] b2[(p2 + d)
            + k] by {
            assert(b1[p1 + (d + k)] == b2[p2 + (d + k)]);
        }
        lemma_scan_seq_frame(b1, e, b2, p2 + d, count - 1, rec, end1);
    }
}

/// Reading back the two big-endian bytes of a 16-bit value gives the value.
pub proof fn lemma_be2_recompose(b: Seq<u8>, pos: int, v: u16)
    requires
        0 <= pos,
        pos + 2 <= b.len(),
        b.subrange(pos, pos + 2) =~= be2_of(v),
    ensures
        be_u16(b, pos) == v,
{
    let b0 = (v >> 8) as u8;
    let b1 = v as u8;
    assert(b.subrange(pos, pos + 2)[0] == b[pos]);
    assert(b.subrange(pos, pos + 2)[1] == b[pos + 1]);
    assert(((b0 as u16) << 8 | (b1 as u16)) == v) by (bit_vector)
        requires
            b0 == (v >> 8) as u8,
            b1 == v as u8,
    ;
}

/// Reading back the four big-endian bytes of a 32-bit value gives the value.
pub proof fn lemma_be4_recompose(b: Seq<u8>, pos: int, v: u32)
    requires
        0 <= pos,
        pos + 4 <= b.len(),
        b.subrange(pos, pos + 4) =~= be4_of(v),
    ensures
        be_u32(b, pos) == v,
{
    let b0 = (v >> 24) as u8;
    let b1 = (v >> 16) as u8;
    let b2 = (v >> 8) as u8;
    let b3 = v as u8;
    assert(b.subrange(pos, pos + 4)[0] == b[pos]);
    assert(b.subrange(pos, pos + 4)[1] == b[pos + 1]);
    assert(b.subrange(pos, pos + 4)[2] == b[pos + 2]);
    assert(b.subrange(pos, pos + 4)[3] == b[pos + 3]);
    assert(((b0 as u32) << 24 | (b1 as u32) << 16 | (b2 as u32) << 8 | (b3 as u32)) == v)
        by (bit_vector)
        requires
            b0 == (v >> 24) as u8,
            b1 == (v >> 16) as u8,
            b2 == (v >> 8) as u8,
            b3 == v as u8,
    ;
}

/// Reading back the eight big-endian bytes of a 64-bit value gives the
/// value.
pub proof fn lemma_be8_recompose(b: Seq<u8>, pos: int, v: u64)
    requires
        0 <= pos,
        pos + 8 <= b.len(),
        b.subrange(pos, pos + 8) =~= be8_of(v),
    ensures
        be_u64(b, pos) == v,
{
    let b0 = (v >> 56) as u8;
    let b1 = (v >> 48) as u8;
    let b2 = (v >> 40) as u8;
    let b3 = (v >> 32) as u8;
    let b4 = (v >> 24) as u8;
    let b5 = (v >> 16) as u8;
    let b6 = (v >> 8) as u8;
    let b7 = v as u8;
    assert(b.subrange(pos, pos + 8)[0] == b[pos]);
    assert(b.subrange(pos, pos + 8)[1] == b[pos + 1]);
    assert(b.subrange(pos, pos + 8)[2] == b[pos + 2]);
    assert(b.subrange(pos, pos + 8)[3] == b[pos + 3]);
    assert(b.subrange(pos, pos + 8)[4] == b[pos + 4]);
    assert(b.subrange(pos, pos + 8)[5] == b[pos + 5]);
    assert(b.subrange(pos, pos + 8)[6] == b[pos + 6]);
    assert(b.subrange(pos, pos + 8)[7] == b[pos + 7]);
    assert(((b0 as u64) << 56 | (b1 as u64) << 48 | (b2 as u64) << 40 | (b3 as u64) << 32 | (
    b4 as u64) << 24 | (b5 as u64) << 16 | (b6 as u64) << 8 | (b7 as u64)) == v) by (bit_vector)
        requires
            b0 == (v >> 56) as u8,
            b1 == (v >> 48) as u8,
            b2 == (v >> 40) as u8,
            b3 == (v >> 32) as u8,
            b4 == (v >> 24) as u8,
            b5 == (v >> 16) as u8,
            b6 == (v >> 8) as u8,
            b7 == v as u8,
    ;
}

/// Minimal-width law: the integer 127 takes the one-byte positive fixint
/// form with no payload; 128 takes the two-byte `U8` form; -1 takes the
/// one-byte negative fixint form, not the `I8` form.
pub proof fn lemma_minimal_width()
    ensures
        enc_uint(127) =~= seq![0x7fu8],
        enc_uint(128) =~= seq![0xccu8, 0x80u8],
        enc_int(127i64) =~= seq![0x7fu8],
        enc_int(-1i64) =~= seq![0xffu8],
{
    assert(((-1i64) as u8) == 0xffu8) by (bit_vector);
}

/// Ext round-trip law: a payload of any length the wire format can carry,
/// encoded under any tag, parses back to exactly that tag and payload.
pub proof fn lemma_ext_round_trip(tag: i8, p: Seq<u8>)
    requires
        p.len() <= 0xffff_ffff,
    ensures
        ext_parse(enc_ext(tag, p)) == Some((tag, p)),
{
    let b = enc_ext(tag, p);
    let n = p.len() as int;
    assert((tag as u8) as i8 == tag) by (bit_vector);
    if n == 1 || n == 2 || n == 4 || n == 8 || n == 16 {
        assert(b.subrange(2, b.len() as int) =~= p);
    } else if n < 0x100 {
        assert(b.subrange(3, b.len() as int) =~= p);
        assert(b[1] == n as u8);
    } else if n < 0x1_0000 {
        let v = n as u16;
        assert(b.subrange(1, 3) =~= be2_of(v));
        lemma_be2_recompose(b, 1, v);
        assert(b.subrange(4, b.len() as int) =~= p);
    } else {
        let v = n as u32;
        assert(b.subrange(1, 5) =~= be4_of(v));
        lemma_be4_recompose(b, 1, v);
        assert(b.subrange(6, b.len() as int) =~= p);
    }
}

/// Timestamp round-trip law: packing a pair of seconds and in-range
/// nanoseconds and unpacking the payload gives the pair back, and the
/// packed width is 4 bytes exactly when the seconds fit 32 bits unsigned
/// with zero nanoseconds, 8 bytes exactly when the seconds fit 34 bits
/// unsigned otherwise, and 12 bytes in every remaining case.
pub proof fn lemma_timestamp_round_trip(s: i64, ns: u32)
    requires
        ns < 1_000_000_000,
    ensures
        ts_unpack(ts_payload(s, ns)) == Some((s, ns)),
        ts_payload(s, ns).len() == 4 <==> (0 <= s <= 0xffff_ffff && ns == 0),
        ts_payload(s, ns).len() == 8 <==> (0 <= s < 0x4_0000_0000 && !(0 <= s <= 0xffff_ffff
            && ns == 0)),
        ts_payload(s, ns).len() == 12 <==> !(0 <= s < 0x4_0000_0000),
{
    if 0 <= s < 0x4_0000_0000 {
        let su = s as u64;
        let nsu = ns as u64;
        let v = ((nsu << 34) | su) as u64;
        assert((v & 0x3_ffff_ffff) == su && (v >> 34) == nsu && (v <= 0xffff_ffff <==> (nsu == 0
            && su <= 0xffff_ffff))) by (bit_vector)
            requires
                su < 0x4_0000_0000,
                nsu < 0x4000_0000,
                v == ((nsu << 34) | su),
        ;
        if v <= 0xffff_ffff {
            let t = v as u32;
            let b = be4_of(t);
            assert(b.subrange(0, 4) =~= be4_of(t));
            lemma_be4_recompose(b, 0, t);
            assert(ns == 0);
            assert(v == su) by (bit_vector)
                requires
                    v == ((nsu << 34) | su),
                    nsu == 0,
            ;
            assert(t as i64 == s);
        } else {
            let b = be8_of(v);
            assert(b.subrange(0, 8) =~= be8_of(v));
            lemma_be8_recompose(b, 0, v);
            assert((v & 0x3_ffff_ffff) as i64 == s) by (bit_vector)
                requires
                    su < 0x4_0000_0000,
                    (v & 0x3_ffff_ffff) == su,
                    su == s as u64,
                    s >= 0,
            ;
            assert((v >> 34) as u32 == ns);
        }
    } else {
        let su = #[verifier::truncate] (s as u64);
        let b = be4_of(ns) + be8_of(su);
        assert(b.subrange(0, 4) =~= be4_of(ns));
        lemma_be4_recompose(b, 0, ns);
        assert(b.subrange(4, 12) =~= be8_of(su));
        lemma_be8_recompose(b, 4, su);
        assert(su as i64 == s) by (bit_vector)
            requires
                su == s as u64,
        ;
    }
}


/// Trailing-data rejection law: a buffer made of two complete documents is
/// rejected as an invalid value, even though each half validates on its own.
pub proof fn lemma_trailing_data_rejected(b1: Seq<u8>, b2: Seq<u8>)
    requires
        valid_doc(b1),
        valid_doc(b2),
    ensures
        scan_full(b1 + b2, 0, 0) == Err::<int, Error>(Error::InvalidValue),
{
    let b = b1 + b2;
    lemma_scan_bounds(b2, 0, 0);
    assert forall|k: int| 0 <= k < b1.len() as int implies b1[0 + k] == #[trigger] b[0 + k] by {
        assert(b[k] == b1[k]);
    }
    lemma_scan_frame(b1, 0, b, 0, 0, b1.len() as int);
}

/// Fragment-splice law: an array whose sole element is a fragment holding
/// the encoding of a value encodes to exactly the bytes of the array whose
/// sole element is that value.
pub proof fn lemma_fragment_splice(f: Fragment, v: Value, fvs: Vec<Value>, dvs: Vec<Value>)
    requires
        f.bytes() == enc(v),
        fvs@ =~= seq![Value::Fragment(f)],
        dvs@ =~= seq![v],
    ensures
        enc(Value::Array(fvs)) == enc(Value::Array(dvs)),
{
    assert(enc_list(fvs@, 0) =~= Seq::empty());
    assert(enc_list(dvs@, 0) =~= Seq::empty());
    assert(enc_list(fvs@, 1) =~= enc(Value::Fragment(f)));
    assert(enc_list(dvs@, 1) =~= enc(v));
    assert(enc(Value::Array(fvs)) =~= enc(Value::Array(dvs)));
}

/// A document of `k + 1` arrays nested one inside the next, the innermost
/// empty.
pub open spec fn nested_arrays(k: nat) -> Seq<u8>
    decreases k,
{
    if k == 0 {
        seq![0x90u8]
    } else {
        seq![0x91u8] + nested_arrays((k - 1) as nat)
    }
}

/// A nesting of `k + 1` arrays is `k + 1` bytes long.
pub proof fn lemma_nested_arrays_len(k: nat)
    ensures
        nested_arrays(k).len() == k + 1,
    decreases k,
{
    if k > 0 {
        lemma_nested_arrays_len((k - 1) as nat);
    }
}

/// Scanning a nesting of `k + 1` arrays succeeds exactly while the counter
/// stays under the ceiling at the innermost array.
#[verifier::rlimit(100)]
pub proof fn lemma_nested_scan(b: Seq<u8>, pos: int, k: nat, rec: int)
    requires
        0 <= pos,
        0 <= rec,
        pos + k + 1 <= b.len(),
        b.subrange(pos, pos + k + 1) =~= nested_arrays(k),
    ensures
        scan_value(b, pos, rec) == if rec + 1 + k < 255 {
            Ok::<int, Error>(pos + k + 1)
        } else {
            Err::<int, Error>(Error::RecursionLimitReached)
        },
    decreases k,
{
    lemma_nested_arrays_len(k);
    assert(b[pos] == b.subrange(pos, pos + k + 1)[0]);
    if k == 0 {
        assert(marker_of(b[pos]) == Marker::FixArray(0));
    } else {
        assert(marker_of(b[pos]) == Marker::FixArray(1));
        if rec + 1 < 255 {
            lemma_nested_arrays_len((k - 1) as nat);
            assert forall|j: int| 0 <= j < k implies b.subrange(pos + 1, pos + 1 + k)[j]
                == #[trigger] nested_arrays((k - 1) as nat)[j] by {
                assert(b.subrange(pos, pos + k + 1)[1 + j] == nested_arrays(k)[1 + j]);
            }
            assert(b.subrange(pos + 1, pos + 1 + k) =~= nested_arrays((k - 1) as nat));
            lemma_nested_scan(b, pos + 1, (k - 1) as nat, rec + 1);
            assert(scan_value(b, pos, rec) == scan_seq(b, pos + 1, 1, rec + 1));
            if rec + 1 + k < 255 {
                assert(scan_seq(b, pos + 1, 1, rec + 1) == scan_seq(b, pos + k + 1, 0, rec + 1));
            }
        }
    }
}

/// Recursion-ceiling law for the validator: a document of 254 nested
/// arrays is accepted; one of 255 nested arrays fails with the
/// recursion-limit error. The serializer's boundary sits one level higher
/// and is stated on `serialize_seq` itself.
pub proof fn lemma_validate_ceiling(shallow: Seq<u8>, deep: Seq<u8>)
    requires
        shallow =~= nested_arrays(253),
        deep =~= nested_arrays(254),
    ensures
        valid_doc(shallow),
        scan_value(deep, 0, 0) == Err::<int, Error>(Error::RecursionLimitReached),
{
    lemma_nested_arrays_len(253);
    lemma_nested_arrays_len(254);
    assert(shallow.subrange(0, 254) =~= nested_arrays(253));
    lemma_nested_scan(shallow, 0, 253, 0);
    assert(deep.subrange(0, 255) =~= nested_arrays(254));
    lemma_nested_scan(deep, 0, 254, 0);
}

} // verus!
