//! The shape of the matrix that the Metal runtime multiplies by.
use vstd::prelude::*;

use crate::float::F32;
use crate::json;
use crate::text;

verus! {

broadcast use vstd::string::group_string_axioms;

/// The largest number whose square is at most `n`.
pub open spec fn is_root(r: nat, n: nat) -> bool {
    r * r <= n < (r + 1) * (r + 1)
}

/// The integer square root.
fn root(n: u32) -> (r: u32)
    ensures
        is_root(r as nat, n as nat),
{
    let mut low: u64 = 0;
    let mut high: u64 = 0x1_0000;
    assert(0x1_0000u64 * 0x1_0000u64 == 0x1_0000_0000u64);
    while low + 1 < high
        invariant
            low < high <= 0x1_0000,
            low * low <= n < high * high,
        decreases high - low,
    {
        let mid: u64 = low + (high - low) / 2;
        assert(mid * mid <= 0x1_0000_0000) by (nonlinear_arith)
            requires
                mid <= 0x1_0000,
        ;
        if mid * mid <= n as u64 {
            low = mid;
        } else {
            high = mid;
        }
    }
    low as u32
}

/// One element of a shape as a dimension: 512 where it is no unsigned integer, its
/// low 32 bits where it is larger.
pub open spec fn dimension(e: Option<u64>) -> u32 {
    match e {
        Some(n) => (n % 0x1_0000_0000) as u32,
        None => 512,
    }
}

/// At least one.
pub open spec fn positive(n: u32) -> u32 {
    if n == 0 {
        1
    } else {
        n
    }
}

/// Whether a matrix has the dimensions of a shape: its first and its last, or a
/// square of the size of its only one.
pub open spec fn fits_shape(m: u32, k: u32, shape: Seq<Option<u64>>) -> bool {
    if shape.len() >= 2 {
        m == positive(dimension(shape[0])) && k == positive(dimension(shape.last()))
    } else {
        m == k && (if dimension(shape[0]) == 0 {
            m == 1
        } else {
            is_root(m as nat, dimension(shape[0]) as nat)
        })
    }
}

/// Whether an entry of a header gives a shape.
pub open spec fn gives_shape(e: (Seq<char>, Option<Seq<Option<u64>>>)) -> bool {
    e.0 != "__metadata__"@ && e.1 is Some && e.1->0.len() > 0
}

/// Whether `i` is the first entry of a header that gives a shape.
pub open spec fn is_first_shape(
    entries: Seq<(Seq<char>, Option<Seq<Option<u64>>>)>,
    i: int,
) -> bool {
    &&& 0 <= i < entries.len()
    &&& gives_shape(entries[i])
    &&& forall|j: int| 0 <= j < i ==> !gives_shape(#[trigger] entries[j])
}

/// Whether `r` is the matrix shape that a header gives: that of the first tensor with
/// a shape; 512 by 512 where it has none, or is no JSON object.
pub open spec fn is_matrix_of(
    entries: Option<Seq<(Seq<char>, Option<Seq<Option<u64>>>)>>,
    r: Option<(u32, u32)>,
) -> bool {
    match entries {
        None => r == Some((512u32, 512u32)),
        Some(es) => r is Some && (if exists|i: int| is_first_shape(es, i) {
            exists|i: int| #[trigger]
                is_first_shape(es, i) && fits_shape((r->0).0, (r->0).1, (es[i].1)->0)
        } else {
            r == Some((512u32, 512u32))
        }),
    }
}

/// The low 32 bits of a dimension.
fn low_bits(e: Option<u64>) -> (r: u32)
    ensures
        r == dimension(e),
{
    match e {
        Some(n) => (n % 0x1_0000_0000) as u32,
        None => 512,
    }
}

/// The dimensions of a shape.
fn matrix_of(shape: &Vec<Option<u64>>) -> (r: (u32, u32))
    requires
        shape@.len() > 0,
    ensures
        fits_shape(r.0, r.1, shape@),
{
    if shape.len() >= 2 {
        let m: u32 = low_bits(shape[0]);
        let k: u32 = low_bits(shape[shape.len() - 1]);
        (
            if m == 0 {
                1
            } else {
                m
            },
            if k == 0 {
                1
            } else {
                k
            },
        )
    } else {
        let n: u32 = low_bits(shape[0]);
        if n == 0 {
            (1, 1)
        } else {
            let side: u32 = root(n);
            (side, side)
        }
    }
}

/// The matrix shape that the entries of a header give.
pub fn first_matrix(entries: &Option<Vec<json::ArrayEntry>>) -> (r: Option<(u32, u32)>)
    ensures
        is_matrix_of(json::entries_view(*entries), r),
{
    match entries {
        None => Some((512, 512)),
        Some(es) => {
            let ghost view = es@.map_values(|e: json::ArrayEntry| e@);
            let mut i: usize = 0;
            while i < es.len()
                invariant
                    i <= es@.len(),
                    *entries == Some(*es),
                    view == es@.map_values(|e: json::ArrayEntry| e@),
                    forall|j: int| 0 <= j < i ==> !gives_shape(#[trigger] view[j]),
                decreases es.len() - i,
            {
                let e = &es[i];
                assert(view[i as int] == e@);
                if !text::same_text(e.name.as_str(), "__metadata__") {
                    match &e.array {
                        Some(shape) => {
                            if shape.len() > 0 {
                                assert(is_first_shape(view, i as int));
                                return Some(matrix_of(shape));
                            }
                        },
                        None => {},
                    }
                }
                i = i + 1;
            }
            Some((512, 512))
        },
    }
}

/// Reads the dimensions of the first tensor from the JSON of a SafeTensors header,
/// `{"tensor_name": {"dtype": "F32", "shape": [M, K], ...}, ...}`. They fall back to
/// 512 by 512 where the header cannot be read, so that the runtime can still run.
pub fn parse_first_tensor_shape(header: &str) -> (r: Option<(u32, u32)>)
    ensures
        is_matrix_of(json::array_entries(header@, "shape"@), r),
{
    let entries = json::read_arrays(header, "shape");
    first_matrix(&entries)
}

/// The first `n` of `data`, filled up with `zero` where there are fewer.
pub open spec fn fitted<T>(data: Seq<T>, n: nat, zero: T) -> Seq<T> {
    Seq::new(
        n,
        |i: int|
            if i < data.len() {
                data[i]
            } else {
                zero
            },
    )
}

/// The bytes of the weight matrix: the `m * k` numbers of four bytes behind the
/// header, with zeros where the file ends before.
pub fn weight_data(bytes: &Vec<u8>, header_len: usize, m: u32, k: u32) -> (r: Vec<u8>)
    requires
        8 + header_len <= bytes@.len(),
        m * k * 4 <= usize::MAX,
    ensures
        r@ == fitted(bytes@.skip(8 + header_len), (m * k * 4) as nat, 0u8),
{
    assert(m * k <= m * k * 4) by (nonlinear_arith)
        requires
            m >= 0,
            k >= 0,
    ;
    assert(m * k >= 0) by (nonlinear_arith)
        requires
            m >= 0,
            k >= 0,
    ;
    let n: u128 = m as u128 * k as u128 * 4;
    let n: usize = n as usize;
    let ghost data = bytes@.skip(8 + header_len);
    let mut r: Vec<u8> = Vec::new();
    let mut i: usize = 0;
    while i < n
        invariant
            i <= n,
            8 + header_len <= bytes@.len(),
            data == bytes@.skip(8 + header_len),
            r@ == fitted(data, i as nat, 0u8),
        decreases n - i,
    {
        if i < bytes.len() - 8 - header_len {
            r.push(bytes[8 + header_len + i]);
        } else {
            r.push(0);
        }
        i = i + 1;
        assert(r@ =~= fitted(data, i as nat, 0u8));
    }
    r
}

/// The vector that the matrix is multiplied by: the first `k` numbers of an input,
/// with zeros where it has fewer.
pub fn input_vector(data: &Vec<F32>, k: u32) -> (r: Vec<F32>)
    ensures
        r@ == fitted(data@, k as nat, F32::of(0)),
{
    let mut r: Vec<F32> = Vec::new();
    let mut i: u32 = 0;
    while i < k
        invariant
            i <= k,
            r@ == fitted(data@, i as nat, F32::of(0)),
        decreases k - i,
    {
        if (i as usize) < data.len() {
            r.push(data[i as usize]);
        } else {
            r.push(F32::of(0));
        }
        i = i + 1;
        assert(r@ =~= fitted(data@, i as nat, F32::of(0)));
    }
    r
}

/// The threads of a group: no more than the pipeline allows, 256, or there are rows.
pub fn threads_per_group(most: u64, m: u32) -> (r: u64)
    ensures
        r <= most && r <= 256 && r <= m,
        r == most || r == 256 || r == m,
{
    let limit: u64 = if most < 256 {
        most
    } else {
        256
    };
    if limit < m as u64 {
        limit
    } else {
        m as u64
    }
}

/// The first tensor that gives a shape decides: its first and last dimension, or a square
/// that holds its only one as nearly as it can.
pub proof fn law_first_shape_decides(
    es: Seq<(Seq<char>, Option<Seq<Option<u64>>>)>,
    i: int,
    m: u32,
    k: u32,
)
    requires
        is_matrix_of(Some(es), Some((m, k))),
        0 <= i < es.len(),
        es[i].0 != "__metadata__"@,
        es[i].1 matches Some(s) && s.len() > 0 && forall|j: int|
            0 <= j < s.len() ==> ((#[trigger] s[j]) matches Some(n) && 0 < n <= 0xffff_ffff),
        forall|j: int|
            0 <= j < i ==> (#[trigger] es[j]).0 == "__metadata__"@ || es[j].1 is None
                || es[j].1->0.len() == 0,
    ensures
        ({
            let s = es[i].1->0;
            &&& s.len() >= 2 ==> Some(m as u64) == s[0] && Some(k as u64) == s[s.len() - 1]
            &&& s.len() == 1 ==> m == k && (s[0] matches Some(n) && m * m <= n < (m + 1) * (m + 1))
        }),
{
    assert forall|j: int| 0 <= j < i implies !gives_shape(#[trigger] es[j]) by {}
    assert(is_first_shape(es, i));
    let f = choose|f: int| #[trigger]
        is_first_shape(es, f) && fits_shape(m, k, (es[f].1)->0);
    assert(f == i) by {
        if f < i {
            assert(!gives_shape(es[f]));
        }
        if i < f {
            assert(!gives_shape(es[i]));
        }
    }
    let s = es[i].1->0;
    assert(s[0] is Some);
    assert(s[s.len() - 1] is Some);
}

/// A header without a shape, or that cannot be read, gives 512 by 512.
pub proof fn law_shapes_fall_back(
    entries: Option<Seq<(Seq<char>, Option<Seq<Option<u64>>>)>>,
    r: Option<(u32, u32)>,
)
    requires
        is_matrix_of(entries, r),
        entries matches Some(es) ==> forall|j: int|
            0 <= j < es.len() ==> (#[trigger] es[j]).0 == "__metadata__"@ || es[j].1 is None
                || es[j].1->0.len() == 0,
    ensures
        r == Some((512u32, 512u32)),
{
    if entries is Some {
        let es = entries->0;
        assert forall|i: int| !is_first_shape(es, i) by {
            if 0 <= i < es.len() {
                assert(!gives_shape(es[i]));
            }
        }
    }
}

/// Data is cut or filled up to its length: what is there is kept, the rest is the filler.
pub proof fn law_fitted_data<T>(data: Seq<T>, n: nat, zero: T, i: int)
    requires
        0 <= i < n,
    ensures
        fitted(data, n, zero).len() == n,
        i < data.len() ==> fitted(data, n, zero)[i] == data[i],
        i >= data.len() ==> fitted(data, n, zero)[i] == zero,
{
}

} // verus!
