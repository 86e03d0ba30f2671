//! The in-process runtime over SafeTensors checkpoints.
use vstd::prelude::*;

verus! {

/// The number that eight bytes hold, least significant first.
pub open spec fn little_endian(b: Seq<u8>) -> nat
    recommends
        b.len() == 8,
{
    b[0] as nat + 0x100 * b[1] as nat + 0x1_0000 * b[2] as nat + 0x100_0000 * b[3] as nat
        + 0x1_0000_0000 * b[4] as nat + 0x100_0000_0000 * b[5] as nat + 0x1_0000_0000_0000
        * b[6] as nat + 0x100_0000_0000_0000 * b[7] as nat
}

/// What the beginning of a SafeTensors file says.
#[derive(Clone, Copy, Debug, PartialEq, Eq, Structural)]
pub enum Header {
    /// The file does not even hold the header's length.
    TooSmall,
    /// The header extends beyond the end of the file.
    Truncated,
    /// The header stands in bytes 8 up to 8 plus this length.
    Complete(usize),
}

/// The header of a file: its first eight bytes give the length of what follows.
pub open spec fn header_of(bytes: Seq<u8>) -> Header {
    if bytes.len() < 8 {
        Header::TooSmall
    } else if bytes.len() < 8 + little_endian(bytes.take(8)) {
        Header::Truncated
    } else {
        Header::Complete(little_endian(bytes.take(8)) as usize)
    }
}

/// Checks the header of a SafeTensors file.
pub fn check_header(bytes: &Vec<u8>) -> (r: Header)
    ensures
        r == header_of(bytes@),
{
    if bytes.len() < 8 {
        return Header::TooSmall;
    }
    let n: u64 = bytes[0] as u64 + 0x100 * bytes[1] as u64 + 0x1_0000 * bytes[2] as u64
        + 0x100_0000 * bytes[3] as u64 + 0x1_0000_0000 * bytes[4] as u64 + 0x100_0000_0000
        * bytes[5] as u64 + 0x1_0000_0000_0000 * bytes[6] as u64 + 0x100_0000_0000_0000
        * bytes[7] as u64;
    if n > (bytes.len() - 8) as u64 {
        Header::Truncated
    } else {
        Header::Complete(n as usize)
    }
}

/// The span of a batch item in a flat input of `len` elements: equal shares, as
/// many as fit.
pub open spec fn item_span(len: nat, batch: nat, item: nat) -> (nat, nat) {
    let cols = len / if batch > 0 {
        batch
    } else {
        1
    };
    (item * cols, (item + 1) * cols)
}

/// The spans of the items of a batch.
pub fn item_spans(len: usize, batch: usize) -> (r: Vec<(usize, usize)>)
    ensures
        r@.len() == batch,
        forall|i: int|
            0 <= i < batch ==> (#[trigger] r@[i]).0 == item_span(len as nat, batch as nat, i as nat).0
                && r@[i].1 == item_span(len as nat, batch as nat, i as nat).1 && r@[i].1 <= len,
{
    let mut r: Vec<(usize, usize)> = Vec::new();
    if batch == 0 {
        return r;
    }
    let cols: usize = len / batch;
    let mut b: usize = 0;
    let mut start: usize = 0;
    proof {
        assert(batch * cols <= len) by (nonlinear_arith)
            requires
                cols == len / batch,
                batch > 0,
        ;
        assert(0 * cols == 0) by (nonlinear_arith);
    }
    while b < batch
        invariant
            b <= batch,
            batch > 0,
            cols == len / batch,
            batch * cols <= len,
            start == b * cols,
            r@.len() == b,
            forall|i: int|
                0 <= i < b ==> (#[trigger] r@[i]).0 == item_span(
                    len as nat,
                    batch as nat,
                    i as nat,
                ).0 && r@[i].1 == item_span(len as nat, batch as nat, i as nat).1 && r@[i].1 <= len,
        decreases batch - b,
    {
        proof {
            assert((b + 1) * cols == b * cols + cols) by (nonlinear_arith);
            assert((b + 1) * cols <= batch * cols) by (nonlinear_arith)
                requires
                    b + 1 <= batch,
            ;
        }
        let end: usize = start + cols;
        r.push((start, end));
        start = end;
        b = b + 1;
    }
    r
}

/// The spans of a batch follow each other without gap or overlap.
pub proof fn law_spans_are_contiguous(len: nat, batch: nat, item: nat)
    ensures
        item_span(len, batch, 0).0 == 0,
        item_span(len, batch, item).1 == item_span(len, batch, item + 1).0,
{
    let cols = len / if batch > 0 {
        batch
    } else {
        1
    };
    assert(0nat * cols == 0) by (nonlinear_arith);
}

/// A header is complete exactly where the file holds the eight bytes of its length and as
/// many bytes more; otherwise it is too small or truncated.
pub proof fn law_headers_are_within_the_file(bytes: Seq<u8>)
    requires
        bytes.len() <= usize::MAX,
    ensures
        header_of(bytes) == Header::TooSmall <==> bytes.len() < 8,
        header_of(bytes) matches Header::Complete(n) ==> 8 + n <= bytes.len(),
        header_of(bytes) == Header::Truncated ==> 8 <= bytes.len() < 8 + little_endian(
            bytes.take(8),
        ),
        bytes.len() >= 8 && 8 + little_endian(bytes.take(8)) <= bytes.len() ==> header_of(bytes)
            == Header::Complete(little_endian(bytes.take(8)) as usize),
{
}

/// The bytes of a length count by their place: each counts 256 times as much as the one
/// before it.
pub proof fn law_lengths_are_little_endian(b: Seq<u8>, i: int)
    requires
        b.len() == 8,
        0 <= i < 8,
        b[i] < 255,
    ensures
        little_endian(b.update(i, (b[i] + 1) as u8)) - little_endian(b) == seq![
            1int,
            0x100,
            0x1_0000,
            0x100_0000,
            0x1_0000_0000,
            0x100_0000_0000,
            0x1_0000_0000_0000,
            0x100_0000_0000_0000,
        ][i],
        little_endian(seq![0, 0, 0, 0, 0, 0, 0, 0]) == 0,
{
}

/// Equal shares: every span has the same width, and what does not fit all is less than
/// one element each.
pub proof fn law_spans_are_equal_shares(len: nat, batch: nat, item: nat)
    requires
        batch > 0,
        item < batch,
    ensures
        item_span(len, batch, item).1 - item_span(len, batch, item).0 == len / batch,
        item_span(len, batch, item).1 <= len,
        len - item_span(len, batch, (batch - 1) as nat).1 < batch,
{
    let cols = len / batch;
    assert((item + 1) * cols == item * cols + cols) by (nonlinear_arith);
    vstd::arithmetic::div_mod::lemma_fundamental_div_mod(len as int, batch as int);
    vstd::arithmetic::div_mod::lemma_mod_bound(len as int, batch as int);
    assert((item + 1) * cols <= batch * cols) by (nonlinear_arith)
        requires
            item + 1 <= batch,
    ;
    assert(((batch - 1) + 1) * cols == batch * cols) by (nonlinear_arith);
}

} // verus!
