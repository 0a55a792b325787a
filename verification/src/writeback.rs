//! Reading the DRM writeback connector: which connector it is, which
//! property carries its pixel formats, and what the formats blob holds.
use vstd::prelude::*;

verus! {

/// One pixel format of the writeback blob.
#[derive(Debug, PartialEq, Eq)]
pub struct FourCc {
    /// The little-endian code of the four bytes.
    pub code: u32,
    /// The four bytes, each non-printable one replaced by `.`.
    pub label: Vec<u8>,
}

/// The little-endian value of four bytes.
pub open spec fn spec_le_u32(b0: u8, b1: u8, b2: u8, b3: u8) -> int {
    b0 + 256 * b1 + 65536 * b2 + 16777216 * b3
}

/// Whether a byte is a printable, non-space ASCII character.
pub open spec fn spec_is_graphic(b: u8) -> bool {
    0x21 <= b <= 0x7e
}

/// A byte as it is shown in a label.
pub open spec fn spec_label_byte(b: u8) -> u8 {
    if spec_is_graphic(b) {
        b
    } else {
        0x2e
    }
}

/// The code of the `k`-th four-byte group of a blob.
pub open spec fn spec_fourcc_code(blob: Seq<u8>, k: int) -> int {
    spec_le_u32(blob[4 * k], blob[4 * k + 1], blob[4 * k + 2], blob[4 * k + 3])
}

/// The label of the `k`-th four-byte group of a blob.
pub open spec fn spec_fourcc_label(blob: Seq<u8>, k: int) -> Seq<u8> {
    seq![
        spec_label_byte(blob[4 * k]),
        spec_label_byte(blob[4 * k + 1]),
        spec_label_byte(blob[4 * k + 2]),
        spec_label_byte(blob[4 * k + 3]),
    ]
}

/// Law: the code of a pixel format is little-endian: its lowest byte is
/// the group's first byte and its highest byte the group's last; the label
/// shows each printable, non-space ASCII byte (0x21 to 0x7e) as it is and
/// any other byte as `.`.
pub proof fn lemma_fourcc_bytes(blob: Seq<u8>, k: int)
    requires
        0 <= k,
        4 * k + 3 < blob.len(),
    ensures
        spec_fourcc_code(blob, k) % 256 == blob[4 * k],
        (spec_fourcc_code(blob, k) / 256) % 256 == blob[4 * k + 1],
        (spec_fourcc_code(blob, k) / 65536) % 256 == blob[4 * k + 2],
        spec_fourcc_code(blob, k) / 16777216 == blob[4 * k + 3],
        0 <= spec_fourcc_code(blob, k) <= u32::MAX,
        spec_fourcc_label(blob, k).len() == 4,
        forall|j: int|
            0 <= j < 4 ==> #[trigger] spec_fourcc_label(blob, k)[j] == (if 0x21 <= blob[4 * k + j]
                <= 0x7e {
                blob[4 * k + j]
            } else {
                0x2e
            }),
{
    let b0 = blob[4 * k] as int;
    let b1 = blob[4 * k + 1] as int;
    let b2 = blob[4 * k + 2] as int;
    let b3 = blob[4 * k + 3] as int;
    let c = spec_fourcc_code(blob, k);
    assert(c == b0 + 256 * b1 + 65536 * b2 + 16777216 * b3);
    vstd::arithmetic::div_mod::lemma_fundamental_div_mod_converse(c, 256, b1 + 256 * b2 + 65536 * b3, b0);
    let c1 = b1 + 256 * b2 + 65536 * b3;
    vstd::arithmetic::div_mod::lemma_fundamental_div_mod_converse(c1, 256, b2 + 256 * b3, b1);
    vstd::arithmetic::div_mod::lemma_fundamental_div_mod_converse(c, 65536, b2 + 256 * b3, b0 + 256 * b1);
    let c2 = b2 + 256 * b3;
    vstd::arithmetic::div_mod::lemma_fundamental_div_mod_converse(c2, 256, b3, b2);
    vstd::arithmetic::div_mod::lemma_fundamental_div_mod_converse(
        c,
        16777216,
        b3,
        b0 + 256 * b1 + 65536 * b2,
    );
    let l = spec_fourcc_label(blob, k);
    assert forall|j: int| 0 <= j < 4 implies #[trigger] l[j] == (if 0x21 <= blob[4 * k + j] <= 0x7e {
        blob[4 * k + j]
    } else {
        0x2e
    }) by {
        if j == 0 {
        } else if j == 1 {
        } else if j == 2 {
        } else {
        }
    }
}

/// A byte as it is shown in a label.
pub fn label_byte(b: u8) -> (r: u8)
    ensures
        r == spec_label_byte(b),
{
    if 0x21 <= b && b <= 0x7e {
        b
    } else {
        0x2e
    }
}

/// Splits a `WRITEBACK_PIXEL_FORMATS` blob into its four-byte pixel
/// formats; trailing bytes that do not make a whole group are left out.
pub fn pixel_formats(blob: &[u8]) -> (r: Vec<FourCc>)
    ensures
        r@.len() == blob@.len() / 4,
        forall|k: int|
            0 <= k < r@.len() ==> #[trigger] r@[k].code == spec_fourcc_code(blob@, k)
                && r@[k].label@ == spec_fourcc_label(blob@, k),
{
    let len = blob.len();
    let n = len / 4;
    let mut out: Vec<FourCc> = Vec::new();
    let mut k: usize = 0;
    while k < n
        invariant
            0 <= k <= n,
            len == blob@.len(),
            n == len / 4,
            out@.len() == k,
            forall|j: int|
                0 <= j < k ==> #[trigger] out@[j].code == spec_fourcc_code(blob@, j)
                    && out@[j].label@ == spec_fourcc_label(blob@, j),
        decreases n - k,
    {
        let i = 4 * k;
        let b0 = blob[i];
        let b1 = blob[i + 1];
        let b2 = blob[i + 2];
        let b3 = blob[i + 3];
        let code: u32 = (b0 as u32) + 256 * (b1 as u32) + 65536 * (b2 as u32) + 16777216 * (
        b3 as u32);
        let label = vec![label_byte(b0), label_byte(b1), label_byte(b2), label_byte(b3)];
        out.push(FourCc { code, label });
        k = k + 1;
    }
    out
}

/// Index of the writeback connector among the connectors, given for each
/// whether it is a writeback connector: the last one, if any.
pub fn last_writeback(is_writeback: &[bool]) -> (r: Option<usize>)
    ensures
        r is None <==> forall|i: int| 0 <= i < is_writeback@.len() ==> !is_writeback@[i],
        r matches Some(i) ==> i < is_writeback@.len() && is_writeback@[i as int] && forall|j: int|
            i < j < is_writeback@.len() ==> !is_writeback@[j],
{
    let n = is_writeback.len();
    let mut found: Option<usize> = None;
    let mut i: usize = 0;
    while i < n
        invariant
            0 <= i <= n,
            n == is_writeback@.len(),
            found is None ==> forall|j: int| 0 <= j < i ==> !is_writeback@[j],
            found matches Some(f) ==> f < i && is_writeback@[f as int] && forall|j: int|
                f < j < i ==> !is_writeback@[j],
        decreases n - i,
    {
        if is_writeback[i] {
            found = Some(i);
        }
        i = i + 1;
    }
    found
}

/// Name of the connector property that holds the pixel-formats blob.
pub open spec fn spec_pixel_formats_name() -> Seq<char> {
    "WRITEBACK_PIXEL_FORMATS"@
}

/// The value of the pixel-formats property among the connector's
/// properties, given as (name, value): the last one so named, if any.
pub fn pixel_formats_blob(props: &[(String, u64)]) -> (r: Option<u64>)
    ensures
        r is None <==> forall|i: int|
            0 <= i < props@.len() ==> props@[i].0@ != spec_pixel_formats_name(),
        r matches Some(v) ==> exists|i: int|
            0 <= i < props@.len() && props@[i].0@ == spec_pixel_formats_name() && props@[i].1 == v
                && forall|j: int| i < j < props@.len() ==> props@[j].0@ != spec_pixel_formats_name(),
{
    let wanted = "WRITEBACK_PIXEL_FORMATS".to_owned();
    let n = props.len();
    let mut found: Option<u64> = None;
    let ghost mut at: int = -1;
    let mut i: usize = 0;
    while i < n
        invariant
            0 <= i <= n,
            n == props@.len(),
            wanted@ == spec_pixel_formats_name(),
            found is None ==> forall|j: int| 0 <= j < i ==> props@[j].0@ != spec_pixel_formats_name(),
            found matches Some(v) ==> 0 <= at < i && props@[at].0@ == spec_pixel_formats_name()
                && props@[at].1 == v && forall|j: int|
                at < j < i ==> props@[j].0@ != spec_pixel_formats_name(),
        decreases n - i,
    {
        if props[i].0 == wanted {
            found = Some(props[i].1);
            proof {
                at = i as int;
            }
        }
        i = i + 1;
    }
    found
}

} // verus!
