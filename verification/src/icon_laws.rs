//! What holds of every icon file and of the resources that are made of it.

use crate::icon::{ImageFacts, group_entry, image_at, le2, le2_at, le4, le4_at, res_header};
use vstd::prelude::*;

verus! {

/// Law: an entry of an icon file describes its image: its width, its height, its
/// colours, its planes and depth, and where in the file it lies.
pub proof fn law_icon_entry_is_read(
    b: Seq<u8>,
    i: int,
    width: u8,
    height: u8,
    colors: u8,
    gap: u8,
    planes: u16,
    bits: u16,
    size: u32,
    offset: u32,
)
    requires
        0 <= i,
        6 + i * 16 + 16 <= b.len(),
        b.subrange(6 + i * 16, 6 + i * 16 + 16) == seq![width, height, colors, gap] + le2(
            planes as nat,
        ) + le2(bits as nat) + le4(size as nat) + le4(offset as nat),
    ensures
        offset + size <= b.len() ==> image_at(b, i) == Some(
            ImageFacts {
                width,
                height,
                colors,
                planes: planes as nat,
                bit_count: bits as nat,
                data: b.subrange(offset as int, offset + size),
            },
        ),
        offset + size > b.len() ==> image_at(b, i) is None,
{
    let e = 6 + i * 16;
    let s = b.subrange(e, e + 16);
    assert forall|k: int| 0 <= k < 16 implies #[trigger] s[k] == b[e + k] by {}
    assert(b[e] == s[0] && b[e + 1] == s[1] && b[e + 2] == s[2]);
    lemma_two(planes as nat);
    lemma_two(bits as nat);
    lemma_four(size as nat);
    lemma_four(offset as nat);
    assert(s[4] == le2(planes as nat)[0] && s[5] == le2(planes as nat)[1]);
    assert(s[6] == le2(bits as nat)[0] && s[7] == le2(bits as nat)[1]);
    assert(s[8] == le4(size as nat)[0] && s[9] == le4(size as nat)[1] && s[10] == le4(
        size as nat,
    )[2] && s[11] == le4(size as nat)[3]);
    assert(s[12] == le4(offset as nat)[0] && s[13] == le4(offset as nat)[1] && s[14] == le4(
        offset as nat,
    )[2] && s[15] == le4(offset as nat)[3]);
    assert(b[e + 4] == s[4] && b[e + 5] == s[5] && b[e + 6] == s[6] && b[e + 7] == s[7]);
    assert(b[e + 8] == s[8] && b[e + 9] == s[9] && b[e + 10] == s[10] && b[e + 11] == s[11]);
    assert(b[e + 12] == s[12] && b[e + 13] == s[13] && b[e + 14] == s[14] && b[e + 15] == s[15]);
}

proof fn lemma_two(n: nat)
    requires
        n < 65536,
    ensures
        le2(n).len() == 2,
        le2(n)[0] + 256 * le2(n)[1] == n,
{
}

proof fn lemma_four(n: nat)
    requires
        n < 0x1_0000_0000,
    ensures
        le4(n).len() == 4,
        le4(n)[0] + 256 * le4(n)[1] + 65536 * (le4(n)[2] + 256 * le4(n)[3]) == n,
{
    lemma_two(n % 65536);
    lemma_two(n / 65536);
}

/// Law: an entry of the directory says of its image what the icon file says of it,
/// how many bytes it has and under which number it is found; no image is said to
/// have no plane.
pub proof fn law_directory_entry_reads_back(image: ImageFacts, id: nat)
    requires
        image.planes < 65536 && image.bit_count < 65536 && id < 65536,
        image.data.len() < 0x1_0000_0000,
    ensures
        ({
            let g = group_entry(image, id);
            &&& g.len() == 14
            &&& g[0] == image.width && g[1] == image.height && g[2] == image.colors
            &&& image.planes > 0 ==> le2_at(g, 4) == image.planes
            &&& image.planes == 0 ==> le2_at(g, 4) == 1
            &&& le2_at(g, 6) == image.bit_count
            &&& le4_at(g, 8) == image.data.len()
            &&& le2_at(g, 12) == id
        }),
{
    lemma_two(image.planes);
    lemma_two(1);
    lemma_two(image.bit_count);
    lemma_four(image.data.len());
    lemma_two(id);
}

/// Law: the header of a resource says how long the resource and the header are, of
/// which type it is and under which number it is found.
pub proof fn law_resource_header_reads_back(type_id: nat, name_id: nat, flags: nat, len: nat)
    requires
        type_id < 65536 && name_id < 65536 && flags < 65536,
        len < 0x1_0000_0000,
    ensures
        ({
            let h = res_header(type_id, name_id, flags, len);
            &&& h.len() == 32
            &&& le4_at(h, 0) == len
            &&& le4_at(h, 4) == h.len()
            &&& le2_at(h, 10) == type_id
            &&& le2_at(h, 14) == name_id
            &&& le2_at(h, 20) == flags
        }),
{
    lemma_four(len);
    lemma_four(32);
    lemma_four(0);
    lemma_two(65535);
    lemma_two(type_id);
    lemma_two(name_id);
    lemma_two(flags);
    lemma_two(0x0409);
}

} // verus!
