//! The application's icon as a resource for the linker: an icon file is taken
//! apart, and each of its images becomes a resource of its own, with one
//! directory over all of them.

use vstd::prelude::*;

verus! {

/// The number of the icon's directory and of its first image.
pub const IDI_APP: u16 = 1;

/// The kind of a resource that holds one image.
pub const RT_ICON: u16 = 3;

/// The kind of a resource that lists images.
pub const RT_GROUP_ICON: u16 = 14;

/// The number in two bytes, the lower first.
pub open spec fn le2_at(b: Seq<u8>, o: int) -> nat {
    (b[o] + 256 * b[o + 1]) as nat
}

/// The number in four bytes, the lowest first.
pub open spec fn le4_at(b: Seq<u8>, o: int) -> nat {
    le2_at(b, o) + 65536 * le2_at(b, o + 2)
}

/// A number below 65536 as two bytes, the lower first.
pub open spec fn le2(n: nat) -> Seq<u8> {
    seq![(n % 256) as u8, (n / 256 % 256) as u8]
}

/// A number below 2 to the 32nd as four bytes, the lowest first.
pub open spec fn le4(n: nat) -> Seq<u8> {
    le2(n % 65536) + le2(n / 65536)
}

/// One image of an icon. A width or height of 256 is written as nought.
#[derive(Clone, Debug)]
pub struct IcoImage {
    pub width: u8,
    pub height: u8,
    pub colors: u8,
    pub planes: u16,
    pub bit_count: u16,
    pub data: Vec<u8>,
}

/// What an [`IcoImage`] says.
pub struct ImageFacts {
    pub width: u8,
    pub height: u8,
    pub colors: u8,
    pub planes: nat,
    pub bit_count: nat,
    pub data: Seq<u8>,
}

impl View for IcoImage {
    type V = ImageFacts;

    open spec fn view(&self) -> ImageFacts {
        ImageFacts {
            width: self.width,
            height: self.height,
            colors: self.colors,
            planes: self.planes as nat,
            bit_count: self.bit_count as nat,
            data: self.data@,
        }
    }
}

/// What a list of images says.
pub open spec fn facts(v: Seq<IcoImage>) -> Seq<ImageFacts> {
    v.map_values(|i: IcoImage| i@)
}

/// The image that the entry at `i` of an icon file describes; none where the
/// entry or the image reaches beyond the end of the file.
pub open spec fn image_at(b: Seq<u8>, i: int) -> Option<ImageFacts> {
    let e = 6 + i * 16;
    let size = le4_at(b, e + 8);
    let offset = le4_at(b, e + 12);
    if e + 16 > b.len() || offset + size > b.len() {
        None
    } else {
        Some(
            ImageFacts {
                width: b[e],
                height: b[e + 1],
                colors: b[e + 2],
                planes: le2_at(b, e + 4),
                bit_count: le2_at(b, e + 6),
                data: b.subrange(offset as int, (offset + size) as int),
            },
        )
    }
}

/// The first `n` images of an icon file; none at all where one is missing.
pub open spec fn images_of(b: Seq<u8>, n: nat) -> Option<Seq<ImageFacts>>
    decreases n,
{
    if n == 0 {
        Some(Seq::empty())
    } else {
        match (images_of(b, (n - 1) as nat), image_at(b, n - 1)) {
            (Some(before), Some(image)) => Some(before.push(image)),
            _ => None,
        }
    }
}

/// The images of an icon file.
pub open spec fn ico_of(b: Seq<u8>) -> Option<Seq<ImageFacts>> {
    if b.len() < 6 || le2_at(b, 0) != 0 || le2_at(b, 2) != 1 {
        None
    } else {
        images_of(b, le2_at(b, 4))
    }
}

fn u16_at(b: &[u8], o: usize) -> (r: u16)
    requires
        o + 2 <= b.len(),
    ensures
        r == le2_at(b@, o as int),
{
    b[o] as u16 + 256 * b[o + 1] as u16
}

fn u32_at(b: &[u8], o: usize) -> (r: u32)
    requires
        o + 4 <= b.len(),
    ensures
        r == le4_at(b@, o as int),
{
    u16_at(b, o) as u32 + 65536 * u16_at(b, o + 2) as u32
}

proof fn lemma_no_more_images(b: Seq<u8>, n: nat, m: nat)
    requires
        images_of(b, n) is None,
        n <= m,
    ensures
        images_of(b, m) is None,
    decreases m,
{
    if n < m {
        lemma_no_more_images(b, n, (m - 1) as nat);
    }
}

/// The images of an icon file; none where it is no icon file, or where an entry
/// points outside of it.
pub fn parse_ico(b: &[u8]) -> (r: Option<Vec<IcoImage>>)
    ensures
        match r {
            Some(v) => ico_of(b@) == Some(facts(v@)),
            None => ico_of(b@) is None,
        },
{
    if b.len() < 6 || u16_at(b, 0) != 0 || u16_at(b, 2) != 1 {
        return None;
    }
    let count: usize = u16_at(b, 4) as usize;
    let mut out: Vec<IcoImage> = Vec::new();
    assert(facts(out@) =~= Seq::empty());
    for i in 0..count
        invariant
            count == le2_at(b@, 4),
            count <= 65535,
            images_of(b@, i as nat) == Some(facts(out@)),
    {
        let e: usize = 6 + i * 16;
        if b.len() < e || b.len() - e < 16 {
            proof {
                lemma_no_more_images(b@, (i + 1) as nat, count as nat);
            }
            return None;
        }
        let size: usize = u32_at(b, e + 8) as usize;
        let offset: usize = u32_at(b, e + 12) as usize;
        if offset > b.len() || b.len() - offset < size {
            proof {
                lemma_no_more_images(b@, (i + 1) as nat, count as nat);
            }
            return None;
        }
        let image = IcoImage {
            width: b[e],
            height: b[e + 1],
            colors: b[e + 2],
            planes: u16_at(b, e + 4),
            bit_count: u16_at(b, e + 6),
            data: vstd::slice::slice_to_vec(
                vstd::slice::slice_subrange(b, offset, offset + size),
            ),
        };
        let ghost before = facts(out@);
        out.push(image);
        assert(facts(out@) =~= before.push(image@));
    }
    Some(out)
}

/// Law: every image of an icon file is a piece of that file.
pub proof fn law_images_lie_in_the_file(b: Seq<u8>, n: nat, i: int)
    requires
        images_of(b, n) is Some,
        0 <= i < n,
    ensures
        images_of(b, n)->0.len() == n,
        Some(images_of(b, n)->0[i]) == image_at(b, i),
        exists|o: int, s: int|
            0 <= o && 0 <= s && o + s <= b.len() && images_of(b, n)->0[i].data == #[trigger] b.subrange(
                o,
                o + s,
            ),
    decreases n,
{
    lemma_image_count(b, (n - 1) as nat);
    if i < n - 1 {
        law_images_lie_in_the_file(b, (n - 1) as nat, i);
    } else {
        let e = 6 + i * 16;
        let o = le4_at(b, e + 12) as int;
        let s = le4_at(b, e + 8) as int;
        assert(images_of(b, n)->0[i].data == b.subrange(o, o + s));
    }
}

proof fn lemma_image_count(b: Seq<u8>, n: nat)
    requires
        images_of(b, n) is Some,
    ensures
        images_of(b, n)->0.len() == n,
    decreases n,
{
    if n > 0 {
        lemma_image_count(b, (n - 1) as nat);
    }
}

/// So many bytes of nought.
pub open spec fn zeros(n: nat) -> Seq<u8> {
    Seq::new(n, |i: int| 0u8)
}

/// `s` with as many bytes of nought behind it as bring it to a multiple of four.
pub open spec fn aligned(s: Seq<u8>) -> Seq<u8> {
    s + zeros(((4 - s.len() as int % 4) % 4) as nat)
}

/// What stands in front of a resource.
pub open spec fn res_header(type_id: nat, name_id: nat, flags: nat, len: nat) -> Seq<u8> {
    le4(len) + le4(32) + le2(65535) + le2(type_id) + le2(65535) + le2(name_id) + le4(0) + le2(flags)
        + le2(0x0409) + le4(0) + le4(0)
}

fn push_le2(out: &mut Vec<u8>, n: u16)
    ensures
        final(out)@ == old(out)@ + le2(n as nat),
{
    out.push((n % 256) as u8);
    out.push((n / 256) as u8);
    assert(out@ =~= old(out)@ + le2(n as nat));
}

fn push_le4(out: &mut Vec<u8>, n: u32)
    ensures
        final(out)@ == old(out)@ + le4(n as nat),
{
    push_le2(out, (n % 65536) as u16);
    push_le2(out, (n / 65536) as u16);
    assert(out@ =~= old(out)@ + le4(n as nat));
}

fn push_bytes(out: &mut Vec<u8>, data: &[u8])
    ensures
        final(out)@ == old(out)@ + data@,
{
    for i in 0..data.len()
        invariant
            out@ == old(out)@ + data@.take(i as int),
    {
        out.push(data[i]);
        assert(out@ =~= old(out)@ + data@.take(i + 1));
    }
    assert(data@.take(data@.len() as int) =~= data@);
}

/// Adds a resource, and brings the whole to a multiple of four bytes.
pub fn push_res_entry(
    res: &mut Vec<u8>,
    type_id: u16,
    name_id: u16,
    memory_flags: u16,
    data: &[u8],
)
    requires
        data@.len() <= 0xffff_ffff,
    ensures
        final(res)@ == aligned(
            old(res)@ + res_header(
                type_id as nat,
                name_id as nat,
                memory_flags as nat,
                data@.len(),
            ) + data@,
        ),
{
    let ghost start = res@;
    push_le4(res, data.len() as u32);
    push_le4(res, 32);
    push_le2(res, 65535);
    push_le2(res, type_id);
    push_le2(res, 65535);
    push_le2(res, name_id);
    push_le4(res, 0);
    push_le2(res, memory_flags);
    push_le2(res, 0x0409);
    push_le4(res, 0);
    push_le4(res, 0);
    assert(res@ =~= start + res_header(
        type_id as nat,
        name_id as nat,
        memory_flags as nat,
        data@.len(),
    ));
    push_bytes(res, data);
    let ghost full = res@;
    let missing: usize = (4 - res.len() % 4) % 4;
    for i in 0..missing
        invariant
            res@ == full + zeros(i as nat),
    {
        res.push(0);
        assert(res@ =~= full + zeros((i + 1) as nat));
    }
    assert(res@ =~= aligned(full));
}

/// What the directory says of an image, which has this number.
pub open spec fn group_entry(image: ImageFacts, id: nat) -> Seq<u8> {
    seq![image.width, image.height, image.colors, 0u8] + le2(
        if image.planes == 0 {
            1
        } else {
            image.planes
        },
    ) + le2(image.bit_count) + le4(image.data.len()) + le2(id)
}

/// The directory over the first `n` images.
pub open spec fn group_of(images: Seq<ImageFacts>, n: nat) -> Seq<u8>
    decreases n,
{
    if n == 0 {
        le2(0) + le2(1) + le2(images.len())
    } else {
        group_of(images, (n - 1) as nat) + group_entry(images[n - 1], n)
    }
}

/// The resources of the first `n` images, behind the empty one that a file of
/// resources starts with.
pub open spec fn image_resources(images: Seq<ImageFacts>, n: nat) -> Seq<u8>
    decreases n,
{
    if n == 0 {
        le4(0) + le4(32) + zeros(24)
    } else {
        aligned(
            image_resources(images, (n - 1) as nat) + res_header(
                3,
                n,
                0x1010,
                images[n - 1].data.len(),
            ) + images[n - 1].data,
        )
    }
}

/// The file of resources for an icon.
pub open spec fn resources(images: Seq<ImageFacts>) -> Seq<u8> {
    let group = group_of(images, images.len());
    aligned(
        image_resources(images, images.len()) + res_header(14, 1, 0x1030, group.len()) + group,
    )
}

fn push_group_entry(group: &mut Vec<u8>, image: &IcoImage, id: u16)
    requires
        image.data@.len() <= 0xffff_ffff,
    ensures
        final(group)@ == old(group)@ + group_entry(image@, id as nat),
{
    let ghost before = group@;
    group.push(image.width);
    group.push(image.height);
    group.push(image.colors);
    group.push(0);
    push_le2(
        group,
        if image.planes == 0 {
            1
        } else {
            image.planes
        },
    );
    push_le2(group, image.bit_count);
    push_le4(group, image.data.len() as u32);
    push_le2(group, id);
    assert(group@ =~= before + group_entry(image@, id as nat));
}

proof fn lemma_group_len(images: Seq<ImageFacts>, n: nat)
    ensures
        group_of(images, n).len() == 6 + 14 * n,
    decreases n,
{
    if n > 0 {
        lemma_group_len(images, (n - 1) as nat);
    }
}

/// The file of resources for an icon file; none where that is malformed or
/// holds no image.
pub fn icon_resources(ico: &[u8]) -> (r: Option<Vec<u8>>)
    ensures
        match ico_of(ico@) {
            Some(images) => if images.len() == 0 {
                r is None
            } else {
                r matches Some(v) && v@ == resources(images)
            },
            None => r is None,
        },
{
    let images = match parse_ico(ico) {
        Some(v) => v,
        None => {
            return None;
        },
    };
    let ghost all = facts(images@);
    assert(all.len() == images@.len());
    if images.len() == 0 {
        return None;
    }
    proof {
        lemma_image_count(ico@, le2_at(ico@, 4));
    }
    let mut res: Vec<u8> = Vec::new();
    push_le4(&mut res, 0);
    push_le4(&mut res, 32);
    for i in 0..24
        invariant
            res@ == le4(0) + le4(32) + zeros(i as nat),
    {
        res.push(0);
        assert(res@ =~= le4(0) + le4(32) + zeros((i + 1) as nat));
    }
    let mut group: Vec<u8> = Vec::new();
    push_le2(&mut group, 0);
    push_le2(&mut group, 1);
    push_le2(&mut group, images.len() as u16);
    for i in 0..images.len()
        invariant
            all == facts(images@),
            all.len() == images@.len(),
            images@.len() <= 65535,
            images_of(ico@, all.len()) == Some(all),
            res@ == image_resources(all, i as nat),
            group@ == group_of(all, i as nat),
    {
        let image = &images[i];
        assert(all[i as int] == image@);
        proof {
            law_images_lie_in_the_file(ico@, all.len(), i as int);
            lemma_image_sizes(ico@, i as int);
        }
        let id: u16 = IDI_APP + i as u16;
        push_group_entry(&mut group, image, id);
        push_res_entry(&mut res, RT_ICON, id, 0x1010, image.data.as_slice());
    }
    proof {
        lemma_group_len(all, all.len());
    }
    push_res_entry(&mut res, RT_GROUP_ICON, IDI_APP, 0x1030, group.as_slice());
    Some(res)
}

proof fn lemma_image_sizes(b: Seq<u8>, i: int)
    requires
        image_at(b, i) is Some,
    ensures
        image_at(b, i)->0.data.len() <= 0xffff_ffff,
{
}

/// Law: whatever is added, a file of resources is a multiple of four bytes long,
/// so that every resource in it starts at one.
pub proof fn law_resources_are_aligned(images: Seq<ImageFacts>, n: nat)
    ensures
        image_resources(images, n).len() % 4 == 0,
        resources(images).len() % 4 == 0,
    decreases n,
{
    if n > 0 {
        law_resources_are_aligned(images, (n - 1) as nat);
    }
}

/// Law: a number below 65536, and one below 2 to the 32nd, can be read back from
/// its bytes.
pub proof fn law_numbers_read_back(n: nat, m: nat)
    requires
        n < 65536,
        m < 0x1_0000_0000,
    ensures
        le2_at(le2(n), 0) == n,
        le4_at(le4(m), 0) == m,
{
}

} // verus!
