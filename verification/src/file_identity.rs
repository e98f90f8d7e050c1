//! Whether two paths name the same file. A path says it where both are
//! canonical; two names of one file are told by what the file system calls it.

use vstd::prelude::*;

verus! {

/// What is known of a path: its canonical form, where it exists, and what the
/// file system calls the file, where that can be read.
#[derive(Clone, Debug)]
pub struct SeenFile {
    pub canonical: Option<Vec<u8>>,
    pub id: Option<(u64, u64)>,
}

/// The canonical form of a path, where it exists.
pub open spec fn canonical_of(f: SeenFile) -> Option<Seq<u8>> {
    match f.canonical {
        Some(p) => Some(p@),
        None => None,
    }
}

/// Both paths exist and name one file.
pub open spec fn one_file(a: SeenFile, b: SeenFile) -> bool {
    &&& canonical_of(a) is Some
    &&& canonical_of(b) is Some
    &&& canonical_of(a) == canonical_of(b) || (a.id is Some && a.id == b.id)
}

fn same_bytes(a: &Vec<u8>, b: &Vec<u8>) -> (r: bool)
    ensures
        r == (a@ == b@),
{
    if a.len() != b.len() {
        return false;
    }
    for i in 0..a.len()
        invariant
            a@.len() == b@.len(),
            forall|j: int| 0 <= j < i ==> a@[j] == b@[j],
    {
        if a[i] != b[i] {
            assert(a@[i as int] != b@[i as int]);
            return false;
        }
    }
    assert(a@ =~= b@);
    true
}

/// Whether two paths name one file. A source that is no file is never the
/// destination, and neither is a destination that does not exist yet.
pub fn same_file(source: Option<&SeenFile>, dest: &SeenFile) -> (r: bool)
    ensures
        r == (source matches Some(s) && one_file(*s, *dest)),
{
    match source {
        None => false,
        Some(source) => match (&source.canonical, &dest.canonical) {
            (Some(a), Some(b)) => {
                if same_bytes(a, b) {
                    return true;
                }
                match (source.id, dest.id) {
                    (Some(x), Some(y)) => x.0 == y.0 && x.1 == y.1,
                    _ => false,
                }
            },
            _ => false,
        },
    }
}

/// What the file system calls a file, out of the serial number of its volume
/// and the two halves of its index there.
pub fn file_id(volume_serial: u32, index_high: u32, index_low: u32) -> (r: (u64, u64))
    ensures
        r.0 == volume_serial,
        r.1 == index_high * 0x1_0000_0000 + index_low,
{
    (volume_serial as u64, index_high as u64 * 0x1_0000_0000 + index_low as u64)
}

/// Law: the order of the two paths makes no difference.
pub proof fn law_same_file_is_symmetric(a: SeenFile, b: SeenFile)
    ensures
        one_file(a, b) == one_file(b, a),
{
}

/// Law: what exists is itself; what does not is nothing else either.
pub proof fn law_same_file_needs_existence(a: SeenFile, b: SeenFile)
    ensures
        canonical_of(a) is Some ==> one_file(a, a),
        canonical_of(a) is None ==> !one_file(a, b) && !one_file(b, a),
{
}

/// Law: two names of one file are one file, though their paths differ.
pub proof fn law_hard_links_are_one_file(a: SeenFile, b: SeenFile)
    requires
        canonical_of(a) is Some,
        canonical_of(b) is Some,
        a.id is Some,
        a.id == b.id,
    ensures
        one_file(a, b),
{
}

/// Law: two files of one volume have the same name there only where both halves
/// of their indices agree.
pub proof fn law_file_ids_differ(high: u32, low: u32, other_high: u32, other_low: u32)
    requires
        high * 0x1_0000_0000 + low == other_high * 0x1_0000_0000 + other_low,
    ensures
        high == other_high,
        low == other_low,
{
}

} // verus!
