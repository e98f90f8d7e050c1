//! File paths as text, as a Unix system reads them: `/` stands between their
//! parts, and no other character does.

use crate::text::{chars_of, string_of};
use vstd::prelude::*;
use vstd::string::*;

verus! {

/// `p` without what adds no part at its end: slashes, and dots that stand alone
/// behind a slash.
pub open spec fn without_empty_tail(p: Seq<char>) -> Seq<char>
    decreases p.len(),
{
    let n = p.len();
    if n > 0 && p[n - 1] == '/' {
        without_empty_tail(p.drop_last())
    } else if n > 1 && p[n - 1] == '.' && p[n - 2] == '/' {
        without_empty_tail(p.drop_last())
    } else {
        p
    }
}

/// `p` behind its last slash; all of `p` where there is none.
pub open spec fn last_part(p: Seq<char>) -> Seq<char>
    decreases p.len(),
{
    if p.len() == 0 || p.last() == '/' {
        Seq::empty()
    } else {
        last_part(p.drop_last()).push(p.last())
    }
}

/// The name of the file that `p` leads to. A path that ends in the root, in the
/// current directory or in a step up has none.
pub open spec fn path_file_name(p: Seq<char>) -> Option<Seq<char>> {
    let name = last_part(without_empty_tail(p));
    if name.len() == 0 || name == seq!['.'] || name == seq!['.', '.'] {
        None
    } else {
        Some(name)
    }
}

/// The directory that the last part of `p` stands in; empty for a bare name.
pub open spec fn path_parent(p: Seq<char>) -> Seq<char> {
    let q = without_empty_tail(p);
    let head = q.take(q.len() - last_part(q).len());
    if head.len() > 0 && without_empty_tail(head).len() == 0 {
        seq!['/']
    } else {
        without_empty_tail(head)
    }
}

/// There is a dot in `name` behind its first character.
pub open spec fn has_suffix_dot(name: Seq<char>) -> bool {
    exists|i: int| 0 < i < name.len() && name[i] == '.'
}

/// `name` behind its last dot.
pub open spec fn behind_last_dot(name: Seq<char>) -> Seq<char>
    decreases name.len(),
{
    if name.len() == 0 || name.last() == '.' {
        Seq::empty()
    } else {
        behind_last_dot(name.drop_last()).push(name.last())
    }
}

/// The extension of the file that `p` leads to: what stands behind the last
/// dot of its name, unless that dot starts the name.
pub open spec fn path_extension(p: Seq<char>) -> Option<Seq<char>> {
    match path_file_name(p) {
        Some(name) => if has_suffix_dot(name) {
            Some(behind_last_dot(name))
        } else {
            None
        },
        None => None,
    }
}

/// The name of the file that `p` leads to, without its extension.
pub open spec fn path_stem(p: Seq<char>) -> Option<Seq<char>> {
    match path_file_name(p) {
        Some(name) => if has_suffix_dot(name) {
            Some(name.take(name.len() - behind_last_dot(name).len() - 1))
        } else {
            Some(name)
        },
        None => None,
    }
}

/// `name` inside the directory `dir`; an absolute `name` stands for itself.
pub open spec fn path_join(dir: Seq<char>, name: Seq<char>) -> Seq<char> {
    if name.len() > 0 && name[0] == '/' {
        name
    } else if dir.len() == 0 || dir.last() == '/' {
        dir + name
    } else {
        dir.push('/') + name
    }
}

/// What stands behind the last dot is no longer than the name.
proof fn lemma_behind_last_dot_len(p: Seq<char>)
    ensures
        behind_last_dot(p).len() <= p.len(),
        behind_last_dot(p) == p.skip(p.len() - behind_last_dot(p).len()),
        behind_last_dot(p).len() < p.len() ==> p[p.len() - behind_last_dot(p).len() - 1] == '.',
        forall|i: int|
            p.len() - behind_last_dot(p).len() <= i < p.len() ==> #[trigger] p[i] != '.',
    decreases p.len(),
{
    if p.len() > 0 && p.last() != '.' {
        lemma_behind_last_dot_len(p.drop_last());
        assert(behind_last_dot(p) =~= p.skip(p.len() - behind_last_dot(p).len()));
        assert forall|i: int| p.len() - behind_last_dot(p).len() <= i < p.len() implies #[trigger] p[i]
            != '.' by {
            if i < p.len() - 1 {
                assert(p.drop_last()[i] == p[i]);
            }
        }
    } else {
        assert(behind_last_dot(p) =~= p.skip(p.len() as int));
    }
}

fn cut_empty_tail<'a>(p: &'a [char]) -> (r: &'a [char])
    ensures
        r@ == without_empty_tail(p@),
{
    let mut n: usize = p.len();
    assert(p@.take(n as int) =~= p@);
    while n > 0 && (p[n - 1] == '/' || (n > 1 && p[n - 1] == '.' && p[n - 2] == '/'))
        invariant
            n <= p@.len(),
            without_empty_tail(p@) == without_empty_tail(p@.take(n as int)),
        decreases n,
    {
        assert(p@.take(n as int).drop_last() =~= p@.take(n - 1));
        n = n - 1;
    }
    assert(p@.subrange(0, n as int) =~= p@.take(n as int));
    vstd::slice::slice_subrange(p, 0, n)
}

fn last_part_start(p: &[char]) -> (n: usize)
    ensures
        n <= p@.len(),
        p@.skip(n as int) == last_part(p@),
        n == p@.len() - last_part(p@).len(),
{
    let mut n: usize = p.len();
    assert(p@.take(n as int) =~= p@);
    assert(last_part(p@) + p@.skip(n as int) =~= last_part(p@));
    while n > 0 && p[n - 1] != '/'
        invariant
            n <= p@.len(),
            last_part(p@) == last_part(p@.take(n as int)) + p@.skip(n as int),
        decreases n,
    {
        assert(p@.take(n as int).drop_last() =~= p@.take(n - 1));
        assert(last_part(p@.take(n - 1)).push(p@[n - 1]) + p@.skip(n as int) =~= last_part(
            p@.take(n - 1),
        ) + p@.skip(n - 1));
        n = n - 1;
    }
    assert(Seq::empty() + p@.skip(n as int) =~= p@.skip(n as int));
    n
}

fn last_dot(p: &[char]) -> (n: usize)
    ensures
        n <= p@.len(),
        p@.skip(n as int) == behind_last_dot(p@),
        n == p@.len() - behind_last_dot(p@).len(),
{
    let mut n: usize = p.len();
    assert(p@.take(n as int) =~= p@);
    assert(behind_last_dot(p@) + p@.skip(n as int) =~= behind_last_dot(p@));
    while n > 0 && p[n - 1] != '.'
        invariant
            n <= p@.len(),
            behind_last_dot(p@) == behind_last_dot(p@.take(n as int)) + p@.skip(n as int),
        decreases n,
    {
        assert(p@.take(n as int).drop_last() =~= p@.take(n - 1));
        assert(behind_last_dot(p@.take(n - 1)).push(p@[n - 1]) + p@.skip(n as int)
            =~= behind_last_dot(p@.take(n - 1)) + p@.skip(n - 1));
        n = n - 1;
    }
    assert(Seq::empty() + p@.skip(n as int) =~= p@.skip(n as int));
    n
}

/// The name of the file that `path` leads to.
pub fn file_name(path: &str) -> (r: Option<String>)
    ensures
        match r {
            Some(s) => path_file_name(path@) == Some(s@),
            None => path_file_name(path@) is None,
        },
{
    let v = chars_of(path);
    let q = cut_empty_tail(v.as_slice());
    let n: usize = last_part_start(q);
    assert(q@.subrange(n as int, q@.len() as int) =~= q@.skip(n as int));
    let name = vstd::slice::slice_subrange(q, n, q.len());
    let dot = name.len() == 1 && name[0] == '.';
    let up = name.len() == 2 && name[0] == '.' && name[1] == '.';
    assert(dot == (name@ =~= seq!['.']));
    assert(up == (name@ =~= seq!['.', '.']));
    if name.len() == 0 || dot || up {
        None
    } else {
        Some(string_of(name))
    }
}

/// The directory that the last part of `path` stands in.
pub fn parent(path: &str) -> (r: String)
    ensures
        r@ == path_parent(path@),
{
    let v = chars_of(path);
    let q = cut_empty_tail(v.as_slice());
    let n: usize = last_part_start(q);
    assert(q@.subrange(0, n as int) =~= q@.take(n as int));
    let head = vstd::slice::slice_subrange(q, 0, n);
    let trimmed_head = cut_empty_tail(head);
    if n > 0 && trimmed_head.len() == 0 {
        let mut root = String::new();
        root.push('/');
        assert(root@ =~= seq!['/']);
        root
    } else {
        string_of(trimmed_head)
    }
}

/// Splits the name of a file at its last dot, unless that starts the name.
fn split_extension(name: &str) -> (r: Option<(String, String)>)
    ensures
        match r {
            Some((stem, ext)) => has_suffix_dot(name@) && ext@ == behind_last_dot(name@) && stem@
                == name@.take(name@.len() - behind_last_dot(name@).len() - 1),
            None => !has_suffix_dot(name@),
        },
{
    let v = chars_of(name);
    let n: usize = last_dot(v.as_slice());
    proof {
        lemma_behind_last_dot_len(name@);
    }
    if n < 2 {
        return None;
    }
    assert(name@[n - 1] == '.');
    assert(v@.subrange(0, n - 1) =~= name@.take(n - 1));
    assert(v@.subrange(n as int, v@.len() as int) =~= name@.skip(n as int));
    let stem = string_of(vstd::slice::slice_subrange(v.as_slice(), 0, n - 1));
    let ext = string_of(vstd::slice::slice_subrange(v.as_slice(), n, v.len()));
    Some((stem, ext))
}

/// The extension of the file that `path` leads to.
pub fn extension(path: &str) -> (r: Option<String>)
    ensures
        match r {
            Some(s) => path_extension(path@) == Some(s@),
            None => path_extension(path@) is None,
        },
{
    match file_name(path) {
        Some(name) => match split_extension(name.as_str()) {
            Some((_, ext)) => Some(ext),
            None => None,
        },
        None => None,
    }
}

/// The name of the file that `path` leads to, without its extension.
pub fn file_stem(path: &str) -> (r: Option<String>)
    ensures
        match r {
            Some(s) => path_stem(path@) == Some(s@),
            None => path_stem(path@) is None,
        },
{
    match file_name(path) {
        Some(name) => match split_extension(name.as_str()) {
            Some((stem, _)) => Some(stem),
            None => Some(name),
        },
        None => None,
    }
}

/// `name` inside the directory `dir`.
pub fn join(dir: &str, name: &str) -> (r: String)
    ensures
        r@ == path_join(dir@, name@),
{
    let v = chars_of(dir);
    let w = chars_of(name);
    if w.len() > 0 && w[0] == '/' {
        return name.to_owned();
    }
    let mut out = dir.to_owned();
    if v.len() > 0 && v[v.len() - 1] != '/' {
        out.push('/');
    }
    out.append(name);
    out
}

/// Law: a name without a slash, joined to a directory, leads into that
/// directory: it is the last part of the joined path, whatever the directory.
pub proof fn law_join_keeps_the_name(dir: Seq<char>, name: Seq<char>)
    requires
        forall|i: int| 0 <= i < name.len() ==> #[trigger] name[i] != '/',
    ensures
        dir.len() > 0 ==> last_part(path_join(dir, name)) == name,
        dir.len() == 0 ==> path_join(dir, name) == name,
{
    if dir.len() > 0 {
        let head = if dir.last() == '/' {
            dir
        } else {
            dir.push('/')
        };
        assert(path_join(dir, name) == head + name);
        lemma_last_part_of_concat(head, name);
    } else {
        assert(dir + name =~= name);
    }
}

proof fn lemma_last_part_of_concat(head: Seq<char>, name: Seq<char>)
    requires
        head.len() > 0,
        head.last() == '/',
        forall|i: int| 0 <= i < name.len() ==> #[trigger] name[i] != '/',
    ensures
        last_part(head + name) == name,
    decreases name.len(),
{
    if name.len() == 0 {
        assert(head + name =~= head);
        assert(name =~= Seq::empty());
    } else {
        assert((head + name).drop_last() =~= head + name.drop_last());
        assert((head + name).last() == name[name.len() - 1]);
        assert forall|i: int| 0 <= i < name.drop_last().len() implies #[trigger] name.drop_last()[i]
            != '/' by {
            assert(name[i] != '/');
        }
        lemma_last_part_of_concat(head, name.drop_last());
        assert(name.drop_last().push(name.last()) =~= name);
    }
}

/// A text that can be the last part of a path: it holds no slash and means no
/// directory by itself.
pub open spec fn is_part(name: Seq<char>) -> bool {
    &&& name.len() > 0
    &&& forall|i: int| 0 <= i < name.len() ==> #[trigger] name[i] != '/'
    &&& name != seq!['.']
    &&& name != seq!['.', '.']
}

proof fn lemma_tail_len(p: Seq<char>)
    ensures
        without_empty_tail(p).len() <= p.len(),
    decreases p.len(),
{
    if p.len() > 0 {
        lemma_tail_len(p.drop_last());
    }
}

/// What stands behind the last dot of a name with an extension is the extension.
proof fn lemma_behind_dot(stem: Seq<char>, ext: Seq<char>)
    requires
        forall|i: int| 0 <= i < ext.len() ==> #[trigger] ext[i] != '.',
    ensures
        behind_last_dot(stem + seq!['.'] + ext) == ext,
    decreases ext.len(),
{
    let s = stem + seq!['.'] + ext;
    if ext.len() == 0 {
        assert(s.last() == '.');
        assert(ext =~= Seq::empty());
    } else {
        let e = ext.drop_last();
        assert(ext[ext.len() - 1] != '.');
        assert forall|i: int| 0 <= i < e.len() implies #[trigger] e[i] != '.' by {
            assert(ext[i] != '.');
        }
        lemma_behind_dot(stem, e);
        assert(s.drop_last() =~= stem + seq!['.'] + e);
        assert(e.push(ext.last()) =~= ext);
    }
}

/// Law: a path reads back what it was put together from: the last part is the
/// name of the file, what stands before it is the directory, and the name is the
/// stem and the extension with a dot between them. A name without a dot, or with
/// one at its start alone, is all stem.
pub proof fn law_path_reads_back(dir: Seq<char>, name: Seq<char>)
    requires
        dir.len() > 0,
        without_empty_tail(dir) == dir,
        is_part(name),
    ensures
        path_join(dir, name) == dir + seq!['/'] + name,
        path_file_name(dir + seq!['/'] + name) == Some(name),
        path_parent(dir + seq!['/'] + name) == dir,
        path_file_name(name) == Some(name),
        path_parent(name) == Seq::<char>::empty(),
{
    let p = dir + seq!['/'] + name;
    lemma_tail_len(dir.drop_last());
    assert(dir.last() != '/');
    assert(p =~= dir.push('/') + name);
    assert(p.last() == name[name.len() - 1]);
    assert(name[0] != '/');
    if name.len() == 1 {
        assert(name[0] != '.') by {
            if name[0] == '.' {
                assert(name =~= seq!['.']);
            }
        }
    } else {
        assert(p[p.len() - 2] == name[name.len() - 2]);
    }
    assert(without_empty_tail(p) == p);
    lemma_last_part_of_concat(dir.push('/'), name);
    let head = p.take(p.len() - name.len());
    assert(head =~= dir.push('/'));
    assert(head.drop_last() =~= dir);
    assert(without_empty_tail(head) == without_empty_tail(dir));
    assert(without_empty_tail(name) == name);
    lemma_bare_last_part(name);
    assert(name.take(0) =~= Seq::<char>::empty());
}

proof fn lemma_bare_last_part(name: Seq<char>)
    requires
        forall|i: int| 0 <= i < name.len() ==> #[trigger] name[i] != '/',
    ensures
        last_part(name) == name,
    decreases name.len(),
{
    if name.len() > 0 {
        assert(name[name.len() - 1] != '/');
        assert forall|i: int| 0 <= i < name.drop_last().len() implies #[trigger] name.drop_last()[i]
            != '/' by {
            assert(name[i] != '/');
        }
        lemma_bare_last_part(name.drop_last());
        assert(name.drop_last().push(name.last()) =~= name);
    }
}

/// Law: the name of a file reads back as its stem and its extension.
pub proof fn law_name_reads_back(p: Seq<char>, stem: Seq<char>, ext: Seq<char>)
    requires
        path_file_name(p) == Some(stem + seq!['.'] + ext),
        stem.len() > 0,
        forall|i: int| 0 <= i < ext.len() ==> #[trigger] ext[i] != '.',
    ensures
        path_stem(p) == Some(stem),
        path_extension(p) == Some(ext),
{
    let name = stem + seq!['.'] + ext;
    lemma_behind_dot(stem, ext);
    assert(name[stem.len() as int] == '.');
    assert(name.take(name.len() - ext.len() - 1) =~= stem);
}

/// Law: a file whose name has no dot behind its first character has no extension,
/// and its stem is its name.
pub proof fn law_name_without_extension(p: Seq<char>, name: Seq<char>)
    requires
        path_file_name(p) == Some(name),
        forall|i: int| 0 < i < name.len() ==> #[trigger] name[i] != '.',
    ensures
        path_stem(p) == Some(name),
        path_extension(p) is None,
{
}

} // verus!
