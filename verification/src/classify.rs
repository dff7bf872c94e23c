//! Binary classification: a file is a binary image exactly when its
//! leading bytes are the ELF magic, and a package qualifies for the audit
//! exactly when at least one of its owned files is such an image.

use vstd::prelude::*;
use rayon::slice::ParallelSliceMut;
use crate::text::lex_le;
use crate::text::views;

verus! {

/// The bytes 0x7f 'E' 'L' 'F' open every ELF image; nothing past the
/// fourth byte takes part in the classification.
pub open spec fn spec_is_elf(bs: Seq<u8>) -> bool {
    bs.len() >= 4 && bs[0] == 0x7f && bs[1] == 0x45 && bs[2] == 0x4c && bs[3] == 0x46
}

/// Classifies a file by the bytes read from its head: a binary image iff
/// at least four bytes could be read and the first four are the ELF magic.
/// A shorter read (the file ended early) is never an image.
pub fn is_binary(head: &[u8]) -> (r: bool)
    ensures
        r == spec_is_elf(head@),
{
    head.len() >= 4 && head[0] == 0x7f && head[1] == 0x45 && head[2] == 0x4c && head[3] == 0x46
}

/// The verdict looks only at the first four bytes: whatever follows them
/// never changes it.
pub proof fn lemma_classification_prefix(a: Seq<u8>, b: Seq<u8>)
    requires
        a.len() >= 4,
    ensures
        spec_is_elf(a + b) == spec_is_elf(a),
{
    assert((a + b)[0] == a[0]);
    assert((a + b)[1] == a[1]);
    assert((a + b)[2] == a[2]);
    assert((a + b)[3] == a[3]);
}

/// One owned file of a package: its path and the bytes read from its head
/// (up to four; fewer when the file is shorter).
pub struct FileHead {
    pub path: String,
    pub head: Vec<u8>,
}

/// The paths (as character sequences) of the entries classified as binary,
/// in input order.
pub open spec fn binary_paths(es: Seq<FileHead>) -> Seq<Seq<char>>
    decreases es.len(),
{
    if es.len() == 0 {
        Seq::empty()
    } else {
        let rest = binary_paths(es.drop_last());
        if spec_is_elf(es.last().head@) {
            rest.push(es.last().path@)
        } else {
            rest
        }
    }
}

/// Whether some entry classifies as binary.
pub open spec fn spec_have_binary(es: Seq<FileHead>) -> bool {
    exists|i: int| 0 <= i < es.len() && spec_is_elf(es[i].head@)
}

/// A package with no owned files has no binary: nothing is found and
/// nothing is listed, so such a package never reaches the report, whatever
/// flags were requested.
pub proof fn lemma_empty_package()
    ensures
        !spec_have_binary(Seq::empty()),
        binary_paths(Seq::empty()) == Seq::<Seq<char>>::empty(),
{
}

/// A binary entry exists exactly when the binary path list is non-empty.
pub proof fn lemma_have_iff_some(es: Seq<FileHead>)
    ensures
        spec_have_binary(es) <==> binary_paths(es).len() > 0,
    decreases es.len(),
{
    if es.len() > 0 {
        lemma_have_iff_some(es.drop_last());
        if spec_have_binary(es) && !spec_is_elf(es.last().head@) {
            let i = choose|i: int| 0 <= i < es.len() && spec_is_elf(es[i].head@);
            assert(es.drop_last()[i] == es[i]);
            assert(spec_have_binary(es.drop_last()));
        }
        if spec_have_binary(es.drop_last()) {
            let i = choose|i: int|
                0 <= i < es.drop_last().len() && spec_is_elf(es.drop_last()[i].head@);
            assert(es[i] == es.drop_last()[i]);
            assert(spec_have_binary(es));
        }
        if spec_is_elf(es.last().head@) {
            assert(spec_have_binary(es));
        }
    }
}

/// The binary file paths of a package's owned files, in input order; the
/// caller sorts when order matters.
pub fn list_binary(entries: Vec<FileHead>) -> (r: Vec<String>)
    ensures
        views(r@) == binary_paths(entries@),
{
    let ghost all = entries@;
    let mut entries = entries;
    let total = entries.len();
    let mut out: Vec<String> = Vec::new();
    proof {
        assert(all.take(0) =~= Seq::<FileHead>::empty());
        assert(views(out@) =~= binary_paths(all.take(0)));
    }
    let mut i: usize = 0;
    while entries.len() > 0
        invariant
            total == all.len(),
            i + entries.len() == all.len(),
            entries@ =~= all.skip(i as int),
            views(out@) == binary_paths(all.take(i as int)),
        decreases entries@.len(),
    {
        let e = entries.remove(0);
        let elf = is_binary(e.head.as_slice());
        proof {
            assert(e == all[i as int]);
            let t = all.take(i + 1);
            assert(t.drop_last() =~= all.take(i as int));
            assert(t.last() == e);
            if elf {
                assert(binary_paths(t) == binary_paths(all.take(i as int)).push(e.path@));
                assert(views(out@.push(e.path)) =~= views(out@).push(e.path@));
            } else {
                assert(binary_paths(t) == binary_paths(all.take(i as int)));
            }
            assert(entries@ =~= all.skip(i + 1));
        }
        if elf {
            out.push(e.path);
        }
        i = i + 1;
    }
    proof {
        assert(all.take(all.len() as int) =~= all);
    }
    out
}

/// Whether at least one owned file classifies as binary; stops at the
/// first hit rather than scanning the whole list.
pub fn have_binary(entries: &Vec<FileHead>) -> (r: bool)
    ensures
        r == spec_have_binary(entries@),
{
    let mut i: usize = 0;
    while i < entries.len()
        invariant
            i <= entries@.len(),
            forall|j: int| 0 <= j < i ==> !spec_is_elf(entries@[j].head@),
        decreases entries@.len() - i,
    {
        if is_binary(entries[i].head.as_slice()) {
            return true;
        }
        i = i + 1;
    }
    false
}

/// Relies on rayon's `par_sort` for `Vec<String>`: it sorts in place by
/// `String`'s ordering — lexicographic by character — and keeps exactly
/// the elements it was given.
#[verifier::external_body]
pub(crate) fn sort_paths(v: &mut Vec<String>)
    ensures
        views(final(v)@).to_multiset() == views(old(v)@).to_multiset(),
        forall|i: int, j: int|
            0 <= i < j < final(v)@.len() ==> lex_le(final(v)@[i]@, final(v)@[j]@),
{
    v.par_sort();
}

/// One package's classification step: `Some` exactly when at least one
/// owned file is a binary image — independent of `want_files` — carrying
/// the package's binary paths sorted lexicographically when `want_files`
/// is set and an empty list otherwise.
pub fn classify_package(entries: Vec<FileHead>, want_files: bool) -> (r: Option<Vec<String>>)
    ensures
        match r {
            Some(files) => spec_have_binary(entries@) && (want_files ==> views(
                files@,
            ).to_multiset() == binary_paths(entries@).to_multiset() && (forall|i: int, j: int|
                0 <= i < j < files@.len() ==> lex_le(files@[i]@, files@[j]@))) && (!want_files
                ==> files@.len() == 0),
            None => !spec_have_binary(entries@),
        },
{
    let ghost es = entries@;
    if want_files {
        let mut files = list_binary(entries);
        proof {
            lemma_have_iff_some(es);
        }
        if files.len() == 0 {
            None
        } else {
            sort_paths(&mut files);
            Some(files)
        }
    } else {
        if have_binary(&entries) {
            Some(Vec::new())
        } else {
            None
        }
    }
}

} // verus!
