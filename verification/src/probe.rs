//! What can be told of a device: whether it is there, what filesystem udev found
//! on it, and whether it holds swap space.
use vstd::prelude::*;

use crate::mount::FileKind;
use crate::text::{split_lines, strip_prefix};
#[allow(unused_imports)]
use crate::text::{after_prefix, has_prefix, lemma_lines, lemma_prefix, lines};

verus! {

/// Whether a device is ready for use.
pub open spec fn is_ready(kind: Option<FileKind>) -> bool {
    kind == Some(FileKind::BlockDevice)
}

/// Whether a device is ready for use: a block device stands at its path.
pub fn device_is_ready(kind: Option<FileKind>) -> (r: bool)
    ensures
        r == is_ready(kind),
{
    match kind {
        Some(kind) => kind == FileKind::BlockDevice,
        None => false,
    }
}

/// The filesystem type that a line of udev's data states, where it states one.
pub open spec fn stated_fs_type(line: Seq<char>) -> Option<Seq<char>> {
    match after_prefix(line, "E:ID_FS_TYPE="@) {
        Some(fstype) if fstype.len() > 0 => Some(fstype),
        _ => None,
    }
}

/// The first filesystem type that the lines state.
pub open spec fn first_fs_type(ls: Seq<Seq<char>>) -> Option<Seq<char>>
    decreases ls.len(),
{
    if ls.len() == 0 {
        None
    } else if stated_fs_type(ls[0]) is Some {
        stated_fs_type(ls[0])
    } else {
        first_fs_type(ls.skip(1))
    }
}

/// The filesystem type of a device, from what udev keeps of it.
pub open spec fn fs_type_in(content: Seq<char>) -> Option<Seq<char>> {
    first_fs_type(lines(content))
}

/// The filesystem type of a device, from what udev keeps of it.
pub fn udev_fs_type(content: &str) -> (r: Option<String>)
    ensures
        r.deep_view() == fs_type_in(content@),
{
    let ls = split_lines(content);
    let ghost all = ls.deep_view();
    let mut i: usize = 0;
    assert(all.skip(0) =~= all);
    while i < ls.len()
        invariant
            i <= ls@.len(),
            all == ls.deep_view(),
            all == lines(content@),
            first_fs_type(all) == first_fs_type(all.skip(i as int)),
        decreases ls.len() - i,
    {
        proof {
            assert(all.skip(i as int)[0] == ls@[i as int]@);
            assert(all.skip(i as int).skip(1) =~= all.skip(i + 1));
        }
        match strip_prefix(ls[i].as_str(), "E:ID_FS_TYPE=") {
            Some(fstype) => {
                if !fstype.as_str().is_empty() {
                    return Some(fstype);
                }
            },
            None => {},
        }
        i = i + 1;
    }
    None
}

/// How many bytes the mark of swap space takes.
pub const SWAP_MARK_LEN: usize = 10;

/// Where the mark of swap space stands.
pub open spec fn mark_offset(page_size: i64) -> Option<u64> {
    if page_size <= 0 {
        None
    } else if page_size < SWAP_MARK_LEN {
        Some(0u64)
    } else {
        Some((page_size - SWAP_MARK_LEN) as u64)
    }
}

/// Where the mark of swap space stands: in the last bytes of the first page.
/// Nowhere, where the page size is not known.
pub fn swap_mark_offset(page_size: i64) -> (r: Option<u64>)
    ensures
        r == mark_offset(page_size),
{
    if page_size <= 0 {
        None
    } else if page_size < 10 {
        Some(0)
    } else {
        Some((page_size - 10) as u64)
    }
}

/// `SWAPSPACE2`.
pub open spec fn swap_mark() -> Seq<u8> {
    seq![0x53, 0x57, 0x41, 0x50, 0x53, 0x50, 0x41, 0x43, 0x45, 0x32]
}

/// `PAGESIZE` and two zero bytes.
pub open spec fn page_size_mark() -> Seq<u8> {
    seq![0x50, 0x41, 0x47, 0x45, 0x53, 0x49, 0x5a, 0x45, 0x00, 0x00]
}

/// Whether bytes mark swap space.
pub open spec fn marks_swap(mark: Seq<u8>) -> bool {
    mark == swap_mark() || mark == page_size_mark()
}

fn same_bytes(a: &[u8], b: &[u8]) -> (r: bool)
    ensures
        r == (a@ == b@),
{
    if a.len() != b.len() {
        return false;
    }
    let mut i: usize = 0;
    while i < a.len()
        invariant
            i <= a@.len(),
            a@.len() == b@.len(),
            forall|j: int| 0 <= j < i ==> a@[j] == b@[j],
        decreases a.len() - i,
    {
        if a[i] != b[i] {
            return false;
        }
        i = i + 1;
    }
    assert(a@ =~= b@);
    true
}

/// Whether the bytes at that place mark swap space.
pub fn has_swap_signature(mark: &[u8]) -> (r: bool)
    ensures
        r == marks_swap(mark@),
{
    let swap: [u8; 10] = [0x53, 0x57, 0x41, 0x50, 0x53, 0x50, 0x41, 0x43, 0x45, 0x32];
    let page: [u8; 10] = [0x50, 0x41, 0x47, 0x45, 0x53, 0x49, 0x5a, 0x45, 0x00, 0x00];
    assert(swap@ =~= swap_mark());
    assert(page@ =~= page_size_mark());
    same_bytes(mark, swap.as_slice()) || same_bytes(mark, page.as_slice())
}

// ---------------------------------------------------------------------------
// Laws
// ---------------------------------------------------------------------------
/// A device that is waited for is ready once it is a block device, and nothing else
/// will do.
pub proof fn lemma_ready(kind: FileKind)
    ensures
        is_ready(Some(kind)) <==> kind == FileKind::BlockDevice,
        !is_ready(None),
{
}

/// The filesystem type of a device is what udev found: the first one that is
/// stated, wherever among the other lines.
pub proof fn lemma_stated_type(
    before: Seq<Seq<char>>,
    fstype: Seq<char>,
    behind: Seq<Seq<char>>,
)
    requires
        forall|i: int|
            0 <= i < before.len() ==> !has_prefix(#[trigger] before[i], "E:ID_FS_TYPE="@),
        fstype.len() > 0,
    ensures
        first_fs_type(before + seq!["E:ID_FS_TYPE="@ + fstype] + behind) == Some(fstype),
        first_fs_type(before) is None,
        first_fs_type(seq!["E:ID_FS_TYPE="@] + before) is None,
    decreases before.len(),
{
    let all = before + seq!["E:ID_FS_TYPE="@ + fstype] + behind;
    lemma_prefix("E:ID_FS_TYPE="@ + fstype, "E:ID_FS_TYPE="@, fstype);
    lemma_prefix("E:ID_FS_TYPE="@, "E:ID_FS_TYPE="@, Seq::empty());
    assert("E:ID_FS_TYPE="@ + Seq::<char>::empty() =~= "E:ID_FS_TYPE="@);
    assert((seq!["E:ID_FS_TYPE="@] + before).skip(1) =~= before);
    assert((seq!["E:ID_FS_TYPE="@] + before)[0] == "E:ID_FS_TYPE="@);
    if before.len() == 0 {
        assert(all[0] == "E:ID_FS_TYPE="@ + fstype);
    } else {
        let rest = before.skip(1);
        assert(all[0] == before[0]);
        assert(all.skip(1) =~= rest + seq!["E:ID_FS_TYPE="@ + fstype] + behind);
        assert forall|i: int| 0 <= i < rest.len() implies !has_prefix(
            #[trigger] rest[i],
            "E:ID_FS_TYPE="@,
        ) by {
            assert(rest[i] == before[i + 1]);
        }
        lemma_stated_type(rest, fstype, behind);
    }
}

/// What udev keeps of a device is read line by line.
pub proof fn lemma_type_on_a_line(front: Seq<char>, fstype: Seq<char>)
    requires
        front.len() == 0 || front.last() == '\n',
        forall|i: int|
            0 <= i < lines(front).len() ==> !has_prefix(
                #[trigger] lines(front)[i],
                "E:ID_FS_TYPE="@,
            ),
        fstype.len() > 0,
        fstype.last() != '\r',
        !fstype.contains('\n'),
    ensures
        fs_type_in(front + ("E:ID_FS_TYPE="@ + fstype) + seq!['\n']) == Some(fstype),
        fs_type_in(front) is None,
{
    reveal_strlit("E:ID_FS_TYPE=");
    let line = "E:ID_FS_TYPE="@ + fstype;
    assert forall|i: int| 0 <= i < line.len() implies line[i] != '\n' by {
        if i >= 13 {
            assert(line[i] == fstype[i - 13]);
            assert(fstype.contains(fstype[i - 13]));
        }
    }
    lemma_lines(front, line);
    lemma_stated_type(lines(front), fstype, Seq::empty());
    assert(lines(front) + seq![line] + Seq::<Seq<char>>::empty() =~= lines(front).push(line));
}

/// The mark of swap space ends where the first page ends.
pub proof fn lemma_mark_at_end_of_page(page_size: i64)
    ensures
        page_size >= 10 ==> mark_offset(page_size) is Some && mark_offset(page_size)->0 + 10
            == page_size,
        mark_offset(page_size) is None <==> page_size <= 0,
        0 < page_size < 10 ==> mark_offset(page_size) == Some(0u64),
        SWAP_MARK_LEN == 10,
{
}

/// The bytes of a text of ASCII characters.
pub open spec fn ascii(text: Seq<char>) -> Seq<u8> {
    Seq::new(text.len(), |i: int| text[i] as u8)
}

/// Swap space is marked by ten bytes: `SWAPSPACE2`, or `PAGESIZE` and two zeros.
pub proof fn lemma_marks(mark: Seq<u8>)
    ensures
        marks_swap(mark) <==> mark == ascii("SWAPSPACE2"@) || mark == ascii("PAGESIZE"@) + seq![
            0u8,
            0u8,
        ],
        marks_swap(mark) ==> mark.len() == SWAP_MARK_LEN,
{
    reveal_strlit("SWAPSPACE2");
    reveal_strlit("PAGESIZE");
    assert(ascii("SWAPSPACE2"@) =~= swap_mark());
    assert(ascii("PAGESIZE"@) + seq![0u8, 0u8] =~= page_size_mark());
}

} // verus!
