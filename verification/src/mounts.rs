//! The kernel's table of mounts: one line for each, with the device, the mount
//! point and more as words.
use vstd::prelude::*;

use crate::text::{same_text, split_words};
#[allow(unused_imports)]
use crate::text::{is_white_space, lemma_words, words};

verus! {

/// Whether a line of the table is about a mount on `path`.
pub open spec fn mounts_on(line: Seq<char>, path: Seq<char>) -> bool {
    words(line).len() >= 2 && words(line)[1] == path
}

/// Whether a line of the table is about a mount of `device`, under its name or
/// under the path that its links lead to.
pub open spec fn mounts_device(
    line: Seq<char>,
    device: Seq<char>,
    canonical: Option<Seq<char>>,
) -> bool {
    words(line).len() >= 2 && (words(line)[0] == device || Some(words(line)[0]) == canonical)
}

/// Whether a table has a line about a mount on `path`.
pub open spec fn is_mount_point(table: Seq<Seq<char>>, path: Seq<char>) -> bool {
    exists|i: int| 0 <= i < table.len() && mounts_on(#[trigger] table[i], path)
}

/// Whether a table has a line about a mount of `device`.
pub open spec fn is_in_use(
    table: Seq<Seq<char>>,
    device: Seq<char>,
    canonical: Option<Seq<char>>,
) -> bool {
    exists|i: int|
        0 <= i < table.len() && mounts_device(#[trigger] table[i], device, canonical)
}

/// Whether a path is a mount point, given the lines of the table.
pub fn is_mounted(table: &Vec<String>, path: &str) -> (r: bool)
    ensures
        r == is_mount_point(table.deep_view(), path@),
{
    let mut i: usize = 0;
    while i < table.len()
        invariant
            i <= table@.len(),
            forall|j: int| 0 <= j < i ==> !mounts_on(#[trigger] table.deep_view()[j], path@),
        decreases table.len() - i,
    {
        let parts = split_words(table[i].as_str());
        assert(table.deep_view()[i as int] == table@[i as int]@);
        if parts.len() >= 2 {
            assert(parts.deep_view()[1] == parts@[1]@);
            if same_text(parts[1].as_str(), path) {
                assert(mounts_on(table.deep_view()[i as int], path@));
                return true;
            }
        }
        i = i + 1;
    }
    false
}

/// Whether a device is mounted anywhere, given the lines of the table and the
/// path that the device's links lead to, where there is one.
pub fn is_device_mounted(table: &Vec<String>, device: &str, canonical: Option<&str>) -> (r: bool)
    ensures
        r == is_in_use(table.deep_view(), device@, canonical.deep_view()),
{
    let mut i: usize = 0;
    while i < table.len()
        invariant
            i <= table@.len(),
            forall|j: int|
                0 <= j < i ==> !mounts_device(
                    #[trigger] table.deep_view()[j],
                    device@,
                    canonical.deep_view(),
                ),
        decreases table.len() - i,
    {
        let parts = split_words(table[i].as_str());
        assert(table.deep_view()[i as int] == table@[i as int]@);
        if parts.len() >= 2 {
            assert(parts.deep_view()[0] == parts@[0]@);
            let first = parts[0].as_str();
            let named = same_text(first, device);
            let linked = match canonical {
                Some(path) => same_text(first, path),
                None => false,
            };
            if named || linked {
                assert(mounts_device(
                    table.deep_view()[i as int],
                    device@,
                    canonical.deep_view(),
                ));
                return true;
            }
        }
        i = i + 1;
    }
    false
}

// ---------------------------------------------------------------------------
// Laws
// ---------------------------------------------------------------------------
/// Whether a text is one word.
pub open spec fn is_word(s: Seq<char>) -> bool {
    s.len() > 0 && forall|i: int| 0 <= i < s.len() ==> !is_white_space(#[trigger] s[i])
}

/// A line about a mount names the device first and the mount point second; what
/// stands behind them makes no difference.
pub proof fn lemma_line_of_mount(
    device: Seq<char>,
    path: Seq<char>,
    fstype: Seq<char>,
    asked: Seq<char>,
    canonical: Option<Seq<char>>,
)
    requires
        is_word(device),
        is_word(path),
        is_word(fstype),
    ensures
        ({
            let line = device + seq![' '] + path + seq![' '] + fstype;
            &&& mounts_on(line, asked) <==> asked == path
            &&& mounts_device(line, asked, canonical) <==> asked == device || canonical == Some(
                device,
            )
        }),
{
    lemma_words(Seq::empty(), ' ', device);
    lemma_words(device, ' ', path);
    lemma_words(device + seq![' '] + path, ' ', fstype);
    let line = device + seq![' '] + path + seq![' '] + fstype;
    assert(words(line) =~= seq![device, path, fstype]);
}

/// What is mounted according to one part of a table is mounted according to all of
/// it, and nothing else is.
pub proof fn lemma_parts_of_table(
    a: Seq<Seq<char>>,
    b: Seq<Seq<char>>,
    line: Seq<char>,
    path: Seq<char>,
    canonical: Option<Seq<char>>,
)
    ensures
        is_mount_point(a + b, path) <==> is_mount_point(a, path) || is_mount_point(b, path),
        is_in_use(a + b, path, canonical) <==> is_in_use(a, path, canonical) || is_in_use(
            b,
            path,
            canonical,
        ),
        is_mount_point(seq![line], path) <==> mounts_on(line, path),
        is_in_use(seq![line], path, canonical) <==> mounts_device(line, path, canonical),
        !is_mount_point(Seq::empty(), path),
        !is_in_use(Seq::empty(), path, canonical),
{
    let all = a + b;
    assert forall|i: int| 0 <= i < a.len() implies #[trigger] a[i] == all[i] by {}
    assert forall|i: int| 0 <= i < b.len() implies #[trigger] b[i] == all[a.len() + i] by {}
    assert forall|i: int| a.len() <= i < all.len() implies #[trigger] all[i] == b[i - a.len()] by {}
    assert forall|i: int| 0 <= i < a.len() implies #[trigger] all[i] == a[i] by {}
    assert(seq![line][0] == line);
}

} // verus!
