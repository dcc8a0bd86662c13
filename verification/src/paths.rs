//! Unix paths as text: joining, components and the parts of a path.
use vstd::prelude::*;

use crate::names::name_parts;
#[allow(unused_imports)]
use crate::names::{lemma_parts_of_text, lemma_plain_name, parts_of};
use crate::text::{
    from_chars, join_texts, push_text, same_text, split_char, starts_with_char, to_chars,
};
#[allow(unused_imports)]
use crate::text::{
    digit_value, digits_value, is_char, join, lemma_join_of_split, lemma_split_append,
    lemma_split_behind, lemma_split_has_pieces, lemma_split_plain, lemma_take_next, split,
};

verus! {

pub open spec fn is_absolute(p: Seq<char>) -> bool {
    p.len() > 0 && p[0] == '/'
}

/// `base` with `rel` under it. An absolute `rel` stands for itself.
pub open spec fn joined(base: Seq<char>, rel: Seq<char>) -> Seq<char> {
    if is_absolute(rel) || base.len() == 0 {
        rel
    } else if base.last() == '/' {
        base + rel
    } else {
        base + "/"@ + rel
    }
}

/// A piece between two slashes that names nothing: empty, or a single dot.
pub open spec fn is_blank(piece: Seq<char>) -> bool {
    piece.len() == 0 || piece == "."@
}

/// The pieces that name something, in order.
pub open spec fn named(pieces: Seq<Seq<char>>) -> Seq<Seq<char>>
    decreases pieces.len(),
{
    if pieces.len() == 0 {
        Seq::empty()
    } else {
        let front = named(pieces.drop_last());
        if is_blank(pieces.last()) {
            front
        } else {
            front.push(pieces.last())
        }
    }
}

/// The names that a path goes through. Repeated slashes, single dots and a slash
/// at the end do not count.
pub open spec fn names(p: Seq<char>) -> Seq<Seq<char>> {
    named(split(p, '/'))
}

/// Whether a path is the root directory, however it is spelled.
pub open spec fn is_root(p: Seq<char>) -> bool {
    is_absolute(p) && names(p).len() == 0
}

/// Whether an absolute path is, or lies below, the directory `/name`.
pub open spec fn is_below(p: Seq<char>, name: Seq<char>) -> bool {
    is_absolute(p) && names(p).len() > 0 && names(p)[0] == name
}

pub open spec fn drop_leading_blanks(pieces: Seq<Seq<char>>) -> Seq<Seq<char>>
    decreases pieces.len(),
{
    if pieces.len() > 0 && is_blank(pieces[0]) {
        drop_leading_blanks(pieces.skip(1))
    } else {
        pieces
    }
}

/// The pieces without blank ones at the end, of which `keep` stay in any case.
pub open spec fn drop_trailing_blanks(pieces: Seq<Seq<char>>, keep: nat) -> Seq<Seq<char>>
    decreases pieces.len(),
{
    if pieces.len() > keep && is_blank(pieces.last()) {
        drop_trailing_blanks(pieces.drop_last(), keep)
    } else {
        pieces
    }
}

/// A path seen from the root directory: its text from the first name up to the
/// last.
pub open spec fn from_root(p: Seq<char>) -> Seq<char> {
    join(drop_trailing_blanks(drop_leading_blanks(split(p, '/')), 0), "/"@)
}

/// The last name of a path, unless that is `..` or there is none.
pub open spec fn file_name(p: Seq<char>) -> Option<Seq<char>> {
    if names(p).len() > 0 && names(p).last() != ".."@ {
        Some(names(p).last())
    } else {
        None
    }
}

/// The path without its last component; the root directory and the empty path
/// have no parent.
pub open spec fn parent(p: Seq<char>) -> Option<Seq<char>> {
    let whole = drop_trailing_blanks(split(p, '/'), 1);
    if whole.len() == 1 && whole[0].len() == 0 {
        None
    } else {
        let front = drop_trailing_blanks(whole.drop_last(), 1);
        if front.len() == 1 && front[0].len() == 0 {
            Some("/"@)
        } else {
            Some(join(front, "/"@))
        }
    }
}

// ---------------------------------------------------------------------------
// Paths in messages
// ---------------------------------------------------------------------------
/// The `Debug` form of a path that is text.
pub uninterp spec fn quoted_text(p: Seq<char>) -> Seq<char>;

/// The `Debug` form of `std::path::Path`: a function of the path alone.
#[verifier::external_body]
pub(crate) fn quote_text(p: &str) -> (r: String)
    ensures
        r@ == quoted_text(p@),
{
    format!("{:?}", std::path::Path::new(p))
}

/// What stands between the quotes.
pub open spec fn within_quotes(quoted: Seq<char>) -> Seq<char> {
    if quoted.len() < 2 {
        quoted
    } else {
        quoted.subrange(1, quoted.len() - 1)
    }
}

/// A hexadecimal digit: `0` to `9`, then `A` to `F`.
pub open spec fn hex_digit(n: u8) -> char {
    if n < 10 {
        (0x30 + n) as char
    } else {
        (0x37 + n) as char
    }
}

/// How a byte that belongs to no character is written in a message.
pub open spec fn byte_escape(b: u8) -> Seq<char> {
    "\\x"@ + seq![hex_digit(b / 16), hex_digit(b % 16)]
}

/// How the parts of a name are written in a message behind a run of characters:
/// each run of characters as it is within quotes, each byte between them as its
/// number.
pub open spec fn quoted_parts(parts: Seq<Result<char, u8>>, run: Seq<char>) -> Seq<char>
    decreases parts.len(),
{
    if parts.len() == 0 {
        within_quotes(quoted_text(run))
    } else {
        match parts[0] {
            Ok(c) => quoted_parts(parts.skip(1), run.push(c)),
            Err(b) => within_quotes(quoted_text(run)) + byte_escape(b) + quoted_parts(
                parts.skip(1),
                Seq::empty(),
            ),
        }
    }
}

/// Whether a byte that belongs to no character is among the parts of a name.
pub open spec fn has_byte(parts: Seq<Result<char, u8>>) -> bool {
    exists|i: int| 0 <= i < parts.len() && #[trigger] parts[i] is Err
}

/// How a path is written in a message: quoted and escaped, as its `Debug` form.
#[verifier::opaque]
pub open spec fn quoted(p: Seq<char>) -> Seq<char> {
    if has_byte(parts_of(p)) {
        "\""@ + quoted_parts(parts_of(p), Seq::empty()) + "\""@
    } else {
        quoted_text(p)
    }
}

fn between_quotes(quoted: &str) -> (r: String)
    ensures
        r@ == within_quotes(quoted@),
{
    let v = to_chars(quoted);
    if v.len() < 2 {
        quoted.to_owned()
    } else {
        from_chars(&v, 1, v.len() - 1)
    }
}

fn digit_in_hex(n: u8) -> (r: char)
    requires
        n < 16,
    ensures
        r == hex_digit(n),
{
    if n < 10 {
        (0x30 + n) as char
    } else {
        (0x37 + n) as char
    }
}

fn any_byte(parts: &Vec<Result<char, u8>>) -> (r: bool)
    ensures
        r == has_byte(parts@),
{
    let mut i: usize = 0;
    while i < parts.len()
        invariant
            i <= parts@.len(),
            forall|j: int| 0 <= j < i ==> #[trigger] parts@[j] is Ok,
        decreases parts.len() - i,
    {
        match parts[i] {
            Ok(_) => {},
            Err(_) => {
                assert(parts@[i as int] is Err);
                return true;
            },
        }
        i = i + 1;
    }
    false
}

/// A path as it is written in a message.
pub fn quote_path(p: &str) -> (r: String)
    ensures
        r@ == quoted(p@),
{
    reveal(quoted);
    let parts = name_parts(p);
    if !any_byte(&parts) {
        return quote_text(p);
    }
    let mut out: String = "\"".to_owned();
    let mut run: String = String::new();
    let mut i: usize = 0;
    let ghost whole = out@ + quoted_parts(parts@, Seq::empty());
    assert(parts@.skip(0) =~= parts@);
    assert(run@ =~= Seq::<char>::empty());
    while i < parts.len()
        invariant
            i <= parts@.len(),
            out@ + quoted_parts(parts@.skip(i as int), run@) == whole,
        decreases parts.len() - i,
    {
        let ghost left = parts@.skip(i as int);
        let ghost before = out@;
        assert(left.skip(1) =~= parts@.skip(i + 1));
        assert(left[0] == parts@[i as int]);
        match parts[i] {
            Ok(c) => {
                run.push(c);
            },
            Err(b) => {
                let text = between_quotes(quote_text(run.as_str()).as_str());
                out.append(text.as_str());
                out.append("\\x");
                out.push(digit_in_hex(b / 16));
                out.push(digit_in_hex(b % 16));
                run = String::new();
                assert(run@ =~= Seq::<char>::empty());
                assert(out@ =~= before + text@ + byte_escape(b));
                assert(out@ + quoted_parts(left.skip(1), run@) =~= before + (text@ + byte_escape(b)
                    + quoted_parts(left.skip(1), run@)));
            },
        }
        i = i + 1;
    }
    out.append(between_quotes(quote_text(run.as_str()).as_str()).as_str());
    out.append("\"");
    out
}

// ---------------------------------------------------------------------------
// Parts of paths
// ---------------------------------------------------------------------------
/// `base` with `rel` under it, as `Path::join` gives it.
pub fn join_path(base: &str, rel: &str) -> (r: String)
    ensures
        r@ == joined(base@, rel@),
{
    let b = to_chars(base);
    if starts_with_char(rel, '/') || b.len() == 0 {
        return rel.to_owned();
    }
    let mut out: String = base.to_owned();
    if b[b.len() - 1] != '/' {
        out.append("/");
    }
    out.append(rel);
    out
}

fn blank(piece: &str) -> (r: bool)
    ensures
        r == is_blank(piece@),
{
    piece.is_empty() || same_text(piece, ".")
}

/// The names that a path goes through.
pub fn path_names(p: &str) -> (r: Vec<String>)
    ensures
        r.deep_view() == names(p@),
{
    let pieces = split_char(p, '/');
    let mut out: Vec<String> = Vec::new();
    let mut i: usize = 0;
    assert(out.deep_view() =~= named(pieces.deep_view().take(0)));
    while i < pieces.len()
        invariant
            i <= pieces@.len(),
            out.deep_view() == named(pieces.deep_view().take(i as int)),
        decreases pieces.len() - i,
    {
        proof {
            lemma_take_next(pieces.deep_view(), i as int);
        }
        if !blank(pieces[i].as_str()) {
            push_text(&mut out, pieces[i].clone());
        }
        i = i + 1;
    }
    assert(pieces.deep_view().take(pieces@.len() as int) =~= pieces.deep_view());
    out
}

/// Whether a path is the root directory, as `Path` equality has it.
pub fn is_root_path(p: &str) -> (r: bool)
    ensures
        r == is_root(p@),
{
    starts_with_char(p, '/') && path_names(p).len() == 0
}

/// Whether a path is, or lies below, `/name`, as `Path::starts_with` has it.
pub fn path_is_below(p: &str, name: &str) -> (r: bool)
    ensures
        r == is_below(p@, name@),
{
    if !starts_with_char(p, '/') {
        return false;
    }
    let v = path_names(p);
    v.len() > 0 && {
        assert(v.deep_view()[0] == v@[0]@);
        same_text(v[0].as_str(), name)
    }
}

proof fn lemma_drop_leading_blanks(pieces: Seq<Seq<char>>, i: int)
    requires
        0 <= i <= pieces.len(),
        forall|j: int| 0 <= j < i ==> is_blank(#[trigger] pieces[j]),
        i < pieces.len() ==> !is_blank(pieces[i]),
    ensures
        drop_leading_blanks(pieces) == pieces.skip(i),
    decreases pieces.len(),
{
    if i > 0 {
        assert(is_blank(pieces[0]));
        assert forall|j: int| 0 <= j < i - 1 implies is_blank(#[trigger] pieces.skip(1)[j]) by {
            assert(pieces.skip(1)[j] == pieces[j + 1]);
        }
        lemma_drop_leading_blanks(pieces.skip(1), i - 1);
        assert(pieces.skip(1).skip(i - 1) =~= pieces.skip(i));
    } else {
        assert(pieces.skip(0) =~= pieces);
    }
}

/// Drops blank pieces at the end, of which `keep` stay in any case.
fn trim_blanks(pieces: &mut Vec<String>, keep: usize)
    ensures
        final(pieces).deep_view() == drop_trailing_blanks(old(pieces).deep_view(), keep as nat),
{
    let ghost all = pieces.deep_view();
    while pieces.len() > keep && blank(pieces[pieces.len() - 1].as_str())
        invariant
            drop_trailing_blanks(pieces.deep_view(), keep as nat) == drop_trailing_blanks(
                all,
                keep as nat,
            ),
        decreases pieces.len(),
    {
        let ghost front = pieces.deep_view().drop_last();
        assert(pieces.deep_view().last() == pieces@.last()@);
        pieces.pop();
        assert(pieces.deep_view() =~= front);
    }
    proof {
        if pieces@.len() > 0 {
            assert(pieces.deep_view().last() == pieces@.last()@);
        }
    }
}

/// A path seen from the root directory, as `Path::strip_prefix("/")` gives it.
pub fn strip_root(p: &str) -> (r: String)
    ensures
        r@ == from_root(p@),
{
    let pieces = split_char(p, '/');
    let ghost all = pieces.deep_view();
    let n = pieces.len();
    let mut i: usize = 0;
    while i < n && blank(pieces[i].as_str())
        invariant
            n == pieces@.len(),
            all == pieces.deep_view(),
            i <= n,
            forall|j: int| 0 <= j < i ==> is_blank(#[trigger] all[j]),
        decreases n - i,
    {
        assert(is_blank(all[i as int]));
        i = i + 1;
    }
    proof {
        if i < n {
            assert(all[i as int] == pieces@[i as int]@);
        }
        lemma_drop_leading_blanks(all, i as int);
    }
    let mut rest: Vec<String> = Vec::new();
    let mut k: usize = i;
    assert(rest.deep_view() =~= all.subrange(i as int, i as int));
    while k < n
        invariant
            n == pieces@.len(),
            all == pieces.deep_view(),
            i <= k <= n,
            rest.deep_view() == all.subrange(i as int, k as int),
        decreases n - k,
    {
        push_text(&mut rest, pieces[k].clone());
        assert(all.subrange(i as int, k + 1) =~= all.subrange(i as int, k as int).push(
            all[k as int],
        ));
        k = k + 1;
    }
    assert(all.subrange(i as int, n as int) =~= all.skip(i as int));
    trim_blanks(&mut rest, 0);
    join_texts(&rest, "/")
}

/// The last name of a path, as `Path::file_name` gives it.
pub fn path_file_name(p: &str) -> (r: Option<String>)
    ensures
        r.deep_view() == file_name(p@),
{
    let v = path_names(p);
    let n = v.len();
    if n > 0 {
        assert(v.deep_view().last() == v@[n - 1]@);
        if !same_text(v[n - 1].as_str(), "..") {
            return Some(v[n - 1].clone());
        }
    }
    None
}

/// The path without its last component, as `Path::parent` gives it.
pub fn path_parent(p: &str) -> (r: Option<String>)
    ensures
        r.deep_view() == parent(p@),
{
    let mut pieces = split_char(p, '/');
    proof {
        lemma_split_has_pieces(p@, is_char('/'));
    }
    trim_blanks(&mut pieces, 1);
    proof {
        lemma_trailing_keeps(split(p@, '/'), 1);
        assert(pieces.deep_view()[0] == pieces@[0]@);
    }
    if pieces.len() == 1 && pieces[0].as_str().is_empty() {
        return None;
    }
    let ghost front = pieces.deep_view().drop_last();
    pieces.pop();
    assert(pieces.deep_view() =~= front);
    trim_blanks(&mut pieces, 1);
    if pieces.len() == 1 {
        assert(pieces.deep_view()[0] == pieces@[0]@);
        if pieces[0].as_str().is_empty() {
            return Some("/".to_owned());
        }
    }
    Some(join_texts(&pieces, "/"))
}

proof fn lemma_trailing_keeps(pieces: Seq<Seq<char>>, keep: nat)
    requires
        pieces.len() >= keep,
    ensures
        drop_trailing_blanks(pieces, keep).len() >= keep,
    decreases pieces.len(),
{
    if pieces.len() > keep && is_blank(pieces.last()) {
        lemma_trailing_keeps(pieces.drop_last(), keep);
    }
}

/// A path that is text is written in a message as its text is.
pub proof fn lemma_text_is_quoted_as_such(p: Seq<char>)
    requires
        !p.contains('\0'),
    ensures
        quoted(p) == quoted_text(p),
{
    reveal(quoted);
    lemma_plain_name(p);
}

/// A relative path is put below a directory with one slash between them, and an
/// absolute one stands for itself.
pub proof fn lemma_joined(base: Seq<char>, rel: Seq<char>)
    ensures
        is_absolute(rel) ==> joined(base, rel) == rel,
        !is_absolute(rel) && base.len() > 0 && base.last() != '/' ==> joined(base, rel) == base
            + seq!['/'] + rel,
        !is_absolute(rel) && base.len() > 0 && base.last() == '/' ==> joined(base, rel) == base
            + rel,
        joined(Seq::empty(), rel) == rel,
{
    reveal_strlit("/");
    assert("/"@ =~= seq!['/']);
}

/// The last name of a path is what stands behind its last slash.
pub proof fn lemma_last_name(dir: Seq<char>, name: Seq<char>)
    requires
        !name.contains('/'),
        !is_blank(name),
        name != ".."@,
    ensures
        file_name(dir + seq!['/'] + name) == Some(name),
        file_name(name) == Some(name),
{
    let whole = dir + seq!['/'] + name;
    assert forall|i: int| 0 <= i < name.len() implies !is_char('/')(#[trigger] name[i]) by {
        assert(name.contains(name[i]));
    }
    lemma_split_append(dir, '/', name, is_char('/'));
    lemma_split_plain(name, is_char('/'));
    assert(split(whole, '/').last() == name);
    assert(split(name, '/') =~= seq![name]);
    assert(named(split(name, '/').drop_last()) =~= Seq::empty());
}

/// A path goes through the names of the path before its last slash, and through
/// what stands behind it, unless that is nothing or a single dot.
pub proof fn lemma_names(dir: Seq<char>, name: Seq<char>)
    requires
        !name.contains('/'),
    ensures
        names(dir + seq!['/'] + name) == if is_blank(name) {
            names(dir)
        } else {
            names(dir).push(name)
        },
        names(name) == if is_blank(name) {
            Seq::empty()
        } else {
            seq![name]
        },
        is_blank(name) <==> name.len() == 0 || name == seq!['.'],
{
    reveal_strlit(".");
    assert("."@ =~= seq!['.']);
    assert forall|i: int| 0 <= i < name.len() implies !is_char('/')(#[trigger] name[i]) by {
        assert(name.contains(name[i]));
    }
    lemma_split_append(dir, '/', name, is_char('/'));
    lemma_split_plain(name, is_char('/'));
    assert(split(dir, '/').push(name).drop_last() =~= split(dir, '/'));
    assert(seq![name].drop_last() =~= Seq::empty());
    reveal_with_fuel(named, 2);
    assert(named(seq![name]) =~= if is_blank(name) {
        Seq::empty()
    } else {
        seq![name]
    });
}

/// The directory above what a path names is what stands before its last slash; the
/// root directory has none above it.
pub proof fn lemma_parent(dir: Seq<char>, name: Seq<char>)
    requires
        !name.contains('/'),
        !is_blank(name),
        !is_blank(split(dir, '/').last()),
    ensures
        parent(dir + seq!['/'] + name) == Some(dir),
        parent(seq!['/'] + name) == Some(seq!['/']),
        parent(seq!['/']) is None,
        parent(Seq::empty()) is None,
{
    reveal_strlit("/");
    assert("/"@ =~= seq!['/']);
    assert forall|i: int| 0 <= i < name.len() implies !is_char('/')(#[trigger] name[i]) by {
        assert(name.contains(name[i]));
    }
    lemma_split_append(dir, '/', name, is_char('/'));
    lemma_join_of_split(dir, '/');
    let whole = split(dir, '/').push(name);
    assert(whole.drop_last() =~= split(dir, '/'));
    lemma_split_has_pieces(dir, is_char('/'));
    let none = Seq::<char>::empty();
    assert(split(none, '/') =~= seq![none]);
    lemma_split_append(none, '/', name, is_char('/'));
    assert(none + seq!['/'] + name =~= seq!['/'] + name);
    assert(seq![none].push(name).drop_last() =~= seq![none]);
    lemma_split_append(none, '/', none, is_char('/'));
    assert(none + seq!['/'] + none =~= seq!['/']);
    reveal_with_fuel(drop_trailing_blanks, 3);
    assert(seq![none].push(none).drop_last() =~= seq![none]);
}

/// A path from its first name to its last stands for itself, seen from the root
/// directory, whether or not it begins with a slash.
pub proof fn lemma_from_root(path: Seq<char>)
    requires
        !is_blank(split(path, '/')[0]),
        !is_blank(split(path, '/').last()),
    ensures
        from_root(seq!['/'] + path) == path,
        from_root(path) == path,
{
    let pieces = split(path, '/');
    let none = Seq::<char>::empty();
    lemma_split_behind('/', path);
    lemma_split_has_pieces(path, is_char('/'));
    lemma_join_of_split(path, '/');
    reveal_with_fuel(drop_leading_blanks, 2);
    assert((seq![none] + pieces).skip(1) =~= pieces);
    assert((seq![none] + pieces)[0] == none);
    reveal_strlit("/");
    assert("/"@ =~= seq!['/']);
}

/// A byte is written in a message as two hexadecimal digits that give it back.
pub proof fn lemma_byte_escape(b: u8)
    ensures
        byte_escape(b).len() == 4,
        byte_escape(b)[0] == '\\' && byte_escape(b)[1] == 'x',
        digits_value(byte_escape(b).skip(2), 16) == Some(b as nat),
{
    reveal_strlit("\\x");
    let digits = byte_escape(b).skip(2);
    assert(digits =~= seq![hex_digit(b / 16), hex_digit(b % 16)]);
    assert(digit_value(hex_digit(b / 16)) == Some((b / 16) as nat));
    assert(digit_value(hex_digit(b % 16)) == Some((b % 16) as nat));
    assert(digits.drop_last() =~= seq![hex_digit(b / 16)]);
    assert(digits.drop_last().drop_last() =~= Seq::empty());
    reveal_with_fuel(digits_value, 3);
    assert(digits_value(digits.drop_last(), 16) == Some((b / 16) as nat));
}

/// An absolute path begins with a slash, and an empty one is not absolute.
pub proof fn lemma_absolute(rest: Seq<char>, c: char)
    ensures
        is_absolute(seq!['/'] + rest),
        c != '/' ==> !is_absolute(seq![c] + rest),
        !is_absolute(Seq::empty()),
{
}

/// A run of characters is quoted as one.
proof fn lemma_quoted_run(parts: Seq<Result<char, u8>>, run: Seq<char>, text: Seq<char>)
    requires
        parts.len() == text.len(),
        forall|i: int| 0 <= i < text.len() ==> #[trigger] parts[i] == Ok::<char, u8>(text[i]),
    ensures
        quoted_parts(parts, run) == within_quotes(quoted_text(run + text)),
    decreases parts.len(),
{
    if parts.len() == 0 {
        assert(run + text =~= run);
    } else {
        let rest = text.skip(1);
        assert forall|i: int| 0 <= i < rest.len() implies #[trigger] parts.skip(1)[i] == Ok::<
            char,
            u8,
        >(rest[i]) by {
            assert(parts[i + 1] == Ok::<char, u8>(text[i + 1]));
        }
        assert(parts[0] == Ok::<char, u8>(text[0]));
        lemma_quoted_run(parts.skip(1), run.push(text[0]), rest);
        assert(run.push(text[0]) + rest =~= run + text);
    }
}

/// What stands before a byte is quoted as one run.
proof fn lemma_quoted_up_to_byte(
    parts: Seq<Result<char, u8>>,
    run: Seq<char>,
    text: Seq<char>,
    b: u8,
)
    requires
        parts.len() > text.len(),
        forall|i: int| 0 <= i < text.len() ==> #[trigger] parts[i] == Ok::<char, u8>(text[i]),
        parts[text.len() as int] == Err::<char, u8>(b),
    ensures
        quoted_parts(parts, run) == within_quotes(quoted_text(run + text)) + byte_escape(b)
            + quoted_parts(parts.skip(text.len() as int + 1), Seq::empty()),
    decreases text.len(),
{
    if text.len() == 0 {
        assert(run + text =~= run);
    } else {
        let rest = text.skip(1);
        assert forall|i: int| 0 <= i < rest.len() implies #[trigger] parts.skip(1)[i] == Ok::<
            char,
            u8,
        >(rest[i]) by {
            assert(parts[i + 1] == Ok::<char, u8>(text[i + 1]));
        }
        assert(parts[0] == Ok::<char, u8>(text[0]));
        lemma_quoted_up_to_byte(parts.skip(1), run.push(text[0]), rest, b);
        assert(run.push(text[0]) + rest =~= run + text);
        assert(parts.skip(1).skip(rest.len() as int + 1) =~= parts.skip(text.len() as int + 1));
    }
}

/// A name with one byte that belongs to no character is quoted with that byte as its
/// number, and with what stands before and behind it as it would be quoted alone.
pub proof fn lemma_byte_in_a_name(front: Seq<char>, b: u8, back: Seq<char>)
    requires
        b >= 0x80,
        !front.contains('\0'),
        !back.contains('\0'),
    ensures
        quoted(front + seq!['\0', b as char] + back) == "\""@ + (within_quotes(quoted_text(front))
            + byte_escape(b) + within_quotes(quoted_text(back))) + "\""@,
{
    reveal(quoted);
    let text = front + seq!['\0', b as char] + back;
    let front_parts = front.map_values(|c: char| Ok::<char, u8>(c));
    let back_parts = back.map_values(|c: char| Ok::<char, u8>(c));
    let parts = front_parts + seq![Err::<char, u8>(b)] + back_parts;
    lemma_parts_of_text(front, b, back);
    assert(parts_of(text) == parts);
    assert(has_byte(parts_of(text))) by {
        assert(parts_of(text)[front.len() as int] is Err);
    }
    lemma_quoted_up_to_byte(parts, Seq::empty(), front, b);
    assert(parts.skip(front.len() as int + 1) =~= back_parts);
    lemma_quoted_run(back_parts, Seq::empty(), back);
    assert(Seq::<char>::empty() + front =~= front);
    assert(Seq::<char>::empty() + back =~= back);
    let inner = within_quotes(quoted_text(front)) + byte_escape(b) + within_quotes(
        quoted_text(back),
    );
    assert(quoted_parts(parts, Seq::empty()) == inner);
}

/// What stands between two quotes is taken whole.
pub proof fn lemma_within_quotes(text: Seq<char>)
    ensures
        within_quotes(seq!['"'] + text + seq!['"']) == text,
{
    let all = seq!['"'] + text + seq!['"'];
    assert(all.subrange(1, all.len() - 1) =~= text);
}

} // verus!
