//! Names of directory entries as text. A name need not be valid UTF-8: a byte of
//! it that belongs to no character is written as a NUL and the character with the
//! byte's number. No name holds a NUL, so that no other name is written like it.
//! The parts of a name are characters (`Ok`) and such bytes (`Err`).
use vstd::prelude::*;

use crate::text::to_chars;

verus! {

/// How a part of a name is written.
pub open spec fn part_text(part: Result<char, u8>) -> Seq<char> {
    match part {
        Ok(c) => seq![c],
        Err(b) => seq!['\0', b as char],
    }
}

/// How a name is written.
pub open spec fn text_of(parts: Seq<Result<char, u8>>) -> Seq<char>
    decreases parts.len(),
{
    if parts.len() == 0 {
        Seq::empty()
    } else {
        part_text(parts[0]) + text_of(parts.skip(1))
    }
}

/// Whether a text begins with a byte that belongs to no character. Such a byte is
/// no ASCII character.
pub open spec fn begins_with_byte(text: Seq<char>) -> bool {
    text.len() > 1 && text[0] == '\0' && 0x80 <= text[1] as u32 <= 0xff
}

/// What a text is the name of.
pub open spec fn parts_of(text: Seq<char>) -> Seq<Result<char, u8>>
    decreases text.len(),
{
    if text.len() == 0 {
        Seq::empty()
    } else if begins_with_byte(text) {
        seq![Err::<char, u8>(text[1] as u8)] + parts_of(text.skip(2))
    } else {
        seq![Ok::<char, u8>(text[0])] + parts_of(text.skip(1))
    }
}

/// Writes a name.
pub fn name_text(parts: &Vec<Result<char, u8>>) -> (r: String)
    ensures
        r@ == text_of(parts@),
{
    let mut out: String = String::new();
    let mut i: usize = 0;
    assert(parts@.skip(0) =~= parts@);
    assert(out@ + text_of(parts@) =~= text_of(parts@));
    while i < parts.len()
        invariant
            i <= parts@.len(),
            out@ + text_of(parts@.skip(i as int)) == text_of(parts@),
        decreases parts.len() - i,
    {
        let ghost before = out@;
        let ghost rest = text_of(parts@.skip(i + 1));
        assert(parts@.skip(i as int).skip(1) =~= parts@.skip(i + 1));
        match parts[i] {
            Ok(c) => {
                out.push(c);
            },
            Err(b) => {
                out.push('\0');
                out.push(b as char);
            },
        }
        assert(out@ =~= before + part_text(parts@[i as int]));
        assert(out@ + rest =~= before + (part_text(parts@[i as int]) + rest));
        i = i + 1;
    }
    assert(out@ + text_of(parts@.skip(parts@.len() as int)) =~= out@);
    out
}

/// Reads a name.
pub fn name_parts(text: &str) -> (r: Vec<Result<char, u8>>)
    ensures
        r@ == parts_of(text@),
{
    let v = to_chars(text);
    let mut out: Vec<Result<char, u8>> = Vec::new();
    let mut i: usize = 0;
    assert(v@.skip(0) =~= v@);
    assert(out@ + parts_of(v@) =~= parts_of(v@));
    while i < v.len()
        invariant
            i <= v@.len(),
            out@ + parts_of(v@.skip(i as int)) == parts_of(v@),
        decreases v.len() - i,
    {
        let ghost before = out@;
        let ghost left = v@.skip(i as int);
        assert(left.skip(1) =~= v@.skip(i + 1));
        if v[i] == '\0' && v.len() - i > 1 && v[i + 1] as u32 >= 0x80 && v[i + 1] as u32 <= 0xff {
            assert(begins_with_byte(left));
            assert(left.skip(2) =~= v@.skip(i + 2));
            out.push(Err(v[i + 1] as u8));
            assert(out@ + parts_of(left.skip(2)) =~= before + parts_of(left));
            i = i + 2;
        } else {
            assert(!begins_with_byte(left));
            out.push(Ok(v[i]));
            assert(out@ + parts_of(left.skip(1)) =~= before + parts_of(left));
            i = i + 1;
        }
    }
    assert(out@ + parts_of(v@.skip(v@.len() as int)) =~= out@);
    out
}

// ---------------------------------------------------------------------------
// Laws
// ---------------------------------------------------------------------------
/// Whether parts can be those of a name: no character is a NUL, and no byte that
/// belongs to no character is an ASCII character.
pub open spec fn is_name(parts: Seq<Result<char, u8>>) -> bool {
    forall|i: int|
        0 <= i < parts.len() ==> match #[trigger] parts[i] {
            Ok(c) => c != '\0',
            Err(b) => b >= 0x80,
        }
}

/// A name that is written is read back as it was: two names are never written
/// alike.
pub proof fn lemma_name_round_trip(parts: Seq<Result<char, u8>>)
    requires
        is_name(parts),
    ensures
        parts_of(text_of(parts)) == parts,
    decreases parts.len(),
{
    if parts.len() > 0 {
        let rest = parts.skip(1);
        assert forall|i: int| 0 <= i < rest.len() implies match #[trigger] rest[i] {
            Ok(c) => c != '\0',
            Err(b) => b >= 0x80,
        } by {
            assert(rest[i] == parts[i + 1]);
        }
        lemma_name_round_trip(rest);
        let text = text_of(parts);
        match parts[0] {
            Ok(c) => {
                assert(text.skip(1) =~= text_of(rest));
            },
            Err(b) => {
                assert(text[0] == '\0' && text[1] == b as char);
                assert(begins_with_byte(text));
                assert(text.skip(2) =~= text_of(rest));
            },
        }
        assert(parts =~= seq![parts[0]] + rest);
    } else {
        assert(parts =~= Seq::empty());
    }
}

/// A text without a NUL is the name that it spells.
pub proof fn lemma_plain_name(text: Seq<char>)
    requires
        !text.contains('\0'),
    ensures
        parts_of(text) == text.map_values(|c: char| Ok::<char, u8>(c)),
    decreases text.len(),
{
    let plain = text.map_values(|c: char| Ok::<char, u8>(c));
    if text.len() > 0 {
        assert(text.contains(text[0]));
        let rest = text.skip(1);
        assert forall|i: int| 0 <= i < rest.len() implies rest[i] != '\0' by {
            assert(text.contains(text[i + 1]));
        }
        lemma_plain_name(rest);
        assert(plain =~= seq![Ok::<char, u8>(text[0])] + rest.map_values(
            |c: char| Ok::<char, u8>(c),
        ));
    } else {
        assert(plain =~= Seq::empty());
    }
}

/// A byte that belongs to no character stands in a name where it is written, between
/// the characters before and behind it.
pub proof fn lemma_parts_of_text(front: Seq<char>, b: u8, back: Seq<char>)
    requires
        b >= 0x80,
        !front.contains('\0'),
        !back.contains('\0'),
    ensures
        parts_of(front + seq!['\0', b as char] + back) == front.map_values(
            |c: char| Ok::<char, u8>(c),
        ) + seq![Err::<char, u8>(b)] + back.map_values(|c: char| Ok::<char, u8>(c)),
    decreases front.len(),
{
    let text = front + seq!['\0', b as char] + back;
    let tail = seq![Err::<char, u8>(b)] + back.map_values(|c: char| Ok::<char, u8>(c));
    if front.len() == 0 {
        lemma_plain_name(back);
        assert(text.skip(2) =~= back);
        assert(text[0] == '\0' && text[1] == b as char);
        assert(begins_with_byte(text));
        assert(front.map_values(|c: char| Ok::<char, u8>(c)) + seq![Err::<char, u8>(b)]
            + back.map_values(|c: char| Ok::<char, u8>(c)) =~= tail);
    } else {
        let rest = front.skip(1);
        assert(front.contains(front[0]));
        assert forall|i: int| 0 <= i < rest.len() implies rest[i] != '\0' by {
            assert(front.contains(front[i + 1]));
        }
        lemma_parts_of_text(rest, b, back);
        assert(text.skip(1) =~= rest + seq!['\0', b as char] + back);
        assert(text[0] == front[0]);
        assert(front.map_values(|c: char| Ok::<char, u8>(c)) =~= seq![Ok::<char, u8>(front[0])]
            + rest.map_values(|c: char| Ok::<char, u8>(c)));
        assert(parts_of(text) =~= front.map_values(|c: char| Ok::<char, u8>(c)) + seq![
            Err::<char, u8>(b),
        ] + back.map_values(|c: char| Ok::<char, u8>(c)));
    }
}

} // verus!
