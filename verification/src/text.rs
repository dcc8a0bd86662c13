//! Text as sequences of characters: splitting, trimming, joining and numbers.
use vstd::prelude::*;

verus! {

/// `String::push` appends the given character to the end of the string.
pub assume_specification[ String::push ](s: &mut String, c: char)
    ensures
        final(s)@ == old(s)@.push(c),
;

// ---------------------------------------------------------------------------
// Splitting
// ---------------------------------------------------------------------------
/// The predicate "is this very character".
pub open spec fn is_char(sep: char) -> spec_fn(char) -> bool {
    |c: char| c == sep
}

/// The characters with the Unicode property `White_Space`.
pub open spec fn is_white_space(c: char) -> bool {
    let n = c as u32;
    ||| 0x9 <= n <= 0xd
    ||| n == 0x20
    ||| n == 0x85
    ||| n == 0xa0
    ||| n == 0x1680
    ||| 0x2000 <= n <= 0x200a
    ||| n == 0x2028
    ||| n == 0x2029
    ||| n == 0x202f
    ||| n == 0x205f
    ||| n == 0x3000
}

/// [`is_white_space`] as a separator.
pub open spec fn white_space() -> spec_fn(char) -> bool {
    |c: char| is_white_space(c)
}

/// The pieces between separators, in order: always one more than there are
/// separators.
pub open spec fn split_at_every(s: Seq<char>, sep: spec_fn(char) -> bool) -> Seq<Seq<char>>
    decreases s.len(),
{
    if s.len() == 0 {
        seq![Seq::empty()]
    } else {
        let front = split_at_every(s.drop_last(), sep);
        if sep(s.last()) {
            front.push(Seq::empty())
        } else {
            front.drop_last().push(front.last().push(s.last()))
        }
    }
}

/// The pieces of `s` between the occurrences of `sep`.
pub open spec fn split(s: Seq<char>, sep: char) -> Seq<Seq<char>> {
    split_at_every(s, is_char(sep))
}

/// The pieces that hold at least one character, in order.
pub open spec fn non_empty(pieces: Seq<Seq<char>>) -> Seq<Seq<char>>
    decreases pieces.len(),
{
    if pieces.len() == 0 {
        Seq::empty()
    } else {
        let front = non_empty(pieces.drop_last());
        if pieces.last().len() == 0 {
            front
        } else {
            front.push(pieces.last())
        }
    }
}

/// The words of a text: its longest runs without white space.
pub open spec fn words(s: Seq<char>) -> Seq<Seq<char>> {
    non_empty(split_at_every(s, white_space()))
}

/// A line without the carriage return of a `\r\n` ending.
pub open spec fn without_carriage_return(line: Seq<char>) -> Seq<char> {
    if line.len() > 0 && line.last() == '\r' {
        line.drop_last()
    } else {
        line
    }
}

/// The lines of a text. A line ends with `\n` or `\r\n`; the ending of the last
/// line is optional.
pub open spec fn lines(s: Seq<char>) -> Seq<Seq<char>> {
    let pieces = split(s, '\n');
    let last = pieces.last();
    let terminated = Seq::new(
        (pieces.len() - 1) as nat,
        |i: int| without_carriage_return(pieces[i]),
    );
    if last.len() == 0 {
        terminated
    } else {
        terminated.push(last)
    }
}

/// The pieces with `sep` between each two of them.
pub open spec fn join(pieces: Seq<Seq<char>>, sep: Seq<char>) -> Seq<char>
    decreases pieces.len(),
{
    if pieces.len() == 0 {
        Seq::empty()
    } else if pieces.len() == 1 {
        pieces[0]
    } else {
        join(pieces.drop_last(), sep) + sep + pieces.last()
    }
}

/// Where `c` first occurs in `s`, or the length of `s`.
pub open spec fn find(s: Seq<char>, c: char) -> int
    decreases s.len(),
{
    if s.len() == 0 || s[0] == c {
        0
    } else {
        1 + find(s.skip(1), c)
    }
}

/// What stands before the first `c`; all of `s` where there is none.
pub open spec fn before(s: Seq<char>, c: char) -> Seq<char> {
    s.take(find(s, c))
}

/// What stands after the first `c`, where there is one.
pub open spec fn after(s: Seq<char>, c: char) -> Option<Seq<char>> {
    if find(s, c) < s.len() {
        Some(s.skip(find(s, c) + 1))
    } else {
        None
    }
}

pub open spec fn has_prefix(s: Seq<char>, prefix: Seq<char>) -> bool {
    prefix.len() <= s.len() && s.take(prefix.len() as int) == prefix
}

/// What follows `prefix` in `s`, where `s` begins with it.
pub open spec fn after_prefix(s: Seq<char>, prefix: Seq<char>) -> Option<Seq<char>> {
    if has_prefix(s, prefix) {
        Some(s.skip(prefix.len() as int))
    } else {
        None
    }
}

/// `s` without one leading `c`.
pub open spec fn without_leading(s: Seq<char>, c: char) -> Seq<char> {
    if s.len() > 0 && s[0] == c {
        s.skip(1)
    } else {
        s
    }
}

/// `s` without any leading `c`.
pub open spec fn without_all_leading(s: Seq<char>, c: char) -> Seq<char>
    decreases s.len(),
{
    if s.len() > 0 && s[0] == c {
        without_all_leading(s.skip(1), c)
    } else {
        s
    }
}

pub open spec fn trim_start(s: Seq<char>) -> Seq<char>
    decreases s.len(),
{
    if s.len() > 0 && is_white_space(s[0]) {
        trim_start(s.skip(1))
    } else {
        s
    }
}

pub open spec fn trim_end(s: Seq<char>) -> Seq<char>
    decreases s.len(),
{
    if s.len() > 0 && is_white_space(s.last()) {
        trim_end(s.drop_last())
    } else {
        s
    }
}

/// `s` without white space at either end.
pub open spec fn trimmed(s: Seq<char>) -> Seq<char> {
    trim_end(trim_start(s))
}

// ---------------------------------------------------------------------------
// Numbers
// ---------------------------------------------------------------------------
pub open spec fn digit_char(d: int) -> char {
    (d + 48) as char
}

/// `n` in decimal, without leading zeros.
pub open spec fn decimal(n: nat) -> Seq<char>
    decreases n,
{
    if n < 10 {
        seq![digit_char(n as int)]
    } else {
        decimal(n / 10).push(digit_char((n % 10) as int))
    }
}

/// `n` in decimal, with a leading `-` below zero.
pub open spec fn signed_decimal(n: int) -> Seq<char> {
    if n < 0 {
        seq!['-'] + decimal((-n) as nat)
    } else {
        decimal(n as nat)
    }
}

/// What a digit is worth, up to base 36.
pub open spec fn digit_value(c: char) -> Option<nat> {
    let n = c as u32;
    if 48 <= n <= 57 {
        Some((n - 48) as nat)
    } else if 65 <= n <= 90 {
        Some((n - 55) as nat)
    } else if 97 <= n <= 122 {
        Some((n - 87) as nat)
    } else {
        None
    }
}

/// The value of a row of digits, read from the left; no value where one of the
/// characters is no digit of that base.
pub open spec fn digits_value(s: Seq<char>, base: nat) -> Option<nat>
    decreases s.len(),
{
    if s.len() == 0 {
        Some(0)
    } else {
        match (digits_value(s.drop_last(), base), digit_value(s.last())) {
            (Some(high), Some(d)) if d < base => Some(high * base + d),
            _ => None,
        }
    }
}

/// The number below 2^32 that a text writes in hexadecimal: an optional `+`,
/// then digits only, at least one.
pub open spec fn hex_u32(s: Seq<char>) -> Option<nat> {
    let digits = without_leading(s, '+');
    if digits.len() == 0 {
        None
    } else {
        match digits_value(digits, 16) {
            Some(n) if n <= u32::MAX => Some(n),
            _ => None,
        }
    }
}

/// The 32-bit number that a text writes in decimal: an optional sign, then
/// digits only, at least one.
pub open spec fn decimal_i32(s: Seq<char>) -> Option<int> {
    let negative = s.len() > 0 && s[0] == '-';
    let digits = if negative {
        s.skip(1)
    } else {
        without_leading(s, '+')
    };
    if digits.len() == 0 {
        None
    } else {
        match digits_value(digits, 10) {
            Some(n) => {
                let value = if negative {
                    -n
                } else {
                    n as int
                };
                if i32::MIN <= value <= i32::MAX {
                    Some(value)
                } else {
                    None
                }
            },
            None => None,
        }
    }
}

// ---------------------------------------------------------------------------
// Lemmas
// ---------------------------------------------------------------------------
proof fn lemma_find(s: Seq<char>, c: char, i: int)
    requires
        0 <= i <= s.len(),
        forall|j: int| 0 <= j < i ==> s[j] != c,
        i < s.len() ==> s[i] == c,
    ensures
        find(s, c) == i,
    decreases s.len(),
{
    if i > 0 {
        assert forall|j: int| 0 <= j < i - 1 implies s.skip(1)[j] != c by {
            assert(s.skip(1)[j] == s[j + 1]);
        }
        lemma_find(s.skip(1), c, i - 1);
    }
}

/// The first occurrence of `c` is one, and nothing before it is.
pub proof fn lemma_find_is_first(s: Seq<char>, c: char)
    ensures
        0 <= find(s, c) <= s.len(),
        forall|j: int| 0 <= j < find(s, c) ==> s[j] != c,
        find(s, c) < s.len() ==> s[find(s, c)] == c,
    decreases s.len(),
{
    if s.len() > 0 && s[0] != c {
        lemma_find_is_first(s.skip(1), c);
        assert forall|j: int| 0 <= j < find(s, c) implies s[j] != c by {
            if j > 0 {
                assert(s.skip(1)[j - 1] == s[j]);
            }
        }
    }
}

proof fn lemma_without_all_leading(s: Seq<char>, c: char, i: int)
    requires
        0 <= i <= s.len(),
        forall|j: int| 0 <= j < i ==> s[j] == c,
        i < s.len() ==> s[i] != c,
    ensures
        without_all_leading(s, c) == s.skip(i),
    decreases s.len(),
{
    if i > 0 {
        assert forall|j: int| 0 <= j < i - 1 implies s.skip(1)[j] == c by {
            assert(s.skip(1)[j] == s[j + 1]);
        }
        lemma_without_all_leading(s.skip(1), c, i - 1);
        assert(s.skip(1).skip(i - 1) =~= s.skip(i));
    } else {
        assert(s.skip(0) =~= s);
    }
}

proof fn lemma_trim_start(s: Seq<char>, i: int)
    requires
        0 <= i <= s.len(),
        forall|j: int| 0 <= j < i ==> is_white_space(s[j]),
        i < s.len() ==> !is_white_space(s[i]),
    ensures
        trim_start(s) == s.skip(i),
    decreases s.len(),
{
    if i > 0 {
        assert forall|j: int| 0 <= j < i - 1 implies is_white_space(s.skip(1)[j]) by {
            assert(s.skip(1)[j] == s[j + 1]);
        }
        lemma_trim_start(s.skip(1), i - 1);
        assert(s.skip(1).skip(i - 1) =~= s.skip(i));
    } else {
        assert(s.skip(0) =~= s);
    }
}

proof fn lemma_trim_end(s: Seq<char>, k: int)
    requires
        0 <= k <= s.len(),
        forall|j: int| k <= j < s.len() ==> is_white_space(s[j]),
        k > 0 ==> !is_white_space(s[k - 1]),
    ensures
        trim_end(s) == s.take(k),
    decreases s.len(),
{
    if k < s.len() {
        lemma_trim_end(s.drop_last(), k);
        assert(s.drop_last().take(k) =~= s.take(k));
    } else {
        assert(s.take(k) =~= s);
    }
}

/// There is always at least one piece.
pub proof fn lemma_split_has_pieces(s: Seq<char>, sep: spec_fn(char) -> bool)
    ensures
        split_at_every(s, sep).len() > 0,
    decreases s.len(),
{
    if s.len() > 0 {
        lemma_split_has_pieces(s.drop_last(), sep);
    }
}

proof fn lemma_digits_bad(s: Seq<char>, base: nat, i: int)
    requires
        0 <= i <= s.len(),
        digits_value(s.take(i), base) is None,
    ensures
        digits_value(s, base) is None,
    decreases s.len() - i,
{
    if i < s.len() {
        lemma_take_next(s, i);
        lemma_digits_bad(s, base, i + 1);
    } else {
        assert(s.take(i) =~= s);
    }
}

proof fn lemma_digits_grow(s: Seq<char>, base: nat, i: int, bound: nat)
    requires
        0 <= i <= s.len(),
        base >= 1,
        digits_value(s.take(i), base) matches Some(n) && n > bound,
    ensures
        digits_value(s, base) matches Some(n) ==> n > bound,
    decreases s.len() - i,
{
    if i < s.len() {
        lemma_take_next(s, i);
        let next = digits_value(s.take(i + 1), base);
        if next is None {
            lemma_digits_bad(s, base, i + 1);
        } else {
            let n = digits_value(s.take(i), base)->0;
            assert(n * base >= n) by (nonlinear_arith)
                requires
                    base >= 1,
            ;
            lemma_digits_grow(s, base, i + 1, bound);
        }
    } else {
        assert(s.take(i) =~= s);
    }
}

/// A text without separators is its own only piece.
pub proof fn lemma_split_plain(s: Seq<char>, sep: spec_fn(char) -> bool)
    requires
        forall|i: int| 0 <= i < s.len() ==> !sep(#[trigger] s[i]),
    ensures
        split_at_every(s, sep) == seq![s],
    decreases s.len(),
{
    if s.len() > 0 {
        lemma_split_plain(s.drop_last(), sep);
        assert(s.drop_last().push(s.last()) =~= s);
        assert(seq![s.drop_last()].drop_last() =~= Seq::empty());
    } else {
        assert(s =~= Seq::empty());
    }
}

/// A separator followed by a text without separators adds that text as the last
/// piece.
pub proof fn lemma_split_append(
    a: Seq<char>,
    c: char,
    b: Seq<char>,
    sep: spec_fn(char) -> bool,
)
    requires
        sep(c),
        forall|i: int| 0 <= i < b.len() ==> !sep(#[trigger] b[i]),
    ensures
        split_at_every(a + seq![c] + b, sep) == split_at_every(a, sep).push(b),
    decreases b.len(),
{
    let whole = a + seq![c] + b;
    if b.len() == 0 {
        assert(whole.drop_last() =~= a);
        assert(b =~= Seq::empty());
    } else {
        let shorter = b.drop_last();
        assert(whole.drop_last() =~= a + seq![c] + shorter);
        lemma_split_append(a, c, shorter, sep);
        assert(whole.last() == b.last());
        let front = split_at_every(a, sep).push(shorter);
        assert(front.drop_last() =~= split_at_every(a, sep));
        assert(shorter.push(b.last()) =~= b);
    }
}

/// Splitting undoes joining: a list of texts in which `sep` does not occur comes
/// back from its joined form.
pub proof fn lemma_split_of_join(pieces: Seq<Seq<char>>, sep: char)
    requires
        pieces.len() > 0,
        forall|i: int| 0 <= i < pieces.len() ==> !(#[trigger] pieces[i]).contains(sep),
    ensures
        split(join(pieces, seq![sep]), sep) == pieces,
    decreases pieces.len(),
{
    let last = pieces.last();
    assert forall|i: int| 0 <= i < last.len() implies !is_char(sep)(#[trigger] last[i]) by {
        assert(!pieces[pieces.len() - 1].contains(sep));
    }
    if pieces.len() == 1 {
        lemma_split_plain(last, is_char(sep));
        assert(seq![last] =~= pieces);
    } else {
        let front = pieces.drop_last();
        assert forall|i: int| 0 <= i < front.len() implies !(#[trigger] front[i]).contains(sep) by {
            assert(front[i] == pieces[i]);
        }
        lemma_split_of_join(front, sep);
        lemma_split_append(join(front, seq![sep]), sep, last, is_char(sep));
        assert(front.push(last) =~= pieces);
    }
}

/// Joining undoes splitting, and no piece holds the separator.
pub proof fn lemma_join_of_split(s: Seq<char>, sep: char)
    ensures
        split(s, sep).len() > 0,
        join(split(s, sep), seq![sep]) == s,
        forall|i: int|
            0 <= i < split(s, sep).len() ==> !(#[trigger] split(s, sep)[i]).contains(sep),
    decreases s.len(),
{
    if s.len() > 0 {
        let front = s.drop_last();
        lemma_join_of_split(front, sep);
        let f = split(front, sep);
        if s.last() == sep {
            let p = f.push(Seq::empty());
            assert(p.drop_last() =~= f);
            assert(join(p, seq![sep]) =~= s);
        } else {
            let p = f.drop_last().push(f.last().push(s.last()));
            assert(p.drop_last() =~= f.drop_last());
            assert(s =~= join(f, seq![sep]).push(s.last()));
            if f.len() == 1 {
                assert(join(f, seq![sep]) == f[0]);
                assert(join(p, seq![sep]) == p[0]);
            } else {
                assert(join(p, seq![sep]) == join(f.drop_last(), seq![sep]) + seq![sep]
                    + f.last().push(s.last()));
                assert(join(p, seq![sep]) =~= join(f, seq![sep]).push(s.last()));
            }
            assert forall|i: int| 0 <= i < p.len() implies !(#[trigger] p[i]).contains(sep) by {
                if i < p.len() - 1 {
                    assert(p[i] == f[i]);
                } else {
                    let last = f[f.len() - 1];
                    assert(!last.contains(sep));
                    assert forall|j: int| 0 <= j < p[i].len() implies p[i][j] != sep by {
                        if j < last.len() {
                            assert(last[j] != sep);
                        }
                    }
                }
            }
        }
    } else {
        assert(join(split(s, sep), seq![sep]) =~= s);
    }
}

/// Cutting a text at a character gives back the two parts that it was put
/// together from, where the first one does not hold the character.
pub proof fn lemma_cut(a: Seq<char>, c: char, b: Seq<char>)
    requires
        !a.contains(c),
    ensures
        before(a + seq![c] + b, c) == a,
        after(a + seq![c] + b, c) == Some(b),
        before(a, c) == a,
        after(a, c) is None,
{
    let whole = a + seq![c] + b;
    assert forall|j: int| 0 <= j < a.len() implies whole[j] != c by {
        assert(a.contains(a[j]));
    }
    assert forall|j: int| 0 <= j < a.len() implies a[j] != c by {
        assert(a.contains(a[j]));
    }
    lemma_find(whole, c, a.len() as int);
    lemma_find(a, c, a.len() as int);
    assert(whole.take(a.len() as int) =~= a);
    assert(whole.skip((a.len() + 1) as int) =~= b);
    assert(a.take(a.len() as int) =~= a);
}

/// What is left of a text without its leading characters of one kind begins with
/// none of them, and nothing else was taken away.
pub proof fn lemma_leading_are_gone(s: Seq<char>, c: char)
    ensures
        ({
            let rest = without_all_leading(s, c);
            &&& rest.len() <= s.len()
            &&& rest == s.skip(s.len() - rest.len())
            &&& forall|i: int| 0 <= i < s.len() - rest.len() ==> s[i] == c
            &&& rest.len() > 0 ==> rest[0] != c
        }),
    decreases s.len(),
{
    if s.len() > 0 && s[0] == c {
        lemma_leading_are_gone(s.skip(1), c);
        let rest = without_all_leading(s, c);
        assert(s.skip(1).skip(s.len() - 1 - rest.len()) =~= s.skip(s.len() - rest.len()));
        assert forall|i: int| 0 <= i < s.len() - rest.len() implies s[i] == c by {
            if i > 0 {
                assert(s.skip(1)[i - 1] == s[i]);
            }
        }
    } else {
        assert(s.skip(0) =~= s);
    }
}

/// What is left of a text without its leading characters of one kind is the rest
/// of it from the first other character on.
pub proof fn lemma_rest_behind_leading(s: Seq<char>, c: char, k: int)
    requires
        0 <= k <= s.len(),
        forall|i: int| 0 <= i < k ==> s[i] == c,
        k < s.len() ==> s[k] != c,
    ensures
        without_all_leading(s, c) == s.skip(k),
{
    lemma_leading_are_gone(s, c);
    let rest = without_all_leading(s, c);
    let m = s.len() - rest.len();
    if m < k {
        assert(rest[0] == s[m]);
    }
}

/// What is left of a text without white space at its ends is a part of it that
/// neither begins nor ends with white space, and only white space was taken away.
pub proof fn lemma_trimmed(s: Seq<char>)
    ensures
        exists|i: int, j: int| #[trigger]
            is_trimmed(s, i, j) && trimmed(s) == s.subrange(i, j),
{
    lemma_trim_start_part(s);
    let front = trim_start(s);
    lemma_trim_end_part(front);
    let i = s.len() - front.len();
    let j = i + trimmed(s).len();
    assert(trimmed(s) =~= s.subrange(i, j));
    assert forall|k: int| j <= k < s.len() implies is_white_space(#[trigger] s[k]) by {
        assert(front[k - i] == s[k]);
    }
    if i < j {
        assert(front[0] == s[i]);
        assert(front[j - i - 1] == s[j - 1]);
    }
    assert(is_trimmed(s, i, j));
}

/// Whether `s[i..j]` is what is left of `s` without white space at its ends.
pub open spec fn is_trimmed(s: Seq<char>, i: int, j: int) -> bool {
    &&& 0 <= i <= j <= s.len()
    &&& forall|k: int| 0 <= k < i ==> is_white_space(#[trigger] s[k])
    &&& forall|k: int| j <= k < s.len() ==> is_white_space(#[trigger] s[k])
    &&& i < j ==> !is_white_space(s[i]) && !is_white_space(s[j - 1])
}

proof fn lemma_trim_start_part(s: Seq<char>)
    ensures
        trim_start(s).len() <= s.len(),
        trim_start(s) == s.skip(s.len() - trim_start(s).len()),
        forall|k: int|
            0 <= k < s.len() - trim_start(s).len() ==> is_white_space(#[trigger] s[k]),
        trim_start(s).len() > 0 ==> !is_white_space(trim_start(s)[0]),
    decreases s.len(),
{
    if s.len() > 0 && is_white_space(s[0]) {
        lemma_trim_start_part(s.skip(1));
        let rest = trim_start(s);
        assert(s.skip(1).skip(s.len() - 1 - rest.len()) =~= s.skip(s.len() - rest.len()));
        assert forall|k: int| 0 <= k < s.len() - rest.len() implies is_white_space(
            #[trigger] s[k],
        ) by {
            if k > 0 {
                assert(s.skip(1)[k - 1] == s[k]);
            }
        }
    } else {
        assert(s.skip(0) =~= s);
    }
}

proof fn lemma_trim_end_part(s: Seq<char>)
    ensures
        trim_end(s).len() <= s.len(),
        trim_end(s) == s.take(trim_end(s).len() as int),
        forall|k: int| trim_end(s).len() <= k < s.len() ==> is_white_space(#[trigger] s[k]),
        trim_end(s).len() > 0 ==> !is_white_space(trim_end(s).last()),
    decreases s.len(),
{
    if s.len() > 0 && is_white_space(s.last()) {
        lemma_trim_end_part(s.drop_last());
        let rest = trim_end(s);
        assert(s.drop_last().take(rest.len() as int) =~= s.take(rest.len() as int));
        assert forall|k: int| rest.len() <= k < s.len() implies is_white_space(#[trigger] s[k]) by {
            if k < s.len() - 1 {
                assert(s.drop_last()[k] == s[k]);
            }
        }
    } else {
        assert(s.take(s.len() as int) =~= s);
    }
}

/// A number in decimal reads back as that number, without zeros before it.
pub proof fn lemma_decimal_reads_back(n: nat)
    ensures
        digits_value(decimal(n), 10) == Some(n),
        decimal(n).len() > 0,
        forall|i: int|
            0 <= i < decimal(n).len() ==> digit_value(#[trigger] decimal(n)[i]) is Some
                && digit_value(decimal(n)[i])->0 < 10,
        n > 0 ==> digit_value(decimal(n)[0]) != Some(0nat),
    decreases n,
{
    let low = n % 10;
    assert(digit_value(digit_char(low as int)) == Some(low));
    if n < 10 {
        assert(decimal(n).drop_last() =~= Seq::empty());
        assert(digits_value(decimal(n).drop_last(), 10) == Some(0nat));
    } else {
        lemma_decimal_reads_back(n / 10);
        assert(decimal(n).drop_last() =~= decimal(n / 10));
        assert(decimal(n)[0] == decimal(n / 10)[0]);
        assert forall|i: int| 0 <= i < decimal(n).len() implies digit_value(
            #[trigger] decimal(n)[i],
        ) is Some && digit_value(decimal(n)[i])->0 < 10 by {
            if i < decimal(n).len() - 1 {
                assert(decimal(n)[i] == decimal(n / 10)[i]);
            }
        }
    }
}

/// Two numbers that are written alike in decimal are the same.
pub proof fn lemma_decimal_tells_apart(m: nat, n: nat)
    ensures
        decimal(m) == decimal(n) ==> m == n,
{
    lemma_decimal_reads_back(m);
    lemma_decimal_reads_back(n);
}

/// A number with its sign reads back as that number.
pub proof fn lemma_signed_decimal_reads_back(n: i32)
    ensures
        decimal_i32(signed_decimal(n as int)) == Some(n as int),
{
    let size = if n < 0 {
        (-n) as nat
    } else {
        n as nat
    };
    lemma_decimal_reads_back(size);
    let digits = decimal(size);
    assert(digit_value('-') is None);
    assert(digit_value('+') is None);
    if n < 0 {
        let s = signed_decimal(n as int);
        assert(s[0] == '-');
        assert(s.skip(1) =~= digits);
    } else {
        assert(digits[0] != '-' && digits[0] != '+');
    }
}

/// The digit of a value below 16, in small or in capital letters.
pub open spec fn hex_letter(d: int, capital: bool) -> char {
    if d < 10 {
        (d + 48) as char
    } else if capital {
        (d + 55) as char
    } else {
        (d + 87) as char
    }
}

/// `n` in hexadecimal, in at least `width` digits.
pub open spec fn hexadecimal(n: nat, width: nat, capital: bool) -> Seq<char>
    decreases n, width,
{
    if n < 16 && width <= 1 {
        seq![hex_letter(n as int, capital)]
    } else {
        hexadecimal(
            n / 16,
            if width > 0 {
                (width - 1) as nat
            } else {
                0
            },
            capital,
        ).push(hex_letter((n % 16) as int, capital))
    }
}

/// A number in hexadecimal reads back as that number, in small and in capital
/// letters, with and without zeros before it.
pub proof fn lemma_hexadecimal_reads_back(n: nat, width: nat, capital: bool)
    ensures
        digits_value(hexadecimal(n, width, capital), 16) == Some(n),
        hexadecimal(n, width, capital).len() > 0,
        hexadecimal(n, width, capital)[0] != '+',
        n <= u32::MAX ==> hex_u32(hexadecimal(n, width, capital)) == Some(n),
        n > u32::MAX ==> hex_u32(hexadecimal(n, width, capital)) is None,
    decreases n, width,
{
    let s = hexadecimal(n, width, capital);
    let low = n % 16;
    assert(digit_value(hex_letter(low as int, capital)) == Some(low));
    assert(digit_value('+') is None);
    if n < 16 && width <= 1 {
        assert(s.drop_last() =~= Seq::empty());
        assert(digits_value(s.drop_last(), 16) == Some(0nat));
    } else {
        let less = if width > 0 {
            (width - 1) as nat
        } else {
            0
        };
        lemma_hexadecimal_reads_back(n / 16, less, capital);
        assert(s.drop_last() =~= hexadecimal(n / 16, less, capital));
        assert(s[0] == hexadecimal(n / 16, less, capital)[0]);
    }
}

/// A plus sign before a number makes no difference; a number that is too large, and
/// a sign alone, is none.
pub proof fn lemma_signs(n: nat)
    ensures
        n <= i32::MAX ==> decimal_i32(seq!['+'] + decimal(n)) == Some(n as int),
        n > i32::MAX ==> decimal_i32(decimal(n)) is None,
        n > i32::MAX + 1 ==> decimal_i32(seq!['-'] + decimal(n)) is None,
        decimal_i32(Seq::empty()) is None,
        decimal_i32(seq!['-']) is None,
        decimal_i32(seq!['+']) is None,
        hex_u32(Seq::empty()) is None,
        hex_u32(seq!['+']) is None,
{
    lemma_decimal_reads_back(n);
    let digits = decimal(n);
    assert(digit_value('-') is None);
    assert(digit_value('+') is None);
    assert(digits[0] != '-' && digits[0] != '+');
    assert((seq!['+'] + digits).skip(1) =~= digits);
    assert((seq!['-'] + digits).skip(1) =~= digits);
    assert(seq!['-'].skip(1) =~= Seq::empty());
    assert(seq!['+'].skip(1) =~= Seq::empty());
}

/// A text with a character that is no digit is no number.
pub proof fn lemma_no_number(s: Seq<char>, base: nat, i: int)
    requires
        0 <= i < s.len(),
        digit_value(s[i]) is None || digit_value(s[i])->0 >= base,
    ensures
        digits_value(s, base) is None,
{
    assert(s.take(i + 1).last() == s[i]);
    lemma_digits_bad(s, base, i + 1);
}

/// The words of a text that has one more word behind white space, or only the
/// white space.
pub proof fn lemma_words(a: Seq<char>, c: char, word: Seq<char>)
    requires
        is_white_space(c),
        word.len() > 0,
        forall|i: int| 0 <= i < word.len() ==> !is_white_space(#[trigger] word[i]),
    ensures
        words(a + seq![c] + word) == words(a).push(word),
        words(a + seq![c]) == words(a),
        words(word) == seq![word],
        words(Seq::empty()) == Seq::<Seq<char>>::empty(),
{
    let sep = white_space();
    lemma_split_append(a, c, word, sep);
    lemma_split_append(a, c, Seq::empty(), sep);
    lemma_split_plain(word, sep);
    assert(a + seq![c] + Seq::<char>::empty() =~= a + seq![c]);
    let front = split_at_every(a, sep);
    assert(front.push(word).drop_last() =~= front);
    assert(front.push(Seq::empty()).drop_last() =~= front);
    reveal_with_fuel(non_empty, 2);
    assert(seq![word].drop_last() =~= Seq::empty());
    assert(non_empty(seq![word]) =~= seq![word]);
    assert(split_at_every(Seq::empty(), sep) =~= seq![Seq::<char>::empty()]);
    assert(seq![Seq::<char>::empty()].drop_last() =~= Seq::empty());
}

/// A blank, a tab and the ends of lines are white space; what can be seen is not.
pub proof fn lemma_white_space(c: char)
    ensures
        is_white_space(' ') && is_white_space('\t') && is_white_space('\n') && is_white_space('\r'),
        '!' <= c <= '~' ==> !is_white_space(c),
{
}

/// The lines of a text that has one more line behind it, with or without an
/// ending.
pub proof fn lemma_lines(a: Seq<char>, line: Seq<char>)
    requires
        a.len() == 0 || a.last() == '\n',
        !line.contains('\n'),
    ensures
        lines(a + line + seq!['\n']) == lines(a).push(without_carriage_return(line)),
        line.len() > 0 ==> lines(a + line) == lines(a).push(line),
        lines(Seq::empty()) == Seq::<Seq<char>>::empty(),
{
    let sep = is_char('\n');
    assert forall|i: int| 0 <= i < line.len() implies !sep(#[trigger] line[i]) by {
        assert(line.contains(line[i]));
    }
    assert(split(Seq::empty(), '\n') =~= seq![Seq::<char>::empty()]);
    assert(lines(Seq::empty()) =~= Seq::empty());
    let whole = a + line;
    let pieces = split(a, '\n');
    lemma_split_has_pieces(a, sep);
    if a.len() == 0 {
        assert(whole =~= line);
        lemma_split_plain(line, sep);
        assert(a =~= Seq::empty());
    } else {
        let front = a.drop_last();
        assert(a =~= front + seq!['\n'] + Seq::<char>::empty());
        lemma_split_append(front, '\n', Seq::empty(), sep);
        assert(whole =~= front + seq!['\n'] + line);
        lemma_split_append(front, '\n', line, sep);
    }
    assert(pieces.last().len() == 0);
    assert(split(whole, '\n') =~= pieces.drop_last().push(line));
    lemma_split_append(whole, '\n', Seq::empty(), sep);
    assert(whole + seq!['\n'] + Seq::<char>::empty() =~= whole + seq!['\n']);
    let all = split(whole + seq!['\n'], '\n');
    assert(all =~= pieces.drop_last().push(line).push(Seq::empty()));
    assert(lines(whole + seq!['\n']) =~= lines(a).push(without_carriage_return(line)));
    if line.len() > 0 {
        assert(lines(whole) =~= lines(a).push(line));
    }
}

/// What follows a prefix is what was put behind it.
pub proof fn lemma_prefix(s: Seq<char>, prefix: Seq<char>, rest: Seq<char>)
    ensures
        after_prefix(prefix + rest, prefix) == Some(rest),
        has_prefix(prefix + rest, prefix),
        after_prefix(s, prefix) matches Some(r) ==> s == prefix + r,
        after_prefix(s, prefix) is Some <==> has_prefix(s, prefix),
{
    assert((prefix + rest).take(prefix.len() as int) =~= prefix);
    assert((prefix + rest).skip(prefix.len() as int) =~= rest);
    if has_prefix(s, prefix) {
        assert(s =~= s.take(prefix.len() as int) + s.skip(prefix.len() as int));
    }
}

/// The pieces of a text with one separator before it.
pub proof fn lemma_split_behind(c: char, s: Seq<char>)
    ensures
        split(seq![c] + s, c) == seq![Seq::<char>::empty()] + split(s, c),
    decreases s.len(),
{
    let whole = seq![c] + s;
    if s.len() == 0 {
        assert(whole.drop_last() =~= Seq::empty());
        assert(split(s, c) =~= seq![Seq::<char>::empty()]);
        assert(split(whole.drop_last(), c) =~= seq![Seq::<char>::empty()]);
        assert(split(whole, c) =~= seq![Seq::<char>::empty()] + split(s, c));
    } else {
        let front = s.drop_last();
        assert(whole.drop_last() =~= seq![c] + front);
        lemma_split_behind(c, front);
        lemma_split_has_pieces(front, is_char(c));
        assert(whole.last() == s.last());
        assert(split(whole, c) =~= seq![Seq::<char>::empty()] + split(s, c));
    }
}

/// The beginning of a list with one more element.
pub proof fn lemma_take_next<A>(all: Seq<A>, i: int)
    requires
        0 <= i < all.len(),
    ensures
        all.take(i + 1).drop_last() == all.take(i),
        all.take(i + 1).last() == all[i],
{
    assert(all.take(i + 1).drop_last() =~= all.take(i));
}

/// What a list with one more text holds.
pub proof fn lemma_contains_push(s: Seq<Seq<char>>, a: Seq<char>, x: Seq<char>)
    ensures
        s.push(a).contains(x) <==> s.contains(x) || a == x,
{
    if s.contains(x) {
        let i = choose|i: int| 0 <= i < s.len() && s[i] == x;
        assert(s.push(a)[i] == x);
    }
    if a == x {
        assert(s.push(a)[s.len() as int] == x);
    }
    if s.push(a).contains(x) {
        let i = choose|i: int| 0 <= i < s.push(a).len() && s.push(a)[i] == x;
        if i < s.len() {
            assert(s[i] == x);
        }
    }
}

// ---------------------------------------------------------------------------
// Executable text functions
// ---------------------------------------------------------------------------
/// Whether two texts hold the same characters.
pub fn same_text(a: &str, b: &str) -> (r: bool)
    ensures
        r == (a@ == b@),
{
    let x: String = a.to_owned();
    let y: String = b.to_owned();
    x == y
}

/// The characters of a text.
pub fn to_chars(s: &str) -> (r: Vec<char>)
    ensures
        r@ == s@,
{
    let mut out: Vec<char> = Vec::new();
    for c in it: s.chars()
        invariant
            it.seq() == s@,
            out@ == s@.take(it.index() as int),
    {
        proof {
            let i = it.index() as int;
            assert(s@.take(i + 1) =~= s@.take(i).push(s@[i]));
        }
        out.push(c);
    }
    assert(s@.take(s@.len() as int) =~= s@);
    out
}

/// The text of the characters from `from` up to `to`.
pub fn from_chars(v: &Vec<char>, from: usize, to: usize) -> (r: String)
    requires
        from <= to <= v@.len(),
    ensures
        r@ == v@.subrange(from as int, to as int),
{
    let mut out: String = String::new();
    let mut i: usize = from;
    while i < to
        invariant
            from <= i <= to <= v@.len(),
            out@ == v@.subrange(from as int, i as int),
        decreases to - i,
    {
        out.push(v[i]);
        assert(v@.subrange(from as int, i + 1) =~= v@.subrange(from as int, i as int).push(
            v@[i as int],
        ));
        i = i + 1;
    }
    out
}

/// Appends a text to a list of texts.
pub fn push_text(v: &mut Vec<String>, s: String)
    ensures
        final(v).deep_view() == old(v).deep_view().push(s@),
{
    let ghost before = v.deep_view();
    v.push(s);
    assert(v.deep_view() =~= before.push(s@));
}

/// A list of one text.
pub fn texts1(a: &str) -> (r: Vec<String>)
    ensures
        r.deep_view() == seq![a@],
{
    let mut v: Vec<String> = Vec::new();
    assert(v.deep_view() =~= Seq::<Seq<char>>::empty());
    push_text(&mut v, a.to_owned());
    v
}

/// A list of two texts.
pub fn texts2(a: &str, b: &str) -> (r: Vec<String>)
    ensures
        r.deep_view() == seq![a@, b@],
{
    let mut v = texts1(a);
    push_text(&mut v, b.to_owned());
    v
}

/// A list of three texts.
pub fn texts3(a: &str, b: &str, c: &str) -> (r: Vec<String>)
    ensures
        r.deep_view() == seq![a@, b@, c@],
{
    let mut v = texts2(a, b);
    push_text(&mut v, c.to_owned());
    v
}

/// A list of four texts.
pub fn texts4(a: &str, b: &str, c: &str, d: &str) -> (r: Vec<String>)
    ensures
        r.deep_view() == seq![a@, b@, c@, d@],
{
    let mut v = texts3(a, b, c);
    push_text(&mut v, d.to_owned());
    v
}

/// A copy of a list of texts.
pub fn copy_texts(v: &[String]) -> (r: Vec<String>)
    ensures
        r.deep_view() == v.deep_view(),
{
    let mut out: Vec<String> = Vec::new();
    let mut i: usize = 0;
    while i < v.len()
        invariant
            i <= v@.len(),
            out.deep_view() == v.deep_view().take(i as int),
        decreases v.len() - i,
    {
        push_text(&mut out, v[i].clone());
        assert(v.deep_view().take(i + 1) =~= v.deep_view().take(i as int).push(v@[i as int]@));
        i = i + 1;
    }
    assert(v.deep_view().take(v@.len() as int) =~= v.deep_view());
    out
}

/// A copy of a text that may be missing.
pub fn copy_option(s: &Option<String>) -> (r: Option<String>)
    ensures
        r.deep_view() == s.deep_view(),
{
    match s {
        Some(t) => Some(t.clone()),
        None => None,
    }
}

/// A text of its own from a borrowed one that may be missing.
pub fn own_option(s: Option<&str>) -> (r: Option<String>)
    ensures
        r.deep_view() == s.deep_view(),
{
    match s {
        Some(t) => Some(t.to_owned()),
        None => None,
    }
}

/// Whether a list holds a text.
pub fn holds_text(v: &Vec<String>, s: &str) -> (r: bool)
    ensures
        r == v.deep_view().contains(s@),
{
    let mut i: usize = 0;
    while i < v.len()
        invariant
            i <= v@.len(),
            forall|j: int| 0 <= j < i ==> v.deep_view()[j] != s@,
        decreases v.len() - i,
    {
        if same_text(v[i].as_str(), s) {
            assert(v.deep_view()[i as int] == s@);
            return true;
        }
        i = i + 1;
    }
    false
}

/// Two texts, one after the other.
pub fn cat2(a: &str, b: &str) -> (r: String)
    ensures
        r@ == a@ + b@,
{
    let mut s: String = a.to_owned();
    s.append(b);
    s
}

/// Three texts, one after the other.
pub fn cat3(a: &str, b: &str, c: &str) -> (r: String)
    ensures
        r@ == a@ + b@ + c@,
{
    let mut s = cat2(a, b);
    s.append(c);
    s
}

/// Four texts, one after the other.
pub fn cat4(a: &str, b: &str, c: &str, d: &str) -> (r: String)
    ensures
        r@ == a@ + b@ + c@ + d@,
{
    let mut s = cat3(a, b, c);
    s.append(d);
    s
}

pub fn white(c: char) -> (r: bool)
    ensures
        r == is_white_space(c),
{
    let n: u32 = c as u32;
    (0x9 <= n && n <= 0xd) || n == 0x20 || n == 0x85 || n == 0xa0 || n == 0x1680 || (0x2000 <= n
        && n <= 0x200a) || n == 0x2028 || n == 0x2029 || n == 0x202f || n == 0x205f || n == 0x3000
}

/// The pieces of `s` between the occurrences of `sep`, as `str::split` gives
/// them.
pub fn split_char(s: &str, sep: char) -> (r: Vec<String>)
    ensures
        r.deep_view() == split(s@, sep),
{
    let mut out: Vec<String> = Vec::new();
    let mut cur: String = String::new();
    assert(s@.take(0) =~= Seq::<char>::empty());
    assert(out.deep_view().push(cur@) =~= split_at_every(s@.take(0), is_char(sep)));
    for c in it: s.chars()
        invariant
            it.seq() == s@,
            out.deep_view().push(cur@) == split_at_every(s@.take(it.index() as int), is_char(sep)),
    {
        proof {
            lemma_take_next(s@, it.index() as int);
        }
        if c == sep {
            push_text(&mut out, cur);
            cur = String::new();
        } else {
            let ghost front = out.deep_view().push(cur@);
            cur.push(c);
            assert(front.drop_last() =~= out.deep_view());
        }
    }
    assert(s@.take(s@.len() as int) =~= s@);
    push_text(&mut out, cur);
    out
}

/// The words of a text, as `str::split_whitespace` gives them.
pub fn split_words(s: &str) -> (r: Vec<String>)
    ensures
        r.deep_view() == words(s@),
{
    let mut out: Vec<String> = Vec::new();
    let mut cur: String = String::new();
    let ghost mut pieces: Seq<Seq<char>> = Seq::empty();
    assert(s@.take(0) =~= Seq::<char>::empty());
    assert(pieces.push(cur@) =~= split_at_every(s@.take(0), white_space()));
    assert(out.deep_view() =~= Seq::<Seq<char>>::empty());
    for c in it: s.chars()
        invariant
            it.seq() == s@,
            out.deep_view() == non_empty(pieces),
            pieces.push(cur@) == split_at_every(s@.take(it.index() as int), white_space()),
    {
        proof {
            lemma_take_next(s@, it.index() as int);
            assert(pieces.push(cur@).drop_last() =~= pieces);
        }
        if white(c) {
            proof {
                pieces = pieces.push(cur@);
            }
            if !cur.as_str().is_empty() {
                push_text(&mut out, cur);
            }
            cur = String::new();
        } else {
            cur.push(c);
        }
    }
    assert(s@.take(s@.len() as int) =~= s@);
    assert(pieces.push(cur@).drop_last() =~= pieces);
    if !cur.as_str().is_empty() {
        push_text(&mut out, cur);
    }
    out
}

fn drop_carriage_return(line: &str) -> (r: String)
    ensures
        r@ == without_carriage_return(line@),
{
    let v = to_chars(line);
    let n = v.len();
    if n > 0 && v[n - 1] == '\r' {
        assert(line@.drop_last() =~= line@.subrange(0, n - 1));
        from_chars(&v, 0, n - 1)
    } else {
        line.to_owned()
    }
}

/// The lines of a text, as `str::lines` gives them.
pub fn split_lines(s: &str) -> (r: Vec<String>)
    ensures
        r.deep_view() == lines(s@),
{
    let pieces = split_char(s, '\n');
    proof {
        lemma_split_has_pieces(s@, is_char('\n'));
    }
    let ghost all = pieces.deep_view();
    let n = pieces.len();
    let mut out: Vec<String> = Vec::new();
    let ghost terminated = Seq::new(
        (all.len() - 1) as nat,
        |i: int| without_carriage_return(all[i]),
    );
    assert(out.deep_view() =~= terminated.take(0));
    let mut i: usize = 0;
    while i < n - 1
        invariant
            n == pieces@.len(),
            n > 0,
            i <= n - 1,
            all == pieces.deep_view(),
            terminated == Seq::new(
                (all.len() - 1) as nat,
                |i: int| without_carriage_return(all[i]),
            ),
            out.deep_view() == terminated.take(i as int),
        decreases n - i,
    {
        push_text(&mut out, drop_carriage_return(pieces[i].as_str()));
        assert(terminated.take(i + 1) =~= terminated.take(i as int).push(terminated[i as int]));
        i = i + 1;
    }
    assert(terminated.take(n - 1) =~= terminated);
    if !pieces[n - 1].as_str().is_empty() {
        push_text(&mut out, pieces[n - 1].clone());
    }
    out
}

/// The texts with `sep` between each two of them.
pub fn join_texts(pieces: &Vec<String>, sep: &str) -> (r: String)
    ensures
        r@ == join(pieces.deep_view(), sep@),
{
    let mut out: String = String::new();
    let mut i: usize = 0;
    assert(out@ =~= join(pieces.deep_view().take(0), sep@));
    while i < pieces.len()
        invariant
            i <= pieces@.len(),
            out@ == join(pieces.deep_view().take(i as int), sep@),
        decreases pieces.len() - i,
    {
        proof {
            lemma_take_next(pieces.deep_view(), i as int);
        }
        if i > 0 {
            out.append(sep);
        }
        out.append(pieces[i].as_str());
        proof {
            if i == 0 {
                assert(out@ =~= pieces.deep_view()[0]);
            }
        }
        i = i + 1;
    }
    assert(pieces.deep_view().take(pieces@.len() as int) =~= pieces.deep_view());
    out
}

/// Where `c` first occurs, or the length.
pub fn find_char(v: &Vec<char>, c: char) -> (r: usize)
    ensures
        r <= v@.len(),
        r == find(v@, c),
{
    let mut i: usize = 0;
    while i < v.len() && v[i] != c
        invariant
            i <= v@.len(),
            forall|j: int| 0 <= j < i ==> v@[j] != c,
        decreases v.len() - i,
    {
        i = i + 1;
    }
    proof {
        lemma_find(v@, c, i as int);
    }
    i
}

/// What stands before the first `c`, and after it where there is one.
pub fn split_once(s: &str, c: char) -> (r: (String, Option<String>))
    ensures
        r.0@ == before(s@, c),
        r.1.deep_view() == after(s@, c),
{
    let v = to_chars(s);
    let i = find_char(&v, c);
    let head = from_chars(&v, 0, i);
    assert(v@.subrange(0, i as int) =~= s@.take(i as int));
    if i < v.len() {
        let tail = from_chars(&v, i + 1, v.len());
        assert(v@.subrange(i + 1, v@.len() as int) =~= s@.skip(i + 1));
        (head, Some(tail))
    } else {
        (head, None)
    }
}

pub fn starts_with(s: &str, prefix: &str) -> (r: bool)
    ensures
        r == has_prefix(s@, prefix@),
{
    let v = to_chars(s);
    let p = to_chars(prefix);
    if p.len() > v.len() {
        return false;
    }
    let mut i: usize = 0;
    while i < p.len()
        invariant
            v@ == s@,
            p@ == prefix@,
            i <= p@.len() <= v@.len(),
            forall|j: int| 0 <= j < i ==> v@[j] == p@[j],
        decreases p.len() - i,
    {
        if v[i] != p[i] {
            proof {
                if v@.take(p@.len() as int) == p@ {
                    assert(v@.take(p@.len() as int)[i as int] == p@[i as int]);
                }
            }
            return false;
        }
        i = i + 1;
    }
    assert(v@.take(p@.len() as int) =~= p@);
    true
}

/// What follows `prefix`, where `s` begins with it.
pub fn strip_prefix(s: &str, prefix: &str) -> (r: Option<String>)
    ensures
        r.deep_view() == after_prefix(s@, prefix@),
{
    if starts_with(s, prefix) {
        let v = to_chars(s);
        let p = to_chars(prefix);
        assert(v@.subrange(p@.len() as int, v@.len() as int) =~= s@.skip(p@.len() as int));
        Some(from_chars(&v, p.len(), v.len()))
    } else {
        None
    }
}

pub fn starts_with_char(s: &str, c: char) -> (r: bool)
    ensures
        r == (s@.len() > 0 && s@[0] == c),
{
    let v = to_chars(s);
    v.len() > 0 && v[0] == c
}

pub fn contains_char(s: &str, c: char) -> (r: bool)
    ensures
        r == s@.contains(c),
{
    let v = to_chars(s);
    let i = find_char(&v, c);
    proof {
        lemma_find_is_first(v@, c);
        if i < v@.len() {
            assert(v@[i as int] == c);
        }
    }
    i < v.len()
}

/// `s` without one leading `c`.
pub fn strip_leading(s: &str, c: char) -> (r: String)
    ensures
        r@ == without_leading(s@, c),
{
    let v = to_chars(s);
    if v.len() > 0 && v[0] == c {
        assert(v@.subrange(1, v@.len() as int) =~= s@.skip(1));
        from_chars(&v, 1, v.len())
    } else {
        s.to_owned()
    }
}

/// `s` without any leading `c`.
pub fn strip_all_leading(s: &str, c: char) -> (r: String)
    ensures
        r@ == without_all_leading(s@, c),
{
    let v = to_chars(s);
    let mut i: usize = 0;
    while i < v.len() && v[i] == c
        invariant
            i <= v@.len(),
            forall|j: int| 0 <= j < i ==> v@[j] == c,
        decreases v.len() - i,
    {
        i = i + 1;
    }
    proof {
        lemma_without_all_leading(s@, c, i as int);
        assert(v@.subrange(i as int, v@.len() as int) =~= s@.skip(i as int));
    }
    from_chars(&v, i, v.len())
}

/// `s` without white space at either end, as `str::trim` gives it.
pub fn trim(s: &str) -> (r: String)
    ensures
        r@ == trimmed(s@),
{
    let v = to_chars(s);
    let n = v.len();
    let mut i: usize = 0;
    while i < n && white(v[i])
        invariant
            n == v@.len(),
            i <= n,
            forall|j: int| 0 <= j < i ==> is_white_space(v@[j]),
        decreases n - i,
    {
        i = i + 1;
    }
    let mut k: usize = n;
    while k > i && white(v[k - 1])
        invariant
            n == v@.len(),
            i <= k <= n,
            forall|j: int| k <= j < n ==> is_white_space(v@[j]),
        decreases k,
    {
        k = k - 1;
    }
    proof {
        lemma_trim_start(s@, i as int);
        let rest = s@.skip(i as int);
        assert forall|j: int| k - i <= j < rest.len() implies is_white_space(rest[j]) by {
            assert(rest[j] == v@[j + i]);
        }
        lemma_trim_end(rest, k - i);
        assert(rest.take(k - i) =~= v@.subrange(i as int, k as int));
    }
    from_chars(&v, i, k)
}

fn digit_to_char(d: u64) -> (r: char)
    requires
        d < 10,
    ensures
        r == digit_char(d as int),
{
    (48u8 + d as u8) as char
}

/// `n` in decimal.
pub fn decimal_text(n: u64) -> (r: String)
    ensures
        r@ == decimal(n as nat),
    decreases n,
{
    if n < 10 {
        let mut s: String = String::new();
        s.push(digit_to_char(n));
        assert(s@ =~= seq![digit_char(n as int)]);
        s
    } else {
        let mut s = decimal_text(n / 10);
        s.push(digit_to_char(n % 10));
        s
    }
}

/// `n` in decimal, with its sign.
pub fn signed_text(n: i32) -> (r: String)
    ensures
        r@ == signed_decimal(n as int),
{
    if n < 0 {
        let magnitude: u64 = (-(n as i64)) as u64;
        let digits = decimal_text(magnitude);
        let mut s: String = String::new();
        s.push('-');
        s.append(digits.as_str());
        assert(s@ =~= seq!['-'] + digits@);
        s
    } else {
        decimal_text(n as u64)
    }
}

fn digit_of(c: char) -> (r: Option<u32>)
    ensures
        r is Some == digit_value(c) is Some,
        r matches Some(d) ==> d == digit_value(c)->0,
{
    let n: u32 = c as u32;
    if 48 <= n && n <= 57 {
        Some(n - 48)
    } else if 65 <= n && n <= 90 {
        Some(n - 55)
    } else if 97 <= n && n <= 122 {
        Some(n - 87)
    } else {
        None
    }
}

/// The value of the digits from `from` on, where it is at most `limit`.
fn read_digits(v: &Vec<char>, from: usize, base: u32, limit: u32) -> (r: Option<u32>)
    requires
        from <= v@.len(),
        2 <= base <= 36,
    ensures
        match r {
            Some(n) => n <= limit && digits_value(v@.skip(from as int), base as nat) == Some(
                n as nat,
            ),
            None => match digits_value(v@.skip(from as int), base as nat) {
                Some(n) => n > limit,
                None => true,
            },
        },
{
    let ghost s = v@.skip(from as int);
    let mut value: u64 = 0;
    let mut i: usize = from;
    assert(s.take(0) =~= Seq::<char>::empty());
    while i < v.len()
        invariant
            s == v@.skip(from as int),
            from <= i <= v@.len(),
            2 <= base <= 36,
            value <= limit,
            digits_value(s.take(i - from), base as nat) == Some(value as nat),
        decreases v.len() - i,
    {
        proof {
            lemma_take_next(s, i - from);
        }
        match digit_of(v[i]) {
            Some(d) if d < base => {
                assert(value * base <= 0xffff_ffff * 36) by (nonlinear_arith)
                    requires
                        value <= 0xffff_ffff,
                        base <= 36,
                ;
                value = value * base as u64 + d as u64;
                if value > limit as u64 {
                    proof {
                        lemma_digits_grow(s, base as nat, i - from + 1, limit as nat);
                    }
                    return None;
                }
            },
            _ => {
                proof {
                    lemma_digits_bad(s, base as nat, i - from + 1);
                }
                return None;
            },
        }
        i = i + 1;
    }
    assert(s.take(v@.len() - from) =~= s);
    Some(value as u32)
}

/// The number that a text writes in hexadecimal, as `u32::from_str_radix` reads
/// it.
pub fn parse_hex(s: &str) -> (r: Option<u32>)
    ensures
        r is Some == hex_u32(s@) is Some,
        r matches Some(n) ==> n == hex_u32(s@)->0,
{
    let v = to_chars(s);
    let from: usize = if v.len() > 0 && v[0] == '+' {
        1
    } else {
        0
    };
    assert(v@.skip(from as int) =~= without_leading(s@, '+'));
    if from == v.len() {
        return None;
    }
    read_digits(&v, from, 16, u32::MAX)
}

/// The number that a text writes in decimal, as `str::parse` reads an `i32`.
pub fn parse_decimal(s: &str) -> (r: Option<i32>)
    ensures
        r is Some == decimal_i32(s@) is Some,
        r matches Some(n) ==> n == decimal_i32(s@)->0,
{
    let v = to_chars(s);
    let negative = v.len() > 0 && v[0] == '-';
    let from: usize = if negative || (v.len() > 0 && v[0] == '+') {
        1
    } else {
        0
    };
    let limit: u32 = if negative {
        0x8000_0000
    } else {
        0x7fff_ffff
    };
    assert(v@.skip(from as int) =~= if negative {
        s@.skip(1)
    } else {
        without_leading(s@, '+')
    });
    if from == v.len() {
        return None;
    }
    match read_digits(&v, from, 10, limit) {
        Some(n) => if negative {
            Some((-(n as i64)) as i32)
        } else {
            Some(n as i32)
        },
        None => None,
    }
}

/// The white space at the ends of a text is made of these characters and no others.
pub proof fn lemma_all_white_space(c: char)
    ensures
        is_white_space(c) <==> seq![
            '\t', '\n', '\u{b}', '\u{c}', '\r', ' ', '\u{85}', '\u{a0}', '\u{1680}', '\u{2000}',
            '\u{2001}', '\u{2002}', '\u{2003}', '\u{2004}', '\u{2005}', '\u{2006}', '\u{2007}',
            '\u{2008}', '\u{2009}', '\u{200a}', '\u{2028}', '\u{2029}', '\u{202f}', '\u{205f}',
            '\u{3000}',
        ].contains(c),
{
    let all = seq![
        '\t', '\n', '\u{b}', '\u{c}', '\r', ' ', '\u{85}', '\u{a0}', '\u{1680}', '\u{2000}',
        '\u{2001}', '\u{2002}', '\u{2003}', '\u{2004}', '\u{2005}', '\u{2006}', '\u{2007}',
        '\u{2008}', '\u{2009}', '\u{200a}', '\u{2028}', '\u{2029}', '\u{202f}', '\u{205f}',
        '\u{3000}',
    ];
    if is_white_space(c) {
        let n = c as u32;
        let i: int = if n <= 0xd {
            n - 0x9
        } else if n == 0x20 {
            5
        } else if n == 0x85 {
            6
        } else if n == 0xa0 {
            7
        } else if n == 0x1680 {
            8
        } else if n <= 0x200a {
            n - 0x2000 + 9
        } else if n == 0x2028 {
            20
        } else if n == 0x2029 {
            21
        } else if n == 0x202f {
            22
        } else if n == 0x205f {
            23
        } else {
            24
        };
        assert(all[i] == c);
    }
}

/// A digit counts less than thirty-six, and the two forms of a letter count alike.
pub proof fn lemma_digits_and_letters(n: u8)
    ensures
        digit_value(n as char) is Some <==> '0' as u8 <= n <= '9' as u8 || 'A' as u8 <= n
            <= 'Z' as u8 || 'a' as u8 <= n <= 'z' as u8,
        digit_value('0') == Some(0nat) && digit_value('9') == Some(9nat),
        'A' as u8 <= n <= 'Z' as u8 ==> digit_value(n as char) == Some((n - 'A' as u8 + 10) as nat)
            && digit_value((n + 32) as char) == digit_value(n as char),
{
}

/// One carriage return at the end of a line does not belong to it, and nothing else is
/// taken away.
pub proof fn lemma_carriage_return(line: Seq<char>)
    ensures
        without_carriage_return(line + seq!['\r']) == line,
        line.len() == 0 || line.last() != '\r' ==> without_carriage_return(line) == line,
{
    assert((line + seq!['\r']).drop_last() =~= line);
}

} // verus!
