//! Text helpers: comparing strings, rendering numbers and bytes, splitting.

use vstd::prelude::*;

verus! {

/// `str`'s `PartialEq::eq`: two string slices are equal exactly when they
/// hold the same characters.
pub assume_specification[ <str as PartialEq>::eq ](a: &str, b: &str) -> (r: bool)
    ensures
        r == (a@ == b@),
;

/// `String::push` appends the given character to the end of the string.
pub assume_specification[ String::push ](s: &mut String, ch: char)
    ensures
        final(s)@ == old(s)@.push(ch),
;

/// The views of a list of strings.
pub open spec fn texts(list: Seq<String>) -> Seq<Seq<char>> {
    Seq::new(list.len(), |i: int| list[i]@)
}

/// The view of a string that may be absent.
pub open spec fn option_text(text: Option<String>) -> Option<Seq<char>> {
    match text {
        Some(s) => Some(s@),
        None => None,
    }
}

/// The character that writes the digit `d` in bases up to sixteen, lower case.
pub open spec fn digit_char(d: nat) -> char {
    if d < 10 {
        (48 + d) as char
    } else {
        (87 + d) as char
    }
}

/// Exec form of [`digit_char`].
pub fn digit(d: u8) -> (c: char)
    requires
        d < 16,
    ensures
        c == digit_char(d as nat),
{
    if d < 10 {
        (48 + d) as char
    } else {
        (87 + d) as char
    }
}

/// A number written in decimal, without sign or leading zeros.
pub open spec fn decimal_text(n: nat) -> Seq<char>
    decreases n,
{
    if n < 10 {
        seq![digit_char(n)]
    } else {
        decimal_text(n / 10).push(digit_char(n % 10))
    }
}

/// Appends the decimal form of `n` to `out`.
pub fn push_decimal(out: &mut String, n: u128)
    ensures
        final(out)@ == old(out)@ + decimal_text(n as nat),
    decreases n,
{
    if n >= 10 {
        push_decimal(out, n / 10);
    }
    out.push(digit((n % 10) as u8));
    assert(out@ =~= old(out)@ + decimal_text(n as nat));
}

/// The decimal form of `n` as a new string.
pub fn decimal(n: u128) -> (s: String)
    ensures
        s@ == decimal_text(n as nat),
{
    let mut s = String::new();
    push_decimal(&mut s, n);
    assert(Seq::<char>::empty() + decimal_text(n as nat) =~= decimal_text(n as nat));
    s
}

/// Bytes written in lower-case hexadecimal, two characters for each byte,
/// the high half first.
pub open spec fn hex_text(bytes: Seq<u8>) -> Seq<char> {
    Seq::new(
        2 * bytes.len(),
        |i: int|
            if i % 2 == 0 {
                digit_char((bytes[i / 2] / 16) as nat)
            } else {
                digit_char((bytes[i / 2] % 16) as nat)
            },
    )
}

/// The lower-case hexadecimal form of `bytes` as a new string.
pub fn hex(bytes: &Vec<u8>) -> (s: String)
    ensures
        s@ == hex_text(bytes@),
{
    let mut s = String::new();
    let mut i: usize = 0;
    while i < bytes.len()
        invariant
            i <= bytes.len(),
            s@ == hex_text(bytes@.take(i as int)),
        decreases bytes.len() - i,
    {
        let b = bytes[i];
        s.push(digit(b / 16));
        s.push(digit(b % 16));
        i += 1;
        assert(s@ =~= hex_text(bytes@.take(i as int)));
    }
    assert(bytes@.take(i as int) =~= bytes@);
    s
}

/// `s` cut at every `sep`. The pieces hold no `sep`; there is one more piece
/// than there are separators, so an empty text gives one empty piece.
pub open spec fn split_text(s: Seq<char>, sep: char) -> Seq<Seq<char>>
    decreases s.len(),
{
    if s.len() == 0 {
        seq![Seq::<char>::empty()]
    } else {
        let before = split_text(s.drop_last(), sep);
        if s.last() == sep {
            before.push(Seq::<char>::empty())
        } else {
            before.drop_last().push(before.last().push(s.last()))
        }
    }
}

/// The pieces put together again, with `sep` between neighbours.
pub open spec fn join_text(parts: Seq<Seq<char>>, sep: char) -> Seq<char>
    decreases parts.len(),
{
    if parts.len() == 0 {
        Seq::<char>::empty()
    } else if parts.len() == 1 {
        parts[0]
    } else {
        join_text(parts.drop_last(), sep).push(sep) + parts.last()
    }
}

/// Cuts `s` at every `sep`.
pub fn split(s: &str, sep: char) -> (parts: Vec<String>)
    ensures
        texts(parts@) == split_text(s@, sep),
{
    let mut parts: Vec<String> = Vec::new();
    let mut piece = String::new();
    for c in it: s.chars()
        invariant
            it.seq() == s@,
            texts(parts@).push(piece@) == split_text(s@.take(it.index()), sep),
    {
        proof {
            let before = s@.take(it.index());
            let now = s@.take(it.index() + 1);
            assert(now.drop_last() =~= before);
            assert(now.last() == c);
        }
        if c == sep {
            parts.push(piece);
            piece = String::new();
            assert(texts(parts@).push(piece@) =~= split_text(s@.take(it.index() + 1), sep));
        } else {
            let ghost shorter = piece@;
            piece.push(c);
            assert(texts(parts@).push(shorter).drop_last() =~= texts(parts@));
            assert(texts(parts@).push(piece@) =~= split_text(s@.take(it.index() + 1), sep));
        }
    }
    assert(s@.take(s@.len() as int) =~= s@);
    parts.push(piece);
    assert(texts(parts@) =~= split_text(s@, sep));
    parts
}

/// Splitting always gives a piece, and no piece holds the separator.
pub proof fn lemma_split_pieces(s: Seq<char>, sep: char)
    ensures
        split_text(s, sep).len() >= 1,
        forall|i: int, j: int|
            0 <= i < split_text(s, sep).len() && 0 <= j < split_text(s, sep)[i].len()
                ==> #[trigger] split_text(s, sep)[i][j] != sep,
    decreases s.len(),
{
    if s.len() > 0 {
        lemma_split_pieces(s.drop_last(), sep);
    }
}

/// The pieces of a text, put together again with the separator between them,
/// are the text.
pub proof fn lemma_split_join(s: Seq<char>, sep: char)
    ensures
        join_text(split_text(s, sep), sep) == s,
    decreases s.len(),
{
    if s.len() == 0 {
        assert(join_text(split_text(s, sep), sep) =~= s);
    } else {
        let before = split_text(s.drop_last(), sep);
        lemma_split_join(s.drop_last(), sep);
        lemma_split_pieces(s.drop_last(), sep);
        let pieces = split_text(s, sep);
        if s.last() == sep {
            assert(pieces.drop_last() =~= before);
            assert(join_text(pieces, sep) =~= s);
        } else if before.len() == 1 {
            assert(pieces.len() == 1);
            assert(pieces[0] == before[0].push(s.last()));
            assert(join_text(before, sep) == before[0]);
            assert(s.drop_last().push(s.last()) =~= s);
        } else {
            assert(pieces.drop_last() =~= before.drop_last());
            assert(pieces.last() == before.last().push(s.last()));
            assert(s.drop_last().push(s.last()) =~= s);
            assert(join_text(pieces, sep) =~= join_text(before, sep).push(s.last()));
        }
    }
}

/// A text without the separator is its own single piece.
pub proof fn lemma_split_whole(s: Seq<char>, sep: char)
    requires
        !s.contains(sep),
    ensures
        split_text(s, sep) == seq![s],
    decreases s.len(),
{
    if s.len() == 0 {
        assert(s =~= Seq::<char>::empty());
    } else {
        assert(s.last() == s[s.len() - 1]);
        assert forall|i: int| 0 <= i < s.drop_last().len() implies s.drop_last()[i] != sep by {
            assert(s[i] != sep);
        }
        lemma_split_whole(s.drop_last(), sep);
        let before = seq![s.drop_last()];
        assert(before.last() == s.drop_last());
        assert(s.drop_last().push(s.last()) =~= s);
        assert(before.drop_last().push(s) =~= seq![s]);
    }
}

/// A text has more than one piece exactly where it holds the separator.
pub proof fn lemma_split_count(s: Seq<char>, sep: char)
    ensures
        split_text(s, sep).len() > 1 <==> s.contains(sep),
    decreases s.len(),
{
    lemma_split_pieces(s, sep);
    if s.len() > 0 {
        let shorter = s.drop_last();
        lemma_split_count(shorter, sep);
        lemma_split_pieces(shorter, sep);
        if s.last() == sep {
            assert(s[s.len() - 1] == sep);
        } else {
            if shorter.contains(sep) {
                let i = choose|i: int| 0 <= i < shorter.len() && shorter[i] == sep;
                assert(s[i] == sep);
            }
            if s.contains(sep) {
                let i = choose|i: int| 0 <= i < s.len() && s[i] == sep;
                assert(shorter[i] == sep);
            }
        }
    }
}

} // verus!
