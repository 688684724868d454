//! Text as sequences of characters: trimming, splitting and joining.

use vstd::prelude::*;

verus! {

/// Whether `c` has the Unicode property `White_Space`: a tab, a line feed,
/// a vertical tab, a form feed, a carriage return, a space, a next line, a
/// no-break space, an Ogham space mark, one of the spaces from the en quad to
/// the hair space, a line or paragraph separator, a narrow no-break space, a
/// medium mathematical space, or an ideographic space.
pub open spec fn white_space(c: char) -> bool {
    let code = c as u32;
    ||| 0x0009 <= code <= 0x000d
    ||| code == 0x0020
    ||| code == 0x0085
    ||| code == 0x00a0
    ||| code == 0x1680
    ||| 0x2000 <= code <= 0x200a
    ||| code == 0x2028
    ||| code == 0x2029
    ||| code == 0x202f
    ||| code == 0x205f
    ||| code == 0x3000
}

/// `char::is_whitespace` answers whether the character has the Unicode
/// property `White_Space`.
pub assume_specification[ char::is_whitespace ](c: char) -> (r: bool)
    ensures
        r == white_space(c),
;

/// `s` without the white space at its start.
pub open spec fn trimmed_start(s: Seq<char>) -> Seq<char>
    decreases s.len(),
{
    if s.len() > 0 && white_space(s[0]) {
        trimmed_start(s.drop_first())
    } else {
        s
    }
}

/// `s` without the white space at its end.
pub open spec fn trimmed_end(s: Seq<char>) -> Seq<char>
    decreases s.len(),
{
    if s.len() > 0 && white_space(s.last()) {
        trimmed_end(s.drop_last())
    } else {
        s
    }
}

/// `s` without the white space at its start and at its end.
pub open spec fn trimmed(s: Seq<char>) -> Seq<char> {
    trimmed_end(trimmed_start(s))
}

/// The pieces of `s` between the occurrences of `separator`: an empty text is
/// one empty piece, a separator opens a new piece, and any other character
/// extends the last piece.
pub open spec fn pieces(s: Seq<char>, separator: char) -> Seq<Seq<char>>
    decreases s.len(),
{
    if s.len() == 0 {
        seq![Seq::<char>::empty()]
    } else {
        let before = pieces(s.drop_last(), separator);
        if s.last() == separator {
            before.push(Seq::<char>::empty())
        } else {
            before.update(before.len() - 1, before.last().push(s.last()))
        }
    }
}

/// The texts of `parts` in order, with `separator` between neighbours.
pub open spec fn joined(parts: Seq<Seq<char>>, separator: Seq<char>) -> Seq<char>
    decreases parts.len(),
{
    if parts.len() == 0 {
        Seq::<char>::empty()
    } else if parts.len() == 1 {
        parts[0]
    } else {
        joined(parts.drop_last(), separator) + separator + parts.last()
    }
}

/// `text`, `n` times.
pub open spec fn copies(text: Seq<char>, n: nat) -> Seq<Seq<char>> {
    Seq::new(n, |i: int| text)
}

/// Each text of `list` as a sequence of characters.
pub open spec fn texts(list: Seq<String>) -> Seq<Seq<char>> {
    Seq::new(list.len(), |i: int| list[i]@)
}

/// The characters of `s`.
pub fn characters(s: &str) -> (r: Vec<char>)
    ensures
        r@ == s@,
{
    let mut out: Vec<char> = Vec::new();
    for c in it: s.chars()
        invariant
            it.seq() == s@,
            out@ == s@.take(it.index() as int),
    {
        out.push(c);
        assert(s@.take(it.index() + 1) =~= s@.take(it.index() as int).push(c));
    }
    assert(s@.take(s@.len() as int) =~= s@);
    out
}

/// `s` without the white space at its start and at its end.
pub fn trim(s: &str) -> (r: String)
    ensures
        r@ == trimmed(s@),
{
    let chars = characters(s);
    let mut start: usize = 0;
    assert(s@.skip(0) =~= s@);
    while start < chars.len() && chars[start].is_whitespace()
        invariant
            start <= chars.len(),
            chars@ == s@,
            trimmed_start(s@) == trimmed_start(s@.skip(start as int)),
        decreases chars.len() - start,
    {
        assert(s@.skip(start as int).drop_first() =~= s@.skip(start + 1));
        start = start + 1;
    }
    let mut end: usize = chars.len();
    assert(s@.subrange(start as int, end as int) =~= s@.skip(start as int));
    while end > start && chars[end - 1].is_whitespace()
        invariant
            start <= end <= chars.len(),
            chars@ == s@,
            trimmed(s@) == trimmed_end(s@.subrange(start as int, end as int)),
        decreases end,
    {
        assert(s@.subrange(start as int, end as int).drop_last() =~= s@.subrange(
            start as int,
            end - 1,
        ));
        end = end - 1;
    }
    String::from_str(s.substring_char(start, end))
}

/// The pieces of `s` between the occurrences of `separator`.
pub fn split(s: &str, separator: char) -> (r: Vec<String>)
    ensures
        texts(r@) == pieces(s@, separator),
{
    let chars = characters(s);
    let mut out: Vec<String> = Vec::new();
    let mut start: usize = 0;
    let mut i: usize = 0;
    assert(s@.take(0) =~= Seq::<char>::empty());
    assert(texts(out@).push(s@.subrange(0, 0)) =~= seq![Seq::<char>::empty()]);
    while i < chars.len()
        invariant
            start <= i <= chars.len(),
            chars@ == s@,
            pieces(s@.take(i as int), separator) == texts(out@).push(
                s@.subrange(start as int, i as int),
            ),
        decreases chars.len() - i,
    {
        let ghost before = pieces(s@.take(i as int), separator);
        assert(s@.take(i + 1).drop_last() =~= s@.take(i as int));
        if chars[i] == separator {
            out.push(String::from_str(s.substring_char(start, i)));
            start = i + 1;
            assert(texts(out@) =~= before);
            assert(s@.subrange(start as int, i + 1) =~= Seq::<char>::empty());
        } else {
            assert(before.last().push(s@[i as int]) =~= s@.subrange(start as int, i + 1));
            assert(texts(out@).push(s@.subrange(start as int, i + 1)) =~= before.update(
                before.len() - 1,
                before.last().push(s@[i as int]),
            ));
        }
        i = i + 1;
    }
    assert(s@.take(chars.len() as int) =~= s@);
    out.push(String::from_str(s.substring_char(start, i)));
    assert(texts(out@) =~= pieces(s@, separator));
    out
}

/// The texts of `parts` in order, with `separator` between neighbours.
pub fn join(parts: &Vec<String>, separator: &str) -> (r: String)
    ensures
        r@ == joined(texts(parts@), separator@),
{
    let mut out = String::new();
    let mut i: usize = 0;
    assert(texts(parts@).take(0) =~= Seq::<Seq<char>>::empty());
    while i < parts.len()
        invariant
            i <= parts.len(),
            out@ == joined(texts(parts@).take(i as int), separator@),
        decreases parts.len() - i,
    {
        assert(texts(parts@).take(i + 1).drop_last() =~= texts(parts@).take(i as int));
        if i > 0 {
            out.append(separator);
        }
        out.append(parts[i].as_str());
        i = i + 1;
    }
    assert(texts(parts@).take(parts.len() as int) =~= texts(parts@));
    out
}

/// What is left of a text without the white space at its start is the text
/// from some position on; all before that position is white space, and what
/// stands at it is none.
pub proof fn lemma_trimmed_start(s: Seq<char>) -> (from: int)
    ensures
        0 <= from <= s.len(),
        trimmed_start(s) == s.skip(from),
        forall|i: int| 0 <= i < from ==> white_space(#[trigger] s[i]),
        from < s.len() ==> !white_space(s[from]),
    decreases s.len(),
{
    if s.len() > 0 && white_space(s[0]) {
        let rest = s.drop_first();
        let from = lemma_trimmed_start(rest);
        assert(rest.skip(from) =~= s.skip(from + 1));
        assert forall|i: int| 0 <= i < from + 1 implies white_space(#[trigger] s[i]) by {
            if i > 0 {
                assert(s[i] == rest[i - 1]);
            }
        }
        from + 1
    } else {
        assert(s.skip(0) =~= s);
        0
    }
}

/// What is left of a text without the white space at its end is the text up
/// to some position; all from that position on is white space, and what
/// stands just before it is none.
pub proof fn lemma_trimmed_end(s: Seq<char>) -> (to: int)
    ensures
        0 <= to <= s.len(),
        trimmed_end(s) == s.take(to),
        forall|i: int| to <= i < s.len() ==> white_space(#[trigger] s[i]),
        0 < to ==> !white_space(s[to - 1]),
    decreases s.len(),
{
    if s.len() > 0 && white_space(s.last()) {
        let front = s.drop_last();
        let to = lemma_trimmed_end(front);
        assert(front.take(to) =~= s.take(to));
        assert forall|i: int| to <= i < s.len() implies white_space(#[trigger] s[i]) by {
            if i < front.len() {
                assert(s[i] == front[i]);
            }
        }
        to
    } else {
        assert(s.take(s.len() as int) =~= s);
        s.len() as int
    }
}

/// A trimmed text is the part of the text between two positions: outside of
/// them stands white space only, and at both ends of the part, if it is not
/// empty, stands none.
pub proof fn law_trimmed_is_the_middle(s: Seq<char>) -> (ends: (int, int))
    ensures
        0 <= ends.0 <= ends.1 <= s.len(),
        trimmed(s) == s.subrange(ends.0, ends.1),
        forall|i: int| 0 <= i < ends.0 || ends.1 <= i < s.len() ==> white_space(#[trigger] s[i]),
        ends.0 < ends.1 ==> !white_space(s[ends.0]) && !white_space(s[ends.1 - 1]),
{
    let from = lemma_trimmed_start(s);
    let rest = s.skip(from);
    let to = lemma_trimmed_end(rest);
    assert(rest.take(to) =~= s.subrange(from, from + to));
    assert forall|i: int| from + to <= i < s.len() implies white_space(#[trigger] s[i]) by {
        assert(s[i] == rest[i - from]);
    }
    if to > 0 {
        assert(s[from + to - 1] == rest[to - 1]);
        assert(s[from] == rest[0]);
    }
    (from, from + to)
}

/// A text has at least one piece, and no piece holds the separator.
pub proof fn law_pieces_hold_no_separator(s: Seq<char>, separator: char)
    ensures
        pieces(s, separator).len() >= 1,
        forall|i: int, j: int|
            0 <= i < pieces(s, separator).len() && 0 <= j < pieces(s, separator)[i].len()
                ==> #[trigger] pieces(s, separator)[i][j] != separator,
    decreases s.len(),
{
    if s.len() > 0 {
        law_pieces_hold_no_separator(s.drop_last(), separator);
    }
}

/// Joining the pieces of a text with the separator gives the text back.
pub proof fn law_join_undoes_split(s: Seq<char>, separator: char)
    ensures
        joined(pieces(s, separator), seq![separator]) == s,
    decreases s.len(),
{
    if s.len() == 0 {
        assert(joined(pieces(s, separator), seq![separator]) =~= s);
    } else {
        let front = s.drop_last();
        let before = pieces(front, separator);
        law_join_undoes_split(front, separator);
        law_pieces_hold_no_separator(front, separator);
        if s.last() == separator {
            let after = before.push(Seq::<char>::empty());
            assert(after.drop_last() =~= before);
            assert(joined(after, seq![separator]) =~= front + seq![separator]);
            assert(front + seq![separator] =~= s);
        } else {
            let grown = before.last().push(s.last());
            let after = before.update(before.len() - 1, grown);
            if before.len() == 1 {
                assert(joined(after, seq![separator]) =~= front.push(s.last()));
            } else {
                assert(after.drop_last() =~= before.drop_last());
                assert(joined(after, seq![separator]) =~= joined(before, seq![separator]).push(
                    s.last(),
                ));
            }
            assert(front.push(s.last()) =~= s);
        }
    }
}

} // verus!
