//! Character-level helpers shared by the parsing and layout code: splitting
//! text into pieces and lines, and joining lines back together.

use vstd::prelude::*;
use vstd::string::*;

verus! {

/// The views of a sequence of strings, position by position.
pub open spec fn views(strings: Seq<String>) -> Seq<Seq<char>> {
    Seq::new(strings.len(), |i: int| strings[i]@)
}

/// `s` cut at every occurrence of `sep`. There is always at least one piece,
/// and the separators themselves belong to no piece.
pub open spec fn split_on(s: Seq<char>, sep: char) -> Seq<Seq<char>>
    decreases s.len(),
{
    if s.len() == 0 {
        seq![Seq::<char>::empty()]
    } else {
        let before = split_on(s.drop_last(), sep);
        if s.last() == sep {
            before.push(Seq::<char>::empty())
        } else {
            before.drop_last().push(before.last().push(s.last()))
        }
    }
}

/// A piece that stood before a line feed, without the carriage return that
/// may end it.
pub open spec fn without_carriage_return(piece: Seq<char>) -> Seq<char> {
    if piece.len() > 0 && piece.last() == '\r' {
        piece.drop_last()
    } else {
        piece
    }
}

/// The lines of `s`. A line ends at a line feed, or at a carriage return
/// directly followed by one; what follows the last line feed is a line of its
/// own unless it is empty.
pub open spec fn lines_of(s: Seq<char>) -> Seq<Seq<char>> {
    let pieces = split_on(s, '\n');
    let ended = pieces.drop_last().map_values(|p: Seq<char>| without_carriage_return(p));
    if pieces.last().len() == 0 {
        ended
    } else {
        ended.push(pieces.last())
    }
}

/// `lines` with a line feed between each two neighbours.
pub open spec fn join_lines(lines: Seq<Seq<char>>) -> Seq<char>
    decreases lines.len(),
{
    if lines.len() == 0 {
        Seq::<char>::empty()
    } else if lines.len() == 1 {
        lines[0]
    } else {
        join_lines(lines.drop_last()) + seq!['\n'] + lines.last()
    }
}

/// `parts` with `sep` between each two neighbours.
pub open spec fn joined(parts: Seq<Seq<char>>, sep: char) -> Seq<char>
    decreases parts.len(),
{
    if parts.len() == 0 {
        Seq::<char>::empty()
    } else if parts.len() == 1 {
        parts[0]
    } else {
        joined(parts.drop_last(), sep).push(sep) + parts.last()
    }
}

/// Splitting never yields an empty list of pieces.
pub proof fn lemma_split_on_nonempty(s: Seq<char>, sep: char)
    ensures
        split_on(s, sep).len() >= 1,
    decreases s.len(),
{
    if s.len() > 0 {
        lemma_split_on_nonempty(s.drop_last(), sep);
    }
}

/// Appends one character to a string, through `String::push`, which adds the
/// character at the end and leaves the rest as it was.
#[verifier::external_body]
pub(crate) fn push_char(s: &mut String, c: char)
    ensures
        final(s)@ == old(s)@.push(c),
{
    s.push(c);
}

/// Whether two string slices hold the same characters.
pub fn str_eq(a: &str, b: &str) -> (same: bool)
    ensures
        same == (a@ == b@),
{
    let left = a.to_owned();
    let right = b.to_owned();
    left == right
}

/// The characters of `s`, in order.
pub fn chars_of(s: &str) -> (out: Vec<char>)
    ensures
        out@ == s@,
{
    let mut out: Vec<char> = Vec::new();
    for c in it: s.chars()
        invariant
            out@ == it.seq().take(it.index() as int),
    {
        out.push(c);
    }
    out
}

/// Cuts `text` at every `sep`.
pub fn split(text: &str, sep: char) -> (parts: Vec<String>)
    ensures
        views(parts@) == split_on(text@, sep),
{
    let mut parts: Vec<String> = Vec::new();
    let mut current = String::new();
    for c in it: text.chars()
        invariant
            it.seq() == text@,
            views(parts@).push(current@) == split_on(it.seq().take(it.index() as int), sep),
            it.index() == text@.len() ==> views(parts@).push(current@) == split_on(text@, sep),
    {
        let ghost seen = it.seq().take(it.index() as int);
        let ghost next = it.seq().take(it.index() as int + 1);
        proof {
            assert(next.drop_last() == seen);
            assert(next.last() == c);
            lemma_split_on_nonempty(seen, sep);
        }
        if c == sep {
            let ghost before = views(parts@);
            parts.push(current);
            current = String::new();
            proof {
                assert(views(parts@) == before.push(split_on(seen, sep).last()));
                assert(views(parts@) == split_on(seen, sep));
            }
        } else {
            push_char(&mut current, c);
            proof {
                assert(views(parts@) == split_on(seen, sep).drop_last());
            }
        }
        proof {
            if it.index() + 1 == text@.len() {
                assert(next == text@);
            }
        }
    }
    let ghost before = views(parts@);
    parts.push(current);
    proof {
        assert(views(parts@) == before.push(current@));
    }
    parts
}

/// Cuts `text` into its lines.
pub fn split_lines(text: &str) -> (lines: Vec<String>)
    ensures
        views(lines@) == lines_of(text@),
{
    let pieces = split(text, '\n');
    proof {
        lemma_split_on_nonempty(text@, '\n');
    }
    let ghost ended = views(pieces@).drop_last().map_values(
        |p: Seq<char>| without_carriage_return(p),
    );
    let mut lines: Vec<String> = Vec::new();
    let last: usize = pieces.len() - 1;
    let mut i: usize = 0;
    while i < last
        invariant
            i <= last,
            last + 1 == pieces.len(),
            ended == views(pieces@).drop_last().map_values(
                |p: Seq<char>| without_carriage_return(p),
            ),
            views(lines@) == ended.take(i as int),
        decreases last - i,
    {
        let piece = pieces[i].as_str();
        let n: usize = piece.unicode_len();
        let ghost before = views(lines@);
        assert(ended[i as int] == without_carriage_return(piece@));
        if n > 0 && piece.get_char(n - 1) == '\r' {
            let kept = piece.substring_char(0, n - 1);
            assert(kept@ == piece@.drop_last());
            lines.push(String::from_str(kept));
        } else {
            lines.push(pieces[i].clone());
        }
        assert(views(lines@) == before.push(ended[i as int]));
        i += 1;
        assert(views(lines@) == ended.take(i as int));
    }
    assert(ended.take(last as int) == ended);
    if pieces[last].as_str().unicode_len() > 0 {
        let ghost before = views(lines@);
        lines.push(pieces[last].clone());
        assert(views(lines@) == before.push(views(pieces@).last()));
    }
    lines
}

/// Puts `lines` together again, with a line feed between each two.
pub fn join(lines: &Vec<String>) -> (text: String)
    ensures
        text@ == join_lines(views(lines@)),
{
    let mut text = String::new();
    let mut i: usize = 0;
    while i < lines.len()
        invariant
            i <= lines.len(),
            text@ == join_lines(views(lines@).take(i as int)),
        decreases lines.len() - i,
    {
        let ghost done = views(lines@).take(i as int);
        let ghost more = views(lines@).take(i as int + 1);
        proof {
            reveal_strlit("\n");
            assert(more.drop_last() == done);
            assert(more.last() == lines[i as int]@);
            assert("\n"@ == seq!['\n']);
        }
        if i > 0 {
            text.append("\n");
        }
        text.append(lines[i].as_str());
        proof {
            if i == 0 {
                assert(text@ == lines[0]@);
            }
        }
        i += 1;
    }
    assert(views(lines@).take(lines.len() as int) == views(lines@));
    text
}

/// Puts `parts` together with `sep` between each two.
pub fn join_by(parts: &Vec<String>, sep: char) -> (text: String)
    ensures
        text@ == joined(views(parts@), sep),
{
    let mut text = String::new();
    let mut i: usize = 0;
    while i < parts.len()
        invariant
            i <= parts.len(),
            text@ == joined(views(parts@).take(i as int), sep),
        decreases parts.len() - i,
    {
        let ghost done = views(parts@).take(i as int);
        let ghost more = views(parts@).take(i as int + 1);
        proof {
            assert(more.drop_last() == done);
            assert(more.last() == parts[i as int]@);
        }
        if i > 0 {
            push_char(&mut text, sep);
        }
        text.append(parts[i].as_str());
        proof {
            if i == 0 {
                assert(text@ == parts[0]@);
            }
        }
        i += 1;
    }
    assert(views(parts@).take(parts.len() as int) == views(parts@));
    text
}

} // verus!
