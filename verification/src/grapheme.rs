//! User-perceived characters: the unit in which cursor offsets and viewport
//! columns are counted.

use vstd::prelude::*;
use vstd::string::*;
use unicode_segmentation::UnicodeSegmentation;
use crate::text::views;

verus! {

/// The extended grapheme clusters of a text, in order, as the
/// `unicode-segmentation` crate cuts them.
pub uninterp spec fn grapheme_clusters(text: Seq<char>) -> Seq<Seq<char>>;

/// Whether `char::is_whitespace` holds of a character.
pub uninterp spec fn is_whitespace(c: char) -> bool;

/// Cuts a text into its extended grapheme clusters, through
/// `UnicodeSegmentation::graphemes`. The result is a function of the text
/// alone. The clusters are handed out from the start of the text to its
/// end, each beginning where the one before has ended, and none is empty:
/// one after another they make up the text.
#[verifier::external_body]
pub(crate) fn graphemes(text: &str) -> (clusters: Vec<String>)
    ensures
        views(clusters@) == grapheme_clusters(text@),
        concat(views(clusters@)) == text@,
        forall|i: int| 0 <= i < clusters@.len() ==> (#[trigger] clusters@[i])@.len() > 0,
{
    text.graphemes(true).map(String::from).collect()
}

/// Asks `char::is_whitespace`.
#[verifier::external_body]
pub(crate) fn char_is_whitespace(c: char) -> (white: bool)
    ensures
        white == is_whitespace(c),
{
    c.is_whitespace()
}

/// The pieces of `parts` one after another.
pub open spec fn concat(parts: Seq<Seq<char>>) -> Seq<char>
    decreases parts.len(),
{
    if parts.len() == 0 {
        Seq::<char>::empty()
    } else {
        concat(parts.drop_last()) + parts.last()
    }
}

/// Pieces from `from` up to `upto`, then pieces from `upto` up to `to`, are
/// the pieces from `from` up to `to`.
pub proof fn lemma_concat_split(parts: Seq<Seq<char>>, from: int, upto: int, to: int)
    requires
        0 <= from <= upto <= to <= parts.len(),
    ensures
        concat(parts.subrange(from, upto)) + concat(parts.subrange(upto, to)) == concat(
            parts.subrange(from, to),
        ),
    decreases to - upto,
{
    if upto == to {
        assert(parts.subrange(upto, to).len() == 0);
        assert(concat(parts.subrange(from, upto)) + Seq::<char>::empty() == concat(
            parts.subrange(from, upto),
        ));
    } else {
        lemma_concat_split(parts, from, upto, to - 1);
        assert(parts.subrange(upto, to).drop_last() == parts.subrange(upto, to - 1));
        assert(parts.subrange(from, to).drop_last() == parts.subrange(from, to - 1));
        assert(parts.subrange(upto, to).last() == parts[to - 1]);
        assert(parts.subrange(from, to).last() == parts[to - 1]);
        assert(concat(parts.subrange(from, upto)) + (concat(parts.subrange(upto, to - 1))
            + parts[to - 1]) == (concat(parts.subrange(from, upto)) + concat(
            parts.subrange(upto, to - 1),
        )) + parts[to - 1]);
    }
}

/// A cluster is blank when it holds nothing but whitespace.
pub open spec fn is_blank(cluster: Seq<char>) -> bool {
    forall|i: int| 0 <= i < cluster.len() ==> is_whitespace(#[trigger] cluster[i])
}

/// For each cluster, whether it is blank.
pub open spec fn blanks(clusters: Seq<Seq<char>>) -> Seq<bool> {
    clusters.map_values(|cluster: Seq<char>| is_blank(cluster))
}

/// The number of grapheme clusters in a text.
pub open spec fn grapheme_count(text: Seq<char>) -> nat {
    grapheme_clusters(text).len()
}

/// How many of the leading clusters lie within the first `bytes` bytes of
/// their text, once the text is encoded in UTF-8: the offset, counted in
/// clusters, of the place that many bytes into the text.
pub open spec fn clusters_within(clusters: Seq<Seq<char>>, bytes: int) -> nat
    decreases clusters.len(),
{
    if clusters.len() == 0 {
        0
    } else {
        let first = vstd::utf8::encode_utf8(clusters[0]).len();
        if first <= bytes {
            1 + clusters_within(clusters.drop_first(), bytes - first)
        } else {
            0
        }
    }
}

/// The offset, counted in clusters, of the place `bytes` bytes into the
/// text that the clusters make up.
pub fn cluster_offset(clusters: &Vec<String>, bytes: usize) -> (offset: usize)
    ensures
        offset == clusters_within(views(clusters@), bytes as int),
        offset <= clusters@.len(),
{
    let ghost all = views(clusters@);
    let mut left: usize = bytes;
    let mut i: usize = 0;
    assert(all.skip(0) == all);
    while i < clusters.len()
        invariant
            i <= clusters.len(),
            all == views(clusters@),
            clusters_within(all, bytes as int) == i + clusters_within(
                all.skip(i as int),
                left as int,
            ),
        decreases clusters.len() - i,
    {
        let size: usize = clusters[i].as_str().as_bytes().len();
        proof {
            assert(size == vstd::utf8::encode_utf8(clusters[i as int]@).len());
            assert(all.skip(i as int)[0] == clusters[i as int]@);
            assert(all.skip(i as int).drop_first() == all.skip(i as int + 1));
        }
        if size > left {
            return i;
        }
        left -= size;
        i += 1;
    }
    assert(all.skip(clusters.len() as int).len() == 0);
    i
}

/// Whether a cluster holds nothing but whitespace.
pub fn cluster_is_blank(cluster: &str) -> (blank: bool)
    ensures
        blank == is_blank(cluster@),
{
    let mut blank = true;
    for c in it: cluster.chars()
        invariant
            it.seq() == cluster@,
            blank == is_blank(it.seq().take(it.index() as int)),
            it.index() == cluster@.len() ==> blank == is_blank(cluster@),
    {
        let ghost seen = it.seq().take(it.index() as int);
        let ghost next = it.seq().take(it.index() as int + 1);
        let white = char_is_whitespace(c);
        proof {
            assert(next.drop_last() == seen);
            assert(next.last() == c);
            if blank && white {
                assert forall|i: int| 0 <= i < next.len() implies is_whitespace(
                    #[trigger] next[i],
                ) by {
                    if i < seen.len() {
                        assert(next[i] == seen[i]);
                    }
                }
            } else if !white {
                assert(!is_whitespace(next[next.len() - 1]));
            } else {
                let k = choose|k: int| 0 <= k < seen.len() && !is_whitespace(#[trigger] seen[k]);
                assert(next[k] == seen[k]);
            }
            if it.index() + 1 == cluster@.len() {
                assert(next == cluster@);
            }
        }
        blank = blank && white;
    }
    blank
}

/// For each cluster of `line`, whether it is blank.
pub fn line_blanks(line: &str) -> (flags: Vec<bool>)
    ensures
        flags@ == blanks(grapheme_clusters(line@)),
{
    let clusters = graphemes(line);
    let mut flags: Vec<bool> = Vec::new();
    let mut i: usize = 0;
    while i < clusters.len()
        invariant
            i <= clusters.len(),
            flags@ == blanks(views(clusters@)).take(i as int),
        decreases clusters.len() - i,
    {
        flags.push(cluster_is_blank(clusters[i].as_str()));
        i += 1;
    }
    assert(blanks(views(clusters@)).take(clusters.len() as int) == blanks(views(clusters@)));
    flags
}

/// The clusters of `parts` from `from` on, one after another.
pub fn concat_from(parts: &Vec<String>, from: usize) -> (text: String)
    ensures
        text@ == if from <= parts.len() {
            concat(views(parts@).skip(from as int))
        } else {
            Seq::<char>::empty()
        },
{
    let mut text = String::new();
    if from > parts.len() {
        return text;
    }
    let ghost tail = views(parts@).skip(from as int);
    let mut i: usize = from;
    while i < parts.len()
        invariant
            from <= i <= parts.len(),
            tail == views(parts@).skip(from as int),
            text@ == concat(tail.take(i - from)),
        decreases parts.len() - i,
    {
        proof {
            assert(tail.take(i - from + 1).drop_last() == tail.take(i - from));
            assert(tail.take(i - from + 1).last() == parts[i as int]@);
        }
        text.append(parts[i].as_str());
        i += 1;
    }
    assert(tail.take(parts.len() - from) == tail);
    text
}

/// The clusters of `parts` from `from` up to `to`, one after another.
pub fn concat_range(parts: &Vec<String>, from: usize, to: usize) -> (text: String)
    requires
        from <= to <= parts.len(),
    ensures
        text@ == concat(views(parts@).subrange(from as int, to as int)),
{
    let mut text = String::new();
    let ghost range = views(parts@).subrange(from as int, to as int);
    let mut i: usize = from;
    while i < to
        invariant
            from <= i <= to <= parts.len(),
            range == views(parts@).subrange(from as int, to as int),
            text@ == concat(range.take(i - from)),
        decreases to - i,
    {
        proof {
            assert(range.take(i - from + 1).drop_last() == range.take(i - from));
            assert(range.take(i - from + 1).last() == parts[i as int]@);
        }
        text.append(parts[i].as_str());
        i += 1;
    }
    assert(range.take(to - from) == range);
    text
}

} // verus!
