//! Character-level helpers shared by the path and ignore-file code.

use vstd::prelude::*;

verus! {

/// The pieces of `s` that lie between occurrences of `sep`, in order.
///
/// There is always at least one piece; a separator closes the current piece
/// and opens a new, empty one.
pub open spec fn split(s: Seq<char>, sep: char) -> Seq<Seq<char>>
    decreases s.len(),
{
    if s.len() == 0 {
        seq![Seq::<char>::empty()]
    } else {
        let before = split(s.drop_last(), sep);
        if s.last() == sep {
            before.push(Seq::<char>::empty())
        } else {
            before.update(before.len() - 1, before.last().push(s.last()))
        }
    }
}

/// `split` always gives at least one piece.
pub proof fn lemma_split_len(s: Seq<char>, sep: char)
    ensures
        split(s, sep).len() >= 1,
    decreases s.len(),
{
    if s.len() > 0 {
        lemma_split_len(s.drop_last(), sep);
    }
}

/// Text without a separator, put behind `s`, lengthens the last piece of `s`.
pub proof fn lemma_split_append(s: Seq<char>, t: Seq<char>, sep: char)
    requires
        !t.contains(sep),
    ensures
        split(s, sep).len() >= 1,
        split(s + t, sep) == split(s, sep).update(
            split(s, sep).len() - 1,
            split(s, sep).last() + t,
        ),
    decreases t.len(),
{
    lemma_split_len(s, sep);
    let pieces = split(s, sep);
    if t.len() == 0 {
        assert(s + t == s);
        assert(pieces.last() + t == pieces.last());
        assert(pieces.update(pieces.len() - 1, pieces.last()) == pieces);
    } else {
        let shorter = t.drop_last();
        assert forall|i: int| 0 <= i < shorter.len() implies shorter[i] != sep by {
            assert(t.contains(t[i]));
        }
        assert(t.contains(t.last()));
        lemma_split_append(s, shorter, sep);
        assert((s + t).drop_last() == s + shorter);
        assert((pieces.last() + shorter).push(t.last()) == pieces.last() + t);
    }
}

/// No piece holds a separator.
pub proof fn lemma_split_pieces(s: Seq<char>, sep: char)
    ensures
        forall|i: int| 0 <= i < split(s, sep).len() ==> !(#[trigger] split(s, sep)[i]).contains(sep),
    decreases s.len(),
{
    let pieces = split(s, sep);
    if s.len() > 0 {
        lemma_split_pieces(s.drop_last(), sep);
        lemma_split_len(s.drop_last(), sep);
        let before = split(s.drop_last(), sep);
        assert forall|i: int| 0 <= i < pieces.len() implies !(#[trigger] pieces[i]).contains(
            sep,
        ) by {
            if i < before.len() - 1 || (s.last() == sep && i < before.len()) {
                assert(pieces[i] == before[i]);
            } else if s.last() != sep && pieces[i].contains(sep) {
                let k = choose|k: int| 0 <= k < pieces[i].len() && pieces[i][k] == sep;
                assert(before.last()[k] == sep);
                assert(before.last().contains(sep));
            }
        }
    }
}

/// The characters of `s`, for indexed access.
pub fn chars_of(s: &str) -> (v: Vec<char>)
    ensures
        v@ == s@,
{
    broadcast use vstd::string::group_string_axioms;

    let mut v: Vec<char> = Vec::new();
    for c in it: s.chars()
        invariant
            it.seq() == s@,
            v@ == s@.take(it.index()),
    {
        v.push(c);
    }
    assert(v@ == s@);
    v
}

/// Whether `cuts` marks, piece by piece, where the pieces of `split(s, sep)`
/// lie in `s`: piece `i` is `s` from `cuts[i].0` up to `cuts[i].1`.
pub open spec fn marks(cuts: Seq<(usize, usize)>, s: Seq<char>, sep: char) -> bool {
    &&& cuts.len() == split(s, sep).len()
    &&& forall|i: int|
        0 <= i < cuts.len() ==> {
            &&& (#[trigger] cuts[i]).0 <= cuts[i].1 <= s.len()
            &&& s.subrange(cuts[i].0 as int, cuts[i].1 as int) == split(s, sep)[i]
        }
}

/// Finds where the pieces of `chars` between occurrences of `sep` lie.
pub fn split_marks(chars: &Vec<char>, sep: char) -> (cuts: Vec<(usize, usize)>)
    ensures
        marks(cuts@, chars@, sep),
{
    let n: usize = chars.len();
    let mut cuts: Vec<(usize, usize)> = Vec::new();
    let mut start: usize = 0;
    let mut i: usize = 0;
    while i < n
        invariant
            n == chars.len(),
            start <= i <= n,
            cuts.len() + 1 == split(chars@.take(i as int), sep).len(),
            forall|k: int|
                0 <= k < cuts.len() ==> {
                    &&& (#[trigger] cuts[k]).0 <= cuts[k].1 <= i
                    &&& chars@.subrange(cuts[k].0 as int, cuts[k].1 as int) == split(
                        chars@.take(i as int),
                        sep,
                    )[k]
                },
            chars@.subrange(start as int, i as int) == split(chars@.take(i as int), sep).last(),
        decreases n - i,
    {
        let ghost seen = split(chars@.take(i as int), sep);
        let ghost grown = split(chars@.take(i + 1), sep);
        proof {
            let next = chars@.take(i + 1);
            assert(next.drop_last() == chars@.take(i as int));
            assert(next.last() == chars@[i as int]);
            assert(chars@.subrange(start as int, i + 1) == chars@.subrange(
                start as int,
                i as int,
            ).push(chars@[i as int]));
            assert(forall|k: int| 0 <= k < seen.len() - 1 ==> grown[k] == seen[k]);
        }
        if chars[i] == sep {
            cuts.push((start, i));
            start = i + 1;
            assert(chars@.subrange(start as int, start as int) == Seq::<char>::empty());
        }
        i = i + 1;
    }
    proof {
        assert(chars@.take(n as int) == chars@);
    }
    cuts.push((start, n));
    cuts
}

/// The characters of `s` from position `from` up to position `to`, as a new string.
pub fn slice(s: &str, from: usize, to: usize) -> (piece: String)
    requires
        from <= to <= s@.len(),
    ensures
        piece@ == s@.subrange(from as int, to as int),
{
    s.substring_char(from, to).to_owned()
}

} // verus!
