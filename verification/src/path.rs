//! Paths as text, with `/` between components.
//!
//! A path is taken as written: nothing is looked up on disk, and `..` is kept.

use crate::text::{
    chars_of, lemma_split_append, lemma_split_len, lemma_split_pieces, marks, slice, split,
    split_marks,
};
use vstd::prelude::*;
use vstd::string::StringExecFns;

verus! {

/// Whether `path` starts at the root of the filesystem.
pub open spec fn is_absolute(path: Seq<char>) -> bool {
    path.len() > 0 && path[0] == '/'
}

/// `name` placed under `base`: an absolute `name` stands for itself; else it
/// follows `base`, with one separator between them unless `base` is empty or
/// already ends in one.
pub open spec fn joined(base: Seq<char>, name: Seq<char>) -> Seq<char> {
    if is_absolute(name) {
        name
    } else if base.len() == 0 || base.last() == '/' {
        base + name
    } else {
        base + seq!['/'] + name
    }
}

/// How many separators `s` starts with.
pub open spec fn leading_separators(s: Seq<char>) -> nat
    decreases s.len(),
{
    if s.len() > 0 && s[0] == '/' {
        1 + leading_separators(s.skip(1))
    } else {
        0
    }
}

/// `path` relative to `root`, where `path` lies under `root`: what follows
/// `root` in `path`, without the separators that it starts with. An empty
/// `root` holds every path.
pub open spec fn stripped(path: Seq<char>, root: Seq<char>) -> Option<Seq<char>> {
    if root.len() == 0 {
        Some(path)
    } else if !root.is_prefix_of(path) {
        None
    } else {
        let rest = path.skip(root.len() as int);
        if rest.len() == 0 || root.last() == '/' || rest[0] == '/' {
            Some(rest.skip(leading_separators(rest) as int))
        } else {
            None
        }
    }
}

/// Whether a piece between two separators names nothing: it is empty or `.`.
pub open spec fn is_skipped(piece: Seq<char>) -> bool {
    piece.len() == 0 || piece == seq!['.']
}

/// The pieces among the first `n` of `pieces` that name something, in order.
pub open spec fn named_pieces(pieces: Seq<Seq<char>>, n: int) -> Seq<Seq<char>>
    decreases n,
{
    if n <= 0 {
        Seq::empty()
    } else {
        let before = named_pieces(pieces, n - 1);
        if is_skipped(pieces[n - 1]) {
            before
        } else {
            before.push(pieces[n - 1])
        }
    }
}

/// The components of `path`: what stands between its separators, without the
/// empty pieces and the `.` pieces.
pub open spec fn components_of(path: Seq<char>) -> Seq<Seq<char>> {
    let pieces = split(path, '/');
    named_pieces(pieces, pieces.len() as int)
}

/// The final component of `path`, where it names a file or directory: there
/// is none for a path without components and for one that ends in `..`.
pub open spec fn final_component(path: Seq<char>) -> Option<Seq<char>> {
    let parts = components_of(path);
    if parts.len() == 0 || parts.last() == seq!['.', '.'] {
        None
    } else {
        Some(parts.last())
    }
}

/// Each of `parts` behind a separator, one after the other.
pub open spec fn rendered(parts: Seq<Seq<char>>) -> Seq<char>
    decreases parts.len(),
{
    if parts.len() == 0 {
        Seq::empty()
    } else {
        rendered(parts.drop_last()) + seq!['/'] + parts.last()
    }
}

/// The absolute path that `path` names when the working directory is `cwd`:
/// the components of `path`, behind those of `cwd` unless `path` is absolute.
pub open spec fn absolute_of(cwd: Seq<char>, path: Seq<char>) -> Seq<char> {
    let parts = if is_absolute(path) {
        components_of(path)
    } else {
        components_of(cwd) + components_of(path)
    };
    if parts.len() == 0 {
        seq!['/']
    } else {
        rendered(parts)
    }
}

/// Whether `name` can be the name of a directory entry: not empty, without a
/// separator, and neither `.` nor `..`.
pub open spec fn is_plain_name(name: Seq<char>) -> bool {
    &&& name.len() > 0
    &&& !name.contains('/')
    &&& name != seq!['.']
    &&& name != seq!['.', '.']
}

/// A text that starts with `n` separators and goes on with something else,
/// or ends there, starts with exactly `n`.
pub proof fn lemma_leading_separators(s: Seq<char>, n: int)
    requires
        0 <= n <= s.len(),
        forall|j: int| 0 <= j < n ==> s[j] == '/',
        n == s.len() || s[n] != '/',
    ensures
        leading_separators(s) == n,
    decreases n,
{
    if n > 0 {
        let t = s.skip(1);
        assert forall|j: int| 0 <= j < n - 1 implies t[j] == '/' by {
            assert(t[j] == s[j + 1]);
        }
        lemma_leading_separators(t, n - 1);
    }
}

/// `named_pieces` looks at the first `n` pieces only.
pub proof fn lemma_named_pieces_agree(a: Seq<Seq<char>>, b: Seq<Seq<char>>, n: int)
    requires
        n <= a.len(),
        n <= b.len(),
        forall|i: int| 0 <= i < n ==> a[i] == b[i],
    ensures
        named_pieces(a, n) == named_pieces(b, n),
    decreases n,
{
    if n > 0 {
        lemma_named_pieces_agree(a, b, n - 1);
    }
}

/// Every named piece is one of the pieces, and names something.
pub proof fn lemma_named_pieces(pieces: Seq<Seq<char>>, n: int)
    requires
        n <= pieces.len(),
    ensures
        forall|i: int|
            0 <= i < named_pieces(pieces, n).len() ==> {
                &&& !is_skipped(#[trigger] named_pieces(pieces, n)[i])
                &&& exists|k: int| 0 <= k < n && pieces[k] == named_pieces(pieces, n)[i]
            },
    decreases n,
{
    if n > 0 {
        lemma_named_pieces(pieces, n - 1);
        let before = named_pieces(pieces, n - 1);
        let now = named_pieces(pieces, n);
        assert forall|i: int| 0 <= i < now.len() implies {
            &&& !is_skipped(#[trigger] now[i])
            &&& exists|k: int| 0 <= k < n && pieces[k] == now[i]
        } by {
            if i < before.len() {
                assert(now[i] == before[i]);
                let k = choose|k: int| 0 <= k < n - 1 && pieces[k] == before[i];
                assert(pieces[k] == now[i]);
            } else {
                assert(pieces[n - 1] == now[i]);
            }
        }
    }
}

/// The final component of a path is a plain name.
pub proof fn lemma_final_component_plain(path: Seq<char>)
    ensures
        final_component(path) matches Some(name) ==> is_plain_name(name),
{
    if let Some(name) = final_component(path) {
        let pieces = split(path, '/');
        let parts = components_of(path);
        lemma_named_pieces(pieces, pieces.len() as int);
        lemma_split_pieces(path, '/');
        assert(!is_skipped(parts[parts.len() - 1]));
        let k = choose|k: int| 0 <= k < pieces.len() && pieces[k] == parts[parts.len() - 1];
        assert(!pieces[k].contains('/'));
    }
}

/// A plain name placed under a directory is the final component of the
/// result, behind the components of the directory.
pub proof fn lemma_final_component_joined(base: Seq<char>, name: Seq<char>)
    requires
        is_plain_name(name),
    ensures
        components_of(joined(base, name)) == components_of(base).push(name),
        final_component(joined(base, name)) == Some(name),
{
    assert(!is_absolute(name)) by {
        if is_absolute(name) {
            assert(name.contains(name[0]));
        }
    }
    assert(!is_skipped(name));
    let before = if base.len() == 0 || base.last() == '/' {
        base
    } else {
        base.push('/')
    };
    assert(joined(base, name) == before + name) by {
        assert(base.push('/') == base + seq!['/']);
    }
    lemma_split_append(before, name, '/');
    let opened = split(before, '/');
    let m = opened.len() - 1;
    assert(opened.last().len() == 0 && named_pieces(opened, m) == components_of(base)) by {
        if base.len() == 0 {
        } else {
            let shut = if base.last() == '/' {
                split(base.drop_last(), '/')
            } else {
                assert(before.drop_last() == base);
                split(base, '/')
            };
            lemma_split_len(base, '/');
            lemma_split_len(base.drop_last(), '/');
            assert(opened == shut.push(Seq::<char>::empty()));
            lemma_named_pieces_agree(opened, shut, m);
            if base.last() == '/' {
                lemma_named_pieces_agree(opened, split(base, '/'), m);
            }
        }
    }
    let closed = split(before + name, '/');
    assert(opened.last() + name == name);
    assert(closed == opened.update(m, name));
    lemma_named_pieces_agree(closed, opened, m);
}

/// A name behind a separator is one more component.
pub proof fn lemma_components_behind_separator(base: Seq<char>, name: Seq<char>)
    requires
        !is_skipped(name),
        !name.contains('/'),
    ensures
        components_of(base + seq!['/'] + name) == components_of(base).push(name),
{
    let before = base.push('/');
    assert(base + seq!['/'] == before);
    assert(before.drop_last() == base);
    lemma_split_len(base, '/');
    lemma_split_append(before, name, '/');
    let shut = split(base, '/');
    let opened = split(before, '/');
    let m = opened.len() - 1;
    assert(opened == shut.push(Seq::<char>::empty()));
    lemma_named_pieces_agree(opened, shut, m);
    let closed = split(before + name, '/');
    assert(opened.last() + name == name);
    assert(closed == opened.update(m, name));
    lemma_named_pieces_agree(closed, opened, m);
}

/// Every component names something and holds no separator.
pub proof fn lemma_components_plain(path: Seq<char>)
    ensures
        forall|i: int|
            0 <= i < components_of(path).len() ==> {
                &&& !is_skipped(#[trigger] components_of(path)[i])
                &&& !components_of(path)[i].contains('/')
            },
{
    let pieces = split(path, '/');
    let parts = components_of(path);
    lemma_named_pieces(pieces, pieces.len() as int);
    lemma_split_pieces(path, '/');
    assert forall|i: int| 0 <= i < parts.len() implies {
        &&& !is_skipped(#[trigger] parts[i])
        &&& !parts[i].contains('/')
    } by {
        let k = choose|k: int| 0 <= k < pieces.len() && pieces[k] == parts[i];
        assert(!pieces[k].contains('/'));
    }
}

/// Components that are written out and split again are what they were.
pub proof fn lemma_components_rendered(parts: Seq<Seq<char>>)
    requires
        forall|i: int|
            0 <= i < parts.len() ==> !is_skipped(#[trigger] parts[i]) && !parts[i].contains('/'),
    ensures
        components_of(rendered(parts)) == parts,
    decreases parts.len(),
{
    if parts.len() == 0 {
        reveal_with_fuel(split, 2);
        reveal_with_fuel(named_pieces, 2);
        assert(split(Seq::<char>::empty(), '/') == seq![Seq::<char>::empty()]);
    } else {
        let init = parts.drop_last();
        assert forall|i: int| 0 <= i < init.len() implies !is_skipped(#[trigger] init[i])
            && !init[i].contains('/') by {
            assert(init[i] == parts[i]);
        }
        lemma_components_rendered(init);
        lemma_components_behind_separator(rendered(init), parts.last());
        assert(init.push(parts.last()) == parts);
    }
}

/// Making a path absolute keeps its final component.
pub proof fn lemma_final_component_absolute(cwd: Seq<char>, path: Seq<char>)
    requires
        final_component(path) is Some,
    ensures
        final_component(absolute_of(cwd, path)) == final_component(path),
{
    let own = components_of(path);
    let parts = if is_absolute(path) {
        own
    } else {
        components_of(cwd) + own
    };
    lemma_components_plain(path);
    lemma_components_plain(cwd);
    assert forall|i: int| 0 <= i < parts.len() implies !is_skipped(#[trigger] parts[i])
        && !parts[i].contains('/') by {
        if !is_absolute(path) && i >= components_of(cwd).len() {
            assert(parts[i] == own[i - components_of(cwd).len()]);
        }
    }
    lemma_components_rendered(parts);
    assert(parts.last() == own.last());
}

/// An entry that was placed under `root` lies under `root`, and what is left
/// of it without `root` is the name it was placed by.
pub proof fn lemma_stripped_joined(root: Seq<char>, name: Seq<char>)
    requires
        !is_absolute(name),
    ensures
        stripped(joined(root, name), root) == Some(name),
{
    if root.len() > 0 {
        let path = joined(root, name);
        let rest = path.skip(root.len() as int);
        assert(root == path.subrange(0, root.len() as int));
        if root.last() == '/' {
            assert(rest == name);
            lemma_leading_separators(rest, 0);
        } else {
            assert(rest == seq!['/'] + name);
            assert(rest.skip(1) == name);
            lemma_leading_separators(rest, 1);
        }
    }
}

/// Places `name` under `base`.
pub fn join(base: &str, name: &str) -> (path: String)
    ensures
        path@ == joined(base@, name@),
{
    let name_len: usize = name.unicode_len();
    if name_len > 0 && name.get_char(0) == '/' {
        return name.to_owned();
    }
    let base_len: usize = base.unicode_len();
    let mut path = base.to_owned();
    if base_len > 0 && base.get_char(base_len - 1) != '/' {
        proof {
            reveal_strlit("/");
        }
        path.append("/");
        assert(path@ == base@ + seq!['/']);
    }
    path.append(name);
    path
}

/// Gives `path` relative to `root`, or `None` where `path` does not lie under `root`.
pub fn strip_prefix(path: &str, root: &str) -> (rest: Option<String>)
    ensures
        rest.deep_view() == stripped(path@, root@),
{
    let p = chars_of(path);
    let r = chars_of(root);
    let n: usize = r.len();
    if n == 0 {
        return Some(path.to_owned());
    }
    if n > p.len() {
        return None;
    }
    let mut i: usize = 0;
    while i < n
        invariant
            i <= n <= p.len(),
            n == r.len(),
            n > 0,
            p@ == path@,
            r@ == root@,
            forall|j: int| 0 <= j < i ==> p[j] == r[j],
        decreases n - i,
    {
        if p[i] != r[i] {
            proof {
                if r@.is_prefix_of(p@) {
                    assert(p@.subrange(0, n as int)[i as int] == p@[i as int]);
                }
            }
            return None;
        }
        i = i + 1;
    }
    assert(r@ =~= p@.subrange(0, n as int));
    let ghost rest = p@.skip(n as int);
    let mut k: usize = n;
    if k < p.len() && r[n - 1] != '/' && p[k] != '/' {
        assert(rest[0] == p@[n as int]);
        return None;
    }
    while k < p.len() && p[k] == '/'
        invariant
            n <= k <= p.len(),
            rest == p@.skip(n as int),
            forall|j: int| 0 <= j < k - n ==> rest[j] == '/',
        decreases p.len() - k,
    {
        k = k + 1;
    }
    proof {
        lemma_leading_separators(rest, k - n);
        assert(rest.skip(k - n) == p@.subrange(k as int, p.len() as int));
        if n < p.len() && r[n - 1] != '/' {
            assert(rest[0] == p@[n as int]);
        }
    }
    Some(slice(path, k, p.len()))
}

/// Splits `path` into its components.
pub fn components(path: &str) -> (parts: Vec<String>)
    ensures
        parts.deep_view() == components_of(path@),
{
    let ghost pieces = split(path@, '/');
    let chars = chars_of(path);
    let cuts = split_marks(&chars, '/');
    let mut parts: Vec<String> = Vec::new();
    let mut k: usize = 0;
    assert(parts.deep_view() == named_pieces(pieces, 0));
    while k < cuts.len()
        invariant
            chars@ == path@,
            pieces == split(path@, '/'),
            marks(cuts@, path@, '/'),
            k <= cuts.len(),
            parts.deep_view() == named_pieces(pieces, k as int),
        decreases cuts.len() - k,
    {
        let ghost so_far = parts.deep_view();
        let from: usize = cuts[k].0;
        let to: usize = cuts[k].1;
        let ghost piece = path@.subrange(from as int, to as int);
        assert(piece == pieces[k as int]);
        let dot: bool = to - from == 1 && chars[from] == '.';
        proof {
            if dot {
                assert(piece == seq!['.']);
            } else if piece == seq!['.'] {
                assert(piece[0] == '.');
            }
        }
        if from < to && !dot {
            let part = slice(path, from, to);
            parts.push(part);
            assert(parts.deep_view() == so_far.push(part@));
        }
        k = k + 1;
    }
    parts
}

/// Gives the final component of `path`, where it names a file or directory.
pub fn file_name(path: &str) -> (name: Option<String>)
    ensures
        name.deep_view() == final_component(path@),
{
    let parts = components(path);
    let n: usize = parts.len();
    if n == 0 {
        return None;
    }
    assert(parts.deep_view().last() == parts[n - 1]@);
    let last: &str = parts[n - 1].as_str();
    let len: usize = last.unicode_len();
    let up: bool = len == 2 && last.get_char(0) == '.' && last.get_char(1) == '.';
    proof {
        if up {
            assert(last@ == seq!['.', '.']);
        } else if last@ == seq!['.', '.'] {
            assert(last@[0] == '.' && last@[1] == '.');
        }
    }
    if up {
        None
    } else {
        Some(last.to_owned())
    }
}

/// Writes `parts` out as an absolute path.
fn render(parts: &Vec<String>) -> (path: String)
    ensures
        path@ == if parts.len() == 0 {
            seq!['/']
        } else {
            rendered(parts.deep_view())
        },
{
    proof {
        reveal_strlit("/");
    }
    if parts.len() == 0 {
        return "/".to_owned();
    }
    let ghost all = parts.deep_view();
    let mut path = String::new();
    let mut i: usize = 0;
    assert(all.take(0) == Seq::<Seq<char>>::empty());
    while i < parts.len()
        invariant
            i <= parts.len(),
            all == parts.deep_view(),
            "/"@ == seq!['/'],
            path@ == rendered(all.take(i as int)),
        decreases parts.len() - i,
    {
        proof {
            assert(all.take(i + 1).drop_last() == all.take(i as int));
            assert(all.take(i + 1).last() == parts[i as int]@);
        }
        path.append("/");
        path.append(parts[i].as_str());
        i = i + 1;
    }
    assert(all.take(parts.len() as int) == all);
    path
}

/// Makes `path` absolute against the working directory `cwd`.
pub fn absolute(cwd: &str, path: &str) -> (full: String)
    ensures
        full@ == absolute_of(cwd@, path@),
{
    let len: usize = path.unicode_len();
    if len > 0 && path.get_char(0) == '/' {
        let parts = components(path);
        render(&parts)
    } else {
        let mut parts = components(cwd);
        let mut tail = components(path);
        let ghost head = parts.deep_view();
        let ghost rest = tail.deep_view();
        parts.append(&mut tail);
        assert(parts.deep_view() == head + rest);
        render(&parts)
    }
}

} // verus!
