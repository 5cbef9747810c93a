//! Paths as text: a path is read as the sequence of its components, the
//! maximal runs of characters that hold no separator.

use crate::text::{same_text, texts};
use vstd::prelude::*;

verus! {

/// The components of a path, first to last. Separators at either end, and
/// separators repeated, yield no empty component.
pub open spec fn components(path: Seq<char>, sep: char) -> Seq<Seq<char>>
    decreases path.len(),
{
    if path.len() == 0 {
        Seq::empty()
    } else {
        let before = components(path.drop_last(), sep);
        if path.last() == sep {
            before
        } else if path.len() > 1 && path[path.len() - 2] != sep {
            before.drop_last().push(before.last().push(path.last()))
        } else {
            before.push(seq![path.last()])
        }
    }
}

/// The last component of a path, if it has one.
pub open spec fn file_name_of(path: Seq<char>, sep: char) -> Option<Seq<char>> {
    let parts = components(path, sep);
    if parts.len() == 0 {
        None
    } else {
        Some(parts.last())
    }
}

/// The components of `path` that follow those of `root`, when the path lies
/// at or below the root.
pub open spec fn below_root(path: Seq<char>, root: Seq<char>, sep: char) -> Option<
    Seq<Seq<char>>,
> {
    let parts = components(path, sep);
    let base = components(root, sep);
    if base.is_prefix_of(parts) {
        Some(parts.skip(base.len() as int))
    } else {
        None
    }
}

/// A path that ends in a character other than the separator ends in an
/// unfinished component: one that grows when a further character is added.
proof fn lemma_open_component(path: Seq<char>, sep: char)
    requires
        path.len() > 0,
        path.last() != sep,
    ensures
        components(path, sep).len() > 0,
    decreases path.len(),
{
    if path.len() > 1 && path[path.len() - 2] != sep {
        lemma_open_component(path.drop_last(), sep);
    }
}

/// No component is empty and none holds a separator.
pub proof fn lemma_components_are_names(path: Seq<char>, sep: char)
    ensures
        forall|i: int|
            0 <= i < components(path, sep).len() ==> {
                &&& (#[trigger] components(path, sep)[i]).len() > 0
                &&& !components(path, sep)[i].contains(sep)
            },
    decreases path.len(),
{
    if path.len() > 0 {
        let before = components(path.drop_last(), sep);
        lemma_components_are_names(path.drop_last(), sep);
        if path.last() != sep {
            if path.len() > 1 && path[path.len() - 2] != sep {
                lemma_open_component(path.drop_last(), sep);
                let grown = before.last().push(path.last());
                assert forall|k: int| 0 <= k < grown.len() implies grown[k] != sep by {
                    if k < before.last().len() {
                        assert(before.last().contains(before.last()[k]));
                    }
                }
                assert(!grown.contains(sep));
            } else {
                assert(!seq![path.last()].contains(sep));
            }
        }
    }
}

/// Splits a path into its components.
pub fn split_path(path: &str, separator: char) -> (r: Vec<String>)
    ensures
        texts(r@) == components(path@, separator),
{
    let n: usize = path.unicode_len();
    let mut parts: Vec<String> = Vec::new();
    let mut start: usize = 0;
    let mut i: usize = 0;
    assert(path@.take(0) == Seq::<char>::empty());
    while i < n
        invariant
            n == path@.len(),
            start <= i <= n,
            forall|j: int| start <= j < i ==> path@[j] != separator,
            start > 0 ==> path@[start - 1] == separator,
            components(path@.take(i as int), separator) == if start < i {
                texts(parts@).push(path@.subrange(start as int, i as int))
            } else {
                texts(parts@)
            },
        decreases n - i,
    {
        let c: char = path.get_char(i);
        let ghost so_far = path@.take(i as int);
        let ghost next = path@.take(i + 1);
        let ghost done = texts(parts@);
        assert(next.drop_last() == so_far);
        assert(next.last() == c);
        if c == separator {
            if start < i {
                let part: String = path.substring_char(start, i).to_owned();
                parts.push(part);
                assert(texts(parts@) == done.push(path@.subrange(start as int, i as int)));
            }
            start = i + 1;
        } else {
            proof {
                if start < i {
                    let open = path@.subrange(start as int, i as int);
                    assert(next[next.len() - 2] == path@[i - 1]);
                    assert(done.push(open).drop_last() == done);
                    assert(open.push(c) == path@.subrange(start as int, i + 1));
                } else {
                    assert(seq![c] == path@.subrange(start as int, i + 1));
                    if i > 0 {
                        assert(next[next.len() - 2] == path@[i - 1]);
                    }
                }
            }
        }
        i += 1;
    }
    assert(path@.take(n as int) == path@);
    if start < n {
        let part: String = path.substring_char(start, n).to_owned();
        let ghost done = texts(parts@);
        parts.push(part);
        assert(texts(parts@) == done.push(path@.subrange(start as int, n as int)));
    }
    parts
}

/// Whether the components of `base` are the first components of `parts`.
pub fn starts_with(parts: &Vec<String>, base: &Vec<String>) -> (r: bool)
    ensures
        r == texts(base@).is_prefix_of(texts(parts@)),
{
    if base.len() > parts.len() {
        return false;
    }
    let mut i: usize = 0;
    while i < base.len()
        invariant
            i <= base.len() <= parts.len(),
            forall|j: int| 0 <= j < i ==> base@[j]@ == parts@[j]@,
        decreases base.len() - i,
    {
        if !same_text(base[i].as_str(), parts[i].as_str()) {
            assert(texts(base@)[i as int] != texts(parts@)[i as int]);
            return false;
        }
        i += 1;
    }
    assert(texts(base@) =~= texts(parts@).subrange(0, base.len() as int));
    true
}

} // verus!
