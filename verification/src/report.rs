//! Summaries of a scan's output as text.

use crate::registry::Registry;
use crate::targets::{views, FoundTarget, TargetView};
use crate::text::{contains_text, join, join_all, push_text, same_text, texts};
use vstd::prelude::*;

verus! {

/// The items in the order of their first occurrence, each once.
pub open spec fn unique(items: Seq<Seq<char>>) -> Seq<Seq<char>>
    decreases items.len(),
{
    if items.len() == 0 {
        Seq::empty()
    } else {
        let before = unique(items.drop_last());
        if before.contains(items.last()) {
            before
        } else {
            before.push(items.last())
        }
    }
}

/// The names of the targets' ecosystems, target by target.
pub open spec fn ecosystem_names(targets: Seq<TargetView>) -> Seq<Seq<char>> {
    Seq::new(targets.len(), |i: int| targets[i].ecosystem.spec_name())
}

/// The line that describes one target: the ecosystem, the directory below
/// a leading slash (nothing for the root), and the file names in brackets.
pub open spec fn target_line(target: TargetView, sep: char) -> Seq<char> {
    target.ecosystem.spec_name() + ": /"@ + (if target.path == seq![sep] {
        Seq::empty()
    } else {
        target.path
    }) + " ("@ + join(target.file_names, ", "@) + ")"@
}

/// The lines that describe the targets, target by target.
pub open spec fn target_lines(targets: Seq<TargetView>, sep: char) -> Seq<Seq<char>> {
    Seq::new(targets.len(), |i: int| target_line(targets[i], sep))
}

/// The names of the ecosystems found, each once, separated by commas.
pub fn found_managers(found: &Vec<FoundTarget>) -> (r: String)
    ensures
        r@ == join(unique(ecosystem_names(views(found@))), ", "@),
{
    let ghost names = ecosystem_names(views(found@));
    let mut seen: Vec<String> = Vec::new();
    let mut i: usize = 0;
    assert(names.take(0) =~= Seq::<Seq<char>>::empty());
    assert(texts(seen@) =~= Seq::<Seq<char>>::empty());
    while i < found.len()
        invariant
            i <= found.len(),
            names == ecosystem_names(views(found@)),
            texts(seen@) == unique(names.take(i as int)),
        decreases found.len() - i,
    {
        let name = found[i].ecosystem.name();
        proof {
            assert(names.take(i + 1).drop_last() == names.take(i as int));
            assert(names.take(i + 1).last() == name@);
        }
        if !contains_text(&seen, name) {
            push_text(&mut seen, name);
        }
        i += 1;
    }
    assert(names.take(found.len() as int) == names);
    join_all(&seen, ", ")
}

/// One line for each target, in the order given.
pub fn found_values(registry: &Registry, found: &Vec<FoundTarget>) -> (r: String)
    ensures
        r@ == join(target_lines(views(found@), registry@.separator), "\n"@),
{
    let ghost all = target_lines(views(found@), registry@.separator);
    let mut lines: Vec<String> = Vec::new();
    let mut i: usize = 0;
    assert(texts(lines@) =~= all.take(0));
    while i < found.len()
        invariant
            i <= found.len(),
            all == target_lines(views(found@), registry@.separator),
            texts(lines@) == all.take(i as int),
        decreases found.len() - i,
    {
        let target = &found[i];
        let mut line = target.ecosystem.name().to_owned();
        line.append(": /");
        if !same_text(target.path.as_str(), registry.root_marker()) {
            line.append(target.path.as_str());
        }
        line.append(" (");
        let names = join_all(&target.file_names, ", ");
        line.append(names.as_str());
        line.append(")");
        proof {
            assert(line@ =~= target_line(target@, registry@.separator));
            assert(all.take(i + 1) =~= all.take(i as int).push(line@));
        }
        push_text(&mut lines, line.as_str());
        i += 1;
    }
    assert(all.take(found.len() as int) == all);
    join_all(&lines, "\n")
}

} // verus!
