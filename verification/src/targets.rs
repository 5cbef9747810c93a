//! Update targets: the files found, grouped by ecosystem and directory, in
//! a fixed order.

use crate::classify::{classify_below, hit_of, option_hit, Hit, HitView};
use crate::ecosystem::{lemma_names_distinct, Ecosystem};
use crate::path::{components, split_path};
use crate::registry::{Registry, RegistryView};
use crate::text::{compare, lemma_lex_transitive, lemma_lex_trichotomy, lex_lt, texts, Order};
use vstd::prelude::*;

verus! {

/// One update target as the contracts see it.
pub struct TargetView {
    pub ecosystem: Ecosystem,
    pub path: Seq<char>,
    pub file_names: Seq<Seq<char>>,
}

/// One update target: an ecosystem, the directory it was found in, and the
/// names of the files that signalled it there, in lexicographic order.
#[derive(Debug, PartialEq, Eq)]
pub struct FoundTarget {
    pub ecosystem: Ecosystem,
    pub path: String,
    pub file_names: Vec<String>,
}

impl View for FoundTarget {
    type V = TargetView;

    open spec fn view(&self) -> TargetView {
        TargetView {
            ecosystem: self.ecosystem,
            path: self.path@,
            file_names: texts(self.file_names@),
        }
    }
}

/// The views of a list of targets.
pub open spec fn views(targets: Seq<FoundTarget>) -> Seq<TargetView> {
    Seq::new(targets.len(), |i: int| targets[i]@)
}

/// The order of the output: by the ecosystem's name, then by directory.
pub open spec fn key_lt(e1: Ecosystem, d1: Seq<char>, e2: Ecosystem, d2: Seq<char>) -> bool {
    lex_lt(e1.spec_name(), e2.spec_name()) || (e1 == e2 && lex_lt(d1, d2))
}

/// The three-way comparison that `key_lt` induces.
pub open spec fn key_order(e1: Ecosystem, d1: Seq<char>, e2: Ecosystem, d2: Seq<char>) -> Order {
    if e1 == e2 && d1 == d2 {
        Order::Equal
    } else if key_lt(e1, d1, e2, d2) {
        Order::Less
    } else {
        Order::Greater
    }
}

/// Each text comes before every later one: the list is sorted and holds
/// nothing twice.
pub open spec fn strictly_sorted(names: Seq<Seq<char>>) -> bool {
    forall|i: int, j: int| 0 <= i < j < names.len() ==> lex_lt(names[i], names[j])
}

/// A target holds at least one file name, and its file names are sorted
/// without repetition.
pub open spec fn target_wf(target: TargetView) -> bool {
    target.file_names.len() > 0 && strictly_sorted(target.file_names)
}

/// The targets are in the order of the output, no two of them share an
/// ecosystem and a directory, and each is well formed.
pub open spec fn targets_wf(targets: Seq<TargetView>) -> bool {
    &&& forall|i: int, j: int|
        0 <= i < j < targets.len() ==> key_lt(
            targets[i].ecosystem,
            targets[i].path,
            targets[j].ecosystem,
            targets[j].path,
        )
    &&& forall|i: int| 0 <= i < targets.len() ==> target_wf(#[trigger] targets[i])
}

/// The target at position `k` records the hit.
pub open spec fn holds_at(targets: Seq<TargetView>, k: int, hit: HitView) -> bool {
    &&& 0 <= k < targets.len()
    &&& targets[k].ecosystem == hit.ecosystem
    &&& targets[k].path == hit.dir
    &&& targets[k].file_names.contains(hit.file_name)
}

/// Some target records the hit.
pub open spec fn holds(targets: Seq<TargetView>, hit: HitView) -> bool {
    exists|k: int| holds_at(targets, k, hit)
}

/// Some entry of `paths` contributes the hit to a scan of `root`.
pub open spec fn is_hit(
    registry: RegistryView,
    ignored: Seq<Seq<char>>,
    paths: Seq<Seq<char>>,
    root: Seq<char>,
    hit: HitView,
) -> bool {
    exists|i: int|
        0 <= i < paths.len() && hit_of(registry, ignored, #[trigger] paths[i], root) == Some(hit)
}

/// The targets are the result of a scan: they are well formed and record
/// exactly the hits that the entries contribute.
pub open spec fn grouping_of(
    targets: Seq<TargetView>,
    registry: RegistryView,
    ignored: Seq<Seq<char>>,
    paths: Seq<Seq<char>>,
    root: Seq<char>,
) -> bool {
    &&& targets_wf(targets)
    &&& forall|hit: HitView|
        holds(targets, hit) <==> is_hit(registry, ignored, paths, root, hit)
}

/// The order of the output is transitive.
pub proof fn lemma_key_transitive(
    e1: Ecosystem,
    d1: Seq<char>,
    e2: Ecosystem,
    d2: Seq<char>,
    e3: Ecosystem,
    d3: Seq<char>,
)
    requires
        key_lt(e1, d1, e2, d2),
        key_lt(e2, d2, e3, d3),
    ensures
        key_lt(e1, d1, e3, d3),
{
    lemma_lex_trichotomy(e1.spec_name(), e2.spec_name());
    lemma_lex_trichotomy(e2.spec_name(), e3.spec_name());
    if lex_lt(e1.spec_name(), e2.spec_name()) && lex_lt(e2.spec_name(), e3.spec_name()) {
        lemma_lex_transitive(e1.spec_name(), e2.spec_name(), e3.spec_name());
    } else if e1 == e2 && e2 == e3 {
        lemma_lex_transitive(d1, d2, d3);
    }
}

/// Of two keys exactly one holds: they are equal, or one comes before the
/// other.
pub proof fn lemma_key_trichotomy(e1: Ecosystem, d1: Seq<char>, e2: Ecosystem, d2: Seq<char>)
    ensures
        (e1 == e2 && d1 == d2) || key_lt(e1, d1, e2, d2) || key_lt(e2, d2, e1, d1),
        !(key_lt(e1, d1, e2, d2) && key_lt(e2, d2, e1, d1)),
        e1 == e2 && d1 == d2 ==> !key_lt(e1, d1, e2, d2),
{
    lemma_lex_trichotomy(e1.spec_name(), e2.spec_name());
    lemma_lex_trichotomy(d1, d2);
    if e1.spec_name() == e2.spec_name() {
        lemma_names_distinct(e1, e2);
    }
}

/// Compares two keys in the order of the output.
pub fn compare_keys(e1: Ecosystem, d1: &str, e2: Ecosystem, d2: &str) -> (r: Order)
    ensures
        r == key_order(e1, d1@, e2, d2@),
{
    proof {
        lemma_key_trichotomy(e1, d1@, e2, d2@);
        lemma_lex_trichotomy(e1.spec_name(), e2.spec_name());
        lemma_lex_trichotomy(d1@, d2@);
    }
    match compare(e1.name(), e2.name()) {
        Order::Less => Order::Less,
        Order::Greater => Order::Greater,
        Order::Equal => {
            proof {
                lemma_names_distinct(e1, e2);
            }
            compare(d1, d2)
        },
    }
}

/// Puts a name into a sorted list of names, unless the list holds it
/// already.
pub fn insert_name(names: &mut Vec<String>, name: String)
    requires
        strictly_sorted(texts(old(names)@)),
    ensures
        strictly_sorted(texts(final(names)@)),
        forall|t: Seq<char>|
            texts(final(names)@).contains(t) <==> texts(old(names)@).contains(t) || t == name@,
{
    let ghost before = texts(names@);
    let n: usize = names.len();
    let mut p: usize = 0;
    let mut placed = false;
    while p < n && !placed
        invariant
            n == names.len(),
            names@ == old(names)@,
            before == texts(names@),
            strictly_sorted(before),
            p <= n,
            forall|j: int| 0 <= j < p ==> lex_lt(before[j], name@),
            placed ==> p < n && lex_lt(name@, before[p as int]),
        decreases n - p, if placed { 0int } else { 1int },
    {
        proof {
            lemma_lex_trichotomy(before[p as int], name@);
        }
        match compare(names[p].as_str(), name.as_str()) {
            Order::Less => {
                p += 1;
            },
            Order::Equal => {
                assert(before[p as int] == name@);
                return ;
            },
            Order::Greater => {
                placed = true;
            },
        }
    }
    names.insert(p, name);
    proof {
        let after = texts(names@);
        assert(after =~= before.insert(p as int, name@));
        assert forall|j: int| p <= j < before.len() implies lex_lt(name@, before[j]) by {
            if j > p {
                lemma_lex_transitive(name@, before[p as int], before[j]);
            }
        }
        assert forall|i: int, j: int| 0 <= i < j < after.len() implies lex_lt(
            after[i],
            after[j],
        ) by {
            let a = if i < p { i } else { i - 1 };
            let b = if j < p { j } else { j - 1 };
            if i != p && j != p {
                assert(lex_lt(before[a], before[b]));
            }
        }
        assert forall|t: Seq<char>| after.contains(t) <==> before.contains(t) || t == name@ by {
            if after.contains(t) {
                let i = choose|i: int| 0 <= i < after.len() && after[i] == t;
                if i < p {
                    assert(before[i] == t);
                } else if i > p {
                    assert(before[i - 1] == t);
                }
            }
            if before.contains(t) {
                let i = choose|i: int| 0 <= i < before.len() && before[i] == t;
                if i < p {
                    assert(after[i] == t);
                } else {
                    assert(after[i + 1] == t);
                }
            }
            if t == name@ {
                assert(after[p as int] == t);
            }
        }
    }
}

/// Records a hit: its file name joins the target of its ecosystem and
/// directory, and a new target is put in its place in the order if there is
/// none yet.
pub fn add_hit(targets: &mut Vec<FoundTarget>, hit: Hit)
    requires
        targets_wf(views(old(targets)@)),
    ensures
        targets_wf(views(final(targets)@)),
        forall|h: HitView|
            holds(views(final(targets)@), h) <==> holds(views(old(targets)@), h) || h == hit@,
{
    let ghost before = views(targets@);
    let ghost new = hit@;
    let n: usize = targets.len();
    let mut p: usize = 0;
    let mut found = Order::Less;
    while p < n && found == Order::Less
        invariant
            n == targets.len(),
            targets@ == old(targets)@,
            before == views(targets@),
            targets_wf(before),
            new == hit@,
            p <= n,
            forall|j: int|
                0 <= j < p ==> key_lt(
                    (#[trigger] before[j]).ecosystem,
                    before[j].path,
                    new.ecosystem,
                    new.dir,
                ),
            found != Order::Less ==> p < n && found == key_order(
                before[p as int].ecosystem,
                before[p as int].path,
                new.ecosystem,
                new.dir,
            ),
        decreases n - p, if found == Order::Less { 1int } else { 0int },
    {
        let o = compare_keys(
            targets[p].ecosystem,
            targets[p].path.as_str(),
            hit.ecosystem,
            hit.dir.as_str(),
        );
        if o == Order::Less {
            p += 1;
        } else {
            found = o;
        }
    }
    if found == Order::Equal {
        let mut target = targets.remove(p);
        insert_name(&mut target.file_names, hit.file_name);
        proof {
            assert(target@.file_names.contains(new.file_name));
        }
        targets.insert(p, target);
        proof {
            let after = views(targets@);
            assert(after =~= before.update(p as int, target@));
            assert(targets_wf(after)) by {
                assert forall|i: int| 0 <= i < after.len() implies target_wf(
                    #[trigger] after[i],
                ) by {
                    if i != p {
                        assert(target_wf(before[i]));
                    }
                }
            }
            assert forall|h: HitView| holds(after, h) <==> holds(before, h) || h == new by {
                if holds(after, h) {
                    let k = choose|k: int| holds_at(after, k, h);
                    if k != p || before[k].file_names.contains(h.file_name) {
                        assert(holds_at(before, k, h));
                    }
                }
                if holds(before, h) {
                    let k = choose|k: int| holds_at(before, k, h);
                    assert(holds_at(after, k, h));
                }
                if h == new {
                    assert(holds_at(after, p as int, h));
                }
            }
        }
    } else {
        let mut file_names: Vec<String> = Vec::new();
        file_names.push(hit.file_name);
        let target = FoundTarget { ecosystem: hit.ecosystem, path: hit.dir, file_names };
        targets.insert(p, target);
        proof {
            let after = views(targets@);
            assert(target@.file_names =~= seq![new.file_name]);
            assert(after =~= before.insert(p as int, target@));
            if p < n {
                lemma_key_trichotomy(
                    before[p as int].ecosystem,
                    before[p as int].path,
                    new.ecosystem,
                    new.dir,
                );
            }
            assert forall|j: int| p <= j < before.len() implies key_lt(
                new.ecosystem,
                new.dir,
                (#[trigger] before[j]).ecosystem,
                before[j].path,
            ) by {
                if j > p {
                    lemma_key_transitive(
                        new.ecosystem,
                        new.dir,
                        before[p as int].ecosystem,
                        before[p as int].path,
                        before[j].ecosystem,
                        before[j].path,
                    );
                }
            }
            assert forall|i: int, j: int| 0 <= i < j < after.len() implies key_lt(
                after[i].ecosystem,
                after[i].path,
                after[j].ecosystem,
                after[j].path,
            ) by {
                let a = if i < p { i } else { i - 1 };
                let b = if j < p { j } else { j - 1 };
                if i != p && j != p {
                    assert(key_lt(
                        before[a].ecosystem,
                        before[a].path,
                        before[b].ecosystem,
                        before[b].path,
                    ));
                } else if i == p {
                    assert(after[j] == before[b]);
                } else {
                    assert(after[i] == before[a]);
                }
            }
            assert forall|i: int| 0 <= i < after.len() implies target_wf(#[trigger] after[i]) by {
                if i < p {
                    assert(target_wf(before[i]));
                } else if i > p {
                    assert(target_wf(before[i - 1]));
                }
            }
            assert forall|h: HitView| holds(after, h) <==> holds(before, h) || h == new by {
                if holds(after, h) {
                    let k = choose|k: int| holds_at(after, k, h);
                    if k < p {
                        assert(holds_at(before, k, h));
                    } else if k > p {
                        assert(holds_at(before, k - 1, h));
                    } else {
                        assert(h.file_name == new.file_name);
                    }
                }
                if holds(before, h) {
                    let k = choose|k: int| holds_at(before, k, h);
                    if k < p {
                        assert(holds_at(after, k, h));
                    } else {
                        assert(holds_at(after, k + 1, h));
                    }
                }
                if h == new {
                    assert(target@.file_names[0] == new.file_name);
                    assert(holds_at(after, p as int, h));
                }
            }
        }
    }
}

/// Adding one entry to the scan adds what that entry contributes, and
/// nothing else.
proof fn lemma_is_hit_step(
    registry: RegistryView,
    ignored: Seq<Seq<char>>,
    paths: Seq<Seq<char>>,
    root: Seq<char>,
    i: int,
    hit: HitView,
)
    requires
        0 <= i < paths.len(),
    ensures
        is_hit(registry, ignored, paths.take(i + 1), root, hit) <==> is_hit(
            registry,
            ignored,
            paths.take(i),
            root,
            hit,
        ) || hit_of(registry, ignored, paths[i], root) == Some(hit),
{
    let shorter = paths.take(i);
    let longer = paths.take(i + 1);
    if is_hit(registry, ignored, longer, root, hit) {
        let k = choose|k: int|
            0 <= k < longer.len() && hit_of(registry, ignored, #[trigger] longer[k], root) == Some(
                hit,
            );
        if k < i {
            assert(shorter[k] == longer[k]);
        }
    }
    if is_hit(registry, ignored, shorter, root, hit) {
        let k = choose|k: int|
            0 <= k < shorter.len() && hit_of(registry, ignored, #[trigger] shorter[k], root)
                == Some(hit);
        assert(longer[k] == shorter[k]);
    }
    if hit_of(registry, ignored, paths[i], root) == Some(hit) {
        assert(longer[i] == paths[i]);
    }
}

/// Groups the entries of a tree into update targets. `paths` holds the path
/// of every entry that the walk of `root` came upon. Entries that lie
/// outside the root or below an ignored name are passed over, as are those
/// that signal no ecosystem.
pub fn find_targets(
    registry: &Registry,
    ignored_dirs: &Vec<String>,
    paths: &Vec<String>,
    root: &str,
) -> (r: Vec<FoundTarget>)
    ensures
        grouping_of(views(r@), registry@, texts(ignored_dirs@), texts(paths@), root@),
{
    let base = split_path(root, registry.separator());
    let mut found: Vec<FoundTarget> = Vec::new();
    let mut i: usize = 0;
    assert forall|h: HitView|
        holds(views(found@), h) <==> is_hit(
            registry@,
            texts(ignored_dirs@),
            texts(paths@).take(0),
            root@,
            h,
        ) by {
        if holds(views(found@), h) {
            let k = choose|k: int| holds_at(views(found@), k, h);
        }
    }
    while i < paths.len()
        invariant
            i <= paths.len(),
            texts(base@) == components(root@, registry@.separator),
            targets_wf(views(found@)),
            forall|h: HitView|
                holds(views(found@), h) <==> is_hit(
                    registry@,
                    texts(ignored_dirs@),
                    texts(paths@).take(i as int),
                    root@,
                    h,
                ),
        decreases paths.len() - i,
    {
        let entry = classify_below(registry, ignored_dirs, paths[i].as_str(), &base);
        assert(option_hit(entry) == hit_of(
            registry@,
            texts(ignored_dirs@),
            texts(paths@)[i as int],
            root@,
        ));
        match entry {
            Some(hit) => {
                add_hit(&mut found, hit);
            },
            None => {},
        }
        proof {
            assert forall|h: HitView|
                holds(views(found@), h) <==> is_hit(
                    registry@,
                    texts(ignored_dirs@),
                    texts(paths@).take(i + 1),
                    root@,
                    h,
                ) by {
                lemma_is_hit_step(
                    registry@,
                    texts(ignored_dirs@),
                    texts(paths@),
                    root@,
                    i as int,
                    h,
                );
            }
        }
        i += 1;
    }
    assert(texts(paths@).take(paths.len() as int) == texts(paths@));
    found
}

} // verus!
