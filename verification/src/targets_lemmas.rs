//! What holds of every output of a scan: it is determined by the entries
//! scanned, it names no ecosystem and directory twice, and it records
//! nothing that lies below an ignored name.

use crate::classify::{
    hit_of, lemma_hit_follows_classifier, lemma_workflows_filed_at_root, visible, HitView,
};
use crate::ecosystem::Ecosystem;
use crate::registry::RegistryView;
use crate::targets::{
    grouping_of, holds, holds_at, is_hit, key_lt, lemma_key_transitive, lemma_key_trichotomy,
    strictly_sorted, target_wf, targets_wf, TargetView,
};
use crate::text::{lemma_lex_transitive, lemma_lex_trichotomy, lex_lt};
use vstd::prelude::*;

verus! {

/// `lt` is irreflexive, transitive and total.
spec fn strict_total<T>(lt: spec_fn(T, T) -> bool) -> bool {
    &&& forall|x: T| !#[trigger] lt(x, x)
    &&& forall|x: T, y: T, z: T| #[trigger] lt(x, y) && #[trigger] lt(y, z) ==> lt(x, z)
    &&& forall|x: T, y: T| x == y || #[trigger] lt(x, y) || lt(y, x)
}

/// Each item of the sequence comes before every later one.
spec fn ascending<T>(s: Seq<T>, lt: spec_fn(T, T) -> bool) -> bool {
    forall|i: int, j: int| 0 <= i < j < s.len() ==> lt(s[i], s[j])
}

/// Two ascending sequences with the same items are the same sequence.
proof fn lemma_ascending_unique<T>(a: Seq<T>, b: Seq<T>, lt: spec_fn(T, T) -> bool)
    requires
        strict_total(lt),
        ascending(a, lt),
        ascending(b, lt),
        forall|x: T| a.contains(x) <==> b.contains(x),
    ensures
        a == b,
    decreases a.len(),
{
    if a.len() == 0 {
        if b.len() > 0 {
            assert(b.contains(b[0]));
        }
        assert(a =~= b);
    } else {
        assert(a.contains(a.last()));
        let j = choose|j: int| 0 <= j < b.len() && b[j] == a.last();
        assert(b.contains(b.last()));
        let i = choose|i: int| 0 <= i < a.len() && a[i] == b.last();
        if i < a.len() - 1 {
            assert(lt(a[i], a.last()));
        }
        if j < b.len() - 1 {
            assert(lt(b[j], b.last()));
        }
        assert(a.last() == b.last());
        let a0 = a.drop_last();
        let b0 = b.drop_last();
        assert forall|x: T| a0.contains(x) <==> b0.contains(x) by {
            if a0.contains(x) {
                let k = choose|k: int| 0 <= k < a0.len() && a0[k] == x;
                assert(lt(a[k], a.last()));
                assert(a.contains(x));
                let m = choose|m: int| 0 <= m < b.len() && b[m] == x;
                assert(b0[m] == x);
            }
            if b0.contains(x) {
                let k = choose|k: int| 0 <= k < b0.len() && b0[k] == x;
                assert(lt(b[k], b.last()));
                assert(b.contains(x));
                let m = choose|m: int| 0 <= m < a.len() && a[m] == x;
                assert(a0[m] == x);
            }
        }
        assert(ascending(a0, lt)) by {
            assert forall|i: int, j: int| 0 <= i < j < a0.len() implies lt(a0[i], a0[j]) by {
                assert(lt(a[i], a[j]));
            }
        }
        assert(ascending(b0, lt)) by {
            assert forall|i: int, j: int| 0 <= i < j < b0.len() implies lt(b0[i], b0[j]) by {
                assert(lt(b[i], b[j]));
            }
        }
        lemma_ascending_unique(a0, b0, lt);
        assert(a =~= a0.push(a.last()));
        assert(b =~= b0.push(b.last()));
    }
}

/// A sorted list of names is determined by the names it holds.
pub proof fn lemma_sorted_names_unique(a: Seq<Seq<char>>, b: Seq<Seq<char>>)
    requires
        strictly_sorted(a),
        strictly_sorted(b),
        forall|t: Seq<char>| a.contains(t) <==> b.contains(t),
    ensures
        a == b,
{
    let lt = |x: Seq<char>, y: Seq<char>| lex_lt(x, y);
    assert(strict_total(lt)) by {
        assert forall|x: Seq<char>| !#[trigger] lt(x, x) by {
            lemma_lex_trichotomy(x, x);
        }
        assert forall|x: Seq<char>, y: Seq<char>, z: Seq<char>| #[trigger]
            lt(x, y) && #[trigger] lt(y, z) implies lt(x, z) by {
            lemma_lex_transitive(x, y, z);
        }
        assert forall|x: Seq<char>, y: Seq<char>| x == y || #[trigger] lt(x, y) || lt(y, x) by {
            lemma_lex_trichotomy(x, y);
        }
    }
    lemma_ascending_unique(a, b, lt);
}

/// The ecosystems and directories of a list of targets, in order.
spec fn keys(targets: Seq<TargetView>) -> Seq<(Ecosystem, Seq<char>)> {
    Seq::new(targets.len(), |i: int| (targets[i].ecosystem, targets[i].path))
}

/// In a well-formed list no two targets share an ecosystem and a
/// directory.
pub proof fn lemma_keys_distinct(targets: Seq<TargetView>, i: int, j: int)
    requires
        targets_wf(targets),
        0 <= i < targets.len(),
        0 <= j < targets.len(),
        targets[i].ecosystem == targets[j].ecosystem,
        targets[i].path == targets[j].path,
    ensures
        i == j,
{
    lemma_key_trichotomy(
        targets[i].ecosystem,
        targets[i].path,
        targets[j].ecosystem,
        targets[j].path,
    );
    if i < j {
        assert(key_lt(
            targets[i].ecosystem,
            targets[i].path,
            targets[j].ecosystem,
            targets[j].path,
        ));
    } else if j < i {
        assert(key_lt(
            targets[j].ecosystem,
            targets[j].path,
            targets[i].ecosystem,
            targets[i].path,
        ));
    }
}

/// The output of a scan is determined by the hits of the scan: two
/// well-formed lists of targets that record the same hits are equal, item
/// for item and name for name.
pub proof fn lemma_grouping_unique(a: Seq<TargetView>, b: Seq<TargetView>)
    requires
        targets_wf(a),
        targets_wf(b),
        forall|h: HitView| holds(a, h) <==> holds(b, h),
    ensures
        a == b,
{
    let lt = |x: (Ecosystem, Seq<char>), y: (Ecosystem, Seq<char>)| key_lt(x.0, x.1, y.0, y.1);
    assert(strict_total(lt)) by {
        assert forall|x: (Ecosystem, Seq<char>)| !#[trigger] lt(x, x) by {
            lemma_key_trichotomy(x.0, x.1, x.0, x.1);
        }
        assert forall|x: (Ecosystem, Seq<char>), y: (Ecosystem, Seq<char>), z: (
            Ecosystem,
            Seq<char>,
        )| #[trigger] lt(x, y) && #[trigger] lt(y, z) implies lt(x, z) by {
            lemma_key_transitive(x.0, x.1, y.0, y.1, z.0, z.1);
        }
        assert forall|x: (Ecosystem, Seq<char>), y: (Ecosystem, Seq<char>)|
            x == y || #[trigger] lt(x, y) || lt(y, x) by {
            lemma_key_trichotomy(x.0, x.1, y.0, y.1);
        }
    }
    let ka = keys(a);
    let kb = keys(b);
    assert(ascending(ka, lt));
    assert(ascending(kb, lt));
    assert forall|x: (Ecosystem, Seq<char>)| ka.contains(x) <==> kb.contains(x) by {
        if ka.contains(x) {
            let k = choose|k: int| 0 <= k < ka.len() && ka[k] == x;
            lemma_key_carried_over(a, b, k);
            let m = choose|m: int|
                0 <= m < b.len() && b[m].ecosystem == a[k].ecosystem && b[m].path == a[k].path;
            assert(kb[m] == x);
        }
        if kb.contains(x) {
            let k = choose|k: int| 0 <= k < kb.len() && kb[k] == x;
            lemma_key_carried_over(b, a, k);
            let m = choose|m: int|
                0 <= m < a.len() && a[m].ecosystem == b[k].ecosystem && a[m].path == b[k].path;
            assert(ka[m] == x);
        }
    }
    lemma_ascending_unique(ka, kb, lt);
    assert(a.len() == b.len());
    assert forall|k: int| 0 <= k < a.len() implies a[k] == b[k] by {
        assert(ka[k] == kb[k]);
        assert(target_wf(a[k]));
        assert(target_wf(b[k]));
        assert forall|t: Seq<char>| a[k].file_names.contains(t) <==> b[k].file_names.contains(
            t,
        ) by {
            let h = HitView { ecosystem: a[k].ecosystem, dir: a[k].path, file_name: t };
            if a[k].file_names.contains(t) {
                assert(holds_at(a, k, h));
                assert(holds(a, h) && holds(b, h));
                let m = choose|m: int| holds_at(b, m, h);
                lemma_keys_distinct(b, k, m);
            }
            if b[k].file_names.contains(t) {
                assert(holds_at(b, k, h));
                assert(holds(b, h) && holds(a, h));
                let m = choose|m: int| holds_at(a, m, h);
                lemma_keys_distinct(a, k, m);
            }
        }
        lemma_sorted_names_unique(a[k].file_names, b[k].file_names);
    }
    assert(a =~= b);
}

/// A target's ecosystem and directory are found again in every list that
/// records the same hits.
proof fn lemma_key_carried_over(a: Seq<TargetView>, b: Seq<TargetView>, k: int)
    requires
        targets_wf(a),
        0 <= k < a.len(),
        forall|h: HitView| holds(a, h) ==> holds(b, h),
    ensures
        exists|m: int|
            0 <= m < b.len() && b[m].ecosystem == a[k].ecosystem && b[m].path == a[k].path,
{
    assert(target_wf(a[k]));
    let h = HitView { ecosystem: a[k].ecosystem, dir: a[k].path, file_name: a[k].file_names[0] };
    assert(holds_at(a, k, h));
    assert(holds(a, h) && holds(b, h));
    let m = choose|m: int| holds_at(b, m, h);
    assert(0 <= m < b.len() && b[m].ecosystem == a[k].ecosystem && b[m].path == a[k].path);
}

/// Two scans of the same entries give the same output.
pub proof fn lemma_scan_is_deterministic(
    first: Seq<TargetView>,
    second: Seq<TargetView>,
    registry: RegistryView,
    ignored: Seq<Seq<char>>,
    paths: Seq<Seq<char>>,
    root: Seq<char>,
)
    requires
        grouping_of(first, registry, ignored, paths, root),
        grouping_of(second, registry, ignored, paths, root),
    ensures
        first == second,
{
    lemma_grouping_unique(first, second);
}

/// Two files of one ecosystem in one directory are recorded by one and the
/// same target, which holds both names; no other target has that ecosystem
/// and directory.
pub proof fn lemma_files_share_a_target(
    targets: Seq<TargetView>,
    ecosystem: Ecosystem,
    dir: Seq<char>,
    first: Seq<char>,
    second: Seq<char>,
)
    requires
        targets_wf(targets),
        holds(targets, HitView { ecosystem, dir, file_name: first }),
        holds(targets, HitView { ecosystem, dir, file_name: second }),
    ensures
        exists|k: int|
            {
                &&& 0 <= k < targets.len()
                &&& (#[trigger] targets[k]).ecosystem == ecosystem
                &&& targets[k].path == dir
                &&& targets[k].file_names.contains(first)
                &&& targets[k].file_names.contains(second)
                &&& strictly_sorted(targets[k].file_names)
                &&& forall|j: int|
                    0 <= j < targets.len() && (#[trigger] targets[j]).ecosystem == ecosystem
                        && targets[j].path == dir ==> j == k
            },
{
    let k = choose|k: int| holds_at(targets, k, HitView { ecosystem, dir, file_name: first });
    let m = choose|m: int| holds_at(targets, m, HitView { ecosystem, dir, file_name: second });
    lemma_keys_distinct(targets, k, m);
    assert(target_wf(targets[k]));
    assert forall|j: int|
        0 <= j < targets.len() && (#[trigger] targets[j]).ecosystem == ecosystem && targets[j].path
            == dir implies j == k by {
        lemma_keys_distinct(targets, j, k);
    }
}

/// Every file name that a scan records comes from an entry that takes part
/// in the scan: none comes from below an ignored name.
pub proof fn lemma_recorded_files_are_visible(
    targets: Seq<TargetView>,
    registry: RegistryView,
    ignored: Seq<Seq<char>>,
    paths: Seq<Seq<char>>,
    root: Seq<char>,
    k: int,
    file_name: Seq<char>,
)
    requires
        grouping_of(targets, registry, ignored, paths, root),
        0 <= k < targets.len(),
        targets[k].file_names.contains(file_name),
    ensures
        exists|i: int|
            {
                &&& 0 <= i < paths.len()
                &&& visible(ignored, #[trigger] paths[i], root, registry.separator)
                &&& hit_of(registry, ignored, paths[i], root) == Some(
                    HitView {
                        ecosystem: targets[k].ecosystem,
                        dir: targets[k].path,
                        file_name,
                    },
                )
            },
{
    let h = HitView { ecosystem: targets[k].ecosystem, dir: targets[k].path, file_name };
    assert(holds_at(targets, k, h));
    assert(holds(targets, h));
    assert(is_hit(registry, ignored, paths, root, h));
    let i = choose|i: int|
        0 <= i < paths.len() && hit_of(registry, ignored, #[trigger] paths[i], root) == Some(h);
    lemma_hit_follows_classifier(registry, ignored, paths[i], root);
}

/// A scan files every target of the workflow ecosystem at the root.
pub proof fn lemma_workflow_targets_at_root(
    targets: Seq<TargetView>,
    registry: RegistryView,
    ignored: Seq<Seq<char>>,
    paths: Seq<Seq<char>>,
    root: Seq<char>,
    k: int,
)
    requires
        grouping_of(targets, registry, ignored, paths, root),
        0 <= k < targets.len(),
        targets[k].ecosystem == Ecosystem::GithubActions,
    ensures
        targets[k].path == seq![registry.separator],
{
    assert(target_wf(targets[k]));
    let h = HitView {
        ecosystem: targets[k].ecosystem,
        dir: targets[k].path,
        file_name: targets[k].file_names[0],
    };
    assert(holds_at(targets, k, h));
    assert(holds(targets, h));
    assert(is_hit(registry, ignored, paths, root, h));
    let i = choose|i: int|
        0 <= i < paths.len() && hit_of(registry, ignored, #[trigger] paths[i], root) == Some(h);
    lemma_workflows_filed_at_root(registry, ignored, paths[i], root);
}

} // verus!
