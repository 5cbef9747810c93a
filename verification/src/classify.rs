//! Classification of one entry of the tree: which ecosystem it signals, and
//! under which directory the target is filed.

use crate::ecosystem::Ecosystem;
use crate::path::{below_root, components, file_name_of, split_path, starts_with};
use crate::registry::{first_match, lemma_single_match, rule_matches, Registry, RegistryView};
use crate::text::{contains_text, join, join_range, same_text, texts};
use vstd::prelude::*;

verus! {

/// A file that signals an ecosystem, as the contracts see it: the
/// ecosystem, the directory under which the target is filed, and the
/// file's name.
pub struct HitView {
    pub ecosystem: Ecosystem,
    pub dir: Seq<char>,
    pub file_name: Seq<char>,
}

/// A file that signals an ecosystem.
#[derive(Debug)]
pub struct Hit {
    pub ecosystem: Ecosystem,
    pub dir: String,
    pub file_name: String,
}

impl View for Hit {
    type V = HitView;

    open spec fn view(&self) -> HitView {
        HitView { ecosystem: self.ecosystem, dir: self.dir@, file_name: self.file_name@ }
    }
}

/// The view of an optional hit.
pub open spec fn option_hit(hit: Option<Hit>) -> Option<HitView> {
    match hit {
        Some(h) => Some(h@),
        None => None,
    }
}

/// The path below the scan root as one text, when the path lies at or below
/// the root.
pub open spec fn relative_path(path: Seq<char>, root: Seq<char>, sep: char) -> Option<Seq<char>> {
    match below_root(path, root, sep) {
        Some(parts) => Some(join(parts, seq![sep])),
        None => None,
    }
}

/// The ecosystem that a path signals: that of the first rule that accepts
/// its file name or, for an ecosystem bound to a place, its path below the
/// root. A path without a file name signals none.
pub open spec fn spec_find_ecosystem(registry: RegistryView, path: Seq<char>, root: Seq<char>) -> Option<
    Ecosystem,
> {
    match file_name_of(path, registry.separator) {
        None => None,
        Some(name) => first_match(
            registry.rules,
            name,
            relative_path(path, root, registry.separator),
            0,
        ),
    }
}

/// The name of the directory that holds dev-container configuration.
pub open spec fn devcontainer_dir() -> Seq<char> {
    ".devcontainer"@
}

/// The directory under which a target is filed, given the components of the
/// file's parent directory below the scan root. Workflow files are always
/// filed at the root, and so is dev-container configuration that lives in
/// or below the dev-container directory at the root; a file at the root
/// itself is filed at the root. The root is written as the separator alone.
pub open spec fn normalized_dir(ecosystem: Ecosystem, parent: Seq<Seq<char>>, sep: char) -> Seq<char> {
    if parent.len() == 0 || ecosystem == Ecosystem::GithubActions || (ecosystem
        == Ecosystem::Devcontainers && parent[0] == devcontainer_dir()) {
        seq![sep]
    } else {
        join(parent, seq![sep])
    }
}

/// Whether an entry is excluded from the scan: the root's own name is
/// ignored, or the name of one of the entry's components below the root.
pub open spec fn pruned(ignored: Seq<Seq<char>>, base: Seq<Seq<char>>, below: Seq<Seq<char>>) -> bool {
    ||| base.len() > 0 && ignored.contains(base.last())
    ||| exists|k: int| 0 <= k < below.len() && ignored.contains(#[trigger] below[k])
}

/// What an entry contributes to the scan, given the components of its path
/// and those of the root: nothing if it does not lie strictly below the
/// root, is excluded, or signals no ecosystem.
pub open spec fn hit_below(
    registry: RegistryView,
    ignored: Seq<Seq<char>>,
    parts: Seq<Seq<char>>,
    base: Seq<Seq<char>>,
) -> Option<HitView> {
    if !base.is_prefix_of(parts) || parts.len() == base.len() {
        None
    } else {
        let below = parts.skip(base.len() as int);
        if pruned(ignored, base, below) {
            None
        } else {
            match first_match(
                registry.rules,
                below.last(),
                Some(join(below, seq![registry.separator])),
                0,
            ) {
                None => None,
                Some(ecosystem) => Some(
                    HitView {
                        ecosystem,
                        dir: normalized_dir(ecosystem, below.drop_last(), registry.separator),
                        file_name: below.last(),
                    },
                ),
            }
        }
    }
}

/// What the entry at `path` contributes to a scan of `root`.
pub open spec fn hit_of(
    registry: RegistryView,
    ignored: Seq<Seq<char>>,
    path: Seq<char>,
    root: Seq<char>,
) -> Option<HitView> {
    hit_below(
        registry,
        ignored,
        components(path, registry.separator),
        components(root, registry.separator),
    )
}

/// Whether an entry takes part in a scan: it lies strictly below the root,
/// and neither the root's name nor any of the entry's own components is
/// ignored.
pub open spec fn visible(ignored: Seq<Seq<char>>, path: Seq<char>, root: Seq<char>, sep: char) -> bool {
    match below_root(path, root, sep) {
        Some(below) => below.len() > 0 && !pruned(ignored, components(root, sep), below),
        None => false,
    }
}

/// A path that exactly one rule of the registry accepts is given that
/// rule's ecosystem.
pub proof fn lemma_sole_rule_decides(
    registry: RegistryView,
    path: Seq<char>,
    root: Seq<char>,
    k: int,
)
    requires
        file_name_of(path, registry.separator) is Some,
        0 <= k < registry.rules.len(),
        rule_matches(
            registry.rules[k],
            file_name_of(path, registry.separator)->0,
            relative_path(path, root, registry.separator),
        ),
        forall|j: int|
            0 <= j < registry.rules.len() && j != k ==> !rule_matches(
                #[trigger] registry.rules[j],
                file_name_of(path, registry.separator)->0,
                relative_path(path, root, registry.separator),
            ),
    ensures
        spec_find_ecosystem(registry, path, root) == Some(registry.rules[k].ecosystem),
{
    lemma_single_match(
        registry.rules,
        file_name_of(path, registry.separator)->0,
        relative_path(path, root, registry.separator),
        k,
        0,
    );
}

/// An entry that takes part in the scan contributes a hit exactly when the
/// classifier gives it an ecosystem, and the hit is filed under that
/// ecosystem and under the entry's own file name. Any other entry
/// contributes nothing.
pub proof fn lemma_hit_follows_classifier(
    registry: RegistryView,
    ignored: Seq<Seq<char>>,
    path: Seq<char>,
    root: Seq<char>,
)
    ensures
        !visible(ignored, path, root, registry.separator) ==> hit_of(
            registry,
            ignored,
            path,
            root,
        ) is None,
        visible(ignored, path, root, registry.separator) ==> match spec_find_ecosystem(
            registry,
            path,
            root,
        ) {
            None => hit_of(registry, ignored, path, root) is None,
            Some(ecosystem) => hit_of(registry, ignored, path, root) == Some(
                HitView {
                    ecosystem,
                    dir: normalized_dir(
                        ecosystem,
                        below_root(path, root, registry.separator)->0.drop_last(),
                        registry.separator,
                    ),
                    file_name: file_name_of(path, registry.separator)->0,
                },
            ),
        },
{
}

/// An entry with an ignored name among its components below the root
/// contributes nothing, however deep below that name it lies.
pub proof fn lemma_ignored_entry_is_passed_over(
    registry: RegistryView,
    ignored: Seq<Seq<char>>,
    path: Seq<char>,
    root: Seq<char>,
    k: int,
)
    requires
        below_root(path, root, registry.separator) is Some,
        0 <= k < below_root(path, root, registry.separator)->0.len(),
        ignored.contains(below_root(path, root, registry.separator)->0[k]),
    ensures
        hit_of(registry, ignored, path, root) is None,
{
}

/// Below a root whose own name is ignored, no entry contributes anything.
pub proof fn lemma_ignored_root_hides_all(
    registry: RegistryView,
    ignored: Seq<Seq<char>>,
    path: Seq<char>,
    root: Seq<char>,
)
    requires
        file_name_of(root, registry.separator) is Some,
        ignored.contains(file_name_of(root, registry.separator)->0),
    ensures
        hit_of(registry, ignored, path, root) is None,
{
}

/// A workflow file is filed at the root, at whatever depth it lies.
pub proof fn lemma_workflows_filed_at_root(
    registry: RegistryView,
    ignored: Seq<Seq<char>>,
    path: Seq<char>,
    root: Seq<char>,
)
    requires
        hit_of(registry, ignored, path, root) is Some,
        hit_of(registry, ignored, path, root)->0.ecosystem == Ecosystem::GithubActions,
    ensures
        hit_of(registry, ignored, path, root)->0.dir == seq![registry.separator],
{
}

/// Whether a name is in the list of ignored directory names. The name is
/// that of one component, never a whole path.
pub fn is_ignored(ignored_dirs: &Vec<String>, name: &str) -> (r: bool)
    ensures
        r == texts(ignored_dirs@).contains(name@),
{
    contains_text(ignored_dirs, name)
}

/// The names ignored by default: version-control metadata and the usual
/// caches of dependencies and build output.
pub fn default_ignored_dirs() -> (r: Vec<String>)
    ensures
        texts(r@) == seq![".git"@, "target"@, "node_modules"@],
{
    let r = vec![".git".to_owned(), "target".to_owned(), "node_modules".to_owned()];
    assert(texts(r@) =~= seq![".git"@, "target"@, "node_modules"@]);
    r
}

/// The ecosystem that a path signals.
pub fn find_ecosystem(registry: &Registry, path: &str, root: &str) -> (r: Option<Ecosystem>)
    ensures
        r == spec_find_ecosystem(registry@, path@, root@),
{
    let separator = registry.separator();
    let parts = split_path(path, separator);
    if parts.len() == 0 {
        return None;
    }
    let base = split_path(root, separator);
    let relative = if starts_with(&parts, &base) {
        assert(texts(parts@).skip(base.len() as int) == texts(parts@).subrange(
            base.len() as int,
            parts.len() as int,
        ));
        Some(join_range(&parts, base.len(), parts.len(), registry.root_marker()))
    } else {
        None
    };
    registry.match_entry(parts[parts.len() - 1].as_str(), &relative)
}

/// The directory under which a target of `ecosystem` is filed when the
/// file's parent directory has the components `parts[from..to]` below the
/// scan root.
fn normalize_range(
    registry: &Registry,
    ecosystem: Ecosystem,
    parts: &Vec<String>,
    from: usize,
    to: usize,
) -> (r: String)
    requires
        from <= to <= parts.len(),
    ensures
        r@ == normalized_dir(
            ecosystem,
            texts(parts@).subrange(from as int, to as int),
            registry@.separator,
        ),
{
    let at_root = from == to || ecosystem == Ecosystem::GithubActions || (ecosystem
        == Ecosystem::Devcontainers && same_text(parts[from].as_str(), ".devcontainer"));
    if at_root {
        registry.root_marker().to_owned()
    } else {
        join_range(parts, from, to, registry.root_marker())
    }
}

/// The directory under which a target of `ecosystem` is filed when the
/// file's parent directory, below the scan root, is `parent`.
pub fn normalize_dir(registry: &Registry, ecosystem: Ecosystem, parent: &str) -> (r: String)
    ensures
        r@ == normalized_dir(
            ecosystem,
            components(parent@, registry@.separator),
            registry@.separator,
        ),
{
    let parts = split_path(parent, registry.separator());
    assert(texts(parts@).subrange(0, parts.len() as int) == texts(parts@));
    normalize_range(registry, ecosystem, &parts, 0, parts.len())
}

/// Whether one of `parts[from..to]` is an ignored name.
fn any_ignored(ignored_dirs: &Vec<String>, parts: &Vec<String>, from: usize, to: usize) -> (r: bool)
    requires
        from <= to <= parts.len(),
    ensures
        r == exists|k: int|
            0 <= k < to - from && texts(ignored_dirs@).contains(
                #[trigger] texts(parts@).subrange(from as int, to as int)[k],
            ),
{
    let ghost below = texts(parts@).subrange(from as int, to as int);
    let mut i: usize = from;
    while i < to
        invariant
            from <= i <= to <= parts.len(),
            below == texts(parts@).subrange(from as int, to as int),
            forall|k: int| 0 <= k < i - from ==> !texts(ignored_dirs@).contains(#[trigger] below[k]),
        decreases to - i,
    {
        if is_ignored(ignored_dirs, parts[i].as_str()) {
            assert(below[i - from] == parts@[i as int]@);
            return true;
        }
        i += 1;
    }
    false
}

/// What an entry contributes to the scan, given its path and the components
/// of the root.
pub fn classify_below(
    registry: &Registry,
    ignored_dirs: &Vec<String>,
    path: &str,
    base: &Vec<String>,
) -> (r: Option<Hit>)
    ensures
        option_hit(r) == hit_below(
            registry@,
            texts(ignored_dirs@),
            components(path@, registry@.separator),
            texts(base@),
        ),
{
    let mut parts = split_path(path, registry.separator());
    if !starts_with(&parts, base) || parts.len() == base.len() {
        return None;
    }
    let n = parts.len();
    let m = base.len();
    let ghost below = texts(parts@).skip(m as int);
    assert(below == texts(parts@).subrange(m as int, n as int));
    if m > 0 && is_ignored(ignored_dirs, base[m - 1].as_str()) {
        return None;
    }
    if any_ignored(ignored_dirs, &parts, m, n) {
        return None;
    }
    let relative = Some(join_range(&parts, m, n, registry.root_marker()));
    assert(below.last() == parts@[n - 1]@);
    match registry.match_entry(parts[n - 1].as_str(), &relative) {
        None => None,
        Some(ecosystem) => {
            assert(below.drop_last() == texts(parts@).subrange(m as int, n - 1));
            let dir = normalize_range(registry, ecosystem, &parts, m, n - 1);
            let file_name = parts.pop().unwrap();
            Some(Hit { ecosystem, dir, file_name })
        },
    }
}

/// What the entry at `path` contributes to a scan of `root`.
pub fn classify(registry: &Registry, ignored_dirs: &Vec<String>, path: &str, root: &str) -> (r:
    Option<Hit>)
    ensures
        option_hit(r) == hit_of(registry@, texts(ignored_dirs@), path@, root@),
{
    let base = split_path(root, registry.separator());
    classify_below(registry, ignored_dirs, path, &base)
}

} // verus!
