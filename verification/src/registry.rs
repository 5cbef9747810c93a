//! The pattern registry: which file names signal which ecosystem, and in
//! which order the ecosystems are tried.

use crate::ecosystem::Ecosystem;
use crate::glob::{
    all_compile, glob_set_builds, glob_set_matches, glob_set_patterns, patterns_to_globset,
    refused_as, set_is_match, PatternError,
};
use crate::text::{char_text, push_text, texts};
use vstd::prelude::*;

verus! {

/// The ecosystems in the order in which they are tried. The one that is
/// bound to a place in the tree comes first and the one with the broadest
/// pattern last; the others follow the alphabet.
pub open spec fn spec_all_ecosystems() -> Seq<Ecosystem> {
    seq![
        Ecosystem::GithubActions,
        Ecosystem::Bun,
        Ecosystem::Bundler,
        Ecosystem::Cargo,
        Ecosystem::Composer,
        Ecosystem::Devcontainers,
        Ecosystem::DockerCompose,
        Ecosystem::DotnetSdk,
        Ecosystem::Elm,
        Ecosystem::Gitsubmodule,
        Ecosystem::Gomod,
        Ecosystem::Gradle,
        Ecosystem::Helm,
        Ecosystem::Maven,
        Ecosystem::Mix,
        Ecosystem::Npm,
        Ecosystem::Nuget,
        Ecosystem::Pip,
        Ecosystem::Pub,
        Ecosystem::Swift,
        Ecosystem::Terraform,
        Ecosystem::Uv,
        Ecosystem::Docker,
    ]
}

/// The glob patterns that signal an ecosystem.
pub open spec fn spec_patterns_for(ecosystem: Ecosystem) -> Seq<Seq<char>> {
    match ecosystem {
        Ecosystem::Bun => seq!["bun.lock"@],
        Ecosystem::Bundler => seq!["Gemfile{,.lock}"@],
        Ecosystem::Cargo => seq!["Cargo.{toml,lock}"@],
        Ecosystem::Composer => seq!["composer.{json,lock}"@],
        Ecosystem::Devcontainers => seq!["{,.}devcontainer{,-lock}.json"@],
        Ecosystem::Docker => seq!["*Dockerfile*"@],
        Ecosystem::DockerCompose => seq!["*docker-compose*.y{,a}ml"@],
        Ecosystem::DotnetSdk => seq!["global.json"@],
        Ecosystem::Elm => seq!["elm.json"@],
        Ecosystem::GithubActions => seq![".github/workflows/*.y{,a}ml"@],
        Ecosystem::Gitsubmodule => seq![".gitmodules"@],
        Ecosystem::Gomod => seq!["go.{mod,sum}"@],
        Ecosystem::Gradle => seq![
            "build.gradle{,.kts}"@,
            "gradle.build"@,
            "settings.gradle"@,
        ],
        Ecosystem::Helm => seq!["Chart.lock"@],
        Ecosystem::Maven => seq!["pom.xml"@],
        Ecosystem::Mix => seq!["mix.{exs,lock}"@],
        Ecosystem::Npm => seq!["package{,-lock}.json"@, "{deno,yarn}.lock"@, "pnpm-lock.yaml"@],
        Ecosystem::Nuget => seq!["*.csproj"@, "project.json"@, "packages.config"@],
        Ecosystem::Pip => seq![
            "pyproject.toml"@,
            "setup.{cfg,py}"@,
            "requirements*.{in,txt}"@,
            "poetry.lock"@,
            "Pipfile{,.lock}"@,
        ],
        Ecosystem::Pub => seq!["pubspec.{yaml,lock}"@],
        Ecosystem::Swift => seq!["Package.{swift,resolved}"@],
        Ecosystem::Terraform => seq![
            "{main,variables}.tf"@,
            "terraform.tfstate"@,
            ".terraform.lock.hcl"@,
        ],
        Ecosystem::Uv => seq!["uv.lock"@],
    }
}

/// One ecosystem with its patterns, as the contracts see it.
pub struct RuleView {
    pub ecosystem: Ecosystem,
    pub patterns: Seq<Seq<char>>,
}

/// The registry as the contracts see it.
pub struct RegistryView {
    pub rules: Seq<RuleView>,
    pub separator: char,
}

/// The rules of the built-in registry.
pub open spec fn standard_rules() -> Seq<RuleView> {
    Seq::new(
        spec_all_ecosystems().len(),
        |i: int|
            RuleView {
                ecosystem: spec_all_ecosystems()[i],
                patterns: spec_patterns_for(spec_all_ecosystems()[i]),
            },
    )
}

/// A list of patterns from which a matcher can be made.
pub open spec fn buildable(patterns: Seq<Seq<char>>) -> bool {
    all_compile(patterns) && glob_set_builds(patterns)
}

/// Whether a rule accepts an entry. An ecosystem that is bound to a place
/// is matched against the entry's path below the scan root, and accepts
/// nothing that lies outside the root; every other ecosystem is matched
/// against the bare file name.
pub open spec fn rule_matches(rule: RuleView, file_name: Seq<char>, relative: Option<Seq<char>>) -> bool {
    if rule.ecosystem.spec_matches_relative_path() {
        relative is Some && glob_set_matches(rule.patterns, relative->0)
    } else {
        glob_set_matches(rule.patterns, file_name)
    }
}

/// The ecosystem of the first rule, from position `from` on, that accepts
/// the entry.
pub open spec fn first_match(
    rules: Seq<RuleView>,
    file_name: Seq<char>,
    relative: Option<Seq<char>>,
    from: int,
) -> Option<Ecosystem>
    decreases rules.len() - from,
{
    if from < 0 || from >= rules.len() {
        None
    } else if rule_matches(rules[from], file_name, relative) {
        Some(rules[from].ecosystem)
    } else {
        first_match(rules, file_name, relative, from + 1)
    }
}

/// An entry that exactly one rule accepts is given that rule's ecosystem,
/// wherever the rule stands in the registry.
pub proof fn lemma_single_match(
    rules: Seq<RuleView>,
    file_name: Seq<char>,
    relative: Option<Seq<char>>,
    k: int,
    from: int,
)
    requires
        0 <= from <= k < rules.len(),
        rule_matches(rules[k], file_name, relative),
        forall|j: int|
            0 <= j < rules.len() && j != k ==> !rule_matches(#[trigger] rules[j], file_name, relative),
    ensures
        first_match(rules, file_name, relative, from) == Some(rules[k].ecosystem),
    decreases k - from,
{
    if from < k {
        lemma_single_match(rules, file_name, relative, k, from + 1);
    }
}

/// An entry that no rule accepts belongs to no ecosystem.
pub proof fn lemma_no_match(
    rules: Seq<RuleView>,
    file_name: Seq<char>,
    relative: Option<Seq<char>>,
    from: int,
)
    requires
        forall|j: int|
            0 <= j < rules.len() ==> !rule_matches(#[trigger] rules[j], file_name, relative),
    ensures
        first_match(rules, file_name, relative, from) is None,
    decreases rules.len() - from,
{
    if 0 <= from < rules.len() {
        lemma_no_match(rules, file_name, relative, from + 1);
    }
}

/// Why the built-in registry could not be made.
#[derive(Clone, Copy, Debug, PartialEq, Eq, Structural)]
pub struct RegistryError {
    /// The first ecosystem, in the order of trial, whose patterns failed.
    pub ecosystem: Ecosystem,
    pub cause: PatternError,
}

/// The built-in registry cannot be made: the ecosystem at position `i` of
/// the order of trial is the first whose patterns are refused, for `cause`.
pub open spec fn standard_fails_at(i: int, cause: PatternError) -> bool {
    &&& 0 <= i < spec_all_ecosystems().len()
    &&& forall|j: int| 0 <= j < i ==> buildable(#[trigger] standard_rules()[j].patterns)
    &&& refused_as(standard_rules()[i].patterns, cause)
}

/// The text of an optional string.
pub open spec fn option_text(s: Option<String>) -> Option<Seq<char>> {
    match s {
        Some(t) => Some(t@),
        None => None,
    }
}

/// One ecosystem with the matcher compiled from its patterns.
pub struct Rule {
    ecosystem: Ecosystem,
    matcher: globset::GlobSet,
}

impl View for Rule {
    type V = RuleView;

    closed spec fn view(&self) -> RuleView {
        RuleView { ecosystem: self.ecosystem, patterns: glob_set_patterns(self.matcher) }
    }
}

impl Rule {
    /// Whether the rule accepts an entry with this file name and this path
    /// below the scan root.
    pub fn accepts(&self, file_name: &str, relative: &Option<String>) -> (r: bool)
        ensures
            r == rule_matches(self@, file_name@, option_text(*relative)),
    {
        if self.ecosystem.matches_relative_path() {
            match relative {
                Some(path) => set_is_match(&self.matcher, path.as_str()),
                None => false,
            }
        } else {
            set_is_match(&self.matcher, file_name)
        }
    }
}

/// The explicit configuration of a scan: the rules in their order of trial
/// and the character that separates the components of a path.
pub struct Registry {
    rules: Vec<Rule>,
    separator: char,
    marker: String,
}

impl View for Registry {
    type V = RegistryView;

    closed spec fn view(&self) -> RegistryView {
        RegistryView {
            rules: Seq::new(self.rules@.len(), |i: int| self.rules@[i]@),
            separator: self.separator,
        }
    }
}

impl Registry {
    #[verifier::type_invariant]
    spec fn marker_is_separator(self) -> bool {
        self.marker@ == seq![self.separator]
    }

    /// Builds the registry of all known ecosystems for paths whose
    /// components are separated by `separator`. This succeeds exactly when
    /// every built-in list of patterns compiles.
    pub fn new(separator: char) -> (r: Result<Registry, RegistryError>)
        ensures
            match r {
                Ok(registry) => {
                    &&& registry@ == RegistryView { rules: standard_rules(), separator }
                    &&& forall|i: int|
                        0 <= i < standard_rules().len() ==> buildable(
                            #[trigger] standard_rules()[i].patterns,
                        )
                },
                Err(e) => exists|i: int|
                    standard_fails_at(i, e.cause) && spec_all_ecosystems()[i] == e.ecosystem,
            },
    {
        let all = all_ecosystems();
        let mut rules: Vec<Rule> = Vec::new();
        let mut i: usize = 0;
        while i < all.len()
            invariant
                i <= all.len(),
                all@ == spec_all_ecosystems(),
                rules@.len() == i,
                forall|j: int| 0 <= j < i ==> (#[trigger] rules@[j])@ == standard_rules()[j],
                forall|j: int| 0 <= j < i ==> buildable(#[trigger] standard_rules()[j].patterns),
            decreases all.len() - i,
        {
            let ecosystem = all[i];
            let patterns = patterns_for(ecosystem);
            match patterns_to_globset(&patterns) {
                Ok(matcher) => {
                    rules.push(Rule { ecosystem, matcher });
                },
                Err(cause) => {
                    assert(standard_fails_at(i as int, cause));
                    return Err(RegistryError { ecosystem, cause });
                },
            }
            i += 1;
        }
        let registry = Registry { rules, separator, marker: char_text(separator) };
        assert(registry@.rules =~= standard_rules());
        Ok(registry)
    }

    /// The character that separates the components of a path.
    pub fn separator(&self) -> (r: char)
        ensures
            r == self@.separator,
    {
        self.separator
    }

    /// The directory of a target that lives at the scan root: the
    /// separator alone.
    pub fn root_marker(&self) -> (r: &str)
        ensures
            r@ == seq![self@.separator],
    {
        proof {
            use_type_invariant(self);
        }
        self.marker.as_str()
    }

    /// The ecosystem of the first rule that accepts an entry with this file
    /// name and this path below the scan root.
    pub fn match_entry(&self, file_name: &str, relative: &Option<String>) -> (r: Option<Ecosystem>)
        ensures
            r == first_match(self@.rules, file_name@, option_text(*relative), 0),
    {
        let mut i: usize = 0;
        while i < self.rules.len()
            invariant
                i <= self.rules.len(),
                first_match(self@.rules, file_name@, option_text(*relative), 0) == first_match(
                    self@.rules,
                    file_name@,
                    option_text(*relative),
                    i as int,
                ),
            decreases self.rules.len() - i,
        {
            if self.rules[i].accepts(file_name, relative) {
                return Some(self.rules[i].ecosystem);
            }
            i += 1;
        }
        None
    }
}

/// The ecosystems in the order in which they are tried.
pub fn all_ecosystems() -> (r: Vec<Ecosystem>)
    ensures
        r@ == spec_all_ecosystems(),
{
    let r = vec![
        Ecosystem::GithubActions,
        Ecosystem::Bun,
        Ecosystem::Bundler,
        Ecosystem::Cargo,
        Ecosystem::Composer,
        Ecosystem::Devcontainers,
        Ecosystem::DockerCompose,
        Ecosystem::DotnetSdk,
        Ecosystem::Elm,
        Ecosystem::Gitsubmodule,
        Ecosystem::Gomod,
        Ecosystem::Gradle,
        Ecosystem::Helm,
        Ecosystem::Maven,
        Ecosystem::Mix,
        Ecosystem::Npm,
        Ecosystem::Nuget,
        Ecosystem::Pip,
        Ecosystem::Pub,
        Ecosystem::Swift,
        Ecosystem::Terraform,
        Ecosystem::Uv,
        Ecosystem::Docker,
    ];
    assert(r@ =~= spec_all_ecosystems());
    r
}

/// The glob patterns that signal an ecosystem.
pub fn patterns_for(ecosystem: Ecosystem) -> (r: Vec<String>)
    ensures
        texts(r@) == spec_patterns_for(ecosystem),
{
    let mut r: Vec<String> = Vec::new();
    assert(texts(r@) =~= Seq::<Seq<char>>::empty());
    match ecosystem {
        Ecosystem::Bun => {
            push_text(&mut r, "bun.lock");
        },
        Ecosystem::Bundler => {
            push_text(&mut r, "Gemfile{,.lock}");
        },
        Ecosystem::Cargo => {
            push_text(&mut r, "Cargo.{toml,lock}");
        },
        Ecosystem::Composer => {
            push_text(&mut r, "composer.{json,lock}");
        },
        Ecosystem::Devcontainers => {
            push_text(&mut r, "{,.}devcontainer{,-lock}.json");
        },
        Ecosystem::Docker => {
            push_text(&mut r, "*Dockerfile*");
        },
        Ecosystem::DockerCompose => {
            push_text(&mut r, "*docker-compose*.y{,a}ml");
        },
        Ecosystem::DotnetSdk => {
            push_text(&mut r, "global.json");
        },
        Ecosystem::Elm => {
            push_text(&mut r, "elm.json");
        },
        Ecosystem::GithubActions => {
            push_text(&mut r, ".github/workflows/*.y{,a}ml");
        },
        Ecosystem::Gitsubmodule => {
            push_text(&mut r, ".gitmodules");
        },
        Ecosystem::Gomod => {
            push_text(&mut r, "go.{mod,sum}");
        },
        Ecosystem::Gradle => {
            push_text(&mut r, "build.gradle{,.kts}");
            push_text(&mut r, "gradle.build");
            push_text(&mut r, "settings.gradle");
        },
        Ecosystem::Helm => {
            push_text(&mut r, "Chart.lock");
        },
        Ecosystem::Maven => {
            push_text(&mut r, "pom.xml");
        },
        Ecosystem::Mix => {
            push_text(&mut r, "mix.{exs,lock}");
        },
        Ecosystem::Npm => {
            push_text(&mut r, "package{,-lock}.json");
            push_text(&mut r, "{deno,yarn}.lock");
            push_text(&mut r, "pnpm-lock.yaml");
        },
        Ecosystem::Nuget => {
            push_text(&mut r, "*.csproj");
            push_text(&mut r, "project.json");
            push_text(&mut r, "packages.config");
        },
        Ecosystem::Pip => {
            push_text(&mut r, "pyproject.toml");
            push_text(&mut r, "setup.{cfg,py}");
            push_text(&mut r, "requirements*.{in,txt}");
            push_text(&mut r, "poetry.lock");
            push_text(&mut r, "Pipfile{,.lock}");
        },
        Ecosystem::Pub => {
            push_text(&mut r, "pubspec.{yaml,lock}");
        },
        Ecosystem::Swift => {
            push_text(&mut r, "Package.{swift,resolved}");
        },
        Ecosystem::Terraform => {
            push_text(&mut r, "{main,variables}.tf");
            push_text(&mut r, "terraform.tfstate");
            push_text(&mut r, ".terraform.lock.hcl");
        },
        Ecosystem::Uv => {
            push_text(&mut r, "uv.lock");
        },
    }
    assert(texts(r@) =~= spec_patterns_for(ecosystem));
    r
}

} // verus!
