//! The closed set of package ecosystems that can be detected.

use vstd::prelude::*;

verus! {

/// A package or build system whose files can be recognised by name.
#[derive(Clone, Copy, Debug, PartialEq, Eq, Hash, Structural)]
pub enum Ecosystem {
    Bun,
    Bundler,
    Cargo,
    Composer,
    Devcontainers,
    Docker,
    DockerCompose,
    DotnetSdk,
    Elm,
    GithubActions,
    Gitsubmodule,
    Gomod,
    Gradle,
    Helm,
    Maven,
    Mix,
    Npm,
    Nuget,
    Pip,
    Pub,
    Swift,
    Terraform,
    Uv,
}

impl Ecosystem {
    /// The identifier under which the ecosystem is written in an update
    /// configuration, in kebab case.
    pub open spec fn spec_name(self) -> Seq<char> {
        match self {
            Ecosystem::Bun => "bun"@,
            Ecosystem::Bundler => "bundler"@,
            Ecosystem::Cargo => "cargo"@,
            Ecosystem::Composer => "composer"@,
            Ecosystem::Devcontainers => "devcontainers"@,
            Ecosystem::Docker => "docker"@,
            Ecosystem::DockerCompose => "docker-compose"@,
            Ecosystem::DotnetSdk => "dotnet-sdk"@,
            Ecosystem::Elm => "elm"@,
            Ecosystem::GithubActions => "github-actions"@,
            Ecosystem::Gitsubmodule => "gitsubmodule"@,
            Ecosystem::Gomod => "gomod"@,
            Ecosystem::Gradle => "gradle"@,
            Ecosystem::Helm => "helm"@,
            Ecosystem::Maven => "maven"@,
            Ecosystem::Mix => "mix"@,
            Ecosystem::Npm => "npm"@,
            Ecosystem::Nuget => "nuget"@,
            Ecosystem::Pip => "pip"@,
            Ecosystem::Pub => "pub"@,
            Ecosystem::Swift => "swift"@,
            Ecosystem::Terraform => "terraform"@,
            Ecosystem::Uv => "uv"@,
        }
    }

    /// Whether the ecosystem's patterns are matched against the path below
    /// the scan root instead of the bare file name.
    pub open spec fn spec_matches_relative_path(self) -> bool {
        self == Ecosystem::GithubActions
    }

    pub fn name(self) -> (r: &'static str)
        ensures
            r@ == self.spec_name(),
    {
        match self {
            Ecosystem::Bun => "bun",
            Ecosystem::Bundler => "bundler",
            Ecosystem::Cargo => "cargo",
            Ecosystem::Composer => "composer",
            Ecosystem::Devcontainers => "devcontainers",
            Ecosystem::Docker => "docker",
            Ecosystem::DockerCompose => "docker-compose",
            Ecosystem::DotnetSdk => "dotnet-sdk",
            Ecosystem::Elm => "elm",
            Ecosystem::GithubActions => "github-actions",
            Ecosystem::Gitsubmodule => "gitsubmodule",
            Ecosystem::Gomod => "gomod",
            Ecosystem::Gradle => "gradle",
            Ecosystem::Helm => "helm",
            Ecosystem::Maven => "maven",
            Ecosystem::Mix => "mix",
            Ecosystem::Npm => "npm",
            Ecosystem::Nuget => "nuget",
            Ecosystem::Pip => "pip",
            Ecosystem::Pub => "pub",
            Ecosystem::Swift => "swift",
            Ecosystem::Terraform => "terraform",
            Ecosystem::Uv => "uv",
        }
    }

    #[verifier::when_used_as_spec(spec_matches_relative_path)]
    pub fn matches_relative_path(self) -> (r: bool)
        ensures
            r == self.spec_matches_relative_path(),
    {
        self == Ecosystem::GithubActions
    }
}

/// No two ecosystems share a name.
pub proof fn lemma_names_distinct(a: Ecosystem, b: Ecosystem)
    requires
        a.spec_name() == b.spec_name(),
    ensures
        a == b,
{
    reveal_strlit("bun");
    reveal_strlit("bundler");
    reveal_strlit("cargo");
    reveal_strlit("composer");
    reveal_strlit("devcontainers");
    reveal_strlit("docker");
    reveal_strlit("docker-compose");
    reveal_strlit("dotnet-sdk");
    reveal_strlit("elm");
    reveal_strlit("github-actions");
    reveal_strlit("gitsubmodule");
    reveal_strlit("gomod");
    reveal_strlit("gradle");
    reveal_strlit("helm");
    reveal_strlit("maven");
    reveal_strlit("mix");
    reveal_strlit("npm");
    reveal_strlit("nuget");
    reveal_strlit("pip");
    reveal_strlit("pub");
    reveal_strlit("swift");
    reveal_strlit("terraform");
    reveal_strlit("uv");
    let x = a.spec_name();
    let y = b.spec_name();
    assert(x.len() == y.len());
    assert(x[0] == y[0]);
    assert(x[1] == y[1]);
    if x.len() > 2 {
        assert(x[2] == y[2]);
    }
    if x.len() > 6 {
        assert(x[6] == y[6]);
    }
}

} // verus!
