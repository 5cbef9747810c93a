use update_targets::classify::{
    classify, default_ignored_dirs, find_ecosystem, is_ignored, normalize_dir,
};
use update_targets::ecosystem::Ecosystem;
use update_targets::ecosystem::Ecosystem::{
    Bun, Bundler, Cargo, Composer, Devcontainers, Docker, DockerCompose, DotnetSdk, Elm,
    GithubActions, Gitsubmodule, Gomod, Gradle, Helm, Maven, Mix, Npm, Nuget, Pip, Pub, Swift,
    Terraform, Uv,
};
use update_targets::registry::Registry;
use update_targets::report::{found_managers, found_values};
use update_targets::targets::{add_hit, find_targets, insert_name, FoundTarget};
use walkdir::WalkDir;

fn registry() -> Registry {
    Registry::new('/').expect("the built-in patterns compile")
}

fn strings(items: &[&str]) -> Vec<String> {
    items.iter().map(|s| s.to_string()).collect()
}

fn below(root: &str, items: &[&str]) -> Vec<String> {
    items.iter().map(|s| format!("{}/{}", root, s)).collect()
}

fn target(ecosystem: Ecosystem, path: &str, file_names: &[&str]) -> FoundTarget {
    FoundTarget { ecosystem, path: path.to_string(), file_names: strings(file_names) }
}

#[test]
fn is_ignored_test() {
    let ignored = vec![String::from("README.md")];
    for entry in WalkDir::new("README.md").into_iter().filter_map(|entry| entry.ok()) {
        assert!(is_ignored(&ignored, entry.file_name().to_str().unwrap()));
    }
    assert!(is_ignored(&ignored, "README.md"));
}

#[test]
fn deduplication_and_sorting_test() {
    let files = ["package.json", "package-lock.json", "Cargo.toml", ".github/workflows/ci.yml"];
    let root = "/tmp/scanned";
    let mut paths = vec![root.to_string(), format!("{}/.github", root)];
    paths.push(format!("{}/.github/workflows", root));
    paths.extend(below(root, &files));
    let registry = registry();

    let found = find_targets(&registry, &Vec::new(), &paths, root);

    let managers = found_managers(&found);
    let values = found_values(&registry, &found);
    assert_eq!(
        (
            "cargo, github-actions, npm",
            "cargo: / (Cargo.toml)\ngithub-actions: / (ci.yml)\nnpm: / (package-lock.json, package.json)"
        ),
        (managers.as_str(), values.as_str())
    );
}

#[test]
fn find_ecosystem_test() {
    let files = [
        "unknown",
        "a/bun.lock",
        "a/Gemfile", "Gemfile.lock",
        "a/Cargo.toml", "Cargo.lock",
        "a/composer.json", "composer.lock",
        "a/devcontainer.json", ".devcontainer.json", ".devcontainer-lock.json",
        "a/Dockerfile", "Dockerfile.alpine", "local.Dockerfile", "myDockerfile.alpine",
        "a/docker-compose.yml", "mydocker-compose.yml", "docker-compose-prod.yaml",
        "a/global.json",
        "a/elm.json",
        ".gitmodules",
        ".github/workflows/ci.yml",
        "a/go.mod", "go.sum",
        "a/build.gradle", "build.gradle.kts", "gradle.build", "settings.gradle",
        "a/Chart.lock",
        "a/pom.xml",
        "a/mix.exs", "mix.lock",
        "a/package.json", "package-lock.json", "deno.lock", "yarn.lock", "pnpm-lock.yaml",
        "a/b.csproj", "project.json", "packages.config",
        "a/pyproject.toml", "setup.cfg", "setup.py", "requirements.in", "requirements-dev.in", "requirements.txt", "requirements-prod.txt", "poetry.lock", "Pipfile", "Pipfile.lock",
        "a/pubspec.yaml", "pubspec.lock",
        "a/Package.swift", "Package.resolved",
        "a/main.tf", "variables.tf", "terraform.tfstate", ".terraform.lock.hcl",
        "a/uv.lock",
    ];
    let expected = vec![
        None,
        Some(Bun),
        Some(Bundler), Some(Bundler),
        Some(Cargo), Some(Cargo),
        Some(Composer), Some(Composer),
        Some(Devcontainers), Some(Devcontainers), Some(Devcontainers),
        Some(Docker), Some(Docker), Some(Docker), Some(Docker),
        Some(DockerCompose), Some(DockerCompose), Some(DockerCompose),
        Some(DotnetSdk),
        Some(Elm),
        Some(Gitsubmodule),
        Some(GithubActions),
        Some(Gomod), Some(Gomod),
        Some(Gradle), Some(Gradle), Some(Gradle), Some(Gradle),
        Some(Helm),
        Some(Maven),
        Some(Mix), Some(Mix),
        Some(Npm), Some(Npm), Some(Npm), Some(Npm), Some(Npm),
        Some(Nuget), Some(Nuget), Some(Nuget),
        Some(Pip), Some(Pip), Some(Pip), Some(Pip), Some(Pip), Some(Pip), Some(Pip), Some(Pip), Some(Pip), Some(Pip),
        Some(Pub), Some(Pub),
        Some(Swift), Some(Swift),
        Some(Terraform), Some(Terraform), Some(Terraform), Some(Terraform),
        Some(Uv)
    ];
    let registry = registry();
    let results: Vec<_> =
        files.into_iter().map(|f| find_ecosystem(&registry, f, &String::new())).collect();
    assert_eq!(results, expected);
}

#[test]
fn three_targets_in_the_order_of_their_names() {
    let root = "repo";
    let paths =
        below(root, &["package.json", "package-lock.json", "Cargo.toml", ".github/workflows/ci.yml"]);
    let found = find_targets(&registry(), &default_ignored_dirs(), &paths, root);
    assert_eq!(
        found,
        vec![
            target(Cargo, "/", &["Cargo.toml"]),
            target(GithubActions, "/", &["ci.yml"]),
            target(Npm, "/", &["package-lock.json", "package.json"]),
        ]
    );
}

#[test]
fn an_empty_tree_has_no_targets() {
    let registry = registry();
    assert!(find_targets(&registry, &default_ignored_dirs(), &Vec::new(), "repo").is_empty());
    let only_root = strings(&["repo"]);
    assert!(find_targets(&registry, &default_ignored_dirs(), &only_root, "repo").is_empty());
}

#[test]
fn an_unknown_file_changes_nothing() {
    let registry = registry();
    let with = strings(&["repo/unknown", "repo/Cargo.toml", "repo/src/unknown"]);
    let without = strings(&["repo/Cargo.toml"]);
    let found = find_targets(&registry, &Vec::new(), &with, "repo");
    assert_eq!(found, find_targets(&registry, &Vec::new(), &without, "repo"));
    assert_eq!(found, vec![target(Cargo, "/", &["Cargo.toml"])]);
    assert!(find_targets(&registry, &Vec::new(), &strings(&["repo/unknown"]), "repo").is_empty());
}

#[test]
fn files_below_an_ignored_name_are_never_reported() {
    let paths = strings(&[
        "repo/node_modules/left-pad/package.json",
        "repo/a/b/target/debug/Cargo.lock",
        "repo/.git/modules/x/go.mod",
        "repo/a/go.mod",
    ]);
    let found = find_targets(&registry(), &default_ignored_dirs(), &paths, "repo");
    assert_eq!(found, vec![target(Gomod, "a", &["go.mod"])]);
    let all = find_targets(&registry(), &Vec::new(), &paths, "repo");
    assert_eq!(all.len(), 4);
}

#[test]
fn an_ignored_name_hides_a_file_of_that_name_too() {
    let ignored = strings(&["Cargo.toml"]);
    let paths = strings(&["repo/Cargo.toml", "repo/Cargo.lock"]);
    let found = find_targets(&registry(), &ignored, &paths, "repo");
    assert_eq!(found, vec![target(Cargo, "/", &["Cargo.lock"])]);
}

#[test]
fn a_root_with_an_ignored_name_yields_nothing() {
    let paths = strings(&["work/target/Cargo.toml"]);
    let found = find_targets(&registry(), &default_ignored_dirs(), &paths, "work/target");
    assert!(found.is_empty());
    let kept = find_targets(&registry(), &default_ignored_dirs(), &paths, "work/target2");
    assert!(kept.is_empty());
    let inside = strings(&["work/crate/Cargo.toml"]);
    assert_eq!(find_targets(&registry(), &default_ignored_dirs(), &inside, "work/crate").len(), 1);
}

#[test]
fn entries_outside_the_root_are_passed_over() {
    let paths = strings(&["elsewhere/Cargo.toml", "repo", "repo/Cargo.toml"]);
    let found = find_targets(&registry(), &Vec::new(), &paths, "repo");
    assert_eq!(found, vec![target(Cargo, "/", &["Cargo.toml"])]);
    assert!(classify(&registry(), &Vec::new(), "elsewhere/Cargo.toml", "repo").is_none());
    assert!(classify(&registry(), &Vec::new(), "repo", "repo").is_none());
}

#[test]
fn a_manifest_and_its_lockfile_share_one_target() {
    let paths = strings(&[
        "repo/web/package.json",
        "repo/web/package-lock.json",
        "repo/web/yarn.lock",
        "repo/api/package.json",
    ]);
    let found = find_targets(&registry(), &Vec::new(), &paths, "repo");
    assert_eq!(
        found,
        vec![
            target(Npm, "api", &["package.json"]),
            target(Npm, "web", &["package-lock.json", "package.json", "yarn.lock"]),
        ]
    );
}

#[test]
fn the_same_hit_twice_is_recorded_once() {
    let paths = strings(&["repo/Cargo.toml", "repo/Cargo.toml", "repo//Cargo.toml"]);
    let found = find_targets(&registry(), &Vec::new(), &paths, "repo");
    assert_eq!(found, vec![target(Cargo, "/", &["Cargo.toml"])]);
}

#[test]
fn the_output_does_not_depend_on_the_order_of_the_walk() {
    let forward = strings(&[
        "repo/b/Cargo.toml",
        "repo/a/Cargo.lock",
        "repo/a/Cargo.toml",
        "repo/Dockerfile",
        "repo/a/pom.xml",
        "repo/docker-compose.yml",
    ]);
    let mut backward = forward.clone();
    backward.reverse();
    let registry = registry();
    let first = find_targets(&registry, &Vec::new(), &forward, "repo");
    let second = find_targets(&registry, &Vec::new(), &backward, "repo");
    let third = find_targets(&registry, &Vec::new(), &forward, "repo");
    assert_eq!(first, second);
    assert_eq!(first, third);
    assert_eq!(
        first,
        vec![
            target(Cargo, "a", &["Cargo.lock", "Cargo.toml"]),
            target(Cargo, "b", &["Cargo.toml"]),
            target(Docker, "/", &["Dockerfile"]),
            target(DockerCompose, "/", &["docker-compose.yml"]),
            target(Maven, "a", &["pom.xml"]),
        ]
    );
    assert_eq!(found_values(&registry, &first), found_values(&registry, &second));
}

#[test]
fn workflows_are_filed_at_the_root_at_any_depth() {
    let paths = strings(&[
        "repo/.github/workflows/ci.yml",
        "repo/.github/workflows/nested/deep/release.yaml",
        "repo/sub/.github/workflows/other.yml",
    ]);
    let found = find_targets(&registry(), &Vec::new(), &paths, "repo");
    assert_eq!(found, vec![target(GithubActions, "/", &["ci.yml", "release.yaml"])]);
}

#[test]
fn a_workflow_is_recognised_by_its_place_below_the_root() {
    let registry = registry();
    assert_eq!(
        find_ecosystem(&registry, "/srv/repo/.github/workflows/ci.yml", "/srv/repo"),
        Some(GithubActions)
    );
    assert_eq!(find_ecosystem(&registry, "/srv/repo/.github/workflows/ci.yml", "/srv"), None);
    assert_eq!(find_ecosystem(&registry, "/srv/repo/.github/workflows/ci.yml", "/other"), None);
    assert_eq!(find_ecosystem(&registry, "/srv/repo/ci.yml", "/srv/repo"), None);
    assert_eq!(find_ecosystem(&registry, "", ""), None);
    assert_eq!(find_ecosystem(&registry, "///", ""), None);
}

#[test]
fn a_workflow_named_like_another_ecosystem_is_a_workflow() {
    let registry = registry();
    assert_eq!(
        find_ecosystem(&registry, ".github/workflows/docker-compose.yml", ""),
        Some(GithubActions)
    );
    assert_eq!(find_ecosystem(&registry, "ci/docker-compose.yml", ""), Some(DockerCompose));
}

#[test]
fn the_broadest_pattern_is_tried_last() {
    let registry = registry();
    assert_eq!(find_ecosystem(&registry, "Dockerfile.csproj", ""), Some(Nuget));
    assert_eq!(find_ecosystem(&registry, "requirements-Dockerfile.txt", ""), Some(Pip));
    assert_eq!(find_ecosystem(&registry, "Dockerfile.txt", ""), Some(Docker));
}

#[test]
fn devcontainer_configuration_is_filed_at_the_root() {
    let paths = strings(&[
        "repo/.devcontainer/devcontainer.json",
        "repo/.devcontainer/python/devcontainer-lock.json",
        "repo/.devcontainer.json",
        "repo/tools/.devcontainer/devcontainer.json",
        "repo/.devcontainers/devcontainer.json",
    ]);
    let found = find_targets(&registry(), &Vec::new(), &paths, "repo");
    assert_eq!(
        found,
        vec![
            target(Devcontainers, ".devcontainers", &["devcontainer.json"]),
            target(
                Devcontainers,
                "/",
                &[".devcontainer.json", "devcontainer-lock.json", "devcontainer.json"]
            ),
            target(Devcontainers, "tools/.devcontainer", &["devcontainer.json"]),
        ]
    );
}

#[test]
fn normalize_dir_follows_the_rules_of_each_ecosystem() {
    let registry = registry();
    assert_eq!(normalize_dir(&registry, Devcontainers, ".devcontainer/python"), "/");
    assert_eq!(normalize_dir(&registry, Devcontainers, ".devcontainer"), "/");
    assert_eq!(normalize_dir(&registry, Devcontainers, ".devcontainers"), ".devcontainers");
    assert_eq!(normalize_dir(&registry, Devcontainers, "a/.devcontainer"), "a/.devcontainer");
    assert_eq!(normalize_dir(&registry, Cargo, ".devcontainer/python"), ".devcontainer/python");
    assert_eq!(normalize_dir(&registry, GithubActions, ".github/workflows/deep"), "/");
    assert_eq!(normalize_dir(&registry, Cargo, ""), "/");
    assert_eq!(normalize_dir(&registry, Cargo, "a/b/c"), "a/b/c");
}

#[test]
fn classify_gives_ecosystem_directory_and_file_name() {
    let registry = registry();
    let hit = classify(&registry, &default_ignored_dirs(), "/srv/repo/a/b/pom.xml", "/srv/repo/")
        .expect("a manifest below the root");
    assert_eq!(hit.ecosystem, Maven);
    assert_eq!(hit.dir, "a/b");
    assert_eq!(hit.file_name, "pom.xml");
    let at_root = classify(&registry, &default_ignored_dirs(), "./uv.lock", ".").expect("a lockfile");
    assert_eq!((at_root.ecosystem, at_root.dir.as_str(), at_root.file_name.as_str()), (Uv, "/", "uv.lock"));
    assert!(classify(&registry, &default_ignored_dirs(), "./target/uv.lock", ".").is_none());
    assert!(classify(&registry, &default_ignored_dirs(), "./notes.txt", ".").is_none());
}

#[test]
fn the_separator_is_the_registry_s() {
    let registry = Registry::new('\\').expect("the built-in patterns compile");
    assert_eq!(registry.separator(), '\\');
    assert_eq!(registry.root_marker(), "\\");
    let paths = strings(&["C:\\repo\\Cargo.toml", "C:\\repo\\a\\b\\go.mod"]);
    let found = find_targets(&registry, &Vec::new(), &paths, "C:\\repo");
    assert_eq!(found, vec![target(Cargo, "\\", &["Cargo.toml"]), target(Gomod, "a\\b", &["go.mod"])]);
    assert_eq!(found_values(&registry, &found), "cargo: / (Cargo.toml)\ngomod: /a\\b (go.mod)");
}

#[test]
fn default_ignored_dirs_are_the_usual_three() {
    assert_eq!(default_ignored_dirs(), strings(&[".git", "target", "node_modules"]));
    assert!(is_ignored(&default_ignored_dirs(), "node_modules"));
    assert!(!is_ignored(&default_ignored_dirs(), "node_modules/x"));
    assert!(!is_ignored(&default_ignored_dirs(), "src"));
    assert!(!is_ignored(&Vec::new(), ".git"));
}

#[test]
fn insert_name_keeps_the_names_sorted_and_single() {
    let mut names: Vec<String> = Vec::new();
    for name in ["m", "b", "z", "b", "a", "mm", "m"] {
        insert_name(&mut names, name.to_string());
    }
    assert_eq!(names, strings(&["a", "b", "m", "mm", "z"]));
}

#[test]
fn add_hit_joins_or_opens_a_target() {
    let registry = registry();
    let mut targets: Vec<FoundTarget> = Vec::new();
    for path in ["r/x/go.sum", "r/Cargo.toml", "r/x/go.mod", "r/a/go.mod"] {
        add_hit(&mut targets, classify(&registry, &Vec::new(), path, "r").unwrap());
    }
    assert_eq!(
        targets,
        vec![
            target(Cargo, "/", &["Cargo.toml"]),
            target(Gomod, "a", &["go.mod"]),
            target(Gomod, "x", &["go.mod", "go.sum"]),
        ]
    );
}

#[test]
fn found_managers_names_each_ecosystem_once() {
    let found = vec![
        target(Cargo, "a", &["Cargo.toml"]),
        target(Cargo, "b", &["Cargo.toml"]),
        target(Npm, "/", &["package.json"]),
        target(Cargo, "c", &["Cargo.toml"]),
    ];
    assert_eq!(found_managers(&found), "cargo, npm");
    assert_eq!(found_managers(&Vec::new()), "");
}

#[test]
fn found_values_writes_one_line_for_each_target() {
    let registry = registry();
    let found = vec![
        target(Cargo, "a/b", &["Cargo.lock", "Cargo.toml"]),
        target(DockerCompose, "/", &["docker-compose.yml"]),
    ];
    assert_eq!(
        found_values(&registry, &found),
        "cargo: /a/b (Cargo.lock, Cargo.toml)\ndocker-compose: / (docker-compose.yml)"
    );
    assert_eq!(found_values(&registry, &Vec::new()), "");
}
