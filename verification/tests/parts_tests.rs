use update_targets::ecosystem::Ecosystem;
use update_targets::glob::{patterns_to_globset, PatternError};
use update_targets::path::{split_path, starts_with};
use update_targets::registry::{all_ecosystems, patterns_for, Registry};
use update_targets::targets::compare_keys;
use update_targets::text::{compare, contains_text, join_all, push_text, same_text, Order};

fn strings(items: &[&str]) -> Vec<String> {
    items.iter().map(|s| s.to_string()).collect()
}

#[test]
fn compare_orders_texts_by_code_point() {
    assert_eq!(compare("", ""), Order::Equal);
    assert_eq!(compare("", "a"), Order::Less);
    assert_eq!(compare("a", ""), Order::Greater);
    assert_eq!(compare("abc", "abd"), Order::Less);
    assert_eq!(compare("abc", "ab"), Order::Greater);
    assert_eq!(compare("Z", "a"), Order::Less);
    assert_eq!(compare("package-lock.json", "package.json"), Order::Less);
    assert_eq!(compare("é", "z"), Order::Greater);
    assert_eq!(compare("\u{ff5e}", "\u{1f600}"), Order::Less);
    assert_eq!(compare("same", "same"), Order::Equal);
}

#[test]
fn compare_agrees_with_the_order_of_strings() {
    let samples = ["", "a", "ab", "b", "B", "a-b", "a.b", "ß", "日本", "x\u{10ffff}", "x"];
    for a in samples {
        for b in samples {
            let expected = if a < b {
                Order::Less
            } else if a == b {
                Order::Equal
            } else {
                Order::Greater
            };
            assert_eq!(compare(a, b), expected);
            assert_eq!(same_text(a, b), a == b);
        }
    }
}

#[test]
fn compare_keys_puts_the_name_before_the_directory() {
    assert_eq!(compare_keys(Ecosystem::Cargo, "z", Ecosystem::Npm, "a"), Order::Less);
    assert_eq!(compare_keys(Ecosystem::Npm, "a", Ecosystem::Cargo, "z"), Order::Greater);
    assert_eq!(compare_keys(Ecosystem::Npm, "a", Ecosystem::Npm, "b"), Order::Less);
    assert_eq!(compare_keys(Ecosystem::Npm, "a", Ecosystem::Npm, "a"), Order::Equal);
    assert_eq!(compare_keys(Ecosystem::Docker, "/", Ecosystem::DockerCompose, "/"), Order::Less);
    assert_eq!(compare_keys(Ecosystem::Mix, "/", Ecosystem::Maven, "/"), Order::Greater);
}

#[test]
fn split_path_drops_empty_components() {
    assert_eq!(split_path("a/b/c.txt", '/'), strings(&["a", "b", "c.txt"]));
    assert_eq!(split_path("/a//b/", '/'), strings(&["a", "b"]));
    assert_eq!(split_path("", '/'), Vec::<String>::new());
    assert_eq!(split_path("///", '/'), Vec::<String>::new());
    assert_eq!(split_path("name", '/'), strings(&["name"]));
    assert_eq!(split_path("a/b", '\\'), strings(&["a/b"]));
    assert_eq!(split_path("é/日本/x", '/'), strings(&["é", "日本", "x"]));
}

#[test]
fn starts_with_compares_whole_components() {
    let parts = strings(&["srv", "repo", "a"]);
    assert!(starts_with(&parts, &strings(&["srv", "repo"])));
    assert!(starts_with(&parts, &Vec::new()));
    assert!(starts_with(&parts, &parts));
    assert!(!starts_with(&parts, &strings(&["srv", "rep"])));
    assert!(!starts_with(&parts, &strings(&["srv", "repo", "a", "b"])));
}

#[test]
fn join_puts_the_separator_between_the_parts() {
    let parts = strings(&["a", "b", "c"]);
    assert_eq!(join_all(&parts, ", "), "a, b, c");
    assert_eq!(join_all(&strings(&["a"]), ", "), "a");
    assert_eq!(join_all(&Vec::new(), ", "), "");
    assert_eq!(join_all(&strings(&["", "x", ""]), "-"), "-x-");
}

#[test]
fn push_text_and_contains_text() {
    let mut list = Vec::new();
    push_text(&mut list, "one");
    push_text(&mut list, "two");
    assert_eq!(list, strings(&["one", "two"]));
    assert!(contains_text(&list, "two"));
    assert!(!contains_text(&list, "tw"));
}

#[test]
fn names_are_kebab_case_and_distinct() {
    let all = all_ecosystems();
    assert_eq!(all.len(), 23);
    let mut names: Vec<&str> = all.iter().map(|e| e.name()).collect();
    names.sort();
    names.dedup();
    assert_eq!(names.len(), 23);
    assert_eq!(Ecosystem::GithubActions.name(), "github-actions");
    assert_eq!(Ecosystem::DockerCompose.name(), "docker-compose");
    assert_eq!(Ecosystem::DotnetSdk.name(), "dotnet-sdk");
    assert_eq!(Ecosystem::Mix.name(), "mix");
    assert_eq!(all[0], Ecosystem::GithubActions);
    assert_eq!(all[22], Ecosystem::Docker);
    assert!(Ecosystem::GithubActions.matches_relative_path());
    assert!(!Ecosystem::Docker.matches_relative_path());
}

#[test]
fn patterns_for_lists_the_globs_of_an_ecosystem() {
    assert_eq!(patterns_for(Ecosystem::Cargo), strings(&["Cargo.{toml,lock}"]));
    assert_eq!(
        patterns_for(Ecosystem::Npm),
        strings(&["package{,-lock}.json", "{deno,yarn}.lock", "pnpm-lock.yaml"])
    );
    assert_eq!(patterns_for(Ecosystem::Pip).len(), 5);
    for ecosystem in all_ecosystems() {
        assert!(!patterns_for(ecosystem).is_empty());
        assert!(patterns_to_globset(&patterns_for(ecosystem)).is_ok());
    }
}

#[test]
fn the_built_in_registry_can_be_made() {
    assert!(Registry::new('/').is_ok());
}

#[test]
fn a_compiled_set_matches_what_its_patterns_match() {
    let set = patterns_to_globset(&strings(&["Gemfile{,.lock}", "*.csproj"])).expect("two globs");
    assert_eq!(set.len(), 2);
    assert!(set.is_match("Gemfile"));
    assert!(set.is_match("Gemfile.lock"));
    assert!(set.is_match("a/b.csproj"));
    assert!(!set.is_match("Gemfile.loc"));
    assert!(!set.is_match("Gemfile{,.lock}"));
    let none = patterns_to_globset(&Vec::new()).expect("no glob");
    assert!(none.is_empty());
    assert!(!none.is_match("anything"));
}

#[test]
fn malformed_pattern_is_reported_with_its_position() {
    let patterns = strings(&["a.{b,c}", "x{y", "[z"]);
    assert_eq!(patterns_to_globset(&patterns).err(), Some(PatternError::Malformed(1)));
    let patterns = strings(&["[a"]);
    assert_eq!(patterns_to_globset(&patterns).err(), Some(PatternError::Malformed(0)));
}

#[test]
fn a_set_too_large_to_compile_is_rejected() {
    let long = "a?".repeat(40_000);
    let patterns: Vec<String> = (0..64).map(|i| format!("{}*{}", long, i)).collect();
    assert_eq!(patterns_to_globset(&patterns).err(), Some(PatternError::SetRejected));
}
