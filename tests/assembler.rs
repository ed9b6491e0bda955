use stanmodel::source_set::{join_path, SourceSet};
use stanmodel::stan_model_block_type::StanModelBlockType;
use stanmodel::stan_source_parser::{
    keep_non_empty, resolve_include, AssembleError, StanSourceParser, MAX_NESTING,
};
use stanmodel::directive::{block_opened_by, closes_block, directive_target_of, opens_block};

fn owned(lines: &[&str]) -> Vec<String> {
    lines.iter().map(|s| s.to_string()).collect()
}

fn parser(entry: &str, folders: &[&str]) -> StanSourceParser {
    StanSourceParser {
        filename: entry.to_string(),
        folders: owned(folders),
    }
}

#[test]
fn assembles_data_before_model_with_empty_search_path() {
    let mut sources = SourceSet::new();
    sources.add_file(
        "entry.stan",
        owned(&["data {", "int<lower=0> N;", "}", "model {", "y ~ normal(0,1);", "}"]),
    );
    let model = parser("entry.stan", &[]).assemble(&sources).unwrap();
    assert_eq!(
        model.collect_stan_model_segments(),
        vec!["int<lower=0> N;", "y ~ normal(0,1);"]
    );
    assert!(model.get_functions().is_none());
}

#[test]
fn splices_helper_file_into_functions_block() {
    let mut sources = SourceSet::new();
    sources.add_file(
        "proj/entry.stan",
        owned(&["functions {", "#include \"helpers.stan\"", "}"]),
    );
    sources.add_file(
        "proj/helpers.stan",
        owned(&["real helpers_file_function(real x) { return x; }"]),
    );
    let model = parser("proj/entry.stan", &["proj"]).assemble(&sources).unwrap();
    let functions: Vec<String> = model.get_functions().unwrap().get_code().cloned().collect();
    assert_eq!(
        functions,
        vec!["real helpers_file_function(real x) { return x; }"]
    );
    assert!(!model.has_include_directive());
}

#[test]
fn missing_file_is_unresolved_and_names_folders_tried() {
    let mut sources = SourceSet::new();
    sources.add_file(
        "a/entry.stan",
        owned(&["model {", "#include <missing.stan>", "}"]),
    );
    let r = parser("a/entry.stan", &["a", "b"]).assemble(&sources);
    assert_eq!(
        r,
        Err(AssembleError::UnresolvedInclude {
            path: "missing.stan".to_string(),
            folders: owned(&["a", "b"]),
        })
    );
}

#[test]
fn empty_search_path_never_resolves() {
    let mut sources = SourceSet::new();
    sources.add_file("x.stan", owned(&["data {"]));
    let r = resolve_include(&sources, &Vec::new(), "x.stan");
    assert_eq!(
        r,
        Err(AssembleError::UnresolvedInclude {
            path: "x.stan".to_string(),
            folders: Vec::new(),
        })
    );
}

#[test]
fn first_folder_holding_the_path_wins() {
    let mut sources = SourceSet::new();
    sources.add_file("second/f.stan", owned(&["x;"]));
    sources.add_file("third/f.stan", owned(&["y;"]));
    let folders = owned(&["first", "second", "third"]);
    assert_eq!(
        resolve_include(&sources, &folders, "f.stan"),
        Ok("second/f.stan".to_string())
    );
}

#[test]
fn self_reference_is_cyclic() {
    let mut sources = SourceSet::new();
    sources.add_file(
        "dir/a.stan",
        owned(&["functions {", "#include \"a.stan\"", "}"]),
    );
    let r = parser("dir/a.stan", &["dir"]).assemble(&sources);
    assert_eq!(
        r,
        Err(AssembleError::CyclicInclude {
            chain: owned(&["dir/a.stan", "dir/a.stan"]),
        })
    );
}

#[test]
fn two_file_cycle_is_cyclic() {
    let mut sources = SourceSet::new();
    sources.add_file("m/a.stan", owned(&["model {", "#include \"b.stan\"", "}"]));
    sources.add_file("m/b.stan", owned(&["#include \"a.stan\""]));
    let r = parser("m/a.stan", &["m"]).assemble(&sources);
    assert_eq!(
        r,
        Err(AssembleError::CyclicInclude {
            chain: owned(&["m/a.stan", "m/b.stan", "m/a.stan"]),
        })
    );
}

#[test]
fn diamond_is_not_a_cycle() {
    let mut sources = SourceSet::new();
    sources.add_file(
        "s/a.stan",
        owned(&["model {", "#include \"b.stan\"", "#include \"c.stan\"", "}"]),
    );
    sources.add_file("s/b.stan", owned(&["#include \"d.stan\""]));
    sources.add_file("s/c.stan", owned(&["#include \"d.stan\""]));
    sources.add_file("s/d.stan", owned(&["y ~ normal(0, 1);"]));
    let model = parser("s/a.stan", &["s"]).assemble(&sources).unwrap();
    let lines: Vec<String> = model.get_model().get_code().cloned().collect();
    assert_eq!(lines, vec!["y ~ normal(0, 1);", "y ~ normal(0, 1);"]);
}

#[test]
fn unreadable_entry_file() {
    let sources = SourceSet::new();
    let r = parser("nowhere.stan", &["."]).assemble(&sources);
    assert_eq!(
        r,
        Err(AssembleError::SourceUnreadable {
            file: "nowhere.stan".to_string(),
        })
    );
}

#[test]
fn nesting_beyond_the_limit_fails() {
    let mut sources = SourceSet::new();
    sources.add_file("f0", owned(&["model {", "#include \"f1\""]));
    for i in 1..=MAX_NESTING {
        let next = format!("#include \"f{}\"", i + 1);
        sources.add_file(&format!("f{}", i), vec![next]);
    }
    let r = parser("f0", &[""]).assemble(&sources);
    assert_eq!(
        r,
        Err(AssembleError::IncludeLimitExceeded {
            file: format!("f{}", MAX_NESTING),
        })
    );
}

#[test]
fn included_lines_inherit_context_and_nested_blocks_change_it() {
    let mut sources = SourceSet::new();
    sources.add_file(
        "e",
        owned(&["data {", "int N;", "#include \"part\"", "real z;", "}"]),
    );
    sources.add_file("part", owned(&["int M;", "parameters {", "real mu;"]));
    let model = parser("e", &[""]).assemble(&sources).unwrap();
    let data: Vec<String> = model.get_data().get_code().cloned().collect();
    let params: Vec<String> = model.get_parameters().get_code().cloned().collect();
    assert_eq!(data, vec!["int N;", "int M;"]);
    assert_eq!(params, vec!["real mu;", "real z;"]);
}

#[test]
fn lines_and_directives_outside_any_block_are_skipped() {
    let mut sources = SourceSet::new();
    sources.add_file(
        "e",
        owned(&["stray;", "#include \"missing\"", "model {", "m;", "}", "after;"]),
    );
    let model = parser("e", &[]).assemble(&sources).unwrap();
    assert_eq!(model.collect_stan_model_segments(), vec!["m;"]);
}

#[test]
fn join_path_inserts_one_separator() {
    assert_eq!(join_path("dir", "a.stan"), "dir/a.stan");
    assert_eq!(join_path("dir/", "a.stan"), "dir/a.stan");
    assert_eq!(join_path("", "a.stan"), "a.stan");
}

#[test]
fn line_classification() {
    assert_eq!(block_opened_by("functions {"), Some(StanModelBlockType::Functions));
    assert_eq!(
        block_opened_by("transformed parameters{"),
        Some(StanModelBlockType::TransformedParameters)
    );
    assert_eq!(
        block_opened_by("generated quantities {"),
        Some(StanModelBlockType::GeneratedQuantities)
    );
    assert_eq!(block_opened_by("data  {"), None);
    assert_eq!(block_opened_by("model"), None);
    assert!(opens_block("transformed data {", StanModelBlockType::TransformedData));
    assert!(!opens_block("transformed data {", StanModelBlockType::Data));
    assert!(closes_block("}"));
    assert!(!closes_block("};"));
    assert_eq!(
        directive_target_of("#include \"a/b.stan\""),
        Some("a/b.stan".to_string())
    );
    assert_eq!(
        directive_target_of("#include \t <c.stan>"),
        Some("c.stan".to_string())
    );
    assert_eq!(directive_target_of("#include 'c.stan'"), None);
    assert_eq!(directive_target_of("#include\"c.stan\""), None);
    assert_eq!(directive_target_of("#include \"\""), None);
    assert_eq!(directive_target_of("#include <c.stan\""), None);
}

#[test]
fn keep_non_empty_drops_only_empty_lines() {
    let v = owned(&["a", "", " ", "", "b"]);
    assert_eq!(keep_non_empty(&v), vec!["a", " ", "b"]);
}
