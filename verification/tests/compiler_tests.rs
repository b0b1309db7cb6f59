use workflow_processor::compile::{compile, validate, CompileError, ParseIssue, SourceFile};
use workflow_processor::emit::{emit_data_artifact, emit_search_index_artifact};
use workflow_processor::model::WorkflowCollection;
use workflow_processor::schema::emit_schema_artifact;
use workflow_processor::text::slugify;

fn file(path: &str, text: &str) -> SourceFile {
    SourceFile { path: path.to_string(), text: text.to_string() }
}

fn compile_ok(files: Vec<SourceFile>) -> WorkflowCollection {
    compile(&files).expect("compilation should succeed")
}

#[test]
fn slug_from_spaced_file_name() {
    let c = compile_ok(vec![file("specs/Git Status.yaml", "{\"command\":\"git status\"}")]);
    assert_eq!(c.workflows.len(), 1);
    assert_eq!(c.workflows[0].slug, "git-status");
}

#[test]
fn slug_from_underscored_file_name() {
    let c = compile_ok(vec![file("specs/deploy_prod.yml", "{\"command\":\"deploy\"}")]);
    assert_eq!(c.workflows[0].slug, "deploy-prod");
}

#[test]
fn slugify_collapses_and_trims() {
    assert_eq!(slugify("Git Status"), "git-status");
    assert_eq!(slugify("deploy_prod"), "deploy-prod");
    assert_eq!(slugify("--Weird__  Name--"), "weird-name");
    assert_eq!(slugify("A1 b2"), "a1-b2");
    assert_eq!(slugify(""), "");
    assert_eq!(slugify("___"), "");
}

#[test]
fn name_defaults_to_slug() {
    let c = compile_ok(vec![file("specs/Git Status.yaml", "{\"command\":\"git status\"}")]);
    assert_eq!(c.workflows[0].name, "git-status");
    assert_eq!(c.workflows[0].name, c.workflows[0].slug);
}

#[test]
fn explicit_name_is_kept() {
    let c = compile_ok(vec![file("specs/a.yaml", "{\"name\":\"My Flow\",\"command\":\"x\"}")]);
    assert_eq!(c.workflows[0].name, "My Flow");
    assert_eq!(c.workflows[0].slug, "a");
}

#[test]
fn required_defaults_to_true() {
    let text = "{\"command\":\"x\",\"arguments\":[{\"name\":\"env\"},{\"name\":\"region\",\"required\":false}]}";
    let c = compile_ok(vec![file("specs/a.yaml", text)]);
    let args = c.workflows[0].arguments.as_ref().unwrap();
    assert_eq!(args[0].name, "env");
    assert_eq!(args[0].required, Some(true));
    assert_eq!(args[1].required, Some(false));
}

#[test]
fn command_defaults_to_empty() {
    let c = compile_ok(vec![file("specs/a.yaml", "{}")]);
    assert_eq!(c.workflows[0].command, "");
}

#[test]
fn wrong_shape_fields_are_absent() {
    let text = "{\"command\":\"x\",\"tags\":\"not-a-list\",\"description\":5,\"shells\":[\"zsh\",7]}";
    let c = compile_ok(vec![file("specs/a.yaml", text)]);
    assert_eq!(c.workflows[0].tags, None);
    assert_eq!(c.workflows[0].description, None);
    assert_eq!(c.workflows[0].shells, None);
}

#[test]
fn unknown_fields_are_ignored() {
    let text = "{\"command\":\"x\",\"extra\":{\"deep\":[1,2,{\"a\":true}]}}";
    let c = compile_ok(vec![file("specs/a.yaml", text)]);
    assert_eq!(c.workflows[0].command, "x");
}

#[test]
fn non_mapping_top_level_fails() {
    let r = compile(&vec![file("specs/a.yaml", "[1,2]")]);
    match r {
        Err(CompileError::Manifests { errors, compiled }) => {
            assert_eq!(errors.len(), 1);
            assert_eq!(errors[0].path, "specs/a.yaml");
            assert_eq!(errors[0].issue, ParseIssue::NotAMapping);
            assert_eq!(compiled.len(), 0);
        },
        other => panic!("expected manifest errors, got {:?}", other),
    }
}

#[test]
fn syntax_error_reports_position() {
    let r = compile(&vec![file("specs/a.yaml", "{nope")]);
    match r {
        Err(CompileError::Manifests { errors, .. }) => {
            assert_eq!(errors.len(), 1);
            match errors[0].issue {
                ParseIssue::Syntax(p) => assert!(p.line >= 1),
                ref other => panic!("expected a syntax issue, got {:?}", other),
            }
        },
        other => panic!("expected manifest errors, got {:?}", other),
    }
}

#[test]
fn malformed_input_is_isolated() {
    let mut files = Vec::new();
    for n in ["alpha", "beta", "gamma", "delta", "epsilon"] {
        files.push(file(
            &format!("specs/{}.yaml", n),
            &format!("{{\"name\":\"{}\",\"command\":\"run\"}}", n),
        ));
    }
    files.push(file("specs/broken.yaml", "{this is not data"));
    let r = compile(&files);
    match r {
        Err(CompileError::Manifests { errors, compiled }) => {
            assert_eq!(errors.len(), 1);
            assert_eq!(errors[0].path, "specs/broken.yaml");
            assert_eq!(compiled.len(), 5);
            let mut names = compiled.clone();
            names.sort();
            assert_eq!(names, vec!["alpha", "beta", "delta", "epsilon", "gamma"]);
        },
        other => panic!("expected manifest errors, got {:?}", other),
    }
}

#[test]
fn duplicate_slug_names_both_paths() {
    let files = vec![
        file("specs/build.yaml", "{\"command\":\"make\"}"),
        file("specs/build.yml", "{\"command\":\"cargo build\"}"),
    ];
    let r = compile(&files);
    match r {
        Err(CompileError::Duplicate(d)) => {
            assert_eq!(d.slug, "build");
            assert_eq!(d.first_path, "specs/build.yaml");
            assert_eq!(d.second_path, "specs/build.yml");
        },
        other => panic!("expected a duplicate-slug failure, got {:?}", other),
    }
}

#[test]
fn tag_union_holds_each_tag_once() {
    let files = vec![
        file("specs/a.yaml", "{\"command\":\"x\",\"tags\":[\"ci\",\"deploy\"]}"),
        file("specs/b.yaml", "{\"command\":\"y\",\"tags\":[\"deploy\",\"prod\"]}"),
    ];
    let c = compile_ok(files);
    assert_eq!(c.tags, vec!["ci", "deploy", "prod"]);
}

#[test]
fn search_returns_exactly_matching_workflows() {
    let files = vec![
        file("specs/a.yaml", "{\"name\":\"Deploy Prod\",\"command\":\"run\"}"),
        file("specs/b.yaml", "{\"name\":\"Build\",\"command\":\"make\"}"),
        file("specs/c.yaml", "{\"name\":\"Lint\",\"command\":\"x\",\"tags\":[\"deploy\"]}"),
    ];
    let c = compile_ok(files);
    let hits = c.search_workflows("deploy");
    let slugs: Vec<&str> = hits.iter().map(|w| w.slug.as_str()).collect();
    assert_eq!(slugs, vec!["a", "c"]);
    let upper_hits = c.search_workflows("DEPLOY");
    assert_eq!(upper_hits.len(), 2);
    assert_eq!(c.search_workflows("nothing-like-this").len(), 0);
}

#[test]
fn searchable_text_formula_is_exact() {
    let text = "{\"name\":\"Git\",\"command\":\"Status Now\",\"tags\":[\"ci\",\"vcs\"]}";
    let c = compile_ok(vec![file("specs/g.yaml", text)]);
    let entry = &c.search_index[0];
    assert_eq!(entry.searchable_text, "git  ci vcs status now ");
    assert_eq!(entry.slug, "g");
    assert_eq!(entry.description, "");
    assert_eq!(entry.tags, vec!["ci", "vcs"]);
}

#[test]
fn search_entry_projection() {
    let text = "{\"name\":\"N\",\"command\":\"C\",\"description\":\"D\",\"author\":\"A\"}";
    let c = compile_ok(vec![file("specs/n.yaml", text)]);
    let entry = c.workflows[0].to_search_entry();
    assert_eq!(entry.name, "N");
    assert_eq!(entry.description, "D");
    assert_eq!(entry.author, Some("A".to_string()));
    assert_eq!(entry.searchable_text, "n d  c a");
}

#[test]
fn lookup_by_slug_round_trips() {
    let files = vec![
        file("specs/a.yaml", "{\"name\":\"One\",\"command\":\"x\",\"tags\":[\"t\"]}"),
        file("specs/b.yaml", "{\"name\":\"Two\",\"command\":\"y\"}"),
    ];
    let c = compile_ok(files);
    for w in &c.workflows {
        let found = c.get_workflow_by_slug(&w.slug);
        assert_eq!(found.as_ref(), Some(w));
    }
    assert_eq!(c.get_workflow_by_slug("missing"), None);
}

#[test]
fn lookup_by_tag_preserves_order() {
    let files = vec![
        file("specs/a.yaml", "{\"command\":\"x\",\"tags\":[\"ci\"]}"),
        file("specs/b.yaml", "{\"command\":\"y\",\"tags\":[\"other\"]}"),
        file("specs/c.yaml", "{\"command\":\"z\",\"tags\":[\"ci\",\"x\"]}"),
    ];
    let c = compile_ok(files);
    let hits = c.get_workflows_by_tag("ci");
    let slugs: Vec<&str> = hits.iter().map(|w| w.slug.as_str()).collect();
    assert_eq!(slugs, vec!["a", "c"]);
    assert_eq!(c.get_workflows_by_tag("absent").len(), 0);
}

#[test]
fn compiling_twice_is_byte_identical() {
    let make = || {
        vec![
            file("specs/a.yaml", "{\"name\":\"A\",\"command\":\"x\",\"tags\":[\"ci\"]}"),
            file("specs/b.yaml", "{\"command\":\"y\"}"),
        ]
    };
    let c1 = compile_ok(make());
    let c2 = compile_ok(make());
    assert_eq!(emit_data_artifact(&c1), emit_data_artifact(&c2));
    assert_eq!(emit_search_index_artifact(&c1), emit_search_index_artifact(&c2));
    assert_eq!(emit_schema_artifact(), emit_schema_artifact());
}

#[test]
fn discovery_order_does_not_matter() {
    let a = file("specs/a.yaml", "{\"name\":\"A\",\"command\":\"x\"}");
    let b = file("specs/b.yaml", "{\"name\":\"B\",\"command\":\"y\"}");
    let c = file("specs/c.yaml", "{\"name\":\"C\",\"command\":\"z\"}");
    let c1 = compile_ok(vec![a.clone(), b.clone(), c.clone()]);
    let c2 = compile_ok(vec![c, a, b]);
    assert_eq!(c1, c2);
    assert_eq!(emit_data_artifact(&c1), emit_data_artifact(&c2));
}

#[test]
fn empty_input_artifacts_are_exact() {
    let c = compile_ok(vec![]);
    assert_eq!(emit_data_artifact(&c), "{\"workflows\":[],\"search_index\":[],\"tags\":[]}");
    assert_eq!(emit_search_index_artifact(&c), "[]");
}

#[test]
fn data_artifact_escapes_strings() {
    let text = "{\"name\":\"he said \\\"hi\\\"\\nok\",\"command\":\"x\"}";
    let c = compile_ok(vec![file("specs/a.yaml", text)]);
    let data = emit_data_artifact(&c);
    assert!(data.contains("\"name\":\"he said \\\"hi\\\"\\nok\""));
}

#[test]
fn data_artifact_for_one_workflow_is_exact() {
    let c = compile_ok(vec![file("specs/a.json", "{\"name\":\"A\",\"command\":\"run\"}")]);
    let expected = "{\"workflows\":[{\"name\":\"A\",\"command\":\"run\",\"description\":null,\"tags\":null,\"arguments\":null,\"source_url\":null,\"author\":null,\"author_url\":null,\"shells\":null,\"slug\":\"a\"}],\"search_index\":[{\"slug\":\"a\",\"name\":\"A\",\"description\":\"\",\"tags\":[],\"command\":\"run\",\"author\":null,\"searchable_text\":\"a   run \"}],\"tags\":[]}";
    assert_eq!(emit_data_artifact(&c), expected);
}

#[test]
fn schema_artifact_is_exact() {
    let expected = "export interface WorkflowArgument {\n  name: string;\n  description: string | null;\n  default_value: string | null;\n  required: boolean | null;\n}\n\nexport interface Workflow {\n  name: string;\n  command: string;\n  description: string | null;\n  tags: string[] | null;\n  arguments: WorkflowArgument[] | null;\n  source_url: string | null;\n  author: string | null;\n  author_url: string | null;\n  shells: string[] | null;\n  slug: string;\n}\n\nexport interface SearchIndexEntry {\n  slug: string;\n  name: string;\n  description: string;\n  tags: string[];\n  command: string;\n  author: string | null;\n  searchable_text: string;\n}\n\nexport interface WorkflowCollection {\n  workflows: Workflow[];\n  search_index: SearchIndexEntry[];\n  tags: string[];\n}\n\n";
}

#[test]
fn validate_reports_per_file_errors() {
    let files = vec![
        file("specs/ok.yaml", "{\"command\":\"x\"}"),
        file("specs/bad.yaml", "{oops"),
        file("specs/notes.txt", "ignored"),
    ];
    let errors = validate(&files);
    assert_eq!(errors.len(), 1);
    assert_eq!(errors[0].path, "specs/bad.yaml");
}

#[test]
fn argument_block_with_ill_shaped_entry_is_absent() {
    let text = "{\"command\":\"x\",\"arguments\":[{\"name\":\"ok\"},{\"noname\":true}]}";
    let c = compile_ok(vec![file("specs/a.yaml", text)]);
    assert_eq!(c.workflows[0].arguments, None);
}

#[test]
fn index_artifact_holds_entries() {
    let c = compile_ok(vec![file("specs/a.yaml", "{\"name\":\"A\",\"command\":\"run\"}")]);
    let idx = emit_search_index_artifact(&c);
    assert!(idx.starts_with("[{\"slug\":\"a\","));
    assert!(idx.ends_with("}]"));
}

#[test]
fn control_characters_are_escaped() {
    let text = "{\"command\":\"x\",\"description\":\"a\\u0001b\\tc\"}";
    let c = compile_ok(vec![file("specs/a.yaml", text)]);
    assert_eq!(c.workflows[0].description, Some("a\u{1}b\tc".to_string()));
    let data = emit_data_artifact(&c);
    assert!(data.contains("\"description\":\"a\\u0001b\\tc\""));
}
