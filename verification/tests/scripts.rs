use orphanode::collections::OrderedMap;
use orphanode::discovery::scripts::{analyze_scripts, ScriptCallKind};
use orphanode::discovery::segments::ScriptReferenceKind;
use orphanode::discovery::tokenizer::{tokenize_script, ScriptSpan, UnmodeledScriptKind};

fn scripts(values: &[(&str, &str)]) -> OrderedMap<String, String> {
    let mut out = OrderedMap::new();
    for (name, text) in values {
        out.insert((*name).to_owned(), (*text).to_owned());
    }
    out
}

#[test]
fn tokenization_preserves_quotes_and_static_segments() {
    let tokenized = tokenize_script("eslint 'src/one file.ts' && node \"src/run.js\"");

    assert!(tokenized.unmodeled.is_empty());
    assert_eq!(tokenized.segments.len(), 2);
    assert_eq!(tokenized.segments[0].tokens[1].value, "src/one file.ts");
    assert_eq!(tokenized.segments[1].tokens[1].value, "src/run.js");
}

#[test]
fn nested_runs_and_lifecycle_hooks_are_reachable_and_sorted() {
    let scripts = scripts(&[
        ("build", "npm run compile"),
        ("compile", "tsx scripts/build.ts"),
        ("postbuild", "eslint src/index.ts"),
        ("prebuild", "node --require ts-node/register setup.js"),
        ("unused", "echo unused"),
    ]);

    let analysis = analyze_scripts(&scripts, &vec!["build".to_owned()]);

    assert_eq!(
        analysis.reachable_scripts,
        ["build", "compile", "postbuild", "prebuild"].map(str::to_owned)
    );
    assert!(analysis.calls.iter().any(|call| {
        call.caller == "build"
            && call.callee == "prebuild"
            && call.kind == ScriptCallKind::Lifecycle
    }));
    assert!(analysis.calls.iter().any(|call| {
        call.caller == "build" && call.callee == "compile" && call.kind == ScriptCallKind::Explicit
    }));
}

#[test]
fn order_and_repetition_of_roots_do_not_matter() {
    let scripts = scripts(&[("build", "npm run compile"), ("compile", "tsc"), ("lint", "eslint")]);
    let roots = |names: &[&str]| names.iter().map(|name| (*name).to_owned()).collect::<Vec<_>>();

    assert_eq!(
        analyze_scripts(&scripts, &roots(&["lint", "build", "gone"])),
        analyze_scripts(&scripts, &roots(&["gone", "build", "lint", "build", "gone"]))
    );
}

#[test]
fn spans_start_and_end_where_characters_do() {
    for source in ["é a '' && b \"ü$(x) y\" # done", "a\\", "'ö", "*>é;;\n#é"] {
        let tokenized = tokenize_script(source);
        let check = |span: ScriptSpan| assert!(!source[span.start..span.end].is_empty());
        for segment in &tokenized.segments {
            check(segment.span);
            assert!(!segment.tokens.is_empty());
            segment.tokens.iter().for_each(|token| check(token.span));
        }
        tokenized.unmodeled.iter().for_each(|part| check(part.0));
    }
}

#[test]
fn package_manager_cli_actions_are_not_implicit_script_calls() {
    let scripts = scripts(&[
        ("upgrade-latest", "pnpm up --latest --interactive"),
        ("fresh", "yarn install && bun add zod"),
    ]);

    let analysis = analyze_scripts(&scripts, &vec![]);

    assert!(analysis.missing_scripts.is_empty());
    assert!(!analysis
        .calls
        .iter()
        .any(|call| call.callee == "up" || call.callee == "add" || call.callee == "install"));
}

#[test]
fn implicit_pnpm_runs_of_real_scripts_stay_reachable() {
    let scripts = scripts(&[("dist", "pnpm build"), ("build", "tsc -p tsconfig.json")]);

    let analysis = analyze_scripts(&scripts, &vec!["dist".to_owned()]);

    assert_eq!(
        analysis.reachable_scripts,
        ["build", "dist"].map(str::to_owned)
    );
}

#[test]
fn node_options_loaders_files_and_direct_binaries_become_evidence() {
    let scripts = scripts(&[(
        "test",
        "NODE_OPTIONS='--require ts-node/register --loader ./loader.mjs' node --test tests/a.test.ts && npx --package eslint eslint src/a.ts",
    )]);

    let analysis = analyze_scripts(&scripts, &vec![]);

    assert!(analysis.references.iter().any(|reference| {
        reference.kind == ScriptReferenceKind::Package && reference.value == "ts-node/register"
    }));
    assert!(analysis.references.iter().any(|reference| {
        reference.kind == ScriptReferenceKind::File && reference.value == "./loader.mjs"
    }));
    assert!(analysis.references.iter().any(|reference| {
        reference.kind == ScriptReferenceKind::File && reference.value == "tests/a.test.ts"
    }));
    assert!(analysis.references.iter().any(|reference| {
        reference.kind == ScriptReferenceKind::Package && reference.value == "eslint"
    }));
    assert!(analysis.references.iter().any(|reference| {
        reference.kind == ScriptReferenceKind::Binary && reference.value == "eslint"
    }));
}

#[test]
fn dynamic_shell_segments_are_visible_and_do_not_create_guessed_evidence() {
    let scripts = scripts(&[("dynamic", "node $ENTRY && eslint src/static.ts")]);

    let analysis = analyze_scripts(&scripts, &vec![]);

    assert!(analysis.unmodeled.iter().any(|span| {
        span.script == "dynamic" && span.kind == UnmodeledScriptKind::ShellExpansion
    }));
    assert!(!analysis.references.iter().any(|reference| {
        reference.kind == ScriptReferenceKind::File && reference.value == "$ENTRY"
    }));
    assert!(analysis.references.iter().any(|reference| {
        reference.kind == ScriptReferenceKind::File && reference.value == "src/static.ts"
    }));
}

#[test]
fn absent_nested_scripts_are_reported_without_becoming_reachable() {
    let scripts = scripts(&[("build", "pnpm run missing")]);

    let analysis = analyze_scripts(&scripts, &vec!["build".to_owned()]);

    assert_eq!(analysis.reachable_scripts, ["build".to_owned()]);
    assert_eq!(analysis.missing_scripts.len(), 1);
    assert_eq!(analysis.missing_scripts[0].callee, "missing");
}

#[test]
fn package_manager_and_env_options_do_not_hide_the_invoked_command() {
    let scripts = scripts(&[
        ("build", "pnpm --filter app run compile"),
        (
            "compile",
            "env -u NODE_OPTIONS node -rts-node/register src/index.ts",
        ),
    ]);

    let analysis = analyze_scripts(&scripts, &vec!["build".to_owned()]);

    assert_eq!(
        analysis.reachable_scripts,
        ["build", "compile"].map(str::to_owned)
    );
    assert!(analysis.references.iter().any(|reference| {
        reference.kind == ScriptReferenceKind::Package && reference.value == "ts-node/register"
    }));
}

#[test]
fn spans_count_bytes() {
    let tokenized = tokenize_script("é a");

    assert_eq!(tokenized.segments.len(), 1);
    assert_eq!(tokenized.segments[0].tokens[0].span, ScriptSpan { start: 0, end: 2 });
    assert_eq!(tokenized.segments[0].tokens[1].span, ScriptSpan { start: 3, end: 4 });
    assert_eq!(tokenized.segments[0].span, ScriptSpan { start: 0, end: 4 });
}

#[test]
fn quotes_that_do_not_end_are_told() {
    let single = tokenize_script("echo 'open");
    let double = tokenize_script("echo \"open");
    let escape = tokenize_script("echo open\\");

    assert!(single
        .unmodeled
        .iter()
        .any(|(_, kind)| *kind == UnmodeledScriptKind::UnterminatedSingleQuote));
    assert!(double
        .unmodeled
        .iter()
        .any(|(_, kind)| *kind == UnmodeledScriptKind::UnterminatedDoubleQuote));
    assert!(escape
        .unmodeled
        .iter()
        .any(|(_, kind)| *kind == UnmodeledScriptKind::DanglingEscape));
}

#[test]
fn empty_scripts_have_no_segments() {
    let tokenized = tokenize_script("   ");

    assert!(tokenized.segments.is_empty());
    assert!(tokenized.unmodeled.is_empty());
}
