//! Which scripts and programs a script runs, told by its words.

use crate::collections::{lookup, with_item_contains, with_items_is_ordered};
use crate::discovery::scripts::{
    analysis_of, call_path, facts, hook, is_call, is_missing, leads_to, modeled, refers,
    refers_within, runs, script_runs, ScriptAnalysisModel, ScriptCallKind, ScriptCallModel,
    MissingScriptReferenceModel, Scripts,
};
use crate::discovery::segments::{
    action_index, analyzed_segment, assigned, command_from, command_of, dashed, executed, exec_verb,
    file_like, first_plain, implicit_runner, listed, loader_flag, manager_command, manager_option,
    name_start, no_contribution, node_words, npm_script_verb, package_manager, past_assignments,
    past_env_options, program_name, script_runner, shell_wrapper, system_command, tool_files,
    variable_name, with_loader, with_nested, with_reference, with_unmodeled, ScriptReference,
    ScriptReferenceKind, ScriptReferenceModel, SegmentContributionModel,
};
use crate::discovery::tokenizer::{
    tokenized, ScriptSegmentModel, ScriptSpan, ScriptTokenModel, UnmodeledScriptKind,
};
use crate::discovery::word_laws::{
    assignments_set_variables, calls_program, has_words, is_bare, is_one_command,
    programs_go_by_name,
    words_without_a_sign_set_nothing,
};
use vstd::prelude::*;

verus! {

/// Whether a word is an option.
pub open spec fn is_option(word: Seq<char>) -> bool {
    word.len() > 0 && word[0] == '-'
}

/// Whether a word sets a variable that says nothing of modules.
pub open spec fn sets_variable(word: Seq<char>) -> bool {
    exists|name: Seq<char>, value: Seq<char>|
        #![trigger name + "="@ + value]
        word == name + "="@ + value && variable_name(name) && name != "NODE_OPTIONS"@
}

/// Whether all words from one place to another set variables.
pub open spec fn set_variables(words: Seq<Seq<char>>, from: int, to: int) -> bool {
    forall|j: int| from <= j < to ==> sets_variable(#[trigger] words[j])
}

/// Whether the `i`th word is the program that a command runs: only variables are set in front
/// of it, or it is run by way of `env`, `cross-env`, `command` or `exec`.
pub open spec fn is_program_word(words: Seq<Seq<char>>, i: int) -> bool {
    &&& 0 <= i < words.len()
    &&& !words[i].contains('=')
    &&& !is_option(words[i])
    &&& {
        ||| set_variables(words, 0, i)
        ||| exists|e: int|
            0 <= e < i && !(#[trigger] words[e]).contains('=') && set_variables(words, 0, e)
                && set_variables(words, e + 1, i) && (calls_program(words[e], "env"@)
                || calls_program(words[e], "cross-env"@))
        ||| i > 0 && set_variables(words, 0, i - 1) && !words[i - 1].contains('=') && (
        calls_program(words[i - 1], "command"@) || calls_program(words[i - 1], "exec"@))
    }
}

/// Whether a word calls a package manager.
pub open spec fn calls_manager(word: Seq<char>) -> bool {
    ||| calls_program(word, "npm"@)
    ||| calls_program(word, "pnpm"@)
    ||| calls_program(word, "yarn"@)
    ||| calls_program(word, "bun"@)
}

/// Whether a package manager takes the word for a command of its own.
pub open spec fn is_manager_word(word: Seq<char>) -> bool {
    ||| word == "run"@ || word == "run-script"@ || word == "exec"@ || word == "dlx"@ || word == "x"@
    ||| word == "add"@ || word == "audit"@ || word == "bin"@ || word == "ci"@
    ||| word == "config"@ || word == "dedupe"@ || word == "deploy"@ || word == "import"@
    ||| word == "init"@ || word == "install"@ || word == "i"@ || word == "link"@
    ||| word == "ln"@ || word == "list"@ || word == "login"@ || word == "logout"@
    ||| word == "outdated"@ || word == "pack"@ || word == "patch"@ || word == "pm"@
    ||| word == "prune"@ || word == "publish"@ || word == "rebuild"@ || word == "remove"@
    ||| word == "rm"@ || word == "store"@ || word == "unlink"@ || word == "uninstall"@
    ||| word == "up"@ || word == "update"@ || word == "upgrade"@ || word == "why"@
}

/// Whether a command whose program is the `i`th word runs the script that the `j`th word names:
/// by `run`, with options in front of the name or without; by a word that `npm` takes for a
/// script; by its bare name with the other package managers; or as one of a list of scripts.
pub open spec fn runs_script(words: Seq<Seq<char>>, i: int, j: int) -> bool {
    &&& i < j < words.len()
    &&& {
        ||| calls_manager(words[i]) && i + 1 < j && (words[i + 1] == "run"@ || words[i + 1]
            == "run-script"@) && !is_option(words[j]) && forall|k: int|
            i + 1 < k < j ==> is_option(#[trigger] words[k])
        ||| calls_program(words[i], "npm"@) && j == i + 1 && (words[j] == "start"@ || words[j]
            == "stop"@ || words[j] == "restart"@ || words[j] == "test"@)
        ||| (calls_program(words[i], "yarn"@) || calls_program(words[i], "pnpm"@) || calls_program(
            words[i],
            "bun"@,
        )) && j == i + 1 && !is_option(words[j]) && !is_manager_word(words[j])
        ||| (calls_program(words[i], "npm-run-all"@) || calls_program(words[i], "run-s"@)
            || calls_program(words[i], "run-p"@)) && !is_option(words[j])
    }
}

proof fn options_start_with_a_dash(tokens: Seq<ScriptTokenModel>, i: int)
    requires
        0 <= i < tokens.len(),
    ensures
        dashed(tokens[i]) <==> is_option(tokens[i].value),
{
    reveal_strlit("-");
    let word = tokens[i].value;
    if is_option(word) {
        assert("-"@ =~= word.subrange(0, 1));
    }
    if dashed(tokens[i]) {
        assert(word.subrange(0, 1)[0] == '-');
    }
}

proof fn set_variable_is_assignment(word: Seq<char>)
    requires
        sets_variable(word),
    ensures
        crate::discovery::segments::assignment(word) matches Some(pair) && pair.0
            != "NODE_OPTIONS"@,
        !is_option(word),
        word.contains('='),
{
    reveal_strlit("=");
    let (name, value) = choose|name: Seq<char>, value: Seq<char>|
        #![trigger name + "="@ + value]
        word == name + "="@ + value && variable_name(name) && name != "NODE_OPTIONS"@;
    assignments_set_variables(word, name, value);
    assert(word[0] == name[0]);
    assert(name_start(name[0]));
    assert(word[name.len() as int] == '=');
}

proof fn assignments_pass(
    script: Seq<char>,
    tokens: Seq<ScriptTokenModel>,
    words: Seq<Seq<char>>,
    from: int,
    to: int,
    c: SegmentContributionModel,
)
    requires
        has_words(tokens, words),
        0 <= from <= to < words.len(),
        set_variables(words, from, to),
        !words[to].contains('='),
    ensures
        past_assignments(tokens, from as nat) == to as nat,
        assigned(script, tokens, from as nat, c) == c,
    decreases to - from,
{
    if from < to {
        assert(sets_variable(words[from]));
        set_variable_is_assignment(words[from]);
        assert(tokens[from].value == words[from]);
        assignments_pass(script, tokens, words, from + 1, to, c);
    } else {
        words_without_a_sign_set_nothing(words[to]);
        assert(tokens[to].value == words[to]);
    }
}

/// Whether a program only runs another one.
pub open spec fn runs_another(name: Seq<char>) -> bool {
    name == "env"@ || name == "cross-env"@ || name == "command"@ || name == "exec"@
}

proof fn program_is_found(
    script: Seq<char>,
    tokens: Seq<ScriptTokenModel>,
    words: Seq<Seq<char>>,
    i: int,
    c: SegmentContributionModel,
)
    requires
        has_words(tokens, words),
        is_program_word(words, i),
        !runs_another(program_name(words[i])),
    ensures
        command_of(script, tokens, c) == (Some(i as nat), c),
{
    reveal_strlit("env");
    reveal_strlit("cross-env");
    reveal_strlit("command");
    reveal_strlit("exec");
    reveal_strlit("-u");
    reveal_strlit("--unset");
    reveal_strlit("-C");
    reveal_strlit("--chdir");
    assert(tokens[i].value == words[i]);
    options_start_with_a_dash(tokens, i);
    assert(command_from(script, tokens, i as nat, c) == (Some(i as nat), c));
    if set_variables(words, 0, i) {
        assignments_pass(script, tokens, words, 0, i, c);
    } else if exists|e: int|
        0 <= e < i && !(#[trigger] words[e]).contains('=') && set_variables(words, 0, e)
            && set_variables(words, e + 1, i) && (calls_program(words[e], "env"@) || calls_program(
            words[e],
            "cross-env"@,
        )) {
        let e = choose|e: int|
            0 <= e < i && !(#[trigger] words[e]).contains('=') && set_variables(words, 0, e)
                && set_variables(words, e + 1, i) && (calls_program(words[e], "env"@)
                || calls_program(words[e], "cross-env"@));
        assignments_pass(script, tokens, words, 0, e, c);
        assignments_pass(script, tokens, words, e + 1, i, c);
        assert(tokens[e].value == words[e]);
        if calls_program(words[e], "env"@) {
            assert(is_bare("env"@));
            programs_go_by_name(words[e], "env"@);
        } else {
            assert(is_bare("cross-env"@));
            programs_go_by_name(words[e], "cross-env"@);
        }
        if e + 1 < i {
            assert(sets_variable(words[e + 1]));
            set_variable_is_assignment(words[e + 1]);
        }
        assert(tokens[e + 1].value == words[e + 1]);
        options_start_with_a_dash(tokens, e + 1);
        assert(!is_option(words[e + 1]));
        assert(past_env_options(tokens, (e + 1) as nat) == (e + 1) as nat);
        assert(first_plain(tokens, (e + 1) as nat) == (e + 1) as nat);
    } else {
        let e = i - 1;
        assignments_pass(script, tokens, words, 0, e, c);
        assert(tokens[e].value == words[e]);
        if calls_program(words[e], "command"@) {
            assert(is_bare("command"@));
            programs_go_by_name(words[e], "command"@);
        } else {
            assert(is_bare("exec"@));
            programs_go_by_name(words[e], "exec"@);
        }
        assert(first_plain(tokens, i as nat) == i as nat);
    }
}

proof fn first_plain_is(tokens: Seq<ScriptTokenModel>, words: Seq<Seq<char>>, from: int, j: int)
    requires
        has_words(tokens, words),
        0 <= from <= j < words.len(),
        forall|k: int| from <= k < j ==> is_option(#[trigger] words[k]),
        !is_option(words[j]),
    ensures
        first_plain(tokens, from as nat) == j as nat,
    decreases j - from,
{
    options_start_with_a_dash(tokens, from);
    assert(tokens[from].value == words[from]);
    if from < j {
        assert(is_option(words[from]));
        first_plain_is(tokens, words, from + 1, j);
    }
}

/// That one contribution holds all that another does.
spec fn holds_on(c: SegmentContributionModel, d: SegmentContributionModel) -> bool {
    &&& forall|x: (Seq<char>, ScriptSpan)| #[trigger]
        c.nested_scripts.contains(x) ==> d.nested_scripts.contains(x)
    &&& forall|x: ScriptReferenceModel| #[trigger]
        c.references.contains(x) ==> d.references.contains(x)
    &&& forall|x: (ScriptSpan, UnmodeledScriptKind)| #[trigger]
        c.unmodeled.contains(x) ==> d.unmodeled.contains(x)
}

proof fn nested_is_held(c: SegmentContributionModel, callee: Seq<char>, span: ScriptSpan)
    ensures
        with_nested(c, callee, span).nested_scripts.contains((callee, span)),
        holds_on(c, with_nested(c, callee, span)),
{
    with_item_contains::<(String, ScriptSpan)>(c.nested_scripts, (callee, span));
}

proof fn reference_is_held(
    c: SegmentContributionModel,
    script: Seq<char>,
    kind: ScriptReferenceKind,
    value: Seq<char>,
    span: ScriptSpan,
)
    ensures
        value.len() > 0 ==> with_reference(c, script, kind, value, span).references.contains(
            ScriptReferenceModel { script, kind, value, span },
        ),
        holds_on(c, with_reference(c, script, kind, value, span)),
{
    with_item_contains::<ScriptReference>(
        c.references,
        ScriptReferenceModel { script, kind, value, span },
    );
}

proof fn listed_are_held(
    tokens: Seq<ScriptTokenModel>,
    index: nat,
    c: SegmentContributionModel,
    j: int,
)
    requires
        index <= j < tokens.len() ==> !dashed(tokens[j]),
    ensures
        holds_on(c, listed(tokens, index, c)),
        index <= j < tokens.len() ==> listed(tokens, index, c).nested_scripts.contains(
            (tokens[j].value, tokens[j].span),
        ),
    decreases tokens.len() - index,
{
    if index < tokens.len() {
        let token = tokens[index as int];
        nested_is_held(c, token.value, token.span);
        let next = if dashed(token) {
            c
        } else {
            with_nested(c, token.value, token.span)
        };
        listed_are_held(tokens, index + 1, next, j);
    }
}

proof fn managers_are_no_other(name: Seq<char>)
    requires
        package_manager(name) || script_runner(name) || name == "npx"@ || name == "bunx"@ || name
            == "node"@,
    ensures
        is_bare(name),
        !shell_wrapper(name),
        !runs_another(name),
        name != "concurrently"@,
        name != "node"@ ==> package_manager(name) || script_runner(name) || name == "npx"@ || name
            == "bunx"@,
        package_manager(name) ==> name != "node"@,
        script_runner(name) ==> !package_manager(name) && name != "node"@ && name != "npx"@ && name
            != "bunx"@,
        name == "npx"@ || name == "bunx"@ ==> !package_manager(name) && name != "node"@,
        name == "npm"@ ==> !implicit_runner(name),
        implicit_runner(name) ==> name != "npm"@,
{
    reveal_strlit("npm");
    reveal_strlit("pnpm");
    reveal_strlit("yarn");
    reveal_strlit("bun");
    reveal_strlit("npm-run-all");
    reveal_strlit("run-s");
    reveal_strlit("run-p");
    reveal_strlit("npx");
    reveal_strlit("bunx");
    reveal_strlit("node");
    reveal_strlit("cross-env-shell");
    reveal_strlit("sh");
    reveal_strlit("bash");
    reveal_strlit("cmd");
    reveal_strlit("powershell");
    reveal_strlit("pwsh");
    reveal_strlit("concurrently");
    reveal_strlit("env");
    reveal_strlit("cross-env");
    reveal_strlit("command");
    reveal_strlit("exec");
    assert("npm"@[0] == 'n' && "npm"@[1] == 'p' && "npm"@[2] == 'm');
    assert("pnpm"@[0] == 'p' && "pnpm"@[1] == 'n' && "pnpm"@[2] == 'p' && "pnpm"@[3] == 'm');
    assert("yarn"@[0] == 'y' && "yarn"@[1] == 'a' && "yarn"@[2] == 'r' && "yarn"@[3] == 'n');
    assert("bun"@[0] == 'b' && "bun"@[1] == 'u' && "bun"@[2] == 'n');
    assert("npm-run-all"@[0] == 'n' && "npm-run-all"@[1] == 'p' && "npm-run-all"@[2] == 'm' && "npm-run-all"@[3] == '-');
    assert("run-s"@[0] == 'r' && "run-s"@[1] == 'u' && "run-s"@[2] == 'n' && "run-s"@[3] == '-' && "run-s"@[4] == 's');
    assert("run-p"@[0] == 'r' && "run-p"@[1] == 'u' && "run-p"@[2] == 'n' && "run-p"@[3] == '-' && "run-p"@[4] == 'p');
    assert("npx"@[0] == 'n' && "npx"@[1] == 'p' && "npx"@[2] == 'x');
    assert("bunx"@[0] == 'b' && "bunx"@[1] == 'u' && "bunx"@[2] == 'n' && "bunx"@[3] == 'x');
    assert("node"@[0] == 'n' && "node"@[1] == 'o' && "node"@[2] == 'd' && "node"@[3] == 'e');
    assert("cross-env-shell"@[0] == 'c' && "cross-env-shell"@[1] == 'r' && "cross-env-shell"@[2] == 'o' && "cross-env-shell"@[3] == 's');
    assert("sh"@[0] == 's' && "sh"@[1] == 'h');
    assert("bash"@[0] == 'b' && "bash"@[1] == 'a' && "bash"@[2] == 's' && "bash"@[3] == 'h');
    assert("cmd"@[0] == 'c' && "cmd"@[1] == 'm' && "cmd"@[2] == 'd');
    assert("powershell"@[0] == 'p' && "powershell"@[1] == 'o' && "powershell"@[2] == 'w' && "powershell"@[3] == 'e');
    assert("pwsh"@[0] == 'p' && "pwsh"@[1] == 'w' && "pwsh"@[2] == 's' && "pwsh"@[3] == 'h');
    assert("concurrently"@[0] == 'c' && "concurrently"@[1] == 'o' && "concurrently"@[2] == 'n' && "concurrently"@[3] == 'c');
    assert("env"@[0] == 'e' && "env"@[1] == 'n' && "env"@[2] == 'v');
    assert("cross-env"@[0] == 'c' && "cross-env"@[1] == 'r' && "cross-env"@[2] == 'o' && "cross-env"@[3] == 's');
    assert("command"@[0] == 'c' && "command"@[1] == 'o' && "command"@[2] == 'm' && "command"@[3] == 'm');
    assert("exec"@[0] == 'e' && "exec"@[1] == 'x' && "exec"@[2] == 'e' && "exec"@[3] == 'c');
    assert("npm-run-all"@.len() == 11 && "run-s"@.len() == 5 && "run-p"@.len() == 5);
    assert("npm"@.len() == 3 && "pnpm"@.len() == 4 && "yarn"@.len() == 4 && "bun"@.len() == 3);
    assert("npx"@.len() == 3 && "bunx"@.len() == 4 && "node"@.len() == 4);
}

proof fn manager_words_are_plain(word: Seq<char>)
    requires
        word == "run"@ || word == "run-script"@ || npm_script_verb(word) || exec_verb(word),
    ensures
        !is_option(word),
        !manager_option(word),
        npm_script_verb(word) ==> word != "run"@ && word != "run-script"@,
        exec_verb(word) ==> word != "run"@ && word != "run-script"@ && !npm_script_verb(word),
{
    reveal_strlit("run");
    reveal_strlit("run-script");
    reveal_strlit("start");
    reveal_strlit("stop");
    reveal_strlit("restart");
    reveal_strlit("test");
    reveal_strlit("exec");
    reveal_strlit("dlx");
    reveal_strlit("x");
    manager_options_are_options(word);
    assert("run"@[0] == 'r' && "run"@[1] == 'u' && "run"@[2] == 'n');
    assert("run-script"@[0] == 'r' && "run-script"@[1] == 'u' && "run-script"@[2] == 'n' && "run-script"@[3] == '-');
    assert("start"@[0] == 's' && "start"@[1] == 't' && "start"@[2] == 'a' && "start"@[3] == 'r' && "start"@[4] == 't');
    assert("stop"@[0] == 's' && "stop"@[1] == 't' && "stop"@[2] == 'o' && "stop"@[3] == 'p');
    assert("restart"@[0] == 'r' && "restart"@[1] == 'e' && "restart"@[2] == 's' && "restart"@[3] == 't');
    assert("test"@[0] == 't' && "test"@[1] == 'e' && "test"@[2] == 's' && "test"@[3] == 't');
    assert("exec"@[0] == 'e' && "exec"@[1] == 'x' && "exec"@[2] == 'e' && "exec"@[3] == 'c');
    assert("dlx"@[0] == 'd' && "dlx"@[1] == 'l' && "dlx"@[2] == 'x');
    assert("x"@[0] == 'x');
}

proof fn manager_options_are_options(word: Seq<char>)
    ensures
        manager_option(word) ==> is_option(word),
{
    reveal_strlit("--filter");
    reveal_strlit("-F");
    reveal_strlit("--workspace");
    reveal_strlit("--prefix");
    reveal_strlit("--cwd");
    reveal_strlit("--dir");
    reveal_strlit("-C");
}

/// A command runs the scripts that its words name.
pub proof fn commands_run_the_scripts_they_name(
    script: Seq<char>,
    segment: ScriptSegmentModel,
    words: Seq<Seq<char>>,
    i: int,
    j: int,
    depth: nat,
    c: SegmentContributionModel,
)
    requires
        has_words(segment.tokens, words),
        is_program_word(words, i),
        runs_script(words, i, j),
    ensures
        analyzed_segment(script, segment, depth, c).nested_scripts.contains(
            (words[j], segment.tokens[j].span),
        ),
{
    reveal_strlit("npm");
    reveal_strlit("pnpm");
    reveal_strlit("yarn");
    reveal_strlit("bun");
    let tokens = segment.tokens;
    let name = if calls_program(words[i], "npm"@) {
        "npm"@
    } else if calls_program(words[i], "pnpm"@) {
        "pnpm"@
    } else if calls_program(words[i], "yarn"@) {
        "yarn"@
    } else if calls_program(words[i], "bun"@) {
        "bun"@
    } else if calls_program(words[i], "npm-run-all"@) {
        "npm-run-all"@
    } else if calls_program(words[i], "run-s"@) {
        "run-s"@
    } else {
        "run-p"@
    };
    managers_are_no_other(name);
    programs_go_by_name(words[i], name);
    if calls_program(words[i], "npm"@) {
        managers_are_no_other("npm"@);
        programs_go_by_name(words[i], "npm"@);
    }
    if calls_program(words[i], "npm-run-all"@) {
        managers_are_no_other("npm-run-all"@);
        programs_go_by_name(words[i], "npm-run-all"@);
    }
    if calls_program(words[i], "run-s"@) {
        managers_are_no_other("run-s"@);
        programs_go_by_name(words[i], "run-s"@);
    }
    if calls_program(words[i], "run-p"@) {
        managers_are_no_other("run-p"@);
        programs_go_by_name(words[i], "run-p"@);
    }
    if calls_program(words[i], "yarn"@) {
        managers_are_no_other("yarn"@);
        programs_go_by_name(words[i], "yarn"@);
    }
    if calls_program(words[i], "pnpm"@) {
        managers_are_no_other("pnpm"@);
        programs_go_by_name(words[i], "pnpm"@);
    }
    if calls_program(words[i], "bun"@) {
        managers_are_no_other("bun"@);
        programs_go_by_name(words[i], "bun"@);
    }
    program_is_found(script, tokens, words, i, c);
    assert(tokens[i].value == words[i]);
    assert(tokens[j].value == words[j]);
    nested_is_held(c, words[j], tokens[j].span);
    if script_runner(name) {
        options_start_with_a_dash(tokens, j);
        listed_are_held(tokens, (i + 1) as nat, c, j);
    } else {
        let first = words[i + 1];
        assert(tokens[i + 1].value == first);
        options_start_with_a_dash(tokens, i + 1);
        manager_options_are_options(first);
        if first == "run"@ || first == "run-script"@ || npm_script_verb(first) {
            manager_words_are_plain(first);
        }
        assert(!is_option(first));
        assert(action_index(tokens, (i + 1) as nat) == (i + 1) as nat);
        if first == "run"@ || first == "run-script"@ {
            if i + 1 < j {
                first_plain_is(tokens, words, i + 2, j);
            } else {
                assert(is_manager_word(first));
            }
        } else if name == "npm"@ {
            assert(npm_script_verb(first));
        } else {
            assert(!manager_command(first));
            assert(!exec_verb(first));
            assert(implicit_runner(name));
        }
    }
}

/// Whether the analysis leaves no part of the `k`th command of a script out.
pub open spec fn is_covered(source: Seq<char>, k: int) -> bool {
    let t = tokenized(source);
    &&& 0 <= k < t.segments.len()
    &&& forall|u: int|
        0 <= u < t.unmodeled.len() ==> {
            ||| (#[trigger] t.unmodeled[u]).0.end <= t.segments[k].span.start
            ||| t.segments[k].span.end <= t.unmodeled[u].0.start
        }
}

/// Whether the analysis says that one script calls another.
pub open spec fn tells_call(
    a: ScriptAnalysisModel,
    caller: Seq<char>,
    callee: Seq<char>,
    kind: ScriptCallKind,
) -> bool {
    exists|q: int|
        0 <= q < a.calls.len() && (#[trigger] a.calls[q]).caller == caller && a.calls[q].callee
            == callee && a.calls[q].kind == kind
}

/// A script that runs calls what a command of it names as a script: `npm test` calls `test`,
/// `npm run build` and `yarn build` call `build`. Where there is such a script, it runs too;
/// where there is none, it is missing.
pub proof fn scripts_call_what_their_commands_name(
    scripts: Scripts,
    roots: Seq<Seq<char>>,
    a: ScriptAnalysisModel,
    caller: Seq<char>,
    source: Seq<char>,
    k: int,
    words: Seq<Seq<char>>,
    i: int,
    j: int,
)
    requires
        analysis_of(scripts, roots, a),
        a.reachable_scripts.contains(caller),
        lookup(scripts, caller) == Some(source),
        is_covered(source, k),
        has_words(tokenized(source).segments[k].tokens, words),
        is_program_word(words, i),
        runs_script(words, i, j),
    ensures
        tells_call(a, caller, words[j], ScriptCallKind::Explicit),
        lookup(scripts, words[j]) is Some ==> a.reachable_scripts.contains(words[j]),
        lookup(scripts, words[j]) is None ==> exists|m: int|
            0 <= m < a.missing_scripts.len() && (#[trigger] a.missing_scripts[m]).caller == caller
                && a.missing_scripts[m].callee == words[j],
{
    let segment = tokenized(source).segments[k];
    let span = segment.tokens[j].span;
    let callee = words[j];
    commands_run_the_scripts_they_name(
        caller,
        segment,
        words,
        i,
        j,
        0,
        no_contribution(),
    );
    assert(modeled(source, k));
    assert(facts(caller, source, k).nested_scripts.contains((callee, span)));
    assert(runs(scripts, caller, callee, span));
    let call = ScriptCallModel {
        caller,
        callee,
        kind: ScriptCallKind::Explicit,
        span: Some(span),
    };
    assert(is_call(scripts, call));
    assert(script_runs(scripts, roots, caller));
    assert(a.calls.contains(call));
    let q = choose|q: int| 0 <= q < a.calls.len() && a.calls[q] == call;
    assert(a.calls[q].caller == caller);
    if lookup(scripts, callee) is Some {
        assert(leads_to(scripts, caller, callee));
        called_scripts_run(scripts, roots, caller, callee);
    } else {
        let missing = MissingScriptReferenceModel { caller, callee, span: Some(span) };
        assert(is_missing(scripts, roots, missing));
        assert(a.missing_scripts.contains(missing));
        let m = choose|m: int| 0 <= m < a.missing_scripts.len() && a.missing_scripts[m] == missing;
        assert(a.missing_scripts[m].caller == caller);
    }
}

proof fn called_scripts_run(
    scripts: Scripts,
    roots: Seq<Seq<char>>,
    caller: Seq<char>,
    callee: Seq<char>,
)
    requires
        script_runs(scripts, roots, caller),
        leads_to(scripts, caller, callee),
    ensures
        script_runs(scripts, roots, callee),
{
    let path = choose|path: Seq<Seq<char>>| #[trigger]
        call_path(scripts, roots, path) && path.last() == caller;
    let longer = path.push(callee);
    assert forall|i: int| 0 <= i < longer.len() - 1 implies leads_to(
        scripts,
        #[trigger] longer[i],
        longer[i + 1],
    ) by {
        if i < path.len() - 1 {
            assert(leads_to(scripts, path[i], path[i + 1]));
        }
    }
    assert(longer[0] == path[0]);
    assert(call_path(scripts, roots, longer));
    assert(longer.last() == callee);
}

/// With a script run the scripts that are called after it with `pre` and `post` in front.
pub proof fn hooks_run_with_their_script(
    scripts: Scripts,
    roots: Seq<Seq<char>>,
    a: ScriptAnalysisModel,
    name: Seq<char>,
    before: bool,
)
    requires
        analysis_of(scripts, roots, a),
        a.reachable_scripts.contains(name),
        lookup(
            scripts,
            if before {
                "pre"@ + name
            } else {
                "post"@ + name
            },
        ) is Some,
    ensures
        ({
            let hooked = if before {
                "pre"@ + name
            } else {
                "post"@ + name
            };
            &&& a.reachable_scripts.contains(hooked)
            &&& tells_call(a, name, hooked, ScriptCallKind::Lifecycle)
        }),
{
    reveal_strlit("pre");
    reveal_strlit("post");
    let callee = if before {
        "pre"@ + name
    } else {
        "post"@ + name
    };
    assert(callee.len() != name.len());
    let call = ScriptCallModel {
        caller: name,
        callee,
        kind: ScriptCallKind::Lifecycle,
        span: None,
    };
    assert(hook(scripts, name, callee));
    assert(is_call(scripts, call));
    assert(script_runs(scripts, roots, name));
    assert(a.calls.contains(call));
    let q = choose|q: int| 0 <= q < a.calls.len() && a.calls[q] == call;
    assert(a.calls[q].caller == name);
    assert(leads_to(scripts, name, callee));
    called_scripts_run(scripts, roots, name, callee);
}

/// The scripts that are asked for run, and all scripts do where none is asked for. One that is
/// asked for and not there is missing.
pub proof fn roots_run(
    scripts: Scripts,
    roots: Seq<Seq<char>>,
    a: ScriptAnalysisModel,
    name: Seq<char>,
)
    requires
        analysis_of(scripts, roots, a),
    ensures
        lookup(scripts, name) is Some && (roots.len() == 0 || roots.contains(name))
            ==> a.reachable_scripts.contains(name),
        lookup(scripts, name) is None && roots.contains(name) ==> a.missing_scripts.contains(
            MissingScriptReferenceModel { caller: "<root>"@, callee: name, span: None },
        ),
{
    if lookup(scripts, name) is Some && (roots.len() == 0 || roots.contains(name)) {
        let path = seq![name];
        assert(call_path(scripts, roots, path));
        assert(path.last() == name);
        assert(script_runs(scripts, roots, name));
    }
    if lookup(scripts, name) is None && roots.contains(name) {
        assert(is_missing(
            scripts,
            roots,
            MissingScriptReferenceModel { caller: "<root>"@, callee: name, span: None },
        ));
    }
}

/// No script runs for nothing: it is there, and it is asked for, or none is, or a script that
/// runs calls it.
pub proof fn scripts_run_for_a_reason(
    scripts: Scripts,
    roots: Seq<Seq<char>>,
    a: ScriptAnalysisModel,
    name: Seq<char>,
)
    requires
        analysis_of(scripts, roots, a),
        a.reachable_scripts.contains(name),
    ensures
        lookup(scripts, name) is Some,
        roots.len() == 0 || roots.contains(name) || exists|caller: Seq<char>|
            #[trigger] a.reachable_scripts.contains(caller) && (tells_call(
                a,
                caller,
                name,
                ScriptCallKind::Explicit,
            ) || tells_call(a, caller, name, ScriptCallKind::Lifecycle)),
{
    assert(script_runs(scripts, roots, name));
    let path = choose|path: Seq<Seq<char>>| #[trigger]
        call_path(scripts, roots, path) && path.last() == name;
    if path.len() > 1 {
        let n = path.len() - 2;
        let caller = path[n];
        assert(leads_to(scripts, path[n], path[n + 1]));
        let front = path.drop_last();
        assert forall|i: int| 0 <= i < front.len() - 1 implies leads_to(
            scripts,
            #[trigger] front[i],
            front[i + 1],
        ) by {
            assert(leads_to(scripts, path[i], path[i + 1]));
        }
        assert(front[0] == path[0]);
        assert(call_path(scripts, roots, front));
        assert(front.last() == caller);
        assert(script_runs(scripts, roots, caller));
        assert(a.reachable_scripts.contains(caller));
        let call = choose|call: ScriptCallModel| #[trigger]
            is_call(scripts, call) && call.caller == caller && call.callee == name;
        assert(a.calls.contains(call));
        let q = choose|q: int| 0 <= q < a.calls.len() && a.calls[q] == call;
        assert(a.calls[q].caller == caller);
        assert(tells_call(a, caller, name, call.kind));
    }
}

/// Whether a word names a source or configuration file: by a relative or absolute path, or by
/// its extension.
pub open spec fn is_file_word(word: Seq<char>) -> bool {
    ||| "./"@.is_prefix_of(word)
    ||| "../"@.is_prefix_of(word)
    ||| "/"@.is_prefix_of(word)
    ||| exists|stem: Seq<char>, extension: Seq<char>|
        #![trigger stem + "."@ + extension]
        word == stem + "."@ + extension && (extension == "js"@ || extension == "jsx"@ || extension
            == "mjs"@ || extension == "cjs"@ || extension == "ts"@ || extension == "tsx"@
            || extension == "mts"@ || extension == "cts"@ || extension == "json"@ || extension
            == "jsonc"@ || extension == "yaml"@ || extension == "yml"@ || extension == "css"@
            || extension == "scss"@ || extension == "html"@)
}

proof fn extension_is_behind_the_last_point(stem: Seq<char>, extension: Seq<char>)
    requires
        !extension.contains('.'),
    ensures
        crate::text::cut_at_last(stem + "."@ + extension, '.') == Some((stem, extension)),
    decreases extension.len(),
{
    reveal_strlit(".");
    let word = stem + "."@ + extension;
    last_point(stem, extension);
    assert(word.take(stem.len() as int) =~= stem);
    assert(word.skip(stem.len() as int + 1) =~= extension);
}

proof fn last_point(stem: Seq<char>, extension: Seq<char>)
    requires
        !extension.contains('.'),
    ensures
        crate::text::last_index(stem + "."@ + extension, '.') == stem.len(),
    decreases extension.len(),
{
    reveal_strlit(".");
    let word = stem + "."@ + extension;
    if extension.len() > 0 {
        assert(extension.contains(extension[extension.len() - 1]));
        assert(word.last() == extension.last());
        let front = extension.drop_last();
        assert forall|c: char| front.contains(c) implies extension.contains(c) by {
            let i = choose|i: int| 0 <= i < front.len() && front[i] == c;
            assert(extension[i] == c);
        }
        assert(word.drop_last() =~= stem + "."@ + front);
        last_point(stem, front);
    } else {
        assert(word.last() == '.');
    }
}

proof fn file_words_are_like_files(word: Seq<char>)
    requires
        is_file_word(word),
    ensures
        file_like(word),
        word.len() > 0,
{
    reveal_strlit(".");
    reveal_strlit("./");
    reveal_strlit("../");
    reveal_strlit("/");
    reveal_strlit("js");
    reveal_strlit("jsx");
    reveal_strlit("mjs");
    reveal_strlit("cjs");
    reveal_strlit("ts");
    reveal_strlit("tsx");
    reveal_strlit("mts");
    reveal_strlit("cts");
    reveal_strlit("json");
    reveal_strlit("jsonc");
    reveal_strlit("yaml");
    reveal_strlit("yml");
    reveal_strlit("css");
    reveal_strlit("scss");
    reveal_strlit("html");
    if !"./"@.is_prefix_of(word) && !"../"@.is_prefix_of(word) && !"/"@.is_prefix_of(word) {
        let (stem, extension) = choose|stem: Seq<char>, extension: Seq<char>|
            #![trigger stem + "."@ + extension]
            word == stem + "."@ + extension && (extension == "js"@ || extension == "jsx"@
                || extension == "mjs"@ || extension == "cjs"@ || extension == "ts"@ || extension
                == "tsx"@ || extension == "mts"@ || extension == "cts"@ || extension == "json"@
                || extension == "jsonc"@ || extension == "yaml"@ || extension == "yml"@
                || extension == "css"@ || extension == "scss"@ || extension == "html"@);
        extension_is_behind_the_last_point(stem, extension);
    }
}

proof fn nothing_is_behind_no_point(word: Seq<char>)
    requires
        !word.contains('.'),
    ensures
        crate::text::cut_at_last(word, '.') is None,
    decreases word.len(),
{
    if word.len() > 0 {
        assert(word.contains(word[word.len() - 1]));
        let front = word.drop_last();
        assert forall|c: char| front.contains(c) implies word.contains(c) by {
            let i = choose|i: int| 0 <= i < front.len() && front[i] == c;
            assert(word[i] == c);
        }
        nothing_is_behind_no_point(front);
        assert(crate::text::last_index(word, '.') == crate::text::last_index(front, '.'));
    }
}

proof fn bare_names_are_no_files(name: Seq<char>)
    requires
        is_bare(name),
    ensures
        !file_like(name),
{
    reveal_strlit("./");
    reveal_strlit("../");
    reveal_strlit("/");
    reveal_strlit(".\\");
    reveal_strlit("..\\");
    nothing_is_behind_no_point(name);
    assert(name.contains(name[0]));
    if "./"@.is_prefix_of(name) {
        assert(name.subrange(0, 2)[0] == '.');
    }
    if "../"@.is_prefix_of(name) {
        assert(name.subrange(0, 3)[0] == '.');
    }
    if "/"@.is_prefix_of(name) {
        assert(name.subrange(0, 1)[0] == '/');
    }
    if ".\\"@.is_prefix_of(name) {
        assert(name.subrange(0, 2)[0] == '.');
    }
    if "..\\"@.is_prefix_of(name) {
        assert(name.subrange(0, 3)[0] == '.');
    }
}

/// Whether a program comes with the shell, the system or the package manager, or is looked at
/// by what it runs.
pub open spec fn comes_from_elsewhere(name: Seq<char>) -> bool {
    ||| name == "env"@ || name == "cross-env"@ || name == "command"@ || name == "exec"@
    ||| name == "cross-env-shell"@ || name == "sh"@ || name == "bash"@ || name == "cmd"@
    ||| name == "powershell"@ || name == "pwsh"@
    ||| name == "node"@ || name == "npm"@ || name == "pnpm"@ || name == "yarn"@ || name == "bun"@
    ||| name == "npx"@ || name == "bunx"@
    ||| name == "npm-run-all"@ || name == "run-s"@ || name == "run-p"@
    ||| name == "cd"@ || name == "cp"@ || name == "echo"@ || name == "export"@ || name == "false"@
    ||| name == "git"@ || name == "mkdir"@ || name == "mv"@ || name == "printf"@ || name == "rm"@
    ||| name == "set"@ || name == "sleep"@ || name == "test"@ || name == "true"@
}

/// Whether a program takes files as arguments that are part of the project.
pub open spec fn takes_files(name: Seq<char>) -> bool {
    ||| name == "ava"@ || name == "babel"@ || name == "eslint"@ || name == "jest"@
    ||| name == "mocha"@ || name == "prettier"@ || name == "rollup"@ || name == "ts-node"@
    ||| name == "tsc"@ || name == "tsx"@ || name == "vite"@ || name == "vitest"@
    ||| name == "webpack"@
}

/// Whether an option says nothing of packages.
pub open spec fn is_mere_option(word: Seq<char>) -> bool {
    is_option(word) && word != "-p"@ && word != "--package"@ && !"--package="@.is_prefix_of(word)
}

/// Where the words stand that are left to a program which runs others from packages.
pub open spec fn runs_from_packages(words: Seq<Seq<char>>, i: int, start: int) -> bool {
    ||| (calls_program(words[i], "npx"@) || calls_program(words[i], "bunx"@)) && start == i + 1
    ||| calls_manager(words[i]) && start == i + 2 && i + 1 < words.len() && (words[i + 1]
        == "exec"@ || words[i + 1] == "dlx"@ || words[i + 1] == "x"@)
}

/// Whether a command whose program is the `i`th word uses what the `j`th word names, as the
/// given kind of thing: the program itself; the program that `npx` and the like run; the file
/// that `node` runs, and the module that it loads first; the files of a tool.
pub open spec fn uses_word(
    words: Seq<Seq<char>>,
    i: int,
    j: int,
    kind: ScriptReferenceKind,
    value: Seq<char>,
) -> bool {
    &&& i <= j < words.len()
    &&& value.len() > 0
    &&& {
        ||| kind == ScriptReferenceKind::Binary && j == i && words[j] == value && is_bare(value)
            && !comes_from_elsewhere(value)
        ||| kind == ScriptReferenceKind::Binary && is_bare(value) && calls_program(words[j], value)
            && !is_option(words[j]) && exists|start: int|
            i < start <= j && #[trigger] runs_from_packages(words, i, start) && forall|k: int|
                start <= k < j ==> is_mere_option(#[trigger] words[k])
        ||| kind == ScriptReferenceKind::File && value == words[j] && is_file_word(value)
            && calls_program(words[i], "node"@) && j == i + 1 && !is_option(value)
        ||| kind == ScriptReferenceKind::File && value == words[j] && is_file_word(value)
            && !is_option(value) && i < j && takes_files(words[i])
        ||| value == words[j] && j == i + 2 && calls_program(words[i], "node"@) && (words[i + 1]
            == "-r"@ || words[i + 1] == "--require"@ || words[i + 1] == "--import"@ || words[i + 1]
            == "--loader"@ || words[i + 1] == "--experimental-loader"@) && (kind
            == ScriptReferenceKind::File && is_file_word(value) || kind
            == ScriptReferenceKind::Package && is_bare(value))
    }
}

proof fn executed_finds(
    script: Seq<char>,
    tokens: Seq<ScriptTokenModel>,
    words: Seq<Seq<char>>,
    from: int,
    j: int,
    name: Seq<char>,
    c: SegmentContributionModel,
)
    requires
        has_words(tokens, words),
        0 <= from <= j < words.len(),
        forall|k: int| from <= k < j ==> is_mere_option(#[trigger] words[k]),
        !is_option(words[j]),
        is_bare(name),
        calls_program(words[j], name),
    ensures
        executed(script, tokens, from as nat, c).references.contains(
            ScriptReferenceModel {
                script,
                kind: ScriptReferenceKind::Binary,
                value: name,
                span: tokens[j].span,
            },
        ),
    decreases j - from,
{
    reveal_strlit("--package=");
    reveal_strlit("--package");
    reveal_strlit("-p");
    options_start_with_a_dash(tokens, from);
    assert(tokens[from].value == words[from]);
    if from < j {
        assert(is_mere_option(words[from]));
        executed_finds(script, tokens, words, from + 1, j, name, c);
    } else {
        programs_go_by_name(words[j], name);
        reference_is_held(c, script, ScriptReferenceKind::Binary, name, tokens[j].span);
        if "--package="@.is_prefix_of(words[j]) {
            assert(words[j].subrange(0, 10)[0] == '-');
        }
    }
}

proof fn holding_on_goes_on(
    a: SegmentContributionModel,
    b: SegmentContributionModel,
    c: SegmentContributionModel,
)
    requires
        holds_on(a, b),
        holds_on(b, c),
    ensures
        holds_on(a, c),
{
}

proof fn tool_files_are_held(
    script: Seq<char>,
    tokens: Seq<ScriptTokenModel>,
    index: nat,
    wants_path: bool,
    c: SegmentContributionModel,
    j: int,
)
    requires
        index <= j < tokens.len() ==> !dashed(tokens[j]) && file_like(tokens[j].value)
            && tokens[j].value.len() > 0,
    ensures
        holds_on(c, tool_files(script, tokens, index, wants_path, c)),
        index <= j < tokens.len() ==> tool_files(
            script,
            tokens,
            index,
            wants_path,
            c,
        ).references.contains(
            ScriptReferenceModel {
                script,
                kind: ScriptReferenceKind::File,
                value: tokens[j].value,
                span: tokens[j].span,
            },
        ),
    decreases tokens.len() - index,
{
    if index < tokens.len() {
        let token = tokens[index as int];
        reference_is_held(c, script, ScriptReferenceKind::File, token.value, token.span);
        if wants_path || (!dashed(token) && file_like(token.value)) {
            let next = if file_like(token.value) {
                with_reference(c, script, ScriptReferenceKind::File, token.value, token.span)
            } else {
                c
            };
            tool_files_are_held(script, tokens, index + 1, false, next, j);
            holding_on_goes_on(c, next, tool_files(script, tokens, index + 1, false, next));
        } else {
            tool_files_are_held(
                script,
                tokens,
                index + 1,
                crate::discovery::segments::path_option(token.value),
                c,
                j,
            );
        }
    }
}

proof fn node_words_are_held(
    script: Seq<char>,
    tokens: Seq<ScriptTokenModel>,
    index: nat,
    test_mode: bool,
    c: SegmentContributionModel,
)
    ensures
        holds_on(c, node_words(script, tokens, index, test_mode, c)),
    decreases tokens.len() - index,
{
    if index < tokens.len() {
        let token = tokens[index as int];
        let two = crate::discovery::segments::past_two(tokens, index);
        if let Some(value) = crate::discovery::segments::inline_loader(token.value) {
            reference_is_held(c, script, ScriptReferenceKind::File, value, token.span);
            reference_is_held(c, script, ScriptReferenceKind::Package, value, token.span);
            let next = with_loader(c, script, value, token.span);
            node_words_are_held(script, tokens, index + 1, test_mode, next);
            holding_on_goes_on(c, next, node_words(script, tokens, index + 1, test_mode, next));
        } else if loader_flag(token.value) {
            let next = if index + 1 < tokens.len() {
                with_loader(
                    c,
                    script,
                    tokens[index as int + 1].value,
                    tokens[index as int + 1].span,
                )
            } else {
                c
            };
            if index + 1 < tokens.len() {
                let other = tokens[index as int + 1];
                reference_is_held(c, script, ScriptReferenceKind::File, other.value, other.span);
                reference_is_held(c, script, ScriptReferenceKind::Package, other.value, other.span);
            }
            node_words_are_held(script, tokens, two, test_mode, next);
            holding_on_goes_on(c, next, node_words(script, tokens, two, test_mode, next));
        } else if crate::discovery::segments::inline_code_flag(token.value) {
            let span = ScriptSpan {
                start: token.span.start,
                end: if index + 1 < tokens.len() {
                    tokens[index as int + 1].span.end
                } else {
                    token.span.end
                },
            };
            with_item_contains::<(ScriptSpan, UnmodeledScriptKind)>(
                c.unmodeled,
                (span, UnmodeledScriptKind::InlineCode),
            );
        } else {
            reference_is_held(c, script, ScriptReferenceKind::File, token.value, token.span);
            let next = if file_like(token.value) {
                with_reference(c, script, ScriptReferenceKind::File, token.value, token.span)
            } else {
                c
            };
            node_words_are_held(script, tokens, index + 1, true, c);
            node_words_are_held(script, tokens, index + 1, test_mode, c);
            node_words_are_held(script, tokens, two, test_mode, c);
            node_words_are_held(script, tokens, index + 1, test_mode, next);
            holding_on_goes_on(c, next, node_words(script, tokens, index + 1, test_mode, next));
        }
    }
}

proof fn loader_flags_are_no_inline_loaders(word: Seq<char>)
    requires
        loader_flag(word),
    ensures
        crate::discovery::segments::inline_loader(word) is None,
{
    reveal_strlit("-r");
    reveal_strlit("--require");
    reveal_strlit("--import");
    reveal_strlit("--loader");
    reveal_strlit("--experimental-loader");
    reveal_strlit("--require=");
    reveal_strlit("--import=");
    reveal_strlit("--loader=");
    reveal_strlit("--experimental-loader=");
    assert("--require"@[2] == 'r' && "--require"@.len() == 9 && "--require"@[1] == '-');
    assert("--import"@[2] == 'i' && "--import"@.len() == 8 && "--import"@[1] == '-');
    assert("--loader"@[2] == 'l' && "--loader"@.len() == 8 && "--loader"@[1] == '-');
    assert("--experimental-loader"@[2] == 'e' && "--experimental-loader"@.len() == 21
        && "--experimental-loader"@[1] == '-');
    assert("--require="@[2] == 'r' && "--require="@.len() == 10);
    assert("--import="@[2] == 'i' && "--import="@.len() == 9);
    assert("--loader="@[2] == 'l' && "--loader="@.len() == 9);
    assert("--experimental-loader="@[2] == 'e' && "--experimental-loader="@.len() == 22);
    assert("-r"@[1] == 'r' && "-r"@.len() == 2);
    if "--require="@.is_prefix_of(word) {
        assert(word.subrange(0, 10)[2] == 'r');
    }
    if "--import="@.is_prefix_of(word) {
        assert(word.subrange(0, 9)[2] == 'i');
    }
    if "--loader="@.is_prefix_of(word) {
        assert(word.subrange(0, 9)[2] == 'l');
    }
    if "-r"@.is_prefix_of(word) {
        assert(word.subrange(0, 2)[1] == 'r');
        assert(word == "-r"@);
    }
}

proof fn plain_words_are_no_node_options(word: Seq<char>)
    requires
        !is_option(word),
    ensures
        crate::discovery::segments::inline_loader(word) is None,
        !loader_flag(word),
        !crate::discovery::segments::inline_code_flag(word),
        word != "--test"@,
        !"--test="@.is_prefix_of(word),
{
    reveal_strlit("-r");
    reveal_strlit("--require");
    reveal_strlit("--import");
    reveal_strlit("--loader");
    reveal_strlit("--experimental-loader");
    reveal_strlit("--require=");
    reveal_strlit("--import=");
    reveal_strlit("--loader=");
    reveal_strlit("--experimental-loader=");
    reveal_strlit("-e");
    reveal_strlit("--eval");
    reveal_strlit("-p");
    reveal_strlit("--print");
    reveal_strlit("--test");
    reveal_strlit("--test=");
    if "--require="@.is_prefix_of(word) {
        assert(word.subrange(0, 10)[0] == '-');
    }
    if "--import="@.is_prefix_of(word) {
        assert(word.subrange(0, 9)[0] == '-');
    }
    if "--loader="@.is_prefix_of(word) {
        assert(word.subrange(0, 9)[0] == '-');
    }
    if "--experimental-loader="@.is_prefix_of(word) {
        assert(word.subrange(0, 22)[0] == '-');
    }
    if "-r"@.is_prefix_of(word) {
        assert(word.subrange(0, 2)[0] == '-');
    }
    if "--test="@.is_prefix_of(word) {
        assert(word.subrange(0, 7)[0] == '-');
    }
}

proof fn tools_come_from_packages(name: Seq<char>)
    requires
        takes_files(name),
    ensures
        is_bare(name),
        !comes_from_elsewhere(name),
        name != "concurrently"@,
{
    reveal_strlit("ava");
    reveal_strlit("babel");
    reveal_strlit("eslint");
    reveal_strlit("jest");
    reveal_strlit("mocha");
    reveal_strlit("prettier");
    reveal_strlit("rollup");
    reveal_strlit("ts-node");
    reveal_strlit("tsc");
    reveal_strlit("tsx");
    reveal_strlit("vite");
    reveal_strlit("vitest");
    reveal_strlit("webpack");
    reveal_strlit("env");
    reveal_strlit("cross-env");
    reveal_strlit("command");
    reveal_strlit("exec");
    reveal_strlit("cross-env-shell");
    reveal_strlit("sh");
    reveal_strlit("bash");
    reveal_strlit("cmd");
    reveal_strlit("powershell");
    reveal_strlit("pwsh");
    reveal_strlit("node");
    reveal_strlit("npm");
    reveal_strlit("pnpm");
    reveal_strlit("yarn");
    reveal_strlit("bun");
    reveal_strlit("npx");
    reveal_strlit("bunx");
    reveal_strlit("npm-run-all");
    reveal_strlit("run-s");
    reveal_strlit("run-p");
    reveal_strlit("cd");
    reveal_strlit("cp");
    reveal_strlit("echo");
    reveal_strlit("export");
    reveal_strlit("false");
    reveal_strlit("git");
    reveal_strlit("mkdir");
    reveal_strlit("mv");
    reveal_strlit("printf");
    reveal_strlit("rm");
    reveal_strlit("set");
    reveal_strlit("sleep");
    reveal_strlit("test");
    reveal_strlit("true");
    reveal_strlit("concurrently");
    assert("ava"@.len() == 3 && "ava"@[0] == 'a' && "ava"@[1] == 'v');
    assert("babel"@.len() == 5 && "babel"@[0] == 'b' && "babel"@[1] == 'a' && "babel"@[2] == 'b' && "babel"@[3] == 'e');
    assert("eslint"@.len() == 6 && "eslint"@[0] == 'e' && "eslint"@[1] == 's' && "eslint"@[2] == 'l' && "eslint"@[3] == 'i');
    assert("jest"@.len() == 4 && "jest"@[0] == 'j' && "jest"@[1] == 'e' && "jest"@[2] == 's' && "jest"@[3] == 't');
    assert("mocha"@.len() == 5 && "mocha"@[0] == 'm' && "mocha"@[1] == 'o' && "mocha"@[2] == 'c' && "mocha"@[3] == 'h');
    assert("prettier"@.len() == 8 && "prettier"@[0] == 'p' && "prettier"@[1] == 'r' && "prettier"@[2] == 'e' && "prettier"@[3] == 't');
    assert("rollup"@.len() == 6 && "rollup"@[0] == 'r' && "rollup"@[1] == 'o' && "rollup"@[2] == 'l' && "rollup"@[3] == 'l');
    assert("ts-node"@.len() == 7 && "ts-node"@[0] == 't' && "ts-node"@[1] == 's' && "ts-node"@[2] == '-' && "ts-node"@[3] == 'n');
    assert("tsc"@.len() == 3 && "tsc"@[0] == 't' && "tsc"@[1] == 's');
    assert("tsx"@.len() == 3 && "tsx"@[0] == 't' && "tsx"@[1] == 's');
    assert("vite"@.len() == 4 && "vite"@[0] == 'v' && "vite"@[1] == 'i' && "vite"@[2] == 't' && "vite"@[3] == 'e');
    assert("vitest"@.len() == 6 && "vitest"@[0] == 'v' && "vitest"@[1] == 'i' && "vitest"@[2] == 't' && "vitest"@[3] == 'e');
    assert("webpack"@.len() == 7 && "webpack"@[0] == 'w' && "webpack"@[1] == 'e' && "webpack"@[2] == 'b' && "webpack"@[3] == 'p');
    assert("env"@.len() == 3 && "env"@[0] == 'e' && "env"@[1] == 'n');
    assert("cross-env"@.len() == 9 && "cross-env"@[0] == 'c' && "cross-env"@[1] == 'r' && "cross-env"@[2] == 'o' && "cross-env"@[3] == 's');
    assert("command"@.len() == 7 && "command"@[0] == 'c' && "command"@[1] == 'o' && "command"@[2] == 'm' && "command"@[3] == 'm');
    assert("exec"@.len() == 4 && "exec"@[0] == 'e' && "exec"@[1] == 'x' && "exec"@[2] == 'e' && "exec"@[3] == 'c');
    assert("cross-env-shell"@.len() == 15 && "cross-env-shell"@[0] == 'c' && "cross-env-shell"@[1] == 'r' && "cross-env-shell"@[2] == 'o' && "cross-env-shell"@[3] == 's');
    assert("sh"@.len() == 2 && "sh"@[0] == 's' && "sh"@[1] == 'h');
    assert("bash"@.len() == 4 && "bash"@[0] == 'b' && "bash"@[1] == 'a' && "bash"@[2] == 's' && "bash"@[3] == 'h');
    assert("cmd"@.len() == 3 && "cmd"@[0] == 'c' && "cmd"@[1] == 'm');
    assert("powershell"@.len() == 10 && "powershell"@[0] == 'p' && "powershell"@[1] == 'o' && "powershell"@[2] == 'w' && "powershell"@[3] == 'e');
    assert("pwsh"@.len() == 4 && "pwsh"@[0] == 'p' && "pwsh"@[1] == 'w' && "pwsh"@[2] == 's' && "pwsh"@[3] == 'h');
    assert("node"@.len() == 4 && "node"@[0] == 'n' && "node"@[1] == 'o' && "node"@[2] == 'd' && "node"@[3] == 'e');
    assert("npm"@.len() == 3 && "npm"@[0] == 'n' && "npm"@[1] == 'p');
    assert("pnpm"@.len() == 4 && "pnpm"@[0] == 'p' && "pnpm"@[1] == 'n' && "pnpm"@[2] == 'p' && "pnpm"@[3] == 'm');
    assert("yarn"@.len() == 4 && "yarn"@[0] == 'y' && "yarn"@[1] == 'a' && "yarn"@[2] == 'r' && "yarn"@[3] == 'n');
    assert("bun"@.len() == 3 && "bun"@[0] == 'b' && "bun"@[1] == 'u');
    assert("npx"@.len() == 3 && "npx"@[0] == 'n' && "npx"@[1] == 'p');
    assert("bunx"@.len() == 4 && "bunx"@[0] == 'b' && "bunx"@[1] == 'u' && "bunx"@[2] == 'n' && "bunx"@[3] == 'x');
    assert("npm-run-all"@.len() == 11 && "npm-run-all"@[0] == 'n' && "npm-run-all"@[1] == 'p' && "npm-run-all"@[2] == 'm' && "npm-run-all"@[3] == '-');
    assert("run-s"@.len() == 5 && "run-s"@[0] == 'r' && "run-s"@[1] == 'u' && "run-s"@[2] == 'n' && "run-s"@[3] == '-');
    assert("run-p"@.len() == 5 && "run-p"@[0] == 'r' && "run-p"@[1] == 'u' && "run-p"@[2] == 'n' && "run-p"@[3] == '-');
    assert("cd"@.len() == 2 && "cd"@[0] == 'c' && "cd"@[1] == 'd');
    assert("cp"@.len() == 2 && "cp"@[0] == 'c' && "cp"@[1] == 'p');
    assert("echo"@.len() == 4 && "echo"@[0] == 'e' && "echo"@[1] == 'c' && "echo"@[2] == 'h' && "echo"@[3] == 'o');
    assert("export"@.len() == 6 && "export"@[0] == 'e' && "export"@[1] == 'x' && "export"@[2] == 'p' && "export"@[3] == 'o');
    assert("false"@.len() == 5 && "false"@[0] == 'f' && "false"@[1] == 'a' && "false"@[2] == 'l' && "false"@[3] == 's');
    assert("git"@.len() == 3 && "git"@[0] == 'g' && "git"@[1] == 'i');
    assert("mkdir"@.len() == 5 && "mkdir"@[0] == 'm' && "mkdir"@[1] == 'k' && "mkdir"@[2] == 'd' && "mkdir"@[3] == 'i');
    assert("mv"@.len() == 2 && "mv"@[0] == 'm' && "mv"@[1] == 'v');
    assert("printf"@.len() == 6 && "printf"@[0] == 'p' && "printf"@[1] == 'r' && "printf"@[2] == 'i' && "printf"@[3] == 'n');
    assert("rm"@.len() == 2 && "rm"@[0] == 'r' && "rm"@[1] == 'm');
    assert("set"@.len() == 3 && "set"@[0] == 's' && "set"@[1] == 'e');
    assert("sleep"@.len() == 5 && "sleep"@[0] == 's' && "sleep"@[1] == 'l' && "sleep"@[2] == 'e' && "sleep"@[3] == 'e');
    assert("test"@.len() == 4 && "test"@[0] == 't' && "test"@[1] == 'e' && "test"@[2] == 's' && "test"@[3] == 't');
    assert("true"@.len() == 4 && "true"@[0] == 't' && "true"@[1] == 'r' && "true"@[2] == 'u' && "true"@[3] == 'e');
    assert("concurrently"@.len() == 12 && "concurrently"@[0] == 'c' && "concurrently"@[1] == 'o' && "concurrently"@[2] == 'n' && "concurrently"@[3] == 'c');
}

proof fn programs_are_used(
    script: Seq<char>,
    segment: ScriptSegmentModel,
    words: Seq<Seq<char>>,
    i: int,
    j: int,
    depth: nat,
    c: SegmentContributionModel,
)
    requires
        has_words(segment.tokens, words),
        is_program_word(words, i),
        is_bare(words[i]),
        !comes_from_elsewhere(words[i]),
        i < j < words.len() && takes_files(words[i]) ==> !is_option(words[j]) && is_file_word(
            words[j],
        ),
    ensures
        analyzed_segment(script, segment, depth, c).references.contains(
            ScriptReferenceModel {
                script,
                kind: ScriptReferenceKind::Binary,
                value: words[i],
                span: segment.tokens[i].span,
            },
        ),
        i < j < words.len() && takes_files(words[i]) ==> analyzed_segment(
            script,
            segment,
            depth,
            c,
        ).references.contains(
            ScriptReferenceModel {
                script,
                kind: ScriptReferenceKind::File,
                value: words[j],
                span: segment.tokens[j].span,
            },
        ),
{
    let tokens = segment.tokens;
    let name = words[i];
    assert(name =~= Seq::<char>::empty() + name + Seq::<char>::empty());
    assert(calls_program(name, name));
    programs_go_by_name(name, name);
    program_is_found(script, tokens, words, i, c);
    bare_names_are_no_files(name);
    assert(tokens[i].value == name);
    reference_is_held(c, script, ScriptReferenceKind::Binary, name, tokens[i].span);
    let c1 = with_reference(c, script, ScriptReferenceKind::Binary, name, tokens[i].span);
    assert(!shell_wrapper(name) && !package_manager(name) && !script_runner(name)
        && !system_command(name));
    if name == "concurrently"@ {
        with_item_contains::<(ScriptSpan, UnmodeledScriptKind)>(
            c1.unmodeled,
            (segment.span, UnmodeledScriptKind::UnsupportedShellWrapper),
        );
        if takes_files(name) {
            tools_come_from_packages(name);
        }
    } else {
        if i < j < words.len() && takes_files(name) {
            file_words_are_like_files(words[j]);
            assert(tokens[j].value == words[j]);
            options_start_with_a_dash(tokens, j);
            tool_files_are_held(script, tokens, (i + 1) as nat, false, c1, j);
        } else {
            tool_files_are_held(script, tokens, (i + 1) as nat, false, c1, i);
        }
    }
}

/// A command uses the programs, packages and files that its words name.
#[verifier::rlimit(40)]
pub proof fn commands_use_what_they_name(
    script: Seq<char>,
    segment: ScriptSegmentModel,
    words: Seq<Seq<char>>,
    i: int,
    j: int,
    kind: ScriptReferenceKind,
    value: Seq<char>,
    depth: nat,
    c: SegmentContributionModel,
)
    requires
        has_words(segment.tokens, words),
        is_program_word(words, i),
        uses_word(words, i, j, kind, value),
    ensures
        analyzed_segment(script, segment, depth, c).references.contains(
            ScriptReferenceModel { script, kind, value, span: segment.tokens[j].span },
        ),
{
    let tokens = segment.tokens;
    assert(tokens[j].value == words[j]);
    assert(tokens[i].value == words[i]);
    if kind == ScriptReferenceKind::Binary && j == i && words[j] == value && is_bare(value)
        && !comes_from_elsewhere(value) {
        programs_are_used(script, segment, words, i, i, depth, c);
    } else if kind == ScriptReferenceKind::File && i < j && takes_files(words[i])
        && value == words[j] && is_file_word(value) && !is_option(value) {
        tools_come_from_packages(words[i]);
        programs_are_used(script, segment, words, i, j, depth, c);
    } else if kind == ScriptReferenceKind::Binary {
        let start = choose|start: int|
            i < start <= j && #[trigger] runs_from_packages(words, i, start) && forall|k: int|
                start <= k < j ==> is_mere_option(#[trigger] words[k]);
        executed_finds(script, tokens, words, start, j, value, c);
        let name = if calls_program(words[i], "npm"@) {
            "npm"@
        } else if calls_program(words[i], "pnpm"@) {
            "pnpm"@
        } else if calls_program(words[i], "yarn"@) {
            "yarn"@
        } else if calls_program(words[i], "bun"@) {
            "bun"@
        } else if calls_program(words[i], "npx"@) {
            "npx"@
        } else {
            "bunx"@
        };
        managers_are_no_other(name);
        programs_go_by_name(words[i], name);
        program_is_found(script, tokens, words, i, c);
        if (calls_program(words[i], "npx"@) || calls_program(words[i], "bunx"@)) && start == i + 1 {
            if calls_program(words[i], "npx"@) {
                managers_are_no_other("npx"@);
                programs_go_by_name(words[i], "npx"@);
            } else {
                managers_are_no_other("bunx"@);
                programs_go_by_name(words[i], "bunx"@);
            }
        } else {
            let first = words[i + 1];
            assert(tokens[i + 1].value == first);
            assert(exec_verb(first));
            manager_words_are_plain(first);
            options_start_with_a_dash(tokens, i + 1);
            assert(action_index(tokens, (i + 1) as nat) == (i + 1) as nat);
        }
    } else {
        managers_are_no_other("node"@);
        programs_go_by_name(words[i], "node"@);
        program_is_found(script, tokens, words, i, c);
        let first = words[i + 1];
        assert(tokens[i + 1].value == first);
        options_start_with_a_dash(tokens, i + 1);
        if j == i + 1 {
            plain_words_are_no_node_options(first);
            file_words_are_like_files(first);
            reference_is_held(c, script, ScriptReferenceKind::File, value, tokens[j].span);
        } else {
            loader_flags_are_no_inline_loaders(first);
            assert(loader_flag(first));
            if kind == ScriptReferenceKind::File {
                file_words_are_like_files(value);
            } else {
                bare_names_are_no_files(value);
            }
            reference_is_held(c, script, kind, value, tokens[j].span);
            let next = with_loader(c, script, value, tokens[j].span);
            assert(next == with_reference(c, script, kind, value, tokens[j].span));
            let two = crate::discovery::segments::past_two(tokens, (i + 1) as nat);
            node_words_are_held(script, tokens, two, false, next);
        }
    }
}

/// A script that runs uses the programs, packages and files that a command of it names, and the
/// analysis says so.
pub proof fn scripts_use_what_their_commands_name(
    scripts: Scripts,
    roots: Seq<Seq<char>>,
    a: ScriptAnalysisModel,
    name: Seq<char>,
    source: Seq<char>,
    k: int,
    words: Seq<Seq<char>>,
    i: int,
    j: int,
    kind: ScriptReferenceKind,
    value: Seq<char>,
)
    requires
        analysis_of(scripts, roots, a),
        a.reachable_scripts.contains(name),
        lookup(scripts, name) == Some(source),
        is_covered(source, k),
        has_words(tokenized(source).segments[k].tokens, words),
        is_program_word(words, i),
        uses_word(words, i, j, kind, value),
    ensures
        a.references.contains(
            ScriptReferenceModel {
                script: name,
                kind,
                value,
                span: tokenized(source).segments[k].tokens[j].span,
            },
        ),
{
    let segment = tokenized(source).segments[k];
    commands_use_what_they_name(
        name,
        segment,
        words,
        i,
        j,
        kind,
        value,
        0,
        no_contribution(),
    );
    let r = ScriptReferenceModel {
        script: name,
        kind,
        value,
        span: segment.tokens[j].span,
    };
    assert(modeled(source, k));
    assert(facts(name, source, k).references.contains(r));
    assert(refers_within(name, source, tokenized(source).segments.len() as int, r));
    assert(refers(scripts, name, r));
    assert(script_runs(scripts, roots, name));
}

/// Whether a word is a command of the shell or of the system that uses no package.
pub open spec fn is_system_word(word: Seq<char>) -> bool {
    ||| word == "cd"@ || word == "cp"@ || word == "echo"@ || word == "export"@ || word == "false"@
    ||| word == "git"@ || word == "mkdir"@ || word == "mv"@ || word == "printf"@ || word == "rm"@
    ||| word == "set"@ || word == "sleep"@ || word == "test"@ || word == "true"@
}

proof fn system_words_are_no_other(word: Seq<char>)
    requires
        is_system_word(word),
    ensures
        is_bare(word),
        !runs_another(word),
        !shell_wrapper(word),
        word != "concurrently"@,
        word != "node"@,
        word != "npx"@,
        word != "bunx"@,
        !package_manager(word),
        !script_runner(word),
        system_command(word),
{
    reveal_strlit("cd");
    assert("cd"@.len() == 2 && "cd"@[0] == 'c' && "cd"@[1] == 'd');
    reveal_strlit("cp");
    assert("cp"@.len() == 2 && "cp"@[0] == 'c' && "cp"@[1] == 'p');
    reveal_strlit("echo");
    assert("echo"@.len() == 4 && "echo"@[0] == 'e' && "echo"@[1] == 'c' && "echo"@[2] == 'h' && "echo"@[3] == 'o');
    reveal_strlit("export");
    assert("export"@.len() == 6 && "export"@[0] == 'e' && "export"@[1] == 'x' && "export"@[2] == 'p' && "export"@[3] == 'o');
    reveal_strlit("false");
    assert("false"@.len() == 5 && "false"@[0] == 'f' && "false"@[1] == 'a' && "false"@[2] == 'l' && "false"@[3] == 's');
    reveal_strlit("git");
    assert("git"@.len() == 3 && "git"@[0] == 'g' && "git"@[1] == 'i' && "git"@[2] == 't');
    reveal_strlit("mkdir");
    assert("mkdir"@.len() == 5 && "mkdir"@[0] == 'm' && "mkdir"@[1] == 'k' && "mkdir"@[2] == 'd' && "mkdir"@[3] == 'i');
    reveal_strlit("mv");
    assert("mv"@.len() == 2 && "mv"@[0] == 'm' && "mv"@[1] == 'v');
    reveal_strlit("printf");
    assert("printf"@.len() == 6 && "printf"@[0] == 'p' && "printf"@[1] == 'r' && "printf"@[2] == 'i' && "printf"@[3] == 'n');
    reveal_strlit("rm");
    assert("rm"@.len() == 2 && "rm"@[0] == 'r' && "rm"@[1] == 'm');
    reveal_strlit("set");
    assert("set"@.len() == 3 && "set"@[0] == 's' && "set"@[1] == 'e' && "set"@[2] == 't');
    reveal_strlit("sleep");
    assert("sleep"@.len() == 5 && "sleep"@[0] == 's' && "sleep"@[1] == 'l' && "sleep"@[2] == 'e' && "sleep"@[3] == 'e');
    reveal_strlit("test");
    assert("test"@.len() == 4 && "test"@[0] == 't' && "test"@[1] == 'e' && "test"@[2] == 's' && "test"@[3] == 't');
    reveal_strlit("true");
    assert("true"@.len() == 4 && "true"@[0] == 't' && "true"@[1] == 'r' && "true"@[2] == 'u' && "true"@[3] == 'e');
    reveal_strlit("env");
    assert("env"@.len() == 3 && "env"@[0] == 'e' && "env"@[1] == 'n' && "env"@[2] == 'v');
    reveal_strlit("cross-env");
    assert("cross-env"@.len() == 9 && "cross-env"@[0] == 'c' && "cross-env"@[1] == 'r' && "cross-env"@[2] == 'o' && "cross-env"@[3] == 's');
    reveal_strlit("command");
    assert("command"@.len() == 7 && "command"@[0] == 'c' && "command"@[1] == 'o' && "command"@[2] == 'm' && "command"@[3] == 'm');
    reveal_strlit("exec");
    assert("exec"@.len() == 4 && "exec"@[0] == 'e' && "exec"@[1] == 'x' && "exec"@[2] == 'e' && "exec"@[3] == 'c');
    reveal_strlit("cross-env-shell");
    assert("cross-env-shell"@.len() == 15 && "cross-env-shell"@[0] == 'c' && "cross-env-shell"@[1] == 'r' && "cross-env-shell"@[2] == 'o' && "cross-env-shell"@[3] == 's');
    reveal_strlit("sh");
    assert("sh"@.len() == 2 && "sh"@[0] == 's' && "sh"@[1] == 'h');
    reveal_strlit("bash");
    assert("bash"@.len() == 4 && "bash"@[0] == 'b' && "bash"@[1] == 'a' && "bash"@[2] == 's' && "bash"@[3] == 'h');
    reveal_strlit("cmd");
    assert("cmd"@.len() == 3 && "cmd"@[0] == 'c' && "cmd"@[1] == 'm' && "cmd"@[2] == 'd');
    reveal_strlit("powershell");
    assert("powershell"@.len() == 10 && "powershell"@[0] == 'p' && "powershell"@[1] == 'o' && "powershell"@[2] == 'w' && "powershell"@[3] == 'e');
    reveal_strlit("pwsh");
    assert("pwsh"@.len() == 4 && "pwsh"@[0] == 'p' && "pwsh"@[1] == 'w' && "pwsh"@[2] == 's' && "pwsh"@[3] == 'h');
    reveal_strlit("concurrently");
    assert("concurrently"@.len() == 12 && "concurrently"@[0] == 'c' && "concurrently"@[1] == 'o' && "concurrently"@[2] == 'n' && "concurrently"@[3] == 'c');
    reveal_strlit("node");
    assert("node"@.len() == 4 && "node"@[0] == 'n' && "node"@[1] == 'o' && "node"@[2] == 'd' && "node"@[3] == 'e');
    reveal_strlit("npm");
    assert("npm"@.len() == 3 && "npm"@[0] == 'n' && "npm"@[1] == 'p' && "npm"@[2] == 'm');
    reveal_strlit("pnpm");
    assert("pnpm"@.len() == 4 && "pnpm"@[0] == 'p' && "pnpm"@[1] == 'n' && "pnpm"@[2] == 'p' && "pnpm"@[3] == 'm');
    reveal_strlit("yarn");
    assert("yarn"@.len() == 4 && "yarn"@[0] == 'y' && "yarn"@[1] == 'a' && "yarn"@[2] == 'r' && "yarn"@[3] == 'n');
    reveal_strlit("bun");
    assert("bun"@.len() == 3 && "bun"@[0] == 'b' && "bun"@[1] == 'u' && "bun"@[2] == 'n');
    reveal_strlit("npx");
    assert("npx"@.len() == 3 && "npx"@[0] == 'n' && "npx"@[1] == 'p' && "npx"@[2] == 'x');
    reveal_strlit("bunx");
    assert("bunx"@.len() == 4 && "bunx"@[0] == 'b' && "bunx"@[1] == 'u' && "bunx"@[2] == 'n' && "bunx"@[3] == 'x');
    reveal_strlit("npm-run-all");
    assert("npm-run-all"@.len() == 11 && "npm-run-all"@[0] == 'n' && "npm-run-all"@[1] == 'p' && "npm-run-all"@[2] == 'm' && "npm-run-all"@[3] == '-');
    reveal_strlit("run-s");
    assert("run-s"@.len() == 5 && "run-s"@[0] == 'r' && "run-s"@[1] == 'u' && "run-s"@[2] == 'n' && "run-s"@[3] == '-');
    reveal_strlit("run-p");
    assert("run-p"@.len() == 5 && "run-p"@[0] == 'r' && "run-p"@[1] == 'u' && "run-p"@[2] == 'n' && "run-p"@[3] == '-');
}

/// A command of the shell or of the system runs no script and uses nothing.
pub proof fn system_commands_use_nothing(
    script: Seq<char>,
    segment: ScriptSegmentModel,
    words: Seq<Seq<char>>,
    i: int,
    depth: nat,
    c: SegmentContributionModel,
)
    requires
        has_words(segment.tokens, words),
        is_program_word(words, i),
        is_system_word(words[i]),
    ensures
        analyzed_segment(script, segment, depth, c) == c,
{
    let name = words[i];
    system_words_are_no_other(name);
    assert(name =~= Seq::<char>::empty() + name + Seq::<char>::empty());
    assert(calls_program(name, name));
    programs_go_by_name(name, name);
    program_is_found(script, segment.tokens, words, i, c);
    bare_names_are_no_files(name);
    assert(segment.tokens[i].value == name);
}

/// A package manager that is told to do something of its own, such as to install, runs no
/// script and uses nothing.
pub proof fn managers_do_their_own_work(
    script: Seq<char>,
    segment: ScriptSegmentModel,
    words: Seq<Seq<char>>,
    i: int,
    depth: nat,
    c: SegmentContributionModel,
)
    requires
        has_words(segment.tokens, words),
        is_program_word(words, i),
        calls_manager(words[i]),
        i + 1 < words.len(),
        !is_option(words[i + 1]),
        is_manager_word(words[i + 1]),
        words[i + 1] != "run"@,
        words[i + 1] != "run-script"@,
        words[i + 1] != "exec"@,
        words[i + 1] != "dlx"@,
        words[i + 1] != "x"@,
        words[i + 1] != "start"@,
        words[i + 1] != "stop"@,
        words[i + 1] != "restart"@,
        words[i + 1] != "test"@,
    ensures
        analyzed_segment(script, segment, depth, c) == c,
{
    let tokens = segment.tokens;
    let name = if calls_program(words[i], "npm"@) {
        "npm"@
    } else if calls_program(words[i], "pnpm"@) {
        "pnpm"@
    } else if calls_program(words[i], "yarn"@) {
        "yarn"@
    } else {
        "bun"@
    };
    managers_are_no_other(name);
    programs_go_by_name(words[i], name);
    program_is_found(script, tokens, words, i, c);
    assert(tokens[i].value == words[i]);
    let first = words[i + 1];
    assert(tokens[i + 1].value == first);
    options_start_with_a_dash(tokens, i + 1);
    manager_options_are_options(first);
    assert(action_index(tokens, (i + 1) as nat) == (i + 1) as nat);
    assert(manager_command(first));
}

/// A shell that is given a command runs what the command runs, and uses what it uses.
pub proof fn shells_run_what_they_are_given(
    script: Seq<char>,
    segment: ScriptSegmentModel,
    words: Seq<Seq<char>>,
    i: int,
    given: Seq<Seq<char>>,
    k: int,
    j: int,
    depth: nat,
    c: SegmentContributionModel,
)
    requires
        has_words(segment.tokens, words),
        is_program_word(words, i),
        calls_program(words[i], "sh"@) || calls_program(words[i], "bash"@),
        i + 2 < words.len(),
        words[i + 1] == "-c"@,
        is_one_command(words[i + 2], given),
        is_program_word(given, k),
        0 <= j < given.len(),
        depth < 4,
    ensures
        runs_script(given, k, j) ==> analyzed_segment(
            script,
            segment,
            depth,
            c,
        ).nested_scripts.contains((given[j], segment.tokens[i + 2].span)),
        forall|kind: ScriptReferenceKind, value: Seq<char>| #[trigger]
            uses_word(given, k, j, kind, value) ==> analyzed_segment(
                script,
                segment,
                depth,
                c,
            ).references.contains(
                ScriptReferenceModel {
                    script,
                    kind,
                    value,
                    span: segment.tokens[i + 2].span,
                },
            ),
{
    reveal_strlit("sh");
    reveal_strlit("bash");
    reveal_strlit("-c");
    reveal_strlit("cmd");
    reveal_strlit("powershell");
    reveal_strlit("pwsh");
    reveal_strlit("cross-env-shell");
    reveal_strlit("env");
    reveal_strlit("cross-env");
    reveal_strlit("command");
    reveal_strlit("exec");
    assert("sh"@.len() == 2 && "bash"@.len() == 4 && "bash"@[0] == 'b' && "cmd"@.len() == 3
        && "powershell"@.len() == 10 && "pwsh"@.len() == 4 && "pwsh"@[0] == 'p'
        && "cross-env-shell"@.len() == 15 && "env"@.len() == 3 && "cross-env"@.len() == 9
        && "command"@.len() == 7 && "exec"@.len() == 4 && "exec"@[0] == 'e');
    let tokens = segment.tokens;
    let name = if calls_program(words[i], "sh"@) {
        "sh"@
    } else {
        "bash"@
    };
    assert(is_bare("sh"@));
    assert(is_bare("bash"@));
    programs_go_by_name(words[i], name);
    program_is_found(script, tokens, words, i, c);
    assert(tokens[i].value == words[i]);
    assert(tokens[i + 1].value == words[i + 1]);
    assert(tokens[i + 2].value == words[i + 2]);
    let span = tokens[i + 2].span;
    let inner = tokenized(words[i + 2]);
    let one = inner.segments[0];
    let nested = analyzed_segment(script, one, depth + 1, no_contribution());
    assert(inner.segments.last() == one);
    assert(inner.segments.drop_last() =~= Seq::empty());
    assert(crate::discovery::segments::all_segments(
        script,
        inner.segments.drop_last(),
        depth + 1,
    ) == no_contribution());
    assert(crate::discovery::segments::all_segments(script, inner.segments, depth + 1) == nested);
    assert(crate::discovery::segments::command_line(name, tokens, (i + 1) as nat) == Some(
        (i + 2) as nat,
    ));
    let all = crate::discovery::segments::relocated(c, nested, span);
    assert(analyzed_segment(script, segment, depth, c) == all);
    let calls = nested.nested_scripts.map_values(|n: (Seq<char>, ScriptSpan)| (n.0, span));
    let references = nested.references.map_values(
        |r: ScriptReferenceModel| (ScriptReferenceModel { span, ..r }),
    );
    with_items_is_ordered::<(String, ScriptSpan)>(c.nested_scripts, calls);
    with_items_is_ordered::<ScriptReference>(c.references, references);
    if runs_script(given, k, j) {
        commands_run_the_scripts_they_name(script, one, given, k, j, depth + 1, no_contribution());
        let q = choose|q: int|
            0 <= q < nested.nested_scripts.len() && nested.nested_scripts[q] == (
                given[j],
                one.tokens[j].span,
            );
        assert(calls[q] == (given[j], span));
        assert(calls.contains((given[j], span)));
    }
    assert forall|kind: ScriptReferenceKind, value: Seq<char>| #[trigger]
        uses_word(given, k, j, kind, value) implies all.references.contains(
        ScriptReferenceModel { script, kind, value, span },
    ) by {
        commands_use_what_they_name(
            script,
            one,
            given,
            k,
            j,
            kind,
            value,
            depth + 1,
            no_contribution(),
        );
        let r = ScriptReferenceModel { script, kind, value, span: one.tokens[j].span };
        let q = choose|q: int| 0 <= q < nested.references.len() && nested.references[q] == r;
        assert(references[q] == (ScriptReferenceModel { script, kind, value, span }));
        assert(references.contains(ScriptReferenceModel { script, kind, value, span }));
    }
}

/// What is written as code on the command line of `node` is not looked into, and the analysis
/// says so.
pub proof fn inline_code_is_told(
    scripts: Scripts,
    roots: Seq<Seq<char>>,
    a: ScriptAnalysisModel,
    name: Seq<char>,
    source: Seq<char>,
    k: int,
    words: Seq<Seq<char>>,
    i: int,
)
    requires
        analysis_of(scripts, roots, a),
        a.reachable_scripts.contains(name),
        lookup(scripts, name) == Some(source),
        is_covered(source, k),
        has_words(tokenized(source).segments[k].tokens, words),
        is_program_word(words, i),
        calls_program(words[i], "node"@),
        i + 1 < words.len(),
        words[i + 1] == "-e"@ || words[i + 1] == "--eval"@ || words[i + 1] == "-p"@ || words[i + 1]
            == "--print"@,
    ensures
        exists|u: int|
            0 <= u < a.unmodeled.len() && (#[trigger] a.unmodeled[u]).script == name
                && a.unmodeled[u].kind == UnmodeledScriptKind::InlineCode,
{
    let segment = tokenized(source).segments[k];
    let tokens = segment.tokens;
    let c = no_contribution();
    managers_are_no_other("node"@);
    programs_go_by_name(words[i], "node"@);
    program_is_found(name, tokens, words, i, c);
    assert(tokens[i].value == words[i]);
    let token = tokens[i + 1];
    assert(token.value == words[i + 1]);
    code_flags_load_nothing(words[i + 1]);
    let span = ScriptSpan {
        start: token.span.start,
        end: if i + 2 < tokens.len() {
            tokens[i + 2].span.end
        } else {
            token.span.end
        },
    };
    let kind = UnmodeledScriptKind::InlineCode;
    with_item_contains::<(ScriptSpan, UnmodeledScriptKind)>(c.unmodeled, (span, kind));
    assert(analyzed_segment(name, segment, 0, c) == with_unmodeled(c, span, kind));
    assert(modeled(source, k));
    assert(facts(name, source, k).unmodeled.contains((span, kind)));
    assert(crate::discovery::scripts::defers_within(
        name,
        source,
        tokenized(source).segments.len() as int,
        span,
        kind,
    ));
    assert(crate::discovery::scripts::defers(scripts, name, span, kind));
    assert(script_runs(scripts, roots, name));
    let told = crate::discovery::scripts::UnmodeledScriptSpanModel { script: name, span, kind };
    assert(a.unmodeled.contains(told));
    let u = choose|u: int| 0 <= u < a.unmodeled.len() && a.unmodeled[u] == told;
    assert(a.unmodeled[u].script == name);
}

proof fn code_flags_load_nothing(word: Seq<char>)
    requires
        word == "-e"@ || word == "--eval"@ || word == "-p"@ || word == "--print"@,
    ensures
        crate::discovery::segments::inline_loader(word) is None,
        !loader_flag(word),
{
    reveal_strlit("-e");
    assert("-e"@.len() == 2 && "-e"@[0] == '-' && "-e"@[1] == 'e');
    reveal_strlit("--eval");
    assert("--eval"@.len() == 6 && "--eval"@[0] == '-' && "--eval"@[1] == '-' && "--eval"@[2] == 'e' && "--eval"@[3] == 'v');
    reveal_strlit("-p");
    assert("-p"@.len() == 2 && "-p"@[0] == '-' && "-p"@[1] == 'p');
    reveal_strlit("--print");
    assert("--print"@.len() == 7 && "--print"@[0] == '-' && "--print"@[1] == '-' && "--print"@[2] == 'p' && "--print"@[3] == 'r');
    reveal_strlit("-r");
    assert("-r"@.len() == 2 && "-r"@[0] == '-' && "-r"@[1] == 'r');
    reveal_strlit("--require");
    assert("--require"@.len() == 9 && "--require"@[0] == '-' && "--require"@[1] == '-' && "--require"@[2] == 'r' && "--require"@[3] == 'e');
    reveal_strlit("--import");
    assert("--import"@.len() == 8 && "--import"@[0] == '-' && "--import"@[1] == '-' && "--import"@[2] == 'i' && "--import"@[3] == 'm');
    reveal_strlit("--loader");
    assert("--loader"@.len() == 8 && "--loader"@[0] == '-' && "--loader"@[1] == '-' && "--loader"@[2] == 'l' && "--loader"@[3] == 'o');
    reveal_strlit("--experimental-loader");
    assert("--experimental-loader"@.len() == 21 && "--experimental-loader"@[0] == '-' && "--experimental-loader"@[1] == '-' && "--experimental-loader"@[2] == 'e' && "--experimental-loader"@[3] == 'x');
    reveal_strlit("--require=");
    assert("--require="@.len() == 10 && "--require="@[0] == '-' && "--require="@[1] == '-' && "--require="@[2] == 'r' && "--require="@[3] == 'e');
    reveal_strlit("--import=");
    assert("--import="@.len() == 9 && "--import="@[0] == '-' && "--import="@[1] == '-' && "--import="@[2] == 'i' && "--import="@[3] == 'm');
    reveal_strlit("--loader=");
    assert("--loader="@.len() == 9 && "--loader="@[0] == '-' && "--loader="@[1] == '-' && "--loader="@[2] == 'l' && "--loader="@[3] == 'o');
    reveal_strlit("--experimental-loader=");
    assert("--experimental-loader="@.len() == 22 && "--experimental-loader="@[0] == '-' && "--experimental-loader="@[1] == '-' && "--experimental-loader="@[2] == 'e' && "--experimental-loader="@[3] == 'x');
    if "--require="@.is_prefix_of(word) {
        assert(word.subrange(0, 10)[2] == 'r');
    }
    if "--import="@.is_prefix_of(word) {
        assert(word.subrange(0, 9)[2] == 'i');
    }
    if "--loader="@.is_prefix_of(word) {
        assert(word.subrange(0, 9)[2] == 'l');
    }
    if "--experimental-loader="@.is_prefix_of(word) {
        assert(word.subrange(0, 22)[2] == 'e');
    }
    if "-r"@.is_prefix_of(word) {
        assert(word.subrange(0, 2)[1] == 'r');
    }
}

/// What of a script that runs is left to the shell, the analysis of the scripts tells.
pub proof fn what_is_left_to_the_shell_is_told(
    scripts: Scripts,
    roots: Seq<Seq<char>>,
    a: ScriptAnalysisModel,
    name: Seq<char>,
    source: Seq<char>,
)
    requires
        analysis_of(scripts, roots, a),
        a.reachable_scripts.contains(name),
        lookup(scripts, name) == Some(source),
        tokenized(source).unmodeled.len() > 0,
    ensures
        exists|u: int|
            0 <= u < a.unmodeled.len() && (#[trigger] a.unmodeled[u]).script == name,
{
    let (span, kind) = tokenized(source).unmodeled[0];
    assert(tokenized(source).unmodeled.contains((span, kind)));
    assert(crate::discovery::scripts::defers(scripts, name, span, kind));
    assert(script_runs(scripts, roots, name));
    let told = crate::discovery::scripts::UnmodeledScriptSpanModel { script: name, span, kind };
    assert(a.unmodeled.contains(told));
    let u = choose|u: int| 0 <= u < a.unmodeled.len() && a.unmodeled[u] == told;
    assert(a.unmodeled[u].script == name);
}

} // verus!
