//! How plain scripts fall into words, and words into names of programs.

use crate::collections::collected;
use crate::discovery::segments::{
    assignment, base_name, last_separator, program_name, variable_name,
};
use crate::discovery::tokenizer::{
    scan_finish, scan_run, scan_start, scan_step, scan_step_advances, segment_closed, tokenized,
    word_closed, Quote, Scan, ScriptSpan, ScriptTokenModel, UnmodeledScriptKind,
};
use crate::text::{first_index_bounds, first_index_is, joined, joined_from_the_front, space};
use vstd::prelude::*;

verus! {

/// Whether a character means itself wherever it stands in a script.
pub open spec fn plain_char(c: char) -> bool {
    &&& !space(c)
    &&& c != '\'' && c != '"' && c != '\\' && c != '$' && c != '`'
    &&& c != '*' && c != '?' && c != '[' && c != '>' && c != '<'
    &&& c != '(' && c != ')' && c != '{' && c != '}'
    &&& c != ';' && c != '|' && c != '&' && c != '\n' && c != '#'
}

/// Whether a word means itself.
pub open spec fn plain_word(word: Seq<char>) -> bool {
    word.len() > 0 && forall|i: int| 0 <= i < word.len() ==> plain_char(#[trigger] word[i])
}

/// Whether the whole script is one command with the given words.
pub open spec fn is_one_command(source: Seq<char>, words: Seq<Seq<char>>) -> bool {
    let t = tokenized(source);
    &&& t.unmodeled.len() == 0
    &&& t.segments.len() == 1
    &&& has_words(t.segments[0].tokens, words)
}

/// Whether the tokens stand for the words.
pub open spec fn has_words(tokens: Seq<ScriptTokenModel>, words: Seq<Seq<char>>) -> bool {
    tokens.len() == words.len() && forall|i: int|
        0 <= i < words.len() ==> (#[trigger] tokens[i]).value == words[i]
}

spec fn with_word(s: Scan, word: Seq<char>, start: nat, at: nat) -> Scan {
    Scan { word, word_start: Some(start), at, ..s }
}

proof fn run_word(source: Seq<char>, s: Scan, word: Seq<char>, start: nat)
    requires
        s.quote == Quote::Unquoted,
        plain_word(word),
        s.word.len() <= word.len(),
        s.word == word.take(s.word.len() as int),
        s.at == start + s.word.len(),
        s.word.len() == 0 ==> s.word_start is None,
        s.word.len() > 0 ==> s.word_start == Some(start),
        start + word.len() <= source.len(),
        source.subrange(start as int, (start + word.len()) as int) == word,
    ensures
        scan_run(source, s) == scan_run(source, with_word(s, word, start, start + word.len())),
    decreases word.len() - s.word.len(),
{
    let m = s.word.len() as int;
    if m == word.len() {
        assert(s.word =~= word);
        assert(s == with_word(s, word, start, start + word.len()));
    } else {
        let c = source[s.at as int];
        assert(c == source.subrange(start as int, (start + word.len()) as int)[m]);
        assert(c == word[m]);
        assert(plain_char(word[m]));
        let t = scan_step(source, s);
        assert(t.word =~= word.take(m + 1));
        assert(t.word_start == Some(start));
        scan_step_advances(source, s);
        assert(scan_run(source, s) == scan_run(source, t));
        run_word(source, t, word, start);
        assert(with_word(t, word, start, start + word.len()) == with_word(
            s,
            word,
            start,
            start + word.len(),
        ));
    }
}

proof fn run_words(source: Seq<char>, s: Scan, words: Seq<Seq<char>>)
    requires
        words.len() > 0,
        forall|i: int| 0 <= i < words.len() ==> plain_word(#[trigger] words[i]),
        s.quote == Quote::Unquoted,
        s.word.len() == 0,
        s.word_start is None,
        s.segments.len() == 0,
        s.unmodeled.len() == 0,
        s.at <= source.len(),
        source.skip(s.at as int) == joined(words, " "@),
    ensures
        ({
            let t = scan_finish(source, scan_run(source, s));
            &&& t.unmodeled.len() == 0
            &&& t.segments.len() == 1
            &&& t.segments[0].tokens.len() == s.tokens.len() + words.len()
            &&& forall|i: int|
                0 <= i < s.tokens.len() ==> #[trigger] t.segments[0].tokens[i] == s.tokens[i]
            &&& forall|i: int|
                0 <= i < words.len() ==> (#[trigger] t.segments[0].tokens[s.tokens.len()
                    + i]).value == words[i]
        }),
    decreases words.len(),
{
    reveal_strlit(" ");
    let word = words[0];
    let start = s.at;
    let rest = source.skip(start as int);
    let end = start + word.len();
    assert(plain_word(word));
    if words.len() > 1 {
        joined_from_the_front(words, " "@);
        assert(rest == word + " "@ + joined(words.skip(1), " "@));
    } else {
        assert(rest == word);
    }
    assert(rest.take(word.len() as int) =~= word);
    assert(source.subrange(start as int, end as int) =~= rest.take(word.len() as int));
    assert(s.word =~= word.take(0));
    run_word(source, s, word, start);
    let r = with_word(s, word, start, end);
    if words.len() == 1 {
        assert(end == source.len());
        assert(scan_run(source, r) == r);
        let closed = segment_closed(source, word_closed(source, Scan { at: source.len(), ..r }));
        assert(closed.segments.len() == 1);
        assert(r.unmodeled =~= Seq::empty());
        assert(collected::<(ScriptSpan, UnmodeledScriptKind)>(r.unmodeled).len() == 0);
        let t = scan_finish(source, r);
        assert(t.segments[0].tokens[s.tokens.len() as int].value == word);
    } else {
        assert(rest[word.len() as int] == ' ');
        assert(source[end as int] == rest[word.len() as int]);
        let t = scan_step(source, r);
        assert(space(' '));
        scan_step_advances(source, r);
        assert(scan_run(source, r) == scan_run(source, t));
        assert(t.at == end + 1);
        assert(t.tokens.len() == s.tokens.len() + 1);
        assert(source.skip(t.at as int) =~= rest.skip(word.len() as int + 1));
        assert(rest.skip(word.len() as int + 1) =~= joined(words.skip(1), " "@));
        assert forall|i: int| 0 <= i < words.skip(1).len() implies plain_word(
            #[trigger] words.skip(1)[i],
        ) by {
            assert(words.skip(1)[i] == words[i + 1]);
        }
        run_words(source, t, words.skip(1));
        let f = scan_finish(source, scan_run(source, s));
        assert forall|i: int| 0 <= i < s.tokens.len() implies #[trigger] f.segments[0].tokens[i]
            == s.tokens[i] by {
            assert(f.segments[0].tokens[i] == t.tokens[i]);
        }
        assert forall|i: int| 0 <= i < words.len() implies (
        #[trigger] f.segments[0].tokens[s.tokens.len() + i]).value == words[i] by {
            if i == 0 {
                assert(f.segments[0].tokens[s.tokens.len() as int] == t.tokens[s.tokens.len() as int]);
            } else {
                assert(f.segments[0].tokens[t.tokens.len() + (i - 1)].value == words.skip(1)[i
                    - 1]);
            }
        }
    }
}

/// Plain words with spaces between them are one command with exactly these words, and leave
/// nothing of the script out.
pub proof fn plain_words_are_one_command(words: Seq<Seq<char>>)
    requires
        words.len() > 0,
        forall|i: int| 0 <= i < words.len() ==> plain_word(#[trigger] words[i]),
    ensures
        is_one_command(joined(words, " "@), words),
{
    let source = joined(words, " "@);
    assert(source.skip(0) =~= source);
    run_words(source, scan_start(), words);
    let tokens = tokenized(source).segments[0].tokens;
    assert forall|i: int| 0 <= i < words.len() implies (#[trigger] tokens[i]).value == words[i] by {
        assert(tokens[0 + i].value == words[i]);
    }
}

/// Whether a word calls the program by its name alone or by a path to it, with the extension of
/// an executable or without.
pub open spec fn calls_program(word: Seq<char>, name: Seq<char>) -> bool {
    exists|dir: Seq<char>, extension: Seq<char>|
        #![trigger dir + name + extension]
        word == dir + name + extension && (dir.len() == 0 || dir.last() == '/' || dir.last()
            == '\\') && (extension.len() == 0 || extension == ".cmd"@ || extension == ".exe"@)
}

/// Whether a name is that of a program: no path, no extension.
pub open spec fn is_bare(name: Seq<char>) -> bool {
    name.len() > 0 && !name.contains('/') && !name.contains('\\') && !name.contains('.')
}

proof fn separator_before(dir: Seq<char>, base: Seq<char>)
    requires
        dir.len() == 0 || dir.last() == '/' || dir.last() == '\\',
        !base.contains('/'),
        !base.contains('\\'),
    ensures
        last_separator(dir + base) == dir.len() - 1,
    decreases base.len(),
{
    let s = dir + base;
    if base.len() > 0 {
        assert(base.contains(base[base.len() - 1]));
        assert(s.last() == base.last());
        assert(s.drop_last() =~= dir + base.drop_last());
        assert forall|c: char| base.drop_last().contains(c) implies base.contains(c) by {
            let i = choose|i: int| 0 <= i < base.drop_last().len() && base.drop_last()[i] == c;
            assert(base[i] == c);
        }
        separator_before(dir, base.drop_last());
    } else {
        assert(s =~= dir);
    }
}

/// A program goes by its name wherever it is, and whatever extension its file has.
pub proof fn programs_go_by_name(word: Seq<char>, name: Seq<char>)
    requires
        is_bare(name),
        calls_program(word, name),
    ensures
        program_name(word) == name,
{
    reveal_strlit(".cmd");
    reveal_strlit(".exe");
    let (dir, extension) = choose|dir: Seq<char>, extension: Seq<char>|
        #![trigger dir + name + extension]
        word == dir + name + extension && (dir.len() == 0 || dir.last() == '/' || dir.last()
            == '\\') && (extension.len() == 0 || extension == ".cmd"@ || extension == ".exe"@);
    let base = name + extension;
    assert(dir + name + extension =~= dir + base);
    assert forall|c: char| base.contains(c) && (c == '/' || c == '\\') implies false by {
        let i = choose|i: int| 0 <= i < base.len() && base[i] == c;
        if i < name.len() {
            assert(name[i] == c);
            assert(name.contains(c));
        } else {
            assert(extension[i - name.len()] == c);
        }
    }
    separator_before(dir, base);
    assert(word.skip(dir.len() as int) =~= base);
    assert(base_name(word) == base);
    if extension.len() == 0 {
        assert(base =~= name);
        assert(!".cmd"@.is_suffix_of(base)) by {
            if ".cmd"@.is_suffix_of(base) {
                let end = base.subrange(base.len() - 4, base.len() as int);
                assert(end[0] == '.');
                assert(base[base.len() - 4] == '.');
                assert(name.contains('.'));
            }
        }
        assert(!".exe"@.is_suffix_of(base)) by {
            if ".exe"@.is_suffix_of(base) {
                let end = base.subrange(base.len() - 4, base.len() as int);
                assert(end[0] == '.');
                assert(base[base.len() - 4] == '.');
                assert(name.contains('.'));
            }
        }
    } else {
        assert(base.subrange(base.len() - 4, base.len() as int) =~= extension);
        assert(extension.is_suffix_of(base));
        assert(base.take(base.len() - 4) =~= name);
        if extension == ".exe"@ {
            assert(!".cmd"@.is_suffix_of(base)) by {
                if ".cmd"@.is_suffix_of(base) {
                    let end = base.subrange(base.len() - 4, base.len() as int);
                    assert(end == ".cmd"@);
                    assert(end[1] == 'c');
                    assert(extension[1] == 'e');
                }
            }
        }
    }
}

/// A word sets a variable exactly where it is the name of one, `=` and any text.
pub proof fn assignments_set_variables(word: Seq<char>, name: Seq<char>, value: Seq<char>)
    requires
        word == name + "="@ + value,
        variable_name(name),
    ensures
        assignment(word) == Some((name, value)),
{
    reveal_strlit("=");
    assert forall|j: int| 0 <= j < name.len() implies #[trigger] word[j] != '=' by {
        assert(word[j] == name[j]);
    }
    assert(word[name.len() as int] == '=');
    first_index_is(word, '=', name.len() as int);
    assert(word.take(name.len() as int) =~= name);
    assert(word.skip(name.len() as int + 1) =~= value);
}

/// A word without `=` sets nothing.
pub proof fn words_without_a_sign_set_nothing(word: Seq<char>)
    requires
        !word.contains('='),
    ensures
        assignment(word) is None,
{
    first_index_bounds(word, '=');
}

/// Whether the shell makes something of a character that is not looked into.
pub open spec fn asks_the_shell(c: char) -> bool {
    ||| c == '$' || c == '`' || c == '*' || c == '?' || c == '[' || c == '>' || c == '<'
    ||| c == '(' || c == ')' || c == '{' || c == '}'
}

proof fn steps_keep_what_is_told(source: Seq<char>, s: Scan)
    requires
        s.at < source.len(),
    ensures
        s.unmodeled.len() <= scan_step(source, s).unmodeled.len(),
{
}

proof fn runs_keep_what_is_told(source: Seq<char>, s: Scan)
    ensures
        s.unmodeled.len() <= scan_run(source, s).unmodeled.len(),
    decreases source.len() - s.at,
{
    if s.at < source.len() {
        scan_step_advances(source, s);
        steps_keep_what_is_told(source, s);
        runs_keep_what_is_told(source, scan_step(source, s));
    }
}

proof fn run_plain(source: Seq<char>, s: Scan, n: nat) -> (t: Scan)
    requires
        s.quote == Quote::Unquoted,
        s.at <= n <= source.len(),
        forall|i: int|
            s.at <= i < n ==> plain_char(#[trigger] source[i]) || source[i] == ' ',
    ensures
        scan_run(source, s) == scan_run(source, t),
        t.at == n,
        t.quote == Quote::Unquoted,
    decreases n - s.at,
{
    if s.at < n {
        let c = source[s.at as int];
        assert(plain_char(c) || c == ' ');
        assert(space(' '));
        let next = scan_step(source, s);
        scan_step_advances(source, s);
        assert(scan_run(source, s) == scan_run(source, next));
        run_plain(source, next, n)
    } else {
        s
    }
}

/// Where a script leaves something to the shell, the analysis of its words says so: what the
/// shell expands or redirects is never passed over in silence.
pub proof fn what_the_shell_expands_is_told(source: Seq<char>, n: nat)
    requires
        n < source.len(),
        forall|i: int| 0 <= i < n ==> plain_char(#[trigger] source[i]) || source[i] == ' ',
        asks_the_shell(source[n as int]),
    ensures
        tokenized(source).unmodeled.len() > 0,
{
    let t = run_plain(source, scan_start(), n);
    let next = scan_step(source, t);
    assert(next.unmodeled.len() > 0);
    scan_step_advances(source, t);
    assert(scan_run(source, t) == scan_run(source, next));
    runs_keep_what_is_told(source, next);
    let end = scan_run(source, scan_start());
    assert(end.unmodeled.len() > 0);
    let told = match end.quote {
        Quote::Unquoted => end.unmodeled,
        Quote::Single => end.unmodeled.push(
            (
                crate::discovery::tokenizer::span_of(source, end.quote_start, source.len()),
                UnmodeledScriptKind::UnterminatedSingleQuote,
            ),
        ),
        Quote::Double => end.unmodeled.push(
            (
                crate::discovery::tokenizer::span_of(source, end.quote_start, source.len()),
                UnmodeledScriptKind::UnterminatedDoubleQuote,
            ),
        ),
    };
    crate::collections::collected_is_ordered::<(ScriptSpan, UnmodeledScriptKind)>(told);
    assert(told.contains(told[0]));
    assert(collected::<(ScriptSpan, UnmodeledScriptKind)>(told).contains(told[0]));
}

} // verus!
