//! Names of npm packages in specifiers and requirements.

use crate::text::{
    chars_of, concat3, contains, contains_char, find_char, first_index, first_index_bounds, occurs,
    pieces, pieces_of_joined, same, slice, space, split, stands_at, starts_with, strip_prefix,
    trim, trimmed, trimmed_end, trimmed_start, without_prefix,
};
use vstd::prelude::*;

verus! {

/// The modules that Node.js provides itself.
pub open spec fn node_builtin(s: Seq<char>) -> bool {
    ||| s == "assert"@
    ||| s == "assert/strict"@
    ||| s == "async_hooks"@
    ||| s == "buffer"@
    ||| s == "child_process"@
    ||| s == "cluster"@
    ||| s == "console"@
    ||| s == "constants"@
    ||| s == "crypto"@
    ||| s == "dgram"@
    ||| s == "diagnostics_channel"@
    ||| s == "dns"@
    ||| s == "dns/promises"@
    ||| s == "domain"@
    ||| s == "events"@
    ||| s == "fs"@
    ||| s == "fs/promises"@
    ||| s == "http"@
    ||| s == "http2"@
    ||| s == "https"@
    ||| s == "module"@
    ||| s == "net"@
    ||| s == "os"@
    ||| s == "path"@
    ||| s == "path/posix"@
    ||| s == "path/win32"@
    ||| s == "perf_hooks"@
    ||| s == "process"@
    ||| s == "punycode"@
    ||| s == "querystring"@
    ||| s == "readline"@
    ||| s == "readline/promises"@
    ||| s == "repl"@
    ||| s == "sea"@
    ||| s == "sqlite"@
    ||| s == "stream"@
    ||| s == "stream/consumers"@
    ||| s == "stream/promises"@
    ||| s == "stream/web"@
    ||| s == "string_decoder"@
    ||| s == "sys"@
    ||| s == "timers"@
    ||| s == "timers/promises"@
    ||| s == "tls"@
    ||| s == "trace_events"@
    ||| s == "tty"@
    ||| s == "url"@
    ||| s == "util"@
    ||| s == "util/types"@
    ||| s == "v8"@
    ||| s == "vm"@
    ||| s == "wasi"@
    ||| s == "worker_threads"@
    ||| s == "zlib"@
}

/// The modules that Node.js provides itself.
pub fn is_node_builtin(s: &str) -> (r: bool)
    ensures
        r == node_builtin(s@),
{
    same(s, "assert")
        || same(s, "assert/strict")
        || same(s, "async_hooks")
        || same(s, "buffer")
        || same(s, "child_process")
        || same(s, "cluster")
        || same(s, "console")
        || same(s, "constants")
        || same(s, "crypto")
        || same(s, "dgram")
        || same(s, "diagnostics_channel")
        || same(s, "dns")
        || same(s, "dns/promises")
        || same(s, "domain")
        || same(s, "events")
        || same(s, "fs")
        || same(s, "fs/promises")
        || same(s, "http")
        || same(s, "http2")
        || same(s, "https")
        || same(s, "module")
        || same(s, "net")
        || same(s, "os")
        || same(s, "path")
        || same(s, "path/posix")
        || same(s, "path/win32")
        || same(s, "perf_hooks")
        || same(s, "process")
        || same(s, "punycode")
        || same(s, "querystring")
        || same(s, "readline")
        || same(s, "readline/promises")
        || same(s, "repl")
        || same(s, "sea")
        || same(s, "sqlite")
        || same(s, "stream")
        || same(s, "stream/consumers")
        || same(s, "stream/promises")
        || same(s, "stream/web")
        || same(s, "string_decoder")
        || same(s, "sys")
        || same(s, "timers")
        || same(s, "timers/promises")
        || same(s, "tls")
        || same(s, "trace_events")
        || same(s, "tty")
        || same(s, "url")
        || same(s, "util")
        || same(s, "util/types")
        || same(s, "v8")
        || same(s, "vm")
        || same(s, "wasi")
        || same(s, "worker_threads")
        || same(s, "zlib")
}

/// The characters that no package name holds.
pub open spec fn marked(s: Seq<char>) -> bool {
    s.contains('@') || s.contains(':') || s.contains('?') || s.contains('#')
}

fn is_marked(s: &str) -> (r: bool)
    ensures
        r == marked(s@),
{
    contains_char(s, '@') || contains_char(s, ':') || contains_char(s, '?') || contains_char(s, '#')
}

/// Whether a specifier names a path, a URL, a package import or a Node built-in.
pub open spec fn not_a_package(t: Seq<char>) -> bool {
    ||| t.len() == 0
    ||| "."@.is_prefix_of(t)
    ||| "/"@.is_prefix_of(t)
    ||| "#"@.is_prefix_of(t)
    ||| "node:"@.is_prefix_of(t)
    ||| t.contains('\\')
    ||| occurs(t, "://"@)
}

/// The package of a specifier with its white space trimmed and without `npm:`.
pub open spec fn bare_package(t: Seq<char>) -> Option<Seq<char>> {
    let parts = pieces(t, '/');
    if not_a_package(t) {
        None
    } else if "@"@.is_prefix_of(t) {
        if parts.len() < 2 || parts[0].len() == 1 || parts[1].len() == 0 || marked(
            parts[0].skip(1),
        ) || marked(parts[1]) || node_builtin(parts[0] + "/"@ + parts[1]) {
            None
        } else {
            Some(parts[0] + "/"@ + parts[1])
        }
    } else if parts[0].len() == 0 || marked(parts[0]) || node_builtin(parts[0]) {
        None
    } else {
        Some(parts[0])
    }
}

/// Trimming does not lengthen a text.
pub proof fn trimmed_is_no_longer(s: Seq<char>)
    ensures
        trimmed(s).len() <= s.len(),
{
    start_is_no_longer(s);
    end_is_no_longer(trimmed_start(s));
}

proof fn start_is_no_longer(s: Seq<char>)
    ensures
        trimmed_start(s).len() <= s.len(),
    decreases s.len(),
{
    if s.len() > 0 && space(s[0]) {
        start_is_no_longer(s.drop_first());
    }
}

proof fn end_is_no_longer(s: Seq<char>)
    ensures
        trimmed_end(s).len() <= s.len(),
    decreases s.len(),
{
    if s.len() > 0 && space(s.last()) {
        end_is_no_longer(s.drop_last());
    }
}

/// Where the name in a requirement such as `@scope/name@^2` ends.
pub open spec fn requirement_name_end(t: Seq<char>) -> int {
    if "@"@.is_prefix_of(t) {
        let slash = first_index(t, '/');
        slash + 1 + first_index(t.skip(slash + 1), '@')
    } else {
        first_index(t, '@')
    }
}

/// The package that a specifier names.
pub open spec fn npm_package(specifier: Seq<char>) -> Option<Seq<char>>
    decreases specifier.len(), 0nat,
{
    let t = trimmed(specifier);
    match without_prefix(t, "npm:"@) {
        Some(requirement) => {
            proof {
                trimmed_is_no_longer(specifier);
                reveal_strlit("npm:");
            }
            requirement_package(requirement)
        },
        None => bare_package(t),
    }
}

/// The package that a requirement names.
pub open spec fn requirement_package(requirement: Seq<char>) -> Option<Seq<char>>
    decreases requirement.len(), 1nat,
{
    let t = trimmed(requirement);
    if t.len() == 0 {
        None
    } else if "@"@.is_prefix_of(t) && !t.contains('/') {
        None
    } else {
        proof {
            trimmed_is_no_longer(requirement);
            first_index_bounds(t, '@');
            first_index_bounds(t, '/');
            if t.contains('/') {
                first_index_bounds(t.skip(first_index(t, '/') + 1), '@');
            }
        }
        npm_package(t.take(requirement_name_end(t)))
    }
}

/// The package behind an alias requirement.
pub open spec fn alias_target(requirement: Seq<char>) -> Option<Seq<char>> {
    match without_prefix(requirement, "npm:"@) {
        Some(rest) => requirement_package(rest),
        None => None,
    }
}

/// Extracts a direct npm package name from a bare import, a package subpath, or
/// an `npm:` alias requirement. Relative paths, URLs, package imports, and Node
/// built-ins are not npm dependency evidence.
#[must_use]
pub fn package_name(specifier: &str) -> (r: Option<String>)
    ensures
        r.deep_view() == npm_package(specifier@),
    decreases specifier@.len(), 0nat,
{
    let text = trim(specifier);
    if let Some(requirement) = strip_prefix(&text, "npm:") {
        proof {
            trimmed_is_no_longer(specifier@);
            reveal_strlit("npm:");
        }
        return npm_requirement_package(&requirement);
    }
    if text.as_str().is_empty() || starts_with(&text, ".") || starts_with(&text, "/")
        || starts_with(&text, "#") || starts_with(&text, "node:") || contains_char(&text, '\\')
        || contains(&text, "://") {
        return None;
    }
    let parts = split(&text, '/');
    let ghost model = pieces(text@, '/');
    assert(model[0] == parts@[0]@);
    let package = if starts_with(&text, "@") {
        if parts.len() < 2 {
            return None;
        }
        assert(model[1] == parts@[1]@);
        let scope = &parts[0];
        let name = &parts[1];
        let scope_chars = chars_of(scope);
        if scope_chars.len() == 1 || name.as_str().is_empty() {
            return None;
        }
        proof {
            scope_is_marked(text@);
        }
        let unscoped = slice(&scope_chars, 1, scope_chars.len());
        assert(unscoped@ =~= model[0].skip(1));
        if is_marked(&unscoped) || is_marked(name) {
            return None;
        }
        concat3(scope, "/", name)
    } else {
        let name = &parts[0];
        if name.as_str().is_empty() || is_marked(name) {
            return None;
        }
        name.clone()
    };
    if is_node_builtin(&package) {
        None
    } else {
        Some(package)
    }
}

/// The first piece of a text that begins with `@` begins with it too.
proof fn scope_is_marked(t: Seq<char>)
    requires
        "@"@.is_prefix_of(t),
    ensures
        pieces(t, '/')[0].len() > 0,
    decreases t.len(),
{
    reveal_strlit("@");
    assert(t.subrange(0, 1)[0] == '@');
    if t.len() == 1 {
        assert(t.drop_last() =~= Seq::empty());
        let front = pieces(t.drop_last(), '/');
        assert(front =~= seq![Seq::empty()]);
        assert(pieces(t, '/')[0] == front.last().push('@'));
    } else {
        let front = pieces(t.drop_last(), '/');
        assert("@"@ =~= t.drop_last().subrange(0, 1));
        scope_is_marked(t.drop_last());
        crate::text::pieces_nonempty(t.drop_last(), '/');
        if t.last() == '/' {
            assert(pieces(t, '/')[0] == front[0]);
        } else if front.len() > 1 {
            assert(pieces(t, '/')[0] == front[0]);
        } else {
            assert(pieces(t, '/')[0] == front.last().push(t.last()));
        }
    }
}

/// Returns the real package targeted by an npm alias requirement such as
/// `npm:@scope/real-package@^2`.
#[must_use]
pub fn npm_alias_target(requirement: &str) -> (r: Option<String>)
    ensures
        r.deep_view() == alias_target(requirement@),
{
    match strip_prefix(requirement, "npm:") {
        Some(rest) => npm_requirement_package(&rest),
        None => None,
    }
}

fn npm_requirement_package(requirement: &str) -> (r: Option<String>)
    ensures
        r.deep_view() == requirement_package(requirement@),
    decreases requirement@.len(), 1nat,
{
    let text = trim(requirement);
    if text.as_str().is_empty() {
        return None;
    }
    let chars = chars_of(&text);
    let end: usize = chars.len();
    proof {
        trimmed_is_no_longer(requirement@);
        first_index_bounds(text@, '@');
        first_index_bounds(text@, '/');
    }
    let package_end: usize = if starts_with(&text, "@") {
        let slash = find_char(&chars, '/');
        if slash == end {
            return None;
        }
        let rest = chars_of(&slice(&chars, slash + 1, end));
        proof {
            assert(rest@ =~= text@.skip(slash + 1));
            first_index_bounds(rest@, '@');
        }
        slash + 1 + find_char(&rest, '@')
    } else {
        find_char(&chars, '@')
    };
    let name = slice(&chars, 0, package_end);
    assert(name@ =~= text@.take(requirement_name_end(text@)));
    package_name(&name)
}

/// Whether a text holds no white space.
pub open spec fn spaceless(s: Seq<char>) -> bool {
    forall|i: int| 0 <= i < s.len() ==> !space(#[trigger] s[i])
}

/// Whether a text is a scope and a name in it.
pub open spec fn scoped(p: Seq<char>, scope: Seq<char>, name: Seq<char>) -> bool {
    &&& p == "@"@ + scope + "/"@ + name
    &&& scope.len() > 0 && !scope.contains('/') && !scope.contains('@')
    &&& name.len() > 0 && !name.contains('/') && !name.contains('@')
}

/// Whether a text is the name of a package, with a scope or without one.
pub open spec fn is_package(p: Seq<char>) -> bool {
    &&& !p.contains(':') && !p.contains('?') && !p.contains('#') && !p.contains('\\')
    &&& !node_builtin(p)
    &&& if "@"@.is_prefix_of(p) {
        exists|scope: Seq<char>, name: Seq<char>| scoped(p, scope, name)
    } else {
        p.len() > 0 && !p.contains('/') && !p.contains('@') && !"."@.is_prefix_of(p)
    }
}

/// The pieces of a text hold what the text holds, without the separator, and the first stands
/// at its front.
proof fn pieces_are_parts(s: Seq<char>, c: char)
    ensures
        pieces(s, c).len() > 0,
        pieces(s, c)[0].len() <= s.len(),
        forall|j: int| 0 <= j < pieces(s, c)[0].len() ==> pieces(s, c)[0][j] == s[j],
        forall|k: int, j: int|
            0 <= k < pieces(s, c).len() && 0 <= j < pieces(s, c)[k].len() ==> s.contains(
                #[trigger] pieces(s, c)[k][j],
            ) && pieces(s, c)[k][j] != c,
    decreases s.len(),
{
    if s.len() > 0 {
        let front = s.drop_last();
        pieces_are_parts(front, c);
        let earlier = pieces(front, c);
        let all = pieces(s, c);
        if s.last() != c {
            assert(all[all.len() - 1] == earlier.last().push(s.last()));
            if earlier.len() == 1 {
                whole_piece(front, c);
                assert(all[0] =~= s);
            } else {
                assert(all[0] == earlier[0]);
            }
        } else {
            assert(all[0] == earlier[0]);
        }
        assert forall|j: int| 0 <= j < all[0].len() implies all[0][j] == s[j] by {
            if all[0] == earlier[0] {
                assert(front[j] == s[j]);
            }
        }
        assert forall|k: int, j: int| 0 <= k < all.len() && 0 <= j < all[k].len() implies s.contains(
            #[trigger] all[k][j],
        ) && all[k][j] != c by {
            if k < earlier.len() && j < earlier[k].len() {
                assert(all[k][j] == earlier[k][j]);
                let i = choose|i: int| 0 <= i < front.len() && front[i] == earlier[k][j];
                assert(s[i] == all[k][j]);
            } else {
                assert(all[k][j] == s.last());
                assert(s[s.len() - 1] == s.last());
            }
        }
    }
}

/// A text that is one piece holds no separator.
proof fn whole_piece(s: Seq<char>, c: char)
    ensures
        (pieces(s, c).len() == 1) == !s.contains(c),
        pieces(s, c).len() == 1 ==> pieces(s, c)[0] == s,
    decreases s.len(),
{
    if s.len() > 0 {
        let front = s.drop_last();
        whole_piece(front, c);
        crate::text::pieces_nonempty(front, c);
        assert(s =~= front.push(s.last()));
        if front.contains(c) {
            let i = choose|i: int| 0 <= i < front.len() && front[i] == c;
            assert(s[i] == c);
        }
        if s.last() == c {
            assert(s[s.len() - 1] == c);
        }
        if s.contains(c) && s.last() != c {
            let i = choose|i: int| 0 <= i < s.len() && s[i] == c;
            assert(front[i] == c);
        }
    } else {
        assert(pieces(s, c)[0] =~= s);
    }
}

/// A text that holds no white space is its own middle.
proof fn spaceless_is_trimmed(s: Seq<char>)
    requires
        spaceless(s),
    ensures
        trimmed(s) == s,
{
}

proof fn holds_only_parts(whole: Seq<char>, part: Seq<char>)
    requires
        forall|j: int| 0 <= j < part.len() ==> whole.contains(#[trigger] part[j]),
    ensures
        forall|c: char| part.contains(c) ==> whole.contains(c),
        spaceless(whole) ==> spaceless(part),
{
    assert forall|c: char| part.contains(c) implies whole.contains(c) by {
        let j = choose|j: int| 0 <= j < part.len() && part[j] == c;
        assert(whole.contains(part[j]));
    }
    if spaceless(whole) {
        assert forall|j: int| 0 <= j < part.len() implies !space(#[trigger] part[j]) by {
            assert(whole.contains(part[j]));
            let i = choose|i: int| 0 <= i < whole.len() && whole[i] == part[j];
            assert(!space(whole[i]));
        }
    }
}

/// The package of a specifier is a name.
#[verifier::rlimit(40)]
proof fn bare_packages_are_names(t: Seq<char>)
    requires
        spaceless(t),
        bare_package(t) is Some,
    ensures
        is_package(bare_package(t)->0),
        spaceless(bare_package(t)->0),
{
    let p = bare_package(t)->0;
    let parts = pieces(t, '/');
    pieces_are_parts(t, '/');
    reveal_strlit("@");
    reveal_strlit("/");
    reveal_strlit(".");
    assert forall|j: int| 0 <= j < parts[0].len() implies t.contains(#[trigger] parts[0][j]) by {
        assert(t.contains(parts[0][j]));
    }
    holds_only_parts(t, parts[0]);
    if "@"@.is_prefix_of(t) {
        scope_is_marked(t);
        let scope = parts[0].skip(1);
        let name = parts[1];
        assert("@"@[0] == t.subrange(0, 1)[0]);
        assert(parts[0][0] == '@');
        assert(p =~= "@"@ + scope + "/"@ + name);
        assert forall|j: int| 0 <= j < name.len() implies t.contains(#[trigger] name[j]) by {
            assert(t.contains(parts[1][j]));
        }
        holds_only_parts(t, name);
        assert forall|j: int| 0 <= j < scope.len() implies t.contains(#[trigger] scope[j]) by {
            assert(scope[j] == parts[0][j + 1]);
            assert(t.contains(parts[0][j + 1]));
        }
        holds_only_parts(t, scope);
        assert(!scope.contains('/')) by {
            if scope.contains('/') {
                let j = choose|j: int| 0 <= j < scope.len() && scope[j] == '/';
                assert(parts[0][j + 1] == '/');
            }
        }
        assert(!name.contains('/')) by {
            if name.contains('/') {
                let j = choose|j: int| 0 <= j < name.len() && name[j] == '/';
                assert(parts[1][j] == '/');
            }
        }
        assert(scoped(p, scope, name));
        assert("@"@ =~= p.subrange(0, 1));
        assert forall|c: char| p.contains(c) implies c == '@' || c == '/' || scope.contains(c)
            || name.contains(c) by {
            let j = choose|j: int| 0 <= j < p.len() && p[j] == c;
            if j > 0 && j <= scope.len() {
                assert(scope[j - 1] == c);
            } else if j > scope.len() + 1 {
                assert(name[j - scope.len() - 2] == c);
            }
        }
        assert forall|j: int| 0 <= j < p.len() implies !space(#[trigger] p[j]) by {
            if j > 0 && j <= scope.len() {
                assert(scope[j - 1] == p[j]);
            } else if j > scope.len() + 1 {
                assert(name[j - scope.len() - 2] == p[j]);
            }
        }
    } else {
        assert(!p.contains('/')) by {
            if p.contains('/') {
                let j = choose|j: int| 0 <= j < p.len() && p[j] == '/';
                assert(parts[0][j] == '/');
            }
        }
        assert(p[0] == t[0]);
        assert(p.subrange(0, 1) =~= t.subrange(0, 1));
        assert(!"@"@.is_prefix_of(p));
        assert(!"."@.is_prefix_of(p));
    }
}

/// The name of a package names that package.
proof fn names_name_themselves(p: Seq<char>)
    requires
        is_package(p),
        spaceless(p),
    ensures
        npm_package(p) == Some(p),
{
    spaceless_is_trimmed(p);
    reveal_strlit("@");
    reveal_strlit("/");
    reveal_strlit(".");
    reveal_strlit("#");
    reveal_strlit("npm:");
    reveal_strlit("node:");
    reveal_strlit("://");
    if "npm:"@.is_prefix_of(p) {
        assert(p.subrange(0, 4)[3] == ':');
        assert(p[3] == ':');
    }
    if "node:"@.is_prefix_of(p) {
        assert(p.subrange(0, 5)[4] == ':');
        assert(p[4] == ':');
    }
    if "#"@.is_prefix_of(p) {
        assert(p.subrange(0, 1)[0] == '#');
        assert(p[0] == '#');
    }
    if occurs(p, "://"@) {
        let i = choose|i: int| stands_at(p, "://"@, i);
        assert(p.subrange(i, i + 3)[0] == ':');
        assert(p[i] == ':');
    }
    if "@"@.is_prefix_of(p) {
        let (scope, name) = choose|scope: Seq<char>, name: Seq<char>| scoped(p, scope, name);
        let front = "@"@ + scope;
        assert(p =~= front.push('/') + name);
        assert(!front.contains('/')) by {
            if front.contains('/') {
                let j = choose|j: int| 0 <= j < front.len() && front[j] == '/';
                assert(scope[j - 1] == '/');
            }
        }
        whole_piece(front, '/');
        whole_piece(name, '/');
        pieces_of_joined(front, name, '/');
        assert(pieces(front, '/') =~= seq![front]);
        assert(pieces(name, '/') =~= seq![name]);
        assert(pieces(p, '/') =~= seq![front, name]);
        assert(front.skip(1) =~= scope);
        assert(p[0] == '@');
        assert(!"."@.is_prefix_of(p)) by {
            if "."@.is_prefix_of(p) {
                assert(p.subrange(0, 1)[0] == '.');
            }
        }
        assert(!"/"@.is_prefix_of(p)) by {
            if "/"@.is_prefix_of(p) {
                assert(p.subrange(0, 1)[0] == '/');
            }
        }
        assert(!marked(scope)) by {
            if marked(scope) {
                let c = if scope.contains(':') { ':' } else if scope.contains('?') { '?' } else { '#' };
                let j = choose|j: int| 0 <= j < scope.len() && scope[j] == c;
                assert(p[j + 1] == c);
            }
        }
        assert(!marked(name)) by {
            if marked(name) {
                let c = if name.contains(':') { ':' } else if name.contains('?') { '?' } else { '#' };
                let j = choose|j: int| 0 <= j < name.len() && name[j] == c;
                assert(p[j + front.len() + 1] == c);
            }
        }
        assert(front + "/"@ + name =~= p);
    } else {
        whole_piece(p, '/');
        if "/"@.is_prefix_of(p) {
            assert(p.subrange(0, 1)[0] == '/');
            assert(p[0] == '/');
        }
    }
}

/// What a specifier without white space names is the name of a package: it names itself, it
/// holds none of the characters that no name holds, it is no module of Node.js, and it is a
/// scope and a name, or one name alone.
pub proof fn named_packages_are_names(specifier: Seq<char>)
    requires
        spaceless(specifier),
        npm_package(specifier) is Some,
    ensures
        npm_package(npm_package(specifier)->0) == npm_package(specifier),
        is_package(npm_package(specifier)->0),
        spaceless(npm_package(specifier)->0),
    decreases specifier.len(), 0nat,
{
    spaceless_is_trimmed(specifier);
    match without_prefix(specifier, "npm:"@) {
        Some(requirement) => {
            reveal_strlit("npm:");
            assert(spaceless(requirement)) by {
                assert forall|i: int| 0 <= i < requirement.len() implies !space(
                    #[trigger] requirement[i],
                ) by {
                    assert(requirement[i] == specifier[i + 4]);
                }
            }
            required_packages_are_names(requirement);
        },
        None => {
            bare_packages_are_names(specifier);
            names_name_themselves(npm_package(specifier)->0);
        },
    }
}

/// What a requirement without white space names is the name of a package.
pub proof fn required_packages_are_names(requirement: Seq<char>)
    requires
        spaceless(requirement),
        requirement_package(requirement) is Some,
    ensures
        npm_package(requirement_package(requirement)->0) == requirement_package(requirement),
        is_package(requirement_package(requirement)->0),
        spaceless(requirement_package(requirement)->0),
    decreases requirement.len(), 1nat,
{
    let t = requirement;
    spaceless_is_trimmed(t);
    first_index_bounds(t, '@');
    first_index_bounds(t, '/');
    if t.contains('/') {
        first_index_bounds(t.skip(first_index(t, '/') + 1), '@');
    }
    let part = t.take(requirement_name_end(t));
    assert forall|i: int| 0 <= i < part.len() implies !space(#[trigger] part[i]) by {
        assert(part[i] == t[i]);
    }
    named_packages_are_names(part);
}

proof fn parts_behind_a_package(p: Seq<char>, sub: Seq<char>)
    requires
        is_package(p),
    ensures
        ({
            let parts = pieces(p + "/"@ + sub, '/');
            if "@"@.is_prefix_of(p) {
                parts.len() >= 2 && parts[0].len() > 1 && parts[1].len() > 0 && parts[0] + "/"@
                    + parts[1] == p && !marked(parts[0].skip(1)) && !marked(parts[1])
            } else {
                parts[0] == p
            }
        }),
{
    reveal_strlit("/");
    reveal_strlit("@");
    let t = p + "/"@ + sub;
    assert(t =~= p.push('/') + sub);
    crate::text::pieces_of_joined(p, sub, '/');
    crate::text::pieces_nonempty(sub, '/');
    let parts = pieces(t, '/');
    if "@"@.is_prefix_of(p) {
        let (scope, name) = choose|scope: Seq<char>, name: Seq<char>| scoped(p, scope, name);
        let front = "@"@ + scope;
        assert(p =~= front.push('/') + name);
        crate::text::pieces_of_joined(front, name, '/');
        assert(!front.contains('/')) by {
            if front.contains('/') {
                let i = choose|i: int| 0 <= i < front.len() && front[i] == '/';
                assert(i > 0);
                assert(scope[i - 1] == '/');
                assert(scope.contains('/'));
            }
        }
        whole_piece(front, '/');
        whole_piece(name, '/');
        assert(pieces(p, '/') =~= seq![front, name]);
        assert(parts[0] == front && parts[1] == name);
        assert(front + "/"@ + name =~= p);
        assert(front.skip(1) =~= scope);
        assert forall|c: char| scope.contains(c) implies p.contains(c) by {
            let i = choose|i: int| 0 <= i < scope.len() && scope[i] == c;
            assert(p[i + 1] == c);
        }
        assert forall|c: char| name.contains(c) implies p.contains(c) by {
            let i = choose|i: int| 0 <= i < name.len() && name[i] == c;
            assert(p[front.len() + 1 + i] == c);
        }
    } else {
        whole_piece(p, '/');
        assert(pieces(p, '/') =~= seq![p]);
        assert(parts[0] == p);
    }
}

/// A specifier that names a package, with a path behind the name or without one, names that
/// package; so it does with a scope and without one.
pub proof fn specifiers_name_their_package(package: Seq<char>, sub: Seq<char>)
    requires
        is_package(package),
        spaceless(package),
        spaceless(sub),
        !sub.contains(':'),
        !sub.contains('\\'),
    ensures
        npm_package(package) == Some(package),
        npm_package(package + "/"@ + sub) == Some(package),
{
    reveal_strlit("/");
    reveal_strlit("@");
    reveal_strlit(".");
    reveal_strlit("#");
    reveal_strlit("node:");
    reveal_strlit("npm:");
    reveal_strlit("://");
    names_name_themselves(package);
    let t = package + "/"@ + sub;
    assert forall|i: int| 0 <= i < t.len() implies !space(#[trigger] t[i]) && t[i] != ':' && t[i]
        != '\\' by {
        if i < package.len() {
            assert(t[i] == package[i]);
            assert(package.contains(package[i]));
        } else if i == package.len() {
            assert(t[i] == '/');
        } else {
            assert(t[i] == sub[i - package.len() - 1]);
            assert(sub.contains(sub[i - package.len() - 1]));
        }
    }
    spaceless_is_trimmed(t);
    assert(!t.contains('\\'));
    if "npm:"@.is_prefix_of(t) {
        assert(t.subrange(0, 4)[3] == ':');
        assert(t[3] == ':');
    }
    if "node:"@.is_prefix_of(t) {
        assert(t.subrange(0, 5)[4] == ':');
        assert(t[4] == ':');
    }
    if occurs(t, "://"@) {
        let i = choose|i: int| crate::text::stands_at(t, "://"@, i);
        assert(t.subrange(i, i + 3)[0] == ':');
        assert(t[i] == ':');
    }
    assert(package.len() > 0) by {
        if "@"@.is_prefix_of(package) {
            assert(package.subrange(0, 1)[0] == '@');
        }
    }
    assert(t[0] == package[0]);
    assert(package.contains(package[0]));
    if "@"@.is_prefix_of(package) {
        assert(package.subrange(0, 1)[0] == '@');
        assert("@"@ =~= t.subrange(0, 1));
    } else {
        if "@"@.is_prefix_of(t) {
            assert(t.subrange(0, 1)[0] == '@');
        }
        if "."@.is_prefix_of(t) {
            assert(t.subrange(0, 1)[0] == '.');
            assert("."@ =~= package.subrange(0, 1));
        }
    }
    if "."@.is_prefix_of(t) {
        assert(t.subrange(0, 1)[0] == '.');
    }
    if "/"@.is_prefix_of(t) {
        assert(t.subrange(0, 1)[0] == '/');
    }
    if "#"@.is_prefix_of(t) {
        assert(t.subrange(0, 1)[0] == '#');
    }
    parts_behind_a_package(package, sub);
}

/// What starts as a path does, or as an import that a package makes of itself, names no package;
/// neither do the modules that come with Node.js.
pub proof fn paths_and_own_modules_name_no_package(specifier: Seq<char>)
    requires
        spaceless(specifier),
        specifier.len() > 0,
        specifier[0] == '.' || specifier[0] == '/' || specifier[0] == '#' || specifier.contains(
            '\\',
        ) && specifier[0] != 'n' || "node:"@.is_prefix_of(specifier) || node_builtin(specifier)
            && !specifier.contains('/') && specifier[0] != '@',
    ensures
        npm_package(specifier) is None,
{
    reveal_strlit("/");
    reveal_strlit(".");
    reveal_strlit("#");
    reveal_strlit("@");
    reveal_strlit("npm:");
    reveal_strlit("node:");
    spaceless_is_trimmed(specifier);
    let t = specifier;
    if "npm:"@.is_prefix_of(t) {
        assert(t.subrange(0, 4)[0] == 'n');
        assert(t.subrange(0, 4)[1] == 'p');
        assert(t.subrange(0, 4)[3] == ':');
        if "node:"@.is_prefix_of(t) {
            assert(t.subrange(0, 5)[1] == 'o');
        }
        assert(t[3] == ':');
        assert(node_builtin(t));
        builtins_hold_no_colon(t);
    }
    if t[0] == '.' {
        assert("."@ =~= t.subrange(0, 1));
    }
    if t[0] == '/' {
        assert("/"@ =~= t.subrange(0, 1));
    }
    if t[0] == '#' {
        assert("#"@ =~= t.subrange(0, 1));
    }
    if !t.contains('/') {
        whole_piece(t, '/');
    }
    if "@"@.is_prefix_of(t) {
        assert(t.subrange(0, 1)[0] == '@');
    }
}

proof fn builtins_hold_no_colon(s: Seq<char>)
    requires
        s.len() > 3,
        s[0] == 'n',
        s[1] == 'p',
    ensures
        !node_builtin(s),
{
    reveal_strlit("net");
    assert("net"@[0] == 'n' && "net"@[1] == 'e');
    reveal_strlit("assert");
    assert("assert"@[0] == 'a');
    reveal_strlit("assert/strict");
    assert("assert/strict"@[0] == 'a');
    reveal_strlit("async_hooks");
    assert("async_hooks"@[0] == 'a');
    reveal_strlit("buffer");
    assert("buffer"@[0] == 'b');
    reveal_strlit("child_process");
    assert("child_process"@[0] == 'c');
    reveal_strlit("cluster");
    assert("cluster"@[0] == 'c');
    reveal_strlit("console");
    assert("console"@[0] == 'c');
    reveal_strlit("constants");
    assert("constants"@[0] == 'c');
    reveal_strlit("crypto");
    assert("crypto"@[0] == 'c');
    reveal_strlit("dgram");
    assert("dgram"@[0] == 'd');
    reveal_strlit("diagnostics_channel");
    assert("diagnostics_channel"@[0] == 'd');
    reveal_strlit("dns");
    assert("dns"@[0] == 'd');
    reveal_strlit("dns/promises");
    assert("dns/promises"@[0] == 'd');
    reveal_strlit("domain");
    assert("domain"@[0] == 'd');
    reveal_strlit("events");
    assert("events"@[0] == 'e');
    reveal_strlit("fs");
    assert("fs"@[0] == 'f');
    reveal_strlit("fs/promises");
    assert("fs/promises"@[0] == 'f');
    reveal_strlit("http");
    assert("http"@[0] == 'h');
    reveal_strlit("http2");
    assert("http2"@[0] == 'h');
    reveal_strlit("https");
    assert("https"@[0] == 'h');
    reveal_strlit("module");
    assert("module"@[0] == 'm');
    reveal_strlit("os");
    assert("os"@[0] == 'o');
    reveal_strlit("path");
    assert("path"@[0] == 'p');
    reveal_strlit("path/posix");
    assert("path/posix"@[0] == 'p');
    reveal_strlit("path/win32");
    assert("path/win32"@[0] == 'p');
    reveal_strlit("perf_hooks");
    assert("perf_hooks"@[0] == 'p');
    reveal_strlit("process");
    assert("process"@[0] == 'p');
    reveal_strlit("punycode");
    assert("punycode"@[0] == 'p');
    reveal_strlit("querystring");
    assert("querystring"@[0] == 'q');
    reveal_strlit("readline");
    assert("readline"@[0] == 'r');
    reveal_strlit("readline/promises");
    assert("readline/promises"@[0] == 'r');
    reveal_strlit("repl");
    assert("repl"@[0] == 'r');
    reveal_strlit("sea");
    assert("sea"@[0] == 's');
    reveal_strlit("sqlite");
    assert("sqlite"@[0] == 's');
    reveal_strlit("stream");
    assert("stream"@[0] == 's');
    reveal_strlit("stream/consumers");
    assert("stream/consumers"@[0] == 's');
    reveal_strlit("stream/promises");
    assert("stream/promises"@[0] == 's');
    reveal_strlit("stream/web");
    assert("stream/web"@[0] == 's');
    reveal_strlit("string_decoder");
    assert("string_decoder"@[0] == 's');
    reveal_strlit("sys");
    assert("sys"@[0] == 's');
    reveal_strlit("timers");
    assert("timers"@[0] == 't');
    reveal_strlit("timers/promises");
    assert("timers/promises"@[0] == 't');
    reveal_strlit("tls");
    assert("tls"@[0] == 't');
    reveal_strlit("trace_events");
    assert("trace_events"@[0] == 't');
    reveal_strlit("tty");
    assert("tty"@[0] == 't');
    reveal_strlit("url");
    assert("url"@[0] == 'u');
    reveal_strlit("util");
    assert("util"@[0] == 'u');
    reveal_strlit("util/types");
    assert("util/types"@[0] == 'u');
    reveal_strlit("v8");
    assert("v8"@[0] == 'v');
    reveal_strlit("vm");
    assert("vm"@[0] == 'v');
    reveal_strlit("wasi");
    assert("wasi"@[0] == 'w');
    reveal_strlit("worker_threads");
    assert("worker_threads"@[0] == 'w');
    reveal_strlit("zlib");
    assert("zlib"@[0] == 'z');
}

} // verus!
