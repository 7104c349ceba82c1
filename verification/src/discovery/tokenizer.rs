//! Splitting package scripts into static shell segments.

use crate::collections::{collected, OrderedSet};
use crate::text::{byte_length, chars_of, first_index, first_index_is, is_space, space, width};
use crate::values::{push_item, Ordered, Value};
use vstd::prelude::*;

verus! {

/// A byte span in the original package-script value.
#[derive(Debug, Clone, Copy, PartialEq, Eq, Structural)]
pub struct ScriptSpan {
    pub start: usize,
    pub end: usize,
}

impl DeepView for ScriptSpan {
    type V = ScriptSpan;

    open spec fn deep_view(&self) -> ScriptSpan {
        *self
    }
}

impl Value for ScriptSpan {
    fn replicate(&self) -> (r: Self) {
        *self
    }

    fn same_value(&self, other: &Self) -> (r: bool) {
        *self == *other
    }
}

impl Ordered for ScriptSpan {
    open spec fn before(a: ScriptSpan, b: ScriptSpan) -> bool {
        <usize as Ordered>::before(a.start, b.start) || (a.start == b.start && (<usize as Ordered>::before(a.end, b.end)))
    }

    fn is_before(&self, other: &Self) -> (r: bool) {
        self.start.is_before(&other.start) || (self.start.same_value(&other.start) && (self.end.is_before(&other.end)))
    }

    proof fn before_irreflexive(a: ScriptSpan) {
        <usize as Ordered>::before_irreflexive(a.start);
        <usize as Ordered>::before_irreflexive(a.end);
    }

    proof fn before_transitive(a: ScriptSpan, b: ScriptSpan, c: ScriptSpan) {
        if <usize as Ordered>::before(a.start, b.start) && <usize as Ordered>::before(b.start, c.start) {
            <usize as Ordered>::before_transitive(a.start, b.start, c.start);
        }
        if <usize as Ordered>::before(a.end, b.end) && <usize as Ordered>::before(b.end, c.end) {
            <usize as Ordered>::before_transitive(a.end, b.end, c.end);
        }
    }

    proof fn before_total(a: ScriptSpan, b: ScriptSpan) {
        <usize as Ordered>::before_total(a.start, b.start);
        <usize as Ordered>::before_total(a.end, b.end);
    }
}

/// A decoded word and where it stands.
#[derive(Debug, PartialEq, Eq)]
pub struct ScriptToken {
    pub value: String,
    pub span: ScriptSpan,
}

/// What a [`ScriptToken`] holds.
pub struct ScriptTokenModel {
    pub value: Seq<char>,
    pub span: ScriptSpan,
}

impl DeepView for ScriptToken {
    type V = ScriptTokenModel;

    open spec fn deep_view(&self) -> ScriptTokenModel {
        ScriptTokenModel {
            value: self.value.deep_view(),
            span: self.span.deep_view(),
        }
    }
}

impl Value for ScriptToken {
    fn replicate(&self) -> (r: Self) {
        ScriptToken {
            value: self.value.replicate(),
            span: self.span.replicate(),
        }
    }

    fn same_value(&self, other: &Self) -> (r: bool) {
        self.value.same_value(&other.value)
            && self.span.same_value(&other.span)
    }
}

/// One simple command of a script.
#[derive(Debug, PartialEq, Eq)]
pub struct ScriptSegment {
    pub tokens: Vec<ScriptToken>,
    pub span: ScriptSpan,
}

/// What a [`ScriptSegment`] holds.
pub struct ScriptSegmentModel {
    pub tokens: Seq<ScriptTokenModel>,
    pub span: ScriptSpan,
}

impl DeepView for ScriptSegment {
    type V = ScriptSegmentModel;

    open spec fn deep_view(&self) -> ScriptSegmentModel {
        ScriptSegmentModel {
            tokens: self.tokens.deep_view(),
            span: self.span.deep_view(),
        }
    }
}

impl Value for ScriptSegment {
    fn replicate(&self) -> (r: Self) {
        ScriptSegment {
            tokens: self.tokens.replicate(),
            span: self.span.replicate(),
        }
    }

    fn same_value(&self, other: &Self) -> (r: bool) {
        self.tokens.same_value(&other.tokens)
            && self.span.same_value(&other.span)
    }
}

/// Why a part of a script is not modeled.
#[derive(Debug, Clone, Copy, PartialEq, Eq, Structural)]
pub enum UnmodeledScriptKind {
    DanglingEscape,
    GlobExpansion,
    InlineCode,
    Redirection,
    ShellExpansion,
    UnsupportedShellSyntax,
    UnsupportedShellWrapper,
    UnterminatedDoubleQuote,
    UnterminatedSingleQuote,
}

impl DeepView for UnmodeledScriptKind {
    type V = UnmodeledScriptKind;

    open spec fn deep_view(&self) -> UnmodeledScriptKind {
        *self
    }
}

impl Value for UnmodeledScriptKind {
    fn replicate(&self) -> (r: Self) {
        *self
    }

    fn same_value(&self, other: &Self) -> (r: bool) {
        *self == *other
    }
}

impl UnmodeledScriptKind {
    /// The place of the variant in the order of the type.
    pub open spec fn place(self) -> nat {
        match self {
            UnmodeledScriptKind::DanglingEscape => 0,
            UnmodeledScriptKind::GlobExpansion => 1,
            UnmodeledScriptKind::InlineCode => 2,
            UnmodeledScriptKind::Redirection => 3,
            UnmodeledScriptKind::ShellExpansion => 4,
            UnmodeledScriptKind::UnsupportedShellSyntax => 5,
            UnmodeledScriptKind::UnsupportedShellWrapper => 6,
            UnmodeledScriptKind::UnterminatedDoubleQuote => 7,
            UnmodeledScriptKind::UnterminatedSingleQuote => 8,
        }
    }

    fn place_of(&self) -> (r: u8)
        ensures
            r == self.place(),
    {
        match self {
            UnmodeledScriptKind::DanglingEscape => 0,
            UnmodeledScriptKind::GlobExpansion => 1,
            UnmodeledScriptKind::InlineCode => 2,
            UnmodeledScriptKind::Redirection => 3,
            UnmodeledScriptKind::ShellExpansion => 4,
            UnmodeledScriptKind::UnsupportedShellSyntax => 5,
            UnmodeledScriptKind::UnsupportedShellWrapper => 6,
            UnmodeledScriptKind::UnterminatedDoubleQuote => 7,
            UnmodeledScriptKind::UnterminatedSingleQuote => 8,
        }
    }
}

impl Ordered for UnmodeledScriptKind {
    open spec fn before(a: UnmodeledScriptKind, b: UnmodeledScriptKind) -> bool {
        a.place() < b.place()
    }

    fn is_before(&self, other: &Self) -> (r: bool) {
        self.place_of() < other.place_of()
    }

    proof fn before_irreflexive(a: UnmodeledScriptKind) {
    }

    proof fn before_transitive(
        a: UnmodeledScriptKind,
        b: UnmodeledScriptKind,
        c: UnmodeledScriptKind,
    ) {
    }

    proof fn before_total(a: UnmodeledScriptKind, b: UnmodeledScriptKind) {
    }
}

/// The segments of a script and its parts that are not modeled.
#[derive(Debug, PartialEq, Eq)]
pub struct TokenizedScript {
    pub segments: Vec<ScriptSegment>,
    pub unmodeled: Vec<(ScriptSpan, UnmodeledScriptKind)>,
}

/// What a [`TokenizedScript`] holds.
pub struct TokenizedScriptModel {
    pub segments: Seq<ScriptSegmentModel>,
    pub unmodeled: Seq<(ScriptSpan, UnmodeledScriptKind)>,
}

impl DeepView for TokenizedScript {
    type V = TokenizedScriptModel;

    open spec fn deep_view(&self) -> TokenizedScriptModel {
        TokenizedScriptModel {
            segments: self.segments.deep_view(),
            unmodeled: self.unmodeled.deep_view(),
        }
    }
}

impl Value for TokenizedScript {
    fn replicate(&self) -> (r: Self) {
        TokenizedScript {
            segments: self.segments.replicate(),
            unmodeled: self.unmodeled.replicate(),
        }
    }

    fn same_value(&self, other: &Self) -> (r: bool) {
        self.segments.same_value(&other.segments)
            && self.unmodeled.same_value(&other.unmodeled)
    }
}

/// The quoting in force.
#[derive(Debug, Clone, Copy, PartialEq, Eq, Structural)]
pub enum Quote {
    Unquoted,
    Single,
    Double,
}

impl DeepView for Quote {
    type V = Quote;

    open spec fn deep_view(&self) -> Quote {
        *self
    }
}

impl Value for Quote {
    fn replicate(&self) -> (r: Self) {
        *self
    }

    fn same_value(&self, other: &Self) -> (r: bool) {
        *self == *other
    }
}

/// The byte offset of character `k` of `source`.
pub open spec fn offset(source: Seq<char>, k: int) -> usize {
    byte_length(source.take(k)) as usize
}

/// The byte span of the characters `from..to` of `source`.
pub open spec fn span_of(source: Seq<char>, from: nat, to: nat) -> ScriptSpan {
    ScriptSpan { start: offset(source, from as int), end: offset(source, to as int) }
}

/// The state of the tokenizer; positions count characters.
pub struct Scan {
    pub segments: Seq<ScriptSegmentModel>,
    pub tokens: Seq<ScriptTokenModel>,
    pub unmodeled: Seq<(ScriptSpan, UnmodeledScriptKind)>,
    pub word: Seq<char>,
    pub word_start: Option<nat>,
    pub segment_start: nat,
    pub quote: Quote,
    pub quote_start: nat,
    pub at: nat,
}

/// The state before the first character.
pub open spec fn scan_start() -> Scan {
    Scan {
        segments: Seq::empty(),
        tokens: Seq::empty(),
        unmodeled: Seq::empty(),
        word: Seq::empty(),
        word_start: None,
        segment_start: 0,
        quote: Quote::Unquoted,
        quote_start: 0,
        at: 0,
    }
}

/// A word is open: it began here unless it began earlier.
pub open spec fn word_open(s: Scan) -> Scan {
    Scan {
        word_start: match s.word_start {
            Some(start) => Some(start),
            None => Some(s.at),
        },
        ..s
    }
}

/// The character `c` joins the word and is passed.
pub open spec fn word_grown(s: Scan, c: char) -> Scan {
    Scan { word: s.word.push(c), at: s.at + 1, ..s }
}

/// The open word, if any, becomes a token that ends here.
pub open spec fn word_closed(source: Seq<char>, s: Scan) -> Scan {
    match s.word_start {
        None => s,
        Some(start) => Scan {
            tokens: s.tokens.push(
                ScriptTokenModel { value: s.word, span: span_of(source, start, s.at) },
            ),
            word: Seq::empty(),
            word_start: None,
            ..s
        },
    }
}

/// The tokens so far, if any, become a segment that ends here.
pub open spec fn segment_closed(source: Seq<char>, s: Scan) -> Scan {
    if s.tokens.len() == 0 {
        s
    } else {
        Scan {
            segments: s.segments.push(
                ScriptSegmentModel {
                    tokens: s.tokens,
                    span: span_of(source, s.segment_start, s.at),
                },
            ),
            tokens: Seq::empty(),
            ..s
        }
    }
}

/// The characters from here up to `to` are passed as not modeled.
pub open spec fn skipped(source: Seq<char>, s: Scan, to: nat, kind: UnmodeledScriptKind) -> Scan {
    Scan { unmodeled: s.unmodeled.push((span_of(source, s.at, to), kind)), at: to, ..s }
}

/// A backslash: the next character is taken as it is.
pub open spec fn after_escape(source: Seq<char>, s: Scan) -> Scan {
    if s.at + 1 >= source.len() {
        skipped(source, s, source.len(), UnmodeledScriptKind::DanglingEscape)
    } else {
        Scan { word: s.word.push(source[s.at as int + 1]), at: s.at + 2, ..s }
    }
}

/// The position just behind the first `c` at or after `from`; the end when there is none.
pub open spec fn behind_first(source: Seq<char>, from: nat, c: char) -> nat {
    let rest = source.skip(from as int);
    let i = first_index(rest, c);
    if i < rest.len() {
        (from + i + 1) as nat
    } else {
        source.len()
    }
}

/// Where the expansion that begins with `marker` at `at` ends.
pub open spec fn expansion_end(source: Seq<char>, at: nat, marker: char) -> nat {
    if marker == '`' {
        behind_first(source, at + 1, '`')
    } else if at + 1 < source.len() && source[at as int + 1] == '(' {
        behind_first(source, at + 2, ')')
    } else {
        at + 1
    }
}

/// A `$` or a backquote: the expansion is passed as not modeled.
pub open spec fn after_expansion(source: Seq<char>, s: Scan, marker: char) -> Scan {
    skipped(source, s, expansion_end(source, s.at, marker), UnmodeledScriptKind::ShellExpansion)
}

/// A quote opens.
pub open spec fn quote_opened(s: Scan, quote: Quote) -> Scan {
    let o = word_open(s);
    Scan { quote, quote_start: s.at, at: s.at + 1, ..o }
}

/// A character that joins the word but is not modeled.
pub open spec fn after_unmodeled(
    source: Seq<char>,
    s: Scan,
    c: char,
    kind: UnmodeledScriptKind,
) -> Scan {
    let o = word_open(s);
    skipped(source, Scan { word: o.word.push(c), ..o }, s.at + 1, kind)
}

/// A control operator, single or doubled: word and segment end.
pub open spec fn after_operator(source: Seq<char>, s: Scan, c: char) -> Scan {
    let closed = segment_closed(source, word_closed(source, s));
    let next = if s.at + 1 < source.len() && source[s.at as int + 1] == c {
        s.at + 2
    } else {
        s.at + 1
    };
    Scan { at: next, segment_start: next, ..closed }
}

/// A comment: the segment ends and the line is passed.
pub open spec fn after_comment(source: Seq<char>, s: Scan) -> Scan {
    let closed = segment_closed(source, s);
    let rest = source.skip(s.at as int);
    let next = behind_first(source, s.at, '\n');
    if first_index(rest, '\n') < rest.len() {
        Scan { at: next, segment_start: next, ..closed }
    } else {
        Scan { at: next, ..closed }
    }
}

/// One character inside single quotes.
pub open spec fn after_single_quoted(s: Scan, c: char) -> Scan {
    if c == '\'' {
        Scan { quote: Quote::Unquoted, at: s.at + 1, ..s }
    } else {
        word_grown(s, c)
    }
}

/// One character inside double quotes.
pub open spec fn after_double_quoted(source: Seq<char>, s: Scan, c: char) -> Scan {
    if c == '"' {
        Scan { quote: Quote::Unquoted, at: s.at + 1, ..s }
    } else if c == '\\' {
        after_escape(source, s)
    } else if c == '$' || c == '`' {
        after_expansion(source, s, c)
    } else {
        word_grown(s, c)
    }
}

/// One character outside quotes.
pub open spec fn after_unquoted(source: Seq<char>, s: Scan, c: char) -> Scan {
    if c == '\'' {
        quote_opened(s, Quote::Single)
    } else if c == '"' {
        quote_opened(s, Quote::Double)
    } else if c == '\\' {
        after_escape(source, word_open(s))
    } else if c == '$' || c == '`' {
        after_expansion(source, word_open(s), c)
    } else if c == '*' || c == '?' || c == '[' {
        after_unmodeled(source, s, c, UnmodeledScriptKind::GlobExpansion)
    } else if c == '>' || c == '<' {
        skipped(source, word_closed(source, s), s.at + 1, UnmodeledScriptKind::Redirection)
    } else if c == '(' || c == ')' || c == '{' || c == '}' {
        after_unmodeled(source, s, c, UnmodeledScriptKind::UnsupportedShellSyntax)
    } else if c == ';' || c == '|' || c == '&' || c == '\n' {
        after_operator(source, s, c)
    } else if c == '#' && s.word_start is None {
        after_comment(source, s)
    } else if space(c) {
        let closed = word_closed(source, s);
        Scan { at: s.at + 1, ..closed }
    } else {
        word_grown(word_open(s), c)
    }
}

/// The state after one more character.
pub open spec fn scan_step(source: Seq<char>, s: Scan) -> Scan {
    let c = source[s.at as int];
    match s.quote {
        Quote::Single => after_single_quoted(s, c),
        Quote::Double => after_double_quoted(source, s, c),
        Quote::Unquoted => after_unquoted(source, s, c),
    }
}

proof fn behind_first_bounds(source: Seq<char>, from: nat, c: char)
    requires
        from <= source.len(),
    ensures
        from <= behind_first(source, from, c) <= source.len(),
        first_index(source.skip(from as int), c) < source.len() - from ==> from < behind_first(
            source,
            from,
            c,
        ),
{
    crate::text::first_index_bounds(source.skip(from as int), c);
}

/// Each step passes at least one character and stays inside the source.
pub proof fn scan_step_advances(source: Seq<char>, s: Scan)
    requires
        s.at < source.len(),
    ensures
        s.at < scan_step(source, s).at <= source.len(),
{
    behind_first_bounds(source, s.at, '\n');
    behind_first_bounds(source, s.at + 1, '`');
    if s.at + 2 <= source.len() {
        behind_first_bounds(source, s.at + 2, ')');
    }
}

/// The state at the end of the source.
pub open spec fn scan_run(source: Seq<char>, s: Scan) -> Scan
    decreases source.len() - s.at,
{
    if s.at < source.len() {
        proof {
            scan_step_advances(source, s);
        }
        scan_run(source, scan_step(source, s))
    } else {
        s
    }
}

/// The end of the source: an open quote is not modeled, word and segment end.
pub open spec fn scan_finish(source: Seq<char>, s: Scan) -> TokenizedScriptModel {
    let unmodeled = match s.quote {
        Quote::Unquoted => s.unmodeled,
        Quote::Single => s.unmodeled.push(
            (
                span_of(source, s.quote_start, source.len()),
                UnmodeledScriptKind::UnterminatedSingleQuote,
            ),
        ),
        Quote::Double => s.unmodeled.push(
            (
                span_of(source, s.quote_start, source.len()),
                UnmodeledScriptKind::UnterminatedDoubleQuote,
            ),
        ),
    };
    let closed = segment_closed(source, word_closed(source, Scan { at: source.len(), ..s }));
    TokenizedScriptModel {
        segments: closed.segments,
        unmodeled: collected::<(ScriptSpan, UnmodeledScriptKind)>(unmodeled),
    }
}

/// The segments and unmodeled parts of `source`.
pub open spec fn tokenized(source: Seq<char>) -> TokenizedScriptModel {
    scan_finish(source, scan_run(source, scan_start()))
}

struct ScriptTokenizer {
    source: Vec<char>,
    offsets: Vec<usize>,
    segments: Vec<ScriptSegment>,
    segment_tokens: Vec<ScriptToken>,
    unmodeled: Vec<(ScriptSpan, UnmodeledScriptKind)>,
    word: String,
    word_start: Option<usize>,
    segment_start: usize,
    quote: Quote,
    quote_start: usize,
    index: usize,
}

/// Splits a package script into static shell segments without invoking a shell.
///
/// Quotes and escapes are decoded, while byte spans continue to point at the
/// original string. Dynamic expansion, redirection, and malformed quoting are
/// retained as explicit unmodeled spans instead of being guessed through.
#[must_use]
pub fn tokenize_script(source: &str) -> (r: TokenizedScript)
    ensures
        r.deep_view() == tokenized(source@),
{
    let tokenizer = ScriptTokenizer::new(source);
    tokenizer.tokenize()
}

/// The byte offsets of the characters of `source` and of its end.
fn byte_offsets(source: &str, chars: &Vec<char>) -> (r: Vec<usize>)
    requires
        chars@ == source@,
    ensures
        r@.len() == chars@.len() + 1,
        forall|k: int| 0 <= k <= chars@.len() ==> #[trigger] r@[k] == offset(chars@, k),
{
    let total: usize = crate::text::byte_len(source);
    let mut out: Vec<usize> = Vec::new();
    let mut bytes: usize = 0;
    let mut i: usize = 0;
    out.push(0);
    assert(chars@.take(0) =~= Seq::empty());
    proof {
        byte_length_grows(chars@, 0);
    }
    while i < chars.len()
        invariant
            i <= chars.len(),
            chars@ == source@,
            total == byte_length(source@),
            bytes == byte_length(chars@.take(i as int)),
            out@.len() == i + 1,
            forall|k: int| 0 <= k <= i ==> #[trigger] out@[k] == offset(chars@, k),
        decreases chars.len() - i,
    {
        proof {
            byte_length_grows(chars@, i + 1);
            assert(chars@.take(i + 1).drop_last() =~= chars@.take(i as int));
            assert(chars@.take(i + 1).last() == chars@[i as int]);
        }
        bytes = bytes + width(chars[i]);
        out.push(bytes);
        i = i + 1;
    }
    out
}

/// A prefix is no longer than the whole, in bytes.
pub proof fn byte_length_grows(s: Seq<char>, k: int)
    requires
        0 <= k <= s.len(),
    ensures
        byte_length(s.take(k)) <= byte_length(s),
    decreases s.len() - k,
{
    if k < s.len() {
        byte_length_grows(s, k + 1);
        assert(s.take(k + 1).drop_last() =~= s.take(k));
    } else {
        assert(s.take(k) =~= s);
    }
}

impl ScriptTokenizer {
    spec fn wf(&self) -> bool {
        &&& self.source@.len() <= usize::MAX
        &&& self.offsets@.len() == self.source@.len() + 1
        &&& forall|k: int|
            0 <= k <= self.source@.len() ==> #[trigger] self.offsets@[k] == offset(self.source@, k)
        &&& self.index <= self.source@.len()
        &&& self.segment_start <= self.source@.len()
        &&& self.quote_start <= self.source@.len()
        &&& self.word_start matches Some(start) ==> start <= self.source@.len()
    }

    spec fn state(&self) -> Scan {
        Scan {
            segments: self.segments.deep_view(),
            tokens: self.segment_tokens.deep_view(),
            unmodeled: self.unmodeled.deep_view(),
            word: self.word@,
            word_start: match self.word_start {
                Some(start) => Some(start as nat),
                None => None,
            },
            segment_start: self.segment_start as nat,
            quote: self.quote,
            quote_start: self.quote_start as nat,
            at: self.index as nat,
        }
    }

    fn new(source: &str) -> (r: Self)
        ensures
            r.wf(),
            r.source@ == source@,
            r.state() == scan_start(),
    {
        let chars = chars_of(source);
        let offsets = byte_offsets(source, &chars);
        assert(chars.len() == chars@.len());
        let r = ScriptTokenizer {
            source: chars,
            offsets,
            segments: Vec::new(),
            segment_tokens: Vec::new(),
            unmodeled: Vec::new(),
            word: String::new(),
            word_start: None,
            segment_start: 0,
            quote: Quote::Unquoted,
            quote_start: 0,
            index: 0,
        };
        assert(r.segments.deep_view() =~= Seq::empty());
        assert(r.segment_tokens.deep_view() =~= Seq::empty());
        assert(r.unmodeled.deep_view() =~= Seq::empty());
        r
    }

    fn tokenize(self) -> (r: TokenizedScript)
        requires
            self.wf(),
        ensures
            r.deep_view() == scan_finish(self.source@, scan_run(self.source@, self.state())),
    {
        let mut tokenizer = self;
        while tokenizer.index < tokenizer.source.len()
            invariant
                tokenizer.wf(),
                tokenizer.source@ == self.source@,
                scan_run(self.source@, self.state()) == scan_run(self.source@, tokenizer.state()),
            decreases tokenizer.source@.len() - tokenizer.index,
        {
            proof {
                scan_step_advances(tokenizer.source@, tokenizer.state());
            }
            let character = tokenizer.source[tokenizer.index];
            match tokenizer.quote {
                Quote::Single => tokenizer.consume_single_quoted(character),
                Quote::Double => tokenizer.consume_double_quoted(character),
                Quote::Unquoted => tokenizer.consume_unquoted(character),
            }
        }
        tokenizer.finish()
    }

    fn span_to(&self, from: usize, to: usize) -> (r: ScriptSpan)
        requires
            self.wf(),
            from <= self.source@.len(),
            to <= self.source@.len(),
        ensures
            r == span_of(self.source@, from as nat, to as nat),
    {
        ScriptSpan { start: self.offsets[from], end: self.offsets[to] }
    }

    fn open_word(&mut self)
        requires
            old(self).wf(),
        ensures
            final(self).wf(),
            final(self).source@ == old(self).source@,
            final(self).state() == word_open(old(self).state()),
    {
        if self.word_start.is_none() {
            self.word_start = Some(self.index);
        }
    }

    fn consume_single_quoted(&mut self, character: char)
        requires
            old(self).wf(),
            old(self).index < old(self).source@.len(),
        ensures
            final(self).wf(),
            final(self).source@ == old(self).source@,
            final(self).state() == after_single_quoted(old(self).state(), character),
    {
        if character == '\'' {
            self.quote = Quote::Unquoted;
        } else {
            self.word.push(character);
        }
        self.index = self.index + 1;
    }

    fn consume_double_quoted(&mut self, character: char)
        requires
            old(self).wf(),
            old(self).index < old(self).source@.len(),
        ensures
            final(self).wf(),
            final(self).source@ == old(self).source@,
            final(self).state() == after_double_quoted(
                old(self).source@,
                old(self).state(),
                character,
            ),
    {
        if character == '"' {
            self.quote = Quote::Unquoted;
            self.index = self.index + 1;
        } else if character == '\\' {
            self.consume_escape();
        } else if character == '$' || character == '`' {
            self.consume_expansion(character);
        } else {
            self.word.push(character);
            self.index = self.index + 1;
        }
    }

    fn consume_unquoted(&mut self, character: char)
        requires
            old(self).wf(),
            old(self).index < old(self).source@.len(),
        ensures
            final(self).wf(),
            final(self).source@ == old(self).source@,
            final(self).state() == after_unquoted(old(self).source@, old(self).state(), character),
    {
        if character == '\'' {
            self.begin_quote(Quote::Single);
        } else if character == '"' {
            self.begin_quote(Quote::Double);
        } else if character == '\\' {
            self.open_word();
            self.consume_escape();
        } else if character == '$' || character == '`' {
            self.open_word();
            self.consume_expansion(character);
        } else if character == '*' || character == '?' || character == '[' {
            self.consume_unmodeled_character(character, UnmodeledScriptKind::GlobExpansion, true);
        } else if character == '>' || character == '<' {
            self.finish_word();
            self.consume_unmodeled_character(character, UnmodeledScriptKind::Redirection, false);
        } else if character == '(' || character == ')' || character == '{' || character == '}' {
            self.consume_unmodeled_character(
                character,
                UnmodeledScriptKind::UnsupportedShellSyntax,
                true,
            );
        } else if character == ';' || character == '|' || character == '&' || character == '\n' {
            self.consume_operator(character);
        } else if character == '#' && self.word_start.is_none() {
            self.consume_comment();
        } else if is_space(character) {
            self.finish_word();
            self.index = self.index + 1;
        } else {
            self.open_word();
            self.word.push(character);
            self.index = self.index + 1;
        }
    }

    fn begin_quote(&mut self, quote: Quote)
        requires
            old(self).wf(),
            old(self).index < old(self).source@.len(),
        ensures
            final(self).wf(),
            final(self).source@ == old(self).source@,
            final(self).state() == quote_opened(old(self).state(), quote),
    {
        self.open_word();
        self.quote = quote;
        self.quote_start = self.index;
        self.index = self.index + 1;
    }

    fn skip_unmodeled(&mut self, to: usize, kind: UnmodeledScriptKind)
        requires
            old(self).wf(),
            to <= old(self).source@.len(),
        ensures
            final(self).wf(),
            final(self).source@ == old(self).source@,
            final(self).state() == skipped(old(self).source@, old(self).state(), to as nat, kind),
    {
        let span = self.span_to(self.index, to);
        push_item(&mut self.unmodeled, (span, kind));
        self.index = to;
    }

    fn consume_escape(&mut self)
        requires
            old(self).wf(),
            old(self).index < old(self).source@.len(),
        ensures
            final(self).wf(),
            final(self).source@ == old(self).source@,
            final(self).state() == after_escape(old(self).source@, old(self).state()),
    {
        let end: usize = self.source.len();
        let escaped_index: usize = self.index + 1;
        if escaped_index >= end {
            self.skip_unmodeled(end, UnmodeledScriptKind::DanglingEscape);
            return ;
        }
        let escaped = self.source[escaped_index];
        self.word.push(escaped);
        self.index = escaped_index + 1;
    }

    fn consume_expansion(&mut self, marker: char)
        requires
            old(self).wf(),
            old(self).index < old(self).source@.len(),
        ensures
            final(self).wf(),
            final(self).source@ == old(self).source@,
            final(self).state() == after_expansion(old(self).source@, old(self).state(), marker),
    {
        let end = shell_expansion_end(&self.source, self.index, marker);
        self.skip_unmodeled(end, UnmodeledScriptKind::ShellExpansion);
    }

    fn consume_unmodeled_character(
        &mut self,
        character: char,
        kind: UnmodeledScriptKind,
        retain: bool,
    )
        requires
            old(self).wf(),
            old(self).index < old(self).source@.len(),
        ensures
            final(self).wf(),
            final(self).source@ == old(self).source@,
            final(self).state() == if retain {
                after_unmodeled(old(self).source@, old(self).state(), character, kind)
            } else {
                skipped(old(self).source@, old(self).state(), (old(self).index + 1) as nat, kind)
            },
    {
        if retain {
            self.open_word();
            self.word.push(character);
        }
        self.skip_unmodeled(self.index + 1, kind);
    }

    fn consume_operator(&mut self, character: char)
        requires
            old(self).wf(),
            old(self).index < old(self).source@.len(),
        ensures
            final(self).wf(),
            final(self).source@ == old(self).source@,
            final(self).state() == after_operator(old(self).source@, old(self).state(), character),
    {
        self.finish_word();
        self.finish_segment();
        self.index = self.index + 1;
        if self.index < self.source.len() && self.source[self.index] == character {
            self.index = self.index + 1;
        }
        self.segment_start = self.index;
    }

    fn consume_comment(&mut self)
        requires
            old(self).wf(),
            old(self).index < old(self).source@.len(),
        ensures
            final(self).wf(),
            final(self).source@ == old(self).source@,
            final(self).state() == after_comment(old(self).source@, old(self).state()),
    {
        self.finish_segment();
        match find_from(&self.source, self.index, '\n') {
            Some(newline) => {
                self.index = newline + 1;
                self.segment_start = self.index;
            },
            None => {
                self.index = self.source.len();
            },
        }
    }

    fn finish_word(&mut self)
        requires
            old(self).wf(),
        ensures
            final(self).wf(),
            final(self).source@ == old(self).source@,
            final(self).state() == word_closed(old(self).source@, old(self).state()),
    {
        if let Some(start) = self.word_start {
            let span = self.span_to(start, self.index);
            let mut value = String::new();
            std::mem::swap(&mut value, &mut self.word);
            push_item(&mut self.segment_tokens, ScriptToken { value, span });
            self.word_start = None;
        }
    }

    fn finish_segment(&mut self)
        requires
            old(self).wf(),
        ensures
            final(self).wf(),
            final(self).source@ == old(self).source@,
            final(self).state() == segment_closed(old(self).source@, old(self).state()),
    {
        if self.segment_tokens.len() == 0 {
            return ;
        }
        let span = self.span_to(self.segment_start, self.index);
        let mut tokens: Vec<ScriptToken> = Vec::new();
        std::mem::swap(&mut tokens, &mut self.segment_tokens);
        assert(self.segment_tokens.deep_view() =~= Seq::empty());
        push_item(&mut self.segments, ScriptSegment { tokens, span });
    }

    fn finish(self) -> (r: TokenizedScript)
        requires
            self.wf(),
        ensures
            r.deep_view() == scan_finish(self.source@, self.state()),
    {
        let mut tokenizer = self;
        let end: usize = tokenizer.source.len();
        match tokenizer.quote {
            Quote::Unquoted => {},
            Quote::Single => {
                let span = tokenizer.span_to(tokenizer.quote_start, end);
                push_item(
                    &mut tokenizer.unmodeled,
                    (span, UnmodeledScriptKind::UnterminatedSingleQuote),
                );
            },
            Quote::Double => {
                let span = tokenizer.span_to(tokenizer.quote_start, end);
                push_item(
                    &mut tokenizer.unmodeled,
                    (span, UnmodeledScriptKind::UnterminatedDoubleQuote),
                );
            },
        }
        tokenizer.index = end;
        tokenizer.finish_word();
        tokenizer.finish_segment();
        let unmodeled = OrderedSet::from_items(tokenizer.unmodeled);
        TokenizedScript { segments: tokenizer.segments, unmodeled: unmodeled.into_items() }
    }
}

/// Where the first `c` at or after `from` stands.
fn find_from(source: &Vec<char>, from: usize, c: char) -> (r: Option<usize>)
    requires
        from <= source@.len(),
    ensures
        match r {
            Some(i) => from <= i < source@.len() && first_index(source@.skip(from as int), c) == i
                - from,
            None => first_index(source@.skip(from as int), c) == source@.len() - from,
        },
{
    let ghost rest = source@.skip(from as int);
    let mut i: usize = from;
    while i < source.len() && source[i] != c
        invariant
            from <= i <= source@.len(),
            rest == source@.skip(from as int),
            forall|j: int| 0 <= j < i - from ==> #[trigger] rest[j] != c,
        decreases source.len() - i,
    {
        assert(rest[i - from] == source@[i as int]);
        i = i + 1;
    }
    proof {
        if i < source@.len() {
            assert(rest[i - from] == source@[i as int]);
        }
        first_index_is(rest, c, i - from);
    }
    if i < source.len() {
        Some(i)
    } else {
        None
    }
}

/// The end of the expansion that `marker` at `start` begins.
fn shell_expansion_end(source: &Vec<char>, start: usize, marker: char) -> (r: usize)
    requires
        start < source@.len(),
    ensures
        r == expansion_end(source@, start as nat, marker),
        r <= source@.len(),
{
    let end: usize = source.len();
    let marker_end: usize = start + 1;
    if marker == '`' {
        return match find_from(source, marker_end, '`') {
            Some(i) => i + 1,
            None => end,
        };
    }
    if marker_end < end && source[marker_end] == '(' {
        return match find_from(source, marker_end + 1, ')') {
            Some(i) => i + 1,
            None => end,
        };
    }
    marker_end
}

/// Whether a span lies between two offsets.
pub open spec fn lies_between(span: ScriptSpan, from: int, to: int) -> bool {
    from <= span.start <= span.end <= to
}

/// Whether words lie between two offsets, one behind the other.
pub open spec fn words_in_order(tokens: Seq<ScriptTokenModel>, from: int, to: int) -> bool {
    &&& forall|i: int|
        0 <= i < tokens.len() ==> lies_between((#[trigger] tokens[i]).span, from, to)
    &&& forall|i: int, j: int|
        0 <= i < j < tokens.len() ==> (#[trigger] tokens[i]).span.end <= (
        #[trigger] tokens[j]).span.start
}

/// Whether segments lie in front of an offset, one behind the other, each around its words.
pub open spec fn segments_in_order(segments: Seq<ScriptSegmentModel>, to: int) -> bool {
    &&& forall|i: int|
        0 <= i < segments.len() ==> lies_between((#[trigger] segments[i]).span, 0, to)
            && words_in_order(
            segments[i].tokens,
            segments[i].span.start as int,
            segments[i].span.end as int,
        )
    &&& forall|i: int, j: int|
        0 <= i < j < segments.len() ==> (#[trigger] segments[i]).span.end <= (
        #[trigger] segments[j]).span.start
}

/// Whether the parts that are not modeled lie in front of an offset.
pub open spec fn parts_inside(
    parts: Seq<(ScriptSpan, UnmodeledScriptKind)>,
    to: int,
) -> bool {
    forall|i: int| 0 <= i < parts.len() ==> lies_between((#[trigger] parts[i]).0, 0, to)
}

spec fn in_place(source: Seq<char>, s: Scan) -> bool {
    let here = offset(source, s.at as int) as int;
    let begin = offset(source, s.segment_start as int) as int;
    let end = offset(source, source.len() as int) as int;
    &&& s.segment_start <= s.at <= source.len()
    &&& s.quote_start <= s.at
    &&& match s.word_start {
        Some(w) => s.segment_start <= w <= s.at && words_in_order(
            s.tokens,
            begin,
            offset(source, w as int) as int,
        ),
        None => true,
    }
    &&& words_in_order(s.tokens, begin, here)
    &&& segments_in_order(s.segments, begin) || (s.at == source.len() && s.tokens.len() == 0
        && s.word_start is None && segments_in_order(s.segments, end))
    &&& parts_inside(s.unmodeled, end)
}

proof fn offsets_grow(source: Seq<char>)
    requires
        byte_length(source) <= usize::MAX,
    ensures
        forall|a: int, b: int|
            0 <= a <= b <= source.len() ==> #[trigger] offset(source, a) <= #[trigger] offset(
                source,
                b,
            ),
        offset(source, source.len() as int) == byte_length(source),
{
    assert forall|a: int, b: int| 0 <= a <= b <= source.len() implies #[trigger] offset(source, a)
        <= #[trigger] offset(source, b) by {
        byte_length_grows(source, b);
        byte_length_grows(source.take(b), a);
        assert(source.take(b).take(a) =~= source.take(a));
    }
    assert(source.take(source.len() as int) =~= source);
}

proof fn closing_words_keeps_place(source: Seq<char>, s: Scan)
    requires
        byte_length(source) <= usize::MAX,
        in_place(source, s),
    ensures
        in_place(source, word_closed(source, s)),
        word_closed(source, s).word_start is None,
{
    offsets_grow(source);
}

proof fn closing_segments_keeps_place(source: Seq<char>, s: Scan)
    requires
        byte_length(source) <= usize::MAX,
        in_place(source, s),
        s.word_start is None,
    ensures
        ({
            let closed = segment_closed(source, s);
            let here = offset(source, s.at as int) as int;
            &&& closed.tokens.len() == 0
            &&& segments_in_order(closed.segments, here)
            &&& parts_inside(closed.unmodeled, offset(source, source.len() as int) as int)
        }),
{
    offsets_grow(source);
}

proof fn steps_keep_place(source: Seq<char>, s: Scan)
    requires
        byte_length(source) <= usize::MAX,
        in_place(source, s),
        s.at < source.len(),
    ensures
        in_place(source, scan_step(source, s)),
{
    offsets_grow(source);
    scan_step_advances(source, s);
    closing_words_keeps_place(source, s);
    closing_segments_keeps_place(source, word_closed(source, s));
    let c = source[s.at as int];
    match s.quote {
        Quote::Single => {},
        Quote::Double => {},
        Quote::Unquoted => {
            if c == '#' && s.word_start is None {
                closing_segments_keeps_place(source, s);
            }
        },
    }
}

proof fn runs_keep_place(source: Seq<char>, s: Scan)
    requires
        byte_length(source) <= usize::MAX,
        in_place(source, s),
    ensures
        in_place(source, scan_run(source, s)),
    decreases source.len() - s.at,
{
    if s.at < source.len() {
        scan_step_advances(source, s);
        steps_keep_place(source, s);
        runs_keep_place(source, scan_step(source, s));
    }
}

/// Whether a span is that of some characters of a script.
pub open spec fn cut_from(source: Seq<char>, span: ScriptSpan) -> bool {
    exists|a: nat, b: nat| a < b <= source.len() && span == #[trigger] span_of(source, a, b)
}

/// Whether words are cut from a script.
pub open spec fn words_cut_from(source: Seq<char>, tokens: Seq<ScriptTokenModel>) -> bool {
    forall|i: int| 0 <= i < tokens.len() ==> cut_from(source, (#[trigger] tokens[i]).span)
}

/// Whether segments are cut from a script, each with a word and with words that are cut from
/// it.
pub open spec fn segments_cut_from(
    source: Seq<char>,
    segments: Seq<ScriptSegmentModel>,
) -> bool {
    forall|i: int|
        0 <= i < segments.len() ==> cut_from(source, (#[trigger] segments[i]).span)
            && segments[i].tokens.len() > 0 && words_cut_from(source, segments[i].tokens)
}

/// Whether the parts that are not modeled are cut from a script.
pub open spec fn parts_cut_from(
    source: Seq<char>,
    parts: Seq<(ScriptSpan, UnmodeledScriptKind)>,
) -> bool {
    forall|i: int| 0 <= i < parts.len() ==> cut_from(source, (#[trigger] parts[i]).0)
}

spec fn cuts_hold(source: Seq<char>, s: Scan) -> bool {
    &&& s.segment_start <= s.at <= source.len()
    &&& match s.word_start {
        Some(w) => s.segment_start <= w < s.at,
        None => true,
    }
    &&& s.quote != Quote::Unquoted ==> s.quote_start < s.at
    &&& s.tokens.len() > 0 ==> s.segment_start < s.at
    &&& words_cut_from(source, s.tokens)
    &&& segments_cut_from(source, s.segments)
    &&& parts_cut_from(source, s.unmodeled)
}

proof fn closing_keeps_cuts(source: Seq<char>, s: Scan)
    requires
        cuts_hold(source, s),
    ensures
        cuts_hold(source, word_closed(source, s)),
        cuts_hold(source, segment_closed(source, word_closed(source, s))),
        cuts_hold(source, segment_closed(source, s)),
{
    let closed = word_closed(source, s);
    match s.word_start {
        Some(w) => {
            assert(cut_from(source, span_of(source, w, s.at)));
        },
        None => {},
    }
    if closed.tokens.len() > 0 {
        assert(cut_from(source, span_of(source, s.segment_start, s.at)));
    }
}

proof fn steps_keep_cuts(source: Seq<char>, s: Scan)
    requires
        cuts_hold(source, s),
        s.at < source.len(),
    ensures
        cuts_hold(source, scan_step(source, s)),
{
    scan_step_advances(source, s);
    closing_keeps_cuts(source, s);
    let next = scan_step(source, s);
    assert(cut_from(source, span_of(source, s.at, next.at)));
}

proof fn runs_keep_cuts(source: Seq<char>, s: Scan)
    requires
        cuts_hold(source, s),
    ensures
        cuts_hold(source, scan_run(source, s)),
        scan_run(source, s).at == source.len(),
    decreases source.len() - s.at,
{
    if s.at < source.len() {
        scan_step_advances(source, s);
        steps_keep_cuts(source, s);
        runs_keep_cuts(source, scan_step(source, s));
    }
}

/// A span that is cut from a script that fits into memory is not empty.
pub proof fn cut_spans_are_not_empty(source: Seq<char>, span: ScriptSpan)
    requires
        byte_length(source) <= usize::MAX,
        cut_from(source, span),
    ensures
        span.start < span.end,
{
    let (a, b) = choose|a: nat, b: nat|
        a < b <= source.len() && span == #[trigger] span_of(source, a, b);
    offsets_grow(source);
    let most = source.take(b as int);
    byte_length_grows(source, b as int);
    byte_length_grows(most, b - 1);
    byte_length_grows(most.take(b - 1), a as int);
    assert(most.take(b - 1).take(a as int) =~= source.take(a as int));
    assert(most.drop_last() =~= most.take(b - 1));
    assert(byte_length(most) > byte_length(most.drop_last()));
}

/// The spans of a script point into it: segments stand one behind the other, each around its
/// words, of which it has some and which stand one behind the other; what is not modeled lies
/// inside the script; and each span is that of one or more characters, so that it starts and
/// ends where a character does. The script is one that fits into memory.
pub proof fn spans_point_into_the_script(source: Seq<char>)
    requires
        byte_length(source) <= usize::MAX,
    ensures
        segments_in_order(tokenized(source).segments, byte_length(source) as int),
        parts_inside(tokenized(source).unmodeled, byte_length(source) as int),
        segments_cut_from(source, tokenized(source).segments),
        parts_cut_from(source, tokenized(source).unmodeled),
{
    offsets_grow(source);
    runs_keep_cuts(source, scan_start());
    runs_keep_place(source, scan_start());
    let s = scan_run(source, scan_start());
    let ended = Scan { at: source.len(), ..s };
    let end = byte_length(source) as int;
    assert(in_place(source, ended));
    closing_words_keeps_place(source, ended);
    closing_segments_keeps_place(source, word_closed(source, ended));
    let parts = match s.quote {
        Quote::Unquoted => s.unmodeled,
        Quote::Single => s.unmodeled.push(
            (
                span_of(source, s.quote_start, source.len()),
                UnmodeledScriptKind::UnterminatedSingleQuote,
            ),
        ),
        Quote::Double => s.unmodeled.push(
            (
                span_of(source, s.quote_start, source.len()),
                UnmodeledScriptKind::UnterminatedDoubleQuote,
            ),
        ),
    };
    assert(parts_inside(parts, end));
    closing_keeps_cuts(source, ended);
    assert(parts_cut_from(source, parts)) by {
        if s.quote != Quote::Unquoted {
            assert(cut_from(source, span_of(source, s.quote_start, source.len())));
        }
    }
    crate::collections::collected_is_ordered::<(ScriptSpan, UnmodeledScriptKind)>(parts);
    let all = tokenized(source).unmodeled;
    assert forall|i: int| 0 <= i < all.len() implies lies_between(
        (#[trigger] all[i]).0,
        0,
        end,
    ) && cut_from(source, all[i].0) by {
        assert(all.contains(all[i]));
        assert(parts.contains(all[i]));
        let k = choose|k: int| 0 <= k < parts.len() && parts[k] == all[i];
        assert(lies_between(parts[k].0, 0, end));
        assert(cut_from(source, parts[k].0));
    }
}

} // verus!
