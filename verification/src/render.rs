//! Reports as people read them.

use crate::collections::{lookup, with_item, OrderedMap, OrderedSet};
use crate::domain::facts::{
    AnalysisDiagnostic, AnalysisDiagnosticModel, DiagnosticSeverity, SourceSpan,
};
use crate::domain::report::{
    AnalysisStatus, CacheReport, CacheReportModel, Confidence, Finding, FindingModel,
    FixEligibility, ProjectReport, ProjectReportModel, ReportSummary, ScanReport, ScanReportModel,
};
use crate::text::{
    chars_of, concat2, concat3, concat4, concat5, concat7, control, decimal, digit, digits,
    first_index, first_index_bounds, first_index_is, is_control, join, joined,
};
use crate::values::{push_item, Value};
use vstd::prelude::*;
use vstd::utf8::{decode_utf8, valid_utf8};

verus! {

/// How a report is written: with colors, and with characters beyond ASCII.
#[derive(Debug, Clone, Copy, PartialEq, Eq, Structural)]
pub struct RenderOptions {
    pub color: bool,
    pub unicode: bool,
}

impl DeepView for RenderOptions {
    type V = RenderOptions;

    open spec fn deep_view(&self) -> RenderOptions {
        *self
    }
}

impl Value for RenderOptions {
    fn replicate(&self) -> (r: Self) {
        *self
    }

    fn same_value(&self, other: &Self) -> (r: bool) {
        *self == *other
    }
}

/// Whether a character could change how a terminal shows what follows.
pub open spec fn is_unsafe(c: char) -> bool {
    ||| control(c)
    ||| c as u32 == 0xad
    ||| c as u32 == 0x61c
    ||| 0x200b <= c as u32 <= 0x200f
    ||| 0x2028 <= c as u32 <= 0x202e
    ||| c as u32 == 0x2060
    ||| 0x2066 <= c as u32 <= 0x2069
    ||| c as u32 == 0xfeff
}

/// Whether a character could change how a terminal shows what follows.
#[must_use]
pub fn is_unsafe_terminal_character(character: char) -> (r: bool)
    ensures
        r == is_unsafe(character),
{
    let code: u32 = character as u32;
    is_control(character) || code == 0xad || code == 0x61c || (0x200b <= code && code <= 0x200f) || (
    0x2028 <= code && code <= 0x202e) || code == 0x2060 || (0x2066 <= code && code <= 0x2069)
        || code == 0xfeff
}

/// A digit in hexadecimal.
pub open spec fn hex_char(d: nat) -> char {
    if d < 10 {
        digit(d)
    } else if d == 10 {
        'a'
    } else if d == 11 {
        'b'
    } else if d == 12 {
        'c'
    } else if d == 13 {
        'd'
    } else if d == 14 {
        'e'
    } else {
        'f'
    }
}

/// A number in hexadecimal.
pub open spec fn hex_digits(n: nat) -> Seq<char>
    decreases n,
{
    if n < 16 {
        seq![hex_char(n)]
    } else {
        hex_digits(n / 16).push(hex_char(n % 16))
    }
}

fn hex_text(n: u32) -> (r: String)
    ensures
        r@ == hex_digits(n as nat),
    decreases n,
{
    let d: u32 = n % 16;
    let c: char = if d == 0 {
        '0'
    } else if d == 1 {
        '1'
    } else if d == 2 {
        '2'
    } else if d == 3 {
        '3'
    } else if d == 4 {
        '4'
    } else if d == 5 {
        '5'
    } else if d == 6 {
        '6'
    } else if d == 7 {
        '7'
    } else if d == 8 {
        '8'
    } else if d == 9 {
        '9'
    } else if d == 10 {
        'a'
    } else if d == 11 {
        'b'
    } else if d == 12 {
        'c'
    } else if d == 13 {
        'd'
    } else if d == 14 {
        'e'
    } else {
        'f'
    };
    let mut out: String = if n < 16 {
        String::new()
    } else {
        hex_text(n / 16)
    };
    let ghost front = out@;
    out.push(c);
    assert(out@ =~= hex_digits(n as nat));
    out
}

/// A character as it is shown.
pub open spec fn shown(c: char) -> Seq<char> {
    if c == '\n' {
        "\\n"@
    } else if c == '\r' {
        "\\r"@
    } else if c == '\t' {
        "\\t"@
    } else if is_unsafe(c) {
        "\\u{"@ + hex_digits(c as u32 as nat) + "}"@
    } else {
        seq![c]
    }
}

/// A text as it is shown.
pub open spec fn sanitized(s: Seq<char>) -> Seq<char>
    decreases s.len(),
{
    if s.len() == 0 {
        Seq::empty()
    } else {
        sanitized(s.drop_last()) + shown(s.last())
    }
}

/// A text as it is shown: characters that could change how a terminal shows what follows are
/// written out.
#[must_use]
pub fn sanitize_terminal_text(text: &str) -> (r: String)
    ensures
        r@ == sanitized(text@),
{
    let chars: Vec<char> = chars_of(text);
    let mut out: String = String::new();
    assert(out@ =~= sanitized(text@.take(0)));
    let mut i: usize = 0;
    while i < chars.len()
        invariant
            i <= chars.len(),
            chars@ == text@,
            out@ == sanitized(text@.take(i as int)),
        decreases chars.len() - i,
    {
        assert(text@.take(i + 1).drop_last() =~= text@.take(i as int));
        assert(text@.take(i + 1).last() == chars@[i as int]);
        let c: char = chars[i];
        if c == '\n' {
            out = concat2(&out, "\\n");
        } else if c == '\r' {
            out = concat2(&out, "\\r");
        } else if c == '\t' {
            out = concat2(&out, "\\t");
        } else if is_unsafe_terminal_character(c) {
            let written: String = concat3("\\u{", &hex_text(c as u32), "}");
            out = concat2(&out, &written);
        } else {
            out.push(c);
            assert(out@ =~= sanitized(text@.take(i + 1)));
        }
        i = i + 1;
    }
    assert(text@.take(i as int) =~= text@);
    out
}

/// A text as it is shown, or something else where there is none.
pub open spec fn safe(text: Seq<char>, fallback: Seq<char>) -> Seq<char> {
    if sanitized(text).len() == 0 {
        fallback
    } else {
        sanitized(text)
    }
}

/// A text as it is shown, or something else where there is none.
#[must_use]
pub fn safe_text(text: &str, fallback: &str) -> (r: String)
    ensures
        r@ == safe(text@, fallback@),
{
    let written: String = sanitize_terminal_text(text);
    if written.as_str().unicode_len() == 0 {
        fallback.to_string()
    } else {
        written
    }
}

/// How a piece of a report is set off.
#[derive(Debug, Clone, Copy, PartialEq, Eq, Structural)]
pub enum Style {
    Plain,
    Brand,
    Heading,
    Success,
    Warning,
    Error,
    Muted,
}

impl DeepView for Style {
    type V = Style;

    open spec fn deep_view(&self) -> Style {
        *self
    }
}

impl Value for Style {
    fn replicate(&self) -> (r: Self) {
        *self
    }

    fn same_value(&self, other: &Self) -> (r: bool) {
        *self == *other
    }
}

/// What a terminal is told to set a piece off.
pub open spec fn style_code(value: Style) -> Seq<char> {
    match value {
        Style::Plain => ""@,
        Style::Brand => "1;38;5;214"@,
        Style::Heading => "1"@,
        Style::Success => "1;32"@,
        Style::Warning => "1;38;5;214"@,
        Style::Error => "1;31"@,
        Style::Muted => "38;5;245"@,
    }
}

/// What a terminal is told to set a piece off.
#[must_use]
fn ansi_code(value: Style) -> (r: &'static str)
    ensures
        r@ == style_code(value),
{
    match value {
        Style::Plain => "",
        Style::Brand => "1;38;5;214",
        Style::Heading => "1",
        Style::Success => "1;32",
        Style::Warning => "1;38;5;214",
        Style::Error => "1;31",
        Style::Muted => "38;5;245",
    }
}

/// A piece of a report.
#[derive(Debug, PartialEq, Eq)]
pub struct Piece {
    pub text: String,
    pub style: Style,
}

/// What a [`Piece`] holds.
pub struct PieceModel {
    pub text: Seq<char>,
    pub style: Style,
}

impl DeepView for Piece {
    type V = PieceModel;

    open spec fn deep_view(&self) -> PieceModel {
        PieceModel {
            text: self.text.deep_view(),
            style: self.style.deep_view(),
        }
    }
}

impl Value for Piece {
    fn replicate(&self) -> (r: Self) {
        Piece {
            text: self.text.replicate(),
            style: self.style.replicate(),
        }
    }

    fn same_value(&self, other: &Self) -> (r: bool) {
        self.text.same_value(&other.text)
            && self.style.same_value(&other.style)
    }
}

/// A piece of a report.
pub open spec fn piece(text: Seq<char>, style: Style) -> PieceModel {
    PieceModel { text, style }
}

fn put(out: &mut Vec<Piece>, text: &str, style: Style)
    ensures
        final(out).deep_view() == old(out).deep_view().push(piece(text@, style)),
{
    push_item(out, Piece { text: text.to_string(), style });
}

/// A piece of a report as it is written.
pub open spec fn drawn_piece(piece: PieceModel, color: bool) -> Seq<char> {
    if color && piece.style != Style::Plain {
        "\u{1b}["@ + style_code(piece.style) + "m"@ + piece.text + "\u{1b}[0m"@
    } else {
        piece.text
    }
}

/// Pieces of a report as they are written.
pub open spec fn drawn(items: Seq<PieceModel>, color: bool) -> Seq<char>
    decreases items.len(),
{
    if items.len() == 0 {
        Seq::empty()
    } else {
        let rest = drawn(items.drop_last(), color);
        let last = items.last();
        rest + drawn_piece(last, color)
    }
}

fn draw(pieces: &Vec<Piece>, color: bool) -> (r: String)
    ensures
        r@ == drawn(pieces.deep_view(), color),
{
    let mut out: String = String::new();
    assert(out@ =~= Seq::empty());
    let ghost model = pieces.deep_view();
    let mut i: usize = 0;
    while i < pieces.len()
        invariant
            i <= pieces.len(),
            model == pieces.deep_view(),
            out@ == drawn(model.take(i as int), color),
        decreases pieces.len() - i,
    {
        proof {
            assert(model.take(i + 1).drop_last() =~= model.take(i as int));
            assert(model.take(i + 1).last() == pieces@[i as int].deep_view());
        }
        let one: &Piece = &pieces[i];
        let written: String = if color && one.style != Style::Plain {
            concat5("\u{1b}[", ansi_code(one.style), "m", &one.text, "\u{1b}[0m")
        } else {
            one.text.replicate()
        };
        out = concat2(&out, &written);
        i = i + 1;
    }
    assert(model.take(i as int) =~= model);
    out
}

/// A mark in a report.
#[derive(Debug, Clone, Copy, PartialEq, Eq, Structural)]
pub enum Glyph {
    Pointer,
    Separator,
    FindingMark,
    Branch,
    LastBranch,
    EmptyMark,
    SuccessMark,
    WarningMark,
    ErrorMark,
    HintMark,
    OverflowMark,
    ScopeSeparator,
    FixSeparator,
}

impl DeepView for Glyph {
    type V = Glyph;

    open spec fn deep_view(&self) -> Glyph {
        *self
    }
}

impl Value for Glyph {
    fn replicate(&self) -> (r: Self) {
        *self
    }

    fn same_value(&self, other: &Self) -> (r: bool) {
        *self == *other
    }
}

/// A mark as it is written.
pub open spec fn glyph(mark: Glyph, unicode: bool) -> Seq<char> {
    match mark {
        Glyph::Pointer => if unicode { "›"@ } else { ">"@ },
        Glyph::Separator => if unicode { "·"@ } else { "|"@ },
        Glyph::FindingMark => if unicode { "●"@ } else { "*"@ },
        Glyph::Branch => if unicode { "├─"@ } else { "|-"@ },
        Glyph::LastBranch => if unicode { "└─"@ } else { "`-"@ },
        Glyph::EmptyMark => if unicode { "—"@ } else { "-"@ },
        Glyph::SuccessMark => if unicode { "✓"@ } else { "[OK]"@ },
        Glyph::WarningMark => if unicode { "▲"@ } else { "!"@ },
        Glyph::ErrorMark => if unicode { "✕"@ } else { "x"@ },
        Glyph::HintMark => if unicode { "↳"@ } else { "->"@ },
        Glyph::OverflowMark => if unicode { "…"@ } else { "..."@ },
        Glyph::ScopeSeparator => if unicode { "  ·  "@ } else { "  |  "@ },
        Glyph::FixSeparator => if unicode { "  ·  fix "@ } else { "  |  fix "@ },
    }
}

fn glyph_text(mark: Glyph, unicode: bool) -> (r: &'static str)
    ensures
        r@ == glyph(mark, unicode),
{
    match mark {
        Glyph::Pointer => if unicode { "›" } else { ">" },
        Glyph::Separator => if unicode { "·" } else { "|" },
        Glyph::FindingMark => if unicode { "●" } else { "*" },
        Glyph::Branch => if unicode { "├─" } else { "|-" },
        Glyph::LastBranch => if unicode { "└─" } else { "`-" },
        Glyph::EmptyMark => if unicode { "—" } else { "-" },
        Glyph::SuccessMark => if unicode { "✓" } else { "[OK]" },
        Glyph::WarningMark => if unicode { "▲" } else { "!" },
        Glyph::ErrorMark => if unicode { "✕" } else { "x" },
        Glyph::HintMark => if unicode { "↳" } else { "->" },
        Glyph::OverflowMark => if unicode { "…" } else { "..." },
        Glyph::ScopeSeparator => if unicode { "  ·  " } else { "  |  " },
        Glyph::FixSeparator => if unicode { "  ·  fix " } else { "  |  fix " },
    }
}

/// A number with what it counts.
pub open spec fn metric(count: usize, label: Seq<char>, style: Style) -> Seq<PieceModel> {
    seq![
        piece(digits(count as nat), style),
        piece(" "@, Style::Plain),
        piece(label, Style::Plain),
    ]
}

fn add_metric(
    out: &mut Vec<Piece>,
    count: usize,
    label: &str,
    style: Style,
)
    ensures
        final(out).deep_view() == old(out).deep_view() + metric(count, label@, style),
{
    let ghost before = out.deep_view();
    put(out, &decimal(count as u64), style);
    put(out, " ", Style::Plain);
    put(out, label, Style::Plain);
    assert(out.deep_view() =~= before + metric(count, label@, style));
}

/// What stands between numbers.
pub open spec fn metric_separator(unicode: bool) -> Seq<PieceModel> {
    seq![
        piece(" "@, Style::Plain),
        piece(glyph(Glyph::Separator, unicode), Style::Muted),
        piece(" "@, Style::Plain),
    ]
}

fn add_metric_separator(
    out: &mut Vec<Piece>,
    unicode: bool,
)
    ensures
        final(out).deep_view() == old(out).deep_view() + metric_separator(unicode),
{
    let ghost before = out.deep_view();
    put(out, " ", Style::Plain);
    put(out, glyph_text(Glyph::Separator, unicode), Style::Muted);
    put(out, " ", Style::Plain);
    assert(out.deep_view() =~= before + metric_separator(unicode));
}

/// The heading of a section.
pub open spec fn section_heading(heading: Seq<char>) -> Seq<PieceModel> {
    seq![
        piece("\n"@, Style::Plain),
        piece(heading, Style::Heading),
        piece("\n"@, Style::Plain),
    ]
}

fn add_section_heading(
    out: &mut Vec<Piece>,
    heading: &str,
)
    ensures
        final(out).deep_view() == old(out).deep_view() + section_heading(heading@),
{
    let ghost before = out.deep_view();
    put(out, "\n", Style::Plain);
    put(out, heading, Style::Heading);
    put(out, "\n", Style::Plain);
    assert(out.deep_view() =~= before + section_heading(heading@));
}

/// That a section is empty.
pub open spec fn empty_state(message: Seq<char>, unicode: bool) -> Seq<PieceModel> {
    seq![
        piece("  "@, Style::Plain),
        piece(glyph(Glyph::EmptyMark, unicode), Style::Muted),
        piece(" "@, Style::Plain),
        piece(message, Style::Muted),
        piece("\n"@, Style::Plain),
    ]
}

fn add_empty_state(
    out: &mut Vec<Piece>,
    message: &str,
    unicode: bool,
)
    ensures
        final(out).deep_view() == old(out).deep_view() + empty_state(message@, unicode),
{
    let ghost before = out.deep_view();
    put(out, "  ", Style::Plain);
    put(out, glyph_text(Glyph::EmptyMark, unicode), Style::Muted);
    put(out, " ", Style::Plain);
    put(out, message, Style::Muted);
    put(out, "\n", Style::Plain);
    assert(out.deep_view() =~= before + empty_state(message@, unicode));
}

/// The title of a report.
pub open spec fn title() -> Seq<PieceModel> {
    seq![
        piece("ORPHANODE"@, Style::Brand),
        piece("  "@, Style::Plain),
        piece("reachability scan"@, Style::Muted),
        piece("\n\n"@, Style::Plain),
    ]
}

fn add_title(
    out: &mut Vec<Piece>,
)
    ensures
        final(out).deep_view() == old(out).deep_view() + title(),
{
    let ghost before = out.deep_view();
    put(out, "ORPHANODE", Style::Brand);
    put(out, "  ", Style::Plain);
    put(out, "reachability scan", Style::Muted);
    put(out, "\n\n", Style::Plain);
    assert(out.deep_view() =~= before + title());
}

/// That there are no entries.
pub open spec fn no_entries() -> Seq<PieceModel> {
    seq![
        piece(" Entries  "@, Style::Plain),
        piece("none configured"@, Style::Warning),
        piece("\n"@, Style::Plain),
    ]
}

fn add_no_entries(
    out: &mut Vec<Piece>,
)
    ensures
        final(out).deep_view() == old(out).deep_view() + no_entries(),
{
    let ghost before = out.deep_view();
    put(out, " Entries  ", Style::Plain);
    put(out, "none configured", Style::Warning);
    put(out, "\n", Style::Plain);
    assert(out.deep_view() =~= before + no_entries());
}

/// The one entry.
pub open spec fn one_entry(entry: Seq<char>) -> Seq<PieceModel> {
    seq![
        piece(" Entry  "@, Style::Plain),
        piece(safe(entry, "<not provided>"@), Style::Plain),
        piece("\n"@, Style::Plain),
    ]
}

fn add_one_entry(
    out: &mut Vec<Piece>,
    entry: &str,
)
    ensures
        final(out).deep_view() == old(out).deep_view() + one_entry(entry@),
{
    let ghost before = out.deep_view();
    put(out, " Entry  ", Style::Plain);
    put(out, &safe_text(entry, "<not provided>"), Style::Plain);
    put(out, "\n", Style::Plain);
    assert(out.deep_view() =~= before + one_entry(entry@));
}

/// An item of a list.
pub open spec fn listed_item(item: Seq<char>, last: bool, unicode: bool) -> Seq<PieceModel> {
    seq![
        piece("    "@, Style::Plain),
        piece(
            if last { glyph(Glyph::LastBranch, unicode) } else { glyph(Glyph::Branch, unicode) },
            Style::Muted,
        ),
        piece(" "@, Style::Plain),
        piece(safe(item, "<empty>"@), Style::Plain),
        piece("\n"@, Style::Plain),
    ]
}

fn add_listed_item(
    out: &mut Vec<Piece>,
    item: &str,
    last: bool,
    unicode: bool,
)
    ensures
        final(out).deep_view() == old(out).deep_view() + listed_item(item@, last, unicode),
{
    let ghost before = out.deep_view();
    put(out, "    ", Style::Plain);
    put(
        out,
        if last { glyph_text(Glyph::LastBranch, unicode) } else { glyph_text(Glyph::Branch, unicode) },
        Style::Muted,
    );
    put(out, " ", Style::Plain);
    put(out, &safe_text(item, "<empty>"), Style::Plain);
    put(out, "\n", Style::Plain);
    assert(out.deep_view() =~= before + listed_item(item@, last, unicode));
}

/// That there are more entries.
pub open spec fn more_entries(count: usize, unicode: bool) -> Seq<PieceModel> {
    seq![
        piece("    "@, Style::Plain),
        piece(glyph(Glyph::LastBranch, unicode), Style::Muted),
        piece(" "@, Style::Plain),
        piece(glyph(Glyph::OverflowMark, unicode) + " "@ + digits(count as nat) + " more\n"@, Style::Plain),
    ]
}

fn add_more_entries(
    out: &mut Vec<Piece>,
    count: usize,
    unicode: bool,
)
    ensures
        final(out).deep_view() == old(out).deep_view() + more_entries(count, unicode),
{
    let ghost before = out.deep_view();
    put(out, "    ", Style::Plain);
    put(out, glyph_text(Glyph::LastBranch, unicode), Style::Muted);
    put(out, " ", Style::Plain);
    put(out, &concat4(glyph_text(Glyph::OverflowMark, unicode), " ", &decimal(count as u64), " more\n"), Style::Plain);
    assert(out.deep_view() =~= before + more_entries(count, unicode));
}

/// The first items of a list. `end` says whether the last of them is the last of all.
pub open spec fn listed_items(
    items: Seq<Seq<char>>,
    count: nat,
    shown: nat,
    end: bool,
    unicode: bool,
) -> Seq<PieceModel>
    decreases count,
{
    if count == 0 {
        Seq::empty()
    } else {
        listed_items(items, (count - 1) as nat, shown, end, unicode) + listed_item(
            items[count - 1],
            count == shown && end,
            unicode,
        )
    }
}

fn add_listed_items(
    out: &mut Vec<Piece>,
    items: &Vec<String>,
    shown: usize,
    end: bool,
    unicode: bool,
)
    requires
        shown <= items@.len(),
    ensures
        final(out).deep_view() == old(out).deep_view() + listed_items(
            items.deep_view(),
            shown as nat,
            shown as nat,
            end,
            unicode,
        ),
{
    let ghost before = out.deep_view();
    let ghost model = items.deep_view();
    let mut i: usize = 0;
    assert(before =~= before + listed_items(model, 0, shown as nat, end, unicode));
    while i < shown
        invariant
            i <= shown <= items.len(),
            model == items.deep_view(),
            out.deep_view() == before + listed_items(model, i as nat, shown as nat, end, unicode),
        decreases shown - i,
    {
        assert(model[i as int] == items@[i as int]@);
        add_listed_item(out, &items[i], i + 1 == shown && end, unicode);
        assert(out.deep_view() =~= before + listed_items(
            model,
            (i + 1) as nat,
            shown as nat,
            end,
            unicode,
        ));
        i = i + 1;
    }
}

/// How many entries are shown.
pub open spec fn shown_entries(count: nat) -> nat {
    if count < 3 {
        count
    } else {
        3
    }
}

/// Many entries: the first of them, and how many more there are.
pub open spec fn many_entries(entries: Seq<Seq<char>>, unicode: bool) -> Seq<PieceModel> {
    let shown = shown_entries(entries.len());
    seq![piece(" Entries  "@ + digits(entries.len()) + " configured\n"@, Style::Plain)]
        + listed_items(entries, shown, shown, entries.len() <= shown, unicode) + (if entries.len()
        > shown {
        more_entries((entries.len() - shown) as usize, unicode)
    } else {
        Seq::empty()
    })
}

/// The entries of a report.
pub open spec fn entries_section(entries: Seq<Seq<char>>, unicode: bool) -> Seq<PieceModel> {
    seq![piece(glyph(Glyph::Pointer, unicode), Style::Brand)] + (if entries.len() == 0 {
        no_entries()
    } else if entries.len() == 1 {
        one_entry(entries[0])
    } else {
        many_entries(entries, unicode)
    })
}

fn add_entries(out: &mut Vec<Piece>, entries: &Vec<String>, unicode: bool)
    ensures
        final(out).deep_view() == old(out).deep_view() + entries_section(
            entries.deep_view(),
            unicode,
        ),
{
    let ghost before = out.deep_view();
    let ghost all = entries.deep_view();
    assert(all.len() == entries@.len());
    put(out, glyph_text(Glyph::Pointer, unicode), Style::Brand);
    if entries.len() == 0 {
        add_no_entries(out);
    } else if entries.len() == 1 {
        assert(all[0] == entries@[0]@);
        add_one_entry(out, &entries[0]);
    } else {
        let count: usize = entries.len();
        let shown: usize = if count < 3 {
            count
        } else {
            3
        };
        put(out, &concat3(" Entries  ", &decimal(count as u64), " configured\n"), Style::Plain);
        add_listed_items(out, entries, shown, count <= shown, unicode);
        if count > shown {
            add_more_entries(out, count - shown, unicode);
        }
    }
    assert(out.deep_view() =~= before + entries_section(all, unicode));
}

/// Whether anything outside can use packages, each answer once.
pub open spec fn world_values(items: Seq<(Seq<char>, Seq<char>)>) -> Seq<Seq<char>>
    decreases items.len(),
{
    if items.len() == 0 {
        Seq::empty()
    } else {
        let rest = world_values(items.drop_last());
        let last = items.last();
        with_item::<String>(rest, last.1)
    }
}

fn list_worlds(worlds: &OrderedMap<String, String>) -> (r: OrderedSet<String>)
    ensures
        r.deep_view() == world_values(worlds.deep_view()),
{
    let entries: &Vec<(String, String)> = worlds.entries();
    assert(entries.deep_view() =~= worlds.deep_view());
    let mut values: OrderedSet<String> = OrderedSet::new();
    let ghost model = entries.deep_view();
    let mut i: usize = 0;
    while i < entries.len()
        invariant
            i <= entries.len(),
            model == entries.deep_view(),
            values.deep_view() == world_values(model.take(i as int)),
        decreases entries.len() - i,
    {
        proof {
            assert(model.take(i + 1).drop_last() =~= model.take(i as int));
            assert(model.take(i + 1).last() == entries@[i as int].deep_view());
        }
        values.insert(entries[i].1.replicate());
        i = i + 1;
    }
    assert(model.take(i as int) =~= model);
    values
}

/// How members were analyzed.
pub open spec fn mode_line(mode: Seq<char>) -> Seq<PieceModel> {
    seq![
        piece("  "@, Style::Plain),
        piece("Mode"@, Style::Muted),
        piece("  "@, Style::Plain),
        piece(safe(mode, "balanced"@), Style::Plain),
    ]
}

fn add_mode_line(
    out: &mut Vec<Piece>,
    mode: &str,
)
    ensures
        final(out).deep_view() == old(out).deep_view() + mode_line(mode@),
{
    let ghost before = out.deep_view();
    put(out, "  ", Style::Plain);
    put(out, "Mode", Style::Muted);
    put(out, "  ", Style::Plain);
    put(out, &safe_text(mode, "balanced"), Style::Plain);
    assert(out.deep_view() =~= before + mode_line(mode@));
}

/// Whether anything outside can use the packages.
pub open spec fn one_world(world: Seq<char>) -> Seq<PieceModel> {
    seq![
        piece(" ("@, Style::Plain),
        piece(safe(world, "unknown"@), Style::Plain),
        piece(")"@, Style::Plain),
    ]
}

fn add_one_world(
    out: &mut Vec<Piece>,
    world: &str,
)
    ensures
        final(out).deep_view() == old(out).deep_view() + one_world(world@),
{
    let ghost before = out.deep_view();
    put(out, " (", Style::Plain);
    put(out, &safe_text(world, "unknown"), Style::Plain);
    put(out, ")", Style::Plain);
    assert(out.deep_view() =~= before + one_world(world@));
}

/// A plural ending, where one is needed.
pub open spec fn plural(count: nat, ending: Seq<char>) -> Seq<char> {
    if count == 1 {
        ""@
    } else {
        ending
    }
}

/// What a report says of the project.
pub open spec fn project_section(project: ProjectReportModel, unicode: bool) -> Seq<PieceModel> {
    let worlds = world_values(project.worlds);
    mode_line(project.mode) + metric_separator(unicode) + seq![
        piece(
            digits(project.workspaces.len()) + " workspace"@ + plural(
                project.workspaces.len(),
                "s"@,
            ),
            Style::Plain,
        ),
    ] + (if worlds.len() == 1 {
        one_world(worlds[0])
    } else if worlds.len() > 0 {
        seq![piece(" (mixed world)"@, Style::Plain)]
    } else {
        Seq::empty()
    }) + metric_separator(unicode) + seq![
        piece(digits(project.target_profiles.len()) + " target profiles"@, Style::Plain),
    ] + (if project.detected_plugins.len() > 0 {
        metric_separator(unicode) + seq![
            piece(digits(project.detected_plugins.len()) + " plugins"@, Style::Plain),
        ]
    } else {
        Seq::empty()
    }) + seq![piece("\n"@, Style::Plain)]
}

fn add_project(out: &mut Vec<Piece>, project: &ProjectReport, unicode: bool)
    ensures
        final(out).deep_view() == old(out).deep_view() + project_section(
            project.deep_view(),
            unicode,
        ),
{
    let ghost before = out.deep_view();
    assert(project.workspaces.deep_view().len() == project.workspaces@.len());
    assert(project.target_profiles.deep_view().len() == project.target_profiles@.len());
    assert(project.detected_plugins.deep_view().len() == project.detected_plugins@.len());
    let workspaces: usize = project.workspaces.len();
    let ending: &str = if workspaces == 1 {
        ""
    } else {
        "s"
    };
    let worlds: OrderedSet<String> = list_worlds(&project.worlds);
    add_mode_line(out, &project.mode);
    add_metric_separator(out, unicode);
    put(out, &concat3(&decimal(workspaces as u64), " workspace", ending), Style::Plain);
    if worlds.len() == 1 {
        assert(worlds.deep_view()[0] == worlds.items()@[0]@);
        add_one_world(out, &worlds.items()[0]);
    } else if worlds.len() > 0 {
        put(out, " (mixed world)", Style::Plain);
    }
    add_metric_separator(out, unicode);
    put(
        out,
        &concat2(&decimal(project.target_profiles.len() as u64), " target profiles"),
        Style::Plain,
    );
    if project.detected_plugins.len() > 0 {
        add_metric_separator(out, unicode);
        put(
            out,
            &concat2(&decimal(project.detected_plugins.len() as u64), " plugins"),
            Style::Plain,
        );
    }
    put(out, "\n", Style::Plain);
    assert(out.deep_view() =~= before + project_section(project.deep_view(), unicode));
}

/// How a number is set off that should be zero.
pub open spec fn count_style(count: usize) -> Style {
    if count == 0 {
        Style::Muted
    } else {
        Style::Warning
    }
}

fn style_of_count(count: usize) -> (r: Style)
    ensures
        r == count_style(count),
{
    if count == 0 {
        Style::Muted
    } else {
        Style::Warning
    }
}

/// Whether one of some diagnostics is an error.
pub open spec fn has_error(items: Seq<AnalysisDiagnosticModel>) -> bool {
    exists|i: int| 0 <= i < items.len() && has_error_at(#[trigger] items[i])
}

/// Whether this holds of one.
pub open spec fn has_error_at(item: AnalysisDiagnosticModel) -> bool {
    item.severity == DiagnosticSeverity::Error
}

fn any_error(items: &Vec<AnalysisDiagnostic>) -> (r: bool)
    ensures
        r == has_error(items.deep_view()),
{
    let ghost model = items.deep_view();
    let mut i: usize = 0;
    while i < items.len()
        invariant
            i <= items.len(),
            model == items.deep_view(),
            forall|k: int| 0 <= k < i ==> !has_error_at(#[trigger] model[k]),
        decreases items.len() - i,
    {
        assert(model[i as int] == items@[i as int].deep_view());
        let item: &AnalysisDiagnostic = &items[i];
        if item.severity == DiagnosticSeverity::Error {
            return true;
        }
        i = i + 1;
    }
    false
}

/// How the number of diagnostics is set off.
pub open spec fn diagnostics_style(diagnostics: Seq<AnalysisDiagnosticModel>) -> Style {
    if diagnostics.len() == 0 {
        Style::Muted
    } else if has_error(diagnostics) {
        Style::Error
    } else {
        Style::Warning
    }
}

/// The numbers of a report.
pub open spec fn numbers_section(
    summary: ReportSummary,
    diagnostics: Seq<AnalysisDiagnosticModel>,
    unicode: bool,
) -> Seq<PieceModel> {
    let separator = metric_separator(unicode);
    seq![piece("  "@, Style::Plain)] + metric(
        summary.reachable_files,
        "reachable"@,
        Style::Success,
    ) + separator + metric(
        summary.unreachable_files,
        "unreachable"@,
        count_style(summary.unreachable_files),
    ) + separator + metric(
        summary.incomplete_files,
        "incomplete"@,
        count_style(summary.incomplete_files),
    ) + separator + metric(
        summary.diagnostics,
        "diagnostics"@,
        diagnostics_style(diagnostics),
    ) + seq![piece("\n"@, Style::Plain)]
}

fn add_numbers(
    out: &mut Vec<Piece>,
    summary: &ReportSummary,
    diagnostics: &Vec<AnalysisDiagnostic>,
    unicode: bool,
)
    ensures
        final(out).deep_view() == old(out).deep_view() + numbers_section(
            *summary,
            diagnostics.deep_view(),
            unicode,
        ),
{
    let ghost before = out.deep_view();
    assert(diagnostics.deep_view().len() == diagnostics@.len());
    let style: Style = if diagnostics.len() == 0 {
        Style::Muted
    } else if any_error(diagnostics) {
        Style::Error
    } else {
        Style::Warning
    };
    put(out, "  ", Style::Plain);
    add_metric(out, summary.reachable_files, "reachable", Style::Success);
    add_metric_separator(out, unicode);
    add_metric(
        out,
        summary.unreachable_files,
        "unreachable",
        style_of_count(summary.unreachable_files),
    );
    add_metric_separator(out, unicode);
    add_metric(
        out,
        summary.incomplete_files,
        "incomplete",
        style_of_count(summary.incomplete_files),
    );
    add_metric_separator(out, unicode);
    add_metric(out, summary.diagnostics, "diagnostics", style);
    put(out, "\n", Style::Plain);
    assert(out.deep_view() =~= before + numbers_section(
        *summary,
        diagnostics.deep_view(),
        unicode,
    ));
}

/// What a report says of the cache, in words.
pub open spec fn cache_text(cache: CacheReportModel) -> Seq<char> {
    "  "@ + digits(cache.hits as nat) + " hit"@ + plural(cache.hits as nat, "s"@) + (" "@ + digits(
        cache.misses as nat,
    ) + " miss"@ + plural(cache.misses as nat, "es"@))
}

fn text_of_cache(cache: &CacheReport) -> (r: String)
    ensures
        r@ == cache_text(cache.deep_view()),
{
    let hits: &str = if cache.hits == 1 {
        ""
    } else {
        "s"
    };
    let misses: &str = if cache.misses == 1 {
        ""
    } else {
        "es"
    };
    let missed: String = concat4(" ", &decimal(cache.misses as u64), " miss", misses);
    concat5("  ", &decimal(cache.hits as u64), " hit", hits, &missed)
}

/// What a report says of the cache.
pub open spec fn cache_section(cache: CacheReportModel) -> Seq<PieceModel> {
    seq![
        piece("  "@, Style::Plain),
        piece("Cache"@, Style::Muted),
        piece(cache_text(cache), Style::Plain),
    ] + (if cache.generation_written {
        seq![piece("  updated"@, Style::Plain)]
    } else {
        Seq::empty()
    }) + seq![piece("\n"@, Style::Plain)]
}

fn add_cache(out: &mut Vec<Piece>, cache: &CacheReport)
    ensures
        final(out).deep_view() == old(out).deep_view() + cache_section(cache.deep_view()),
{
    let ghost before = out.deep_view();
    put(out, "  ", Style::Plain);
    put(out, "Cache", Style::Muted);
    put(out, &text_of_cache(cache), Style::Plain);
    if cache.generation_written {
        put(out, "  updated", Style::Plain);
    }
    put(out, "\n", Style::Plain);
    assert(out.deep_view() =~= before + cache_section(cache.deep_view()));
}

/// The head of a report.
pub open spec fn header(report: ScanReportModel, unicode: bool) -> Seq<PieceModel> {
    title() + entries_section(report.entries, unicode) + (match report.project {
        Some(project) => project_section(project, unicode),
        None => Seq::empty(),
    }) + numbers_section(report.summary, report.diagnostics, unicode) + (match report.cache {
        Some(cache) => cache_section(cache),
        None => Seq::empty(),
    })
}

fn render_header(out: &mut Vec<Piece>, report: &ScanReport, unicode: bool)
    ensures
        final(out).deep_view() == old(out).deep_view() + header(report.deep_view(), unicode),
{
    let ghost before = out.deep_view();
    add_title(out);
    add_entries(out, &report.entries, unicode);
    match &report.project {
        Some(project) => {
            add_project(out, project, unicode);
        },
        None => {},
    }
    add_numbers(out, &report.summary, &report.diagnostics, unicode);
    match &report.cache {
        Some(cache) => {
            add_cache(out, cache);
        },
        None => {},
    }
    assert(out.deep_view() =~= before + header(report.deep_view(), unicode));
}

/// How firmly a finding stands, in one word.
pub open spec fn confidence_word(value: Confidence) -> Seq<char> {
    match value {
        Confidence::High => "HIGH"@,
        Confidence::Medium => "MEDIUM"@,
        Confidence::Low => "LOW"@,
        Confidence::Incomplete => "INCOMPLETE"@,
    }
}

/// How firmly a finding stands, in one word.
#[must_use]
pub fn confidence_label(value: Confidence) -> (r: &'static str)
    ensures
        r@ == confidence_word(value),
{
    match value {
        Confidence::High => "HIGH",
        Confidence::Medium => "MEDIUM",
        Confidence::Low => "LOW",
        Confidence::Incomplete => "INCOMPLETE",
    }
}

/// Whether a finding can be applied, in words.
pub open spec fn eligibility_words(value: FixEligibility) -> Seq<char> {
    match value {
        FixEligibility::NotAvailable => "not available"@,
        FixEligibility::PreviewOnly => "preview only"@,
        FixEligibility::Eligible => "eligible"@,
        FixEligibility::Blocked => "blocked"@,
    }
}

/// Whether a finding can be applied, in words.
#[must_use]
pub fn fix_eligibility_label(value: FixEligibility) -> (r: &'static str)
    ensures
        r@ == eligibility_words(value),
{
    match value {
        FixEligibility::NotAvailable => "not available",
        FixEligibility::PreviewOnly => "preview only",
        FixEligibility::Eligible => "eligible",
        FixEligibility::Blocked => "blocked",
    }
}

/// What a finding is, and where.
pub open spec fn finding_head(finding: FindingModel, unicode: bool) -> Seq<PieceModel> {
    seq![
        piece(glyph(Glyph::FindingMark, unicode), Style::Warning),
        piece(" "@, Style::Plain),
        piece(safe(finding.issue_id, "UNKNOWN"@), Style::Warning),
        piece("  "@, Style::Plain),
        piece(confidence_word(finding.confidence), Style::Heading),
        piece(" confidence\n"@, Style::Plain),
        piece("  "@, Style::Plain),
        piece("Scope"@, Style::Muted),
        piece("  "@, Style::Plain),
        piece(safe(finding.workspace, "."@), Style::Plain),
        piece(glyph(Glyph::ScopeSeparator, unicode), Style::Plain),
        piece(safe(joined(finding.target_profiles, ", "@), "default"@), Style::Plain),
        piece(glyph(Glyph::FixSeparator, unicode), Style::Plain),
        piece(eligibility_words(finding.fix_eligibility), Style::Muted),
        piece("\n"@, Style::Plain),
    ]
}

fn add_finding_head(
    out: &mut Vec<Piece>,
    finding: &Finding,
    unicode: bool,
)
    ensures
        final(out).deep_view() == old(out).deep_view() + finding_head(finding.deep_view(), unicode),
{
    let ghost before = out.deep_view();
    put(out, glyph_text(Glyph::FindingMark, unicode), Style::Warning);
    put(out, " ", Style::Plain);
    put(out, &safe_text(finding.issue_id, "UNKNOWN"), Style::Warning);
    put(out, "  ", Style::Plain);
    put(out, confidence_label(finding.confidence), Style::Heading);
    put(out, " confidence\n", Style::Plain);
    put(out, "  ", Style::Plain);
    put(out, "Scope", Style::Muted);
    put(out, "  ", Style::Plain);
    put(out, &safe_text(&finding.workspace, "."), Style::Plain);
    put(out, glyph_text(Glyph::ScopeSeparator, unicode), Style::Plain);
    put(out, &safe_text(&join(&finding.target_profiles, ", "), "default"), Style::Plain);
    put(out, glyph_text(Glyph::FixSeparator, unicode), Style::Plain);
    put(out, fix_eligibility_label(finding.fix_eligibility), Style::Muted);
    put(out, "\n", Style::Plain);
    assert(out.deep_view() =~= before + finding_head(finding.deep_view(), unicode));
}

/// What a finding says.
pub open spec fn summary_line(summary: Seq<char>) -> Seq<PieceModel> {
    seq![
        piece("  "@, Style::Plain),
        piece(safe(summary, "<no summary>"@), Style::Plain),
        piece("\n"@, Style::Plain),
    ]
}

fn add_summary_line(
    out: &mut Vec<Piece>,
    summary: &str,
)
    ensures
        final(out).deep_view() == old(out).deep_view() + summary_line(summary@),
{
    let ghost before = out.deep_view();
    put(out, "  ", Style::Plain);
    put(out, &safe_text(summary, "<no summary>"), Style::Plain);
    put(out, "\n", Style::Plain);
    assert(out.deep_view() =~= before + summary_line(summary@));
}

/// A text with a label.
pub open spec fn labeled_line(label: Seq<char>, text: Seq<char>) -> Seq<PieceModel> {
    seq![
        piece("  "@, Style::Plain),
        piece(label, Style::Muted),
        piece("  "@, Style::Plain),
        piece(safe(text, "<unknown>"@), Style::Plain),
        piece("\n"@, Style::Plain),
    ]
}

fn add_labeled_line(
    out: &mut Vec<Piece>,
    label: &str,
    text: &str,
)
    ensures
        final(out).deep_view() == old(out).deep_view() + labeled_line(label@, text@),
{
    let ghost before = out.deep_view();
    put(out, "  ", Style::Plain);
    put(out, label, Style::Muted);
    put(out, "  ", Style::Plain);
    put(out, &safe_text(text, "<unknown>"), Style::Plain);
    put(out, "\n", Style::Plain);
    assert(out.deep_view() =~= before + labeled_line(label@, text@));
}

/// The label of a list.
pub open spec fn list_label(label: Seq<char>) -> Seq<PieceModel> {
    seq![
        piece("  "@, Style::Plain),
        piece(label, Style::Muted),
        piece("\n"@, Style::Plain),
    ]
}

fn add_list_label(
    out: &mut Vec<Piece>,
    label: &str,
)
    ensures
        final(out).deep_view() == old(out).deep_view() + list_label(label@),
{
    let ghost before = out.deep_view();
    put(out, "  ", Style::Plain);
    put(out, label, Style::Muted);
    put(out, "\n", Style::Plain);
    assert(out.deep_view() =~= before + list_label(label@));
}

/// That a list is empty.
pub open spec fn empty_list(message: Seq<char>, unicode: bool) -> Seq<PieceModel> {
    seq![
        piece("    "@, Style::Plain),
        piece(glyph(Glyph::EmptyMark, unicode), Style::Muted),
        piece(" "@, Style::Plain),
        piece(message, Style::Muted),
        piece("\n"@, Style::Plain),
    ]
}

fn add_empty_list(
    out: &mut Vec<Piece>,
    message: &str,
    unicode: bool,
)
    ensures
        final(out).deep_view() == old(out).deep_view() + empty_list(message@, unicode),
{
    let ghost before = out.deep_view();
    put(out, "    ", Style::Plain);
    put(out, glyph_text(Glyph::EmptyMark, unicode), Style::Muted);
    put(out, " ", Style::Plain);
    put(out, message, Style::Muted);
    put(out, "\n", Style::Plain);
    assert(out.deep_view() =~= before + empty_list(message@, unicode));
}

/// A list of texts.
pub open spec fn text_list(
    label: Seq<char>,
    items: Seq<Seq<char>>,
    message: Seq<char>,
    unicode: bool,
) -> Seq<PieceModel> {
    list_label(label) + (if items.len() == 0 {
        empty_list(message, unicode)
    } else {
        listed_items(items, items.len(), items.len(), true, unicode)
    })
}

fn add_text_list(
    out: &mut Vec<Piece>,
    label: &str,
    items: &Vec<String>,
    message: &str,
    unicode: bool,
)
    ensures
        final(out).deep_view() == old(out).deep_view() + text_list(
            label@,
            items.deep_view(),
            message@,
            unicode,
        ),
{
    let ghost before = out.deep_view();
    assert(items.deep_view().len() == items@.len());
    add_list_label(out, label);
    if items.len() == 0 {
        add_empty_list(out, message, unicode);
    } else {
        add_listed_items(out, items, items.len(), true, unicode);
    }
    assert(out.deep_view() =~= before + text_list(
        label@,
        items.deep_view(),
        message@,
        unicode,
    ));
}

/// A finding.
pub open spec fn finding_section(finding: FindingModel, unicode: bool) -> Seq<PieceModel> {
    finding_head(finding, unicode) + (if finding.summary.len() > 0 {
        summary_line(finding.summary)
    } else {
        Seq::empty()
    }) + (match finding.symbol {
        Some(symbol) => labeled_line("Symbol"@, symbol),
        None => Seq::empty(),
    }) + (match finding.dependency {
        Some(dependency) => labeled_line("Dependency"@, dependency),
        None => Seq::empty(),
    }) + text_list("Paths"@, finding.paths, "No paths reported"@, unicode) + text_list(
        "Evidence"@,
        finding.evidence,
        "No evidence provided"@,
        unicode,
    ) + (if finding.blockers.len() > 0 {
        text_list("Blockers"@, finding.blockers, "No blockers"@, unicode)
    } else {
        Seq::empty()
    }) + (if finding.suggested_actions.len() > 0 {
        text_list("Next"@, finding.suggested_actions, "No action suggested"@, unicode)
    } else {
        Seq::empty()
    })
}

fn render_finding(out: &mut Vec<Piece>, finding: &Finding, unicode: bool)
    ensures
        final(out).deep_view() == old(out).deep_view() + finding_section(
            finding.deep_view(),
            unicode,
        ),
{
    let ghost before = out.deep_view();
    let ghost about = finding.deep_view();
    assert(finding.blockers.deep_view().len() == finding.blockers@.len());
    assert(finding.suggested_actions.deep_view().len() == finding.suggested_actions@.len());
    let ghost mut done = finding_head(about, unicode);
    add_finding_head(out, finding, unicode);
    let ghost summary = if about.summary.len() > 0 {
        summary_line(about.summary)
    } else {
        Seq::empty()
    };
    if finding.summary.as_str().unicode_len() > 0 {
        add_summary_line(out, &finding.summary);
    }
    proof {
        extends(before, done, summary, out.deep_view());
        done = done + summary;
    }
    let ghost symbol = match about.symbol {
        Some(symbol) => labeled_line("Symbol"@, symbol),
        None => Seq::empty(),
    };
    match &finding.symbol {
        Some(symbol) => {
            add_labeled_line(out, "Symbol", symbol);
        },
        None => {},
    }
    proof {
        extends(before, done, symbol, out.deep_view());
        done = done + symbol;
    }
    let ghost dependency = match about.dependency {
        Some(dependency) => labeled_line("Dependency"@, dependency),
        None => Seq::empty(),
    };
    match &finding.dependency {
        Some(dependency) => {
            add_labeled_line(out, "Dependency", dependency);
        },
        None => {},
    }
    proof {
        extends(before, done, dependency, out.deep_view());
        done = done + dependency;
    }
    add_text_list(out, "Paths", &finding.paths, "No paths reported", unicode);
    proof {
        let paths = text_list("Paths"@, about.paths, "No paths reported"@, unicode);
        extends(before, done, paths, out.deep_view());
        done = done + paths;
    }
    add_text_list(out, "Evidence", &finding.evidence, "No evidence provided", unicode);
    proof {
        let evidence = text_list("Evidence"@, about.evidence, "No evidence provided"@, unicode);
        extends(before, done, evidence, out.deep_view());
        done = done + evidence;
    }
    let ghost blockers = if about.blockers.len() > 0 {
        text_list("Blockers"@, about.blockers, "No blockers"@, unicode)
    } else {
        Seq::empty()
    };
    if finding.blockers.len() > 0 {
        add_text_list(out, "Blockers", &finding.blockers, "No blockers", unicode);
    }
    proof {
        extends(before, done, blockers, out.deep_view());
        done = done + blockers;
    }
    let ghost actions = if about.suggested_actions.len() > 0 {
        text_list("Next"@, about.suggested_actions, "No action suggested"@, unicode)
    } else {
        Seq::empty()
    };
    if finding.suggested_actions.len() > 0 {
        add_text_list(out, "Next", &finding.suggested_actions, "No action suggested", unicode);
    }
    proof {
        extends(before, done, actions, out.deep_view());
        done = done + actions;
    }
}

proof fn extends(
    before: Seq<PieceModel>,
    done: Seq<PieceModel>,
    more: Seq<PieceModel>,
    now: Seq<PieceModel>,
)
    requires
        now == before + done + more || (more.len() == 0 && now == before + done),
    ensures
        now == before + (done + more),
{
    assert(now =~= before + (done + more));
}

/// Findings, with empty lines between them.
pub open spec fn all_findings(items: Seq<FindingModel>, unicode: bool) -> Seq<PieceModel>
    decreases items.len(),
{
    if items.len() == 0 {
        Seq::empty()
    } else {
        let rest = all_findings(items.drop_last(), unicode);
        let last = items.last();
        (if items.len() > 1 {
            rest + seq![piece("\n"@, Style::Plain)]
        } else {
            rest
        }) + finding_section(last, unicode)
    }
}

/// The findings of a report.
pub open spec fn findings_section(findings: Seq<FindingModel>, unicode: bool) -> Seq<PieceModel> {
    section_heading("FINDINGS"@) + (if findings.len() == 0 {
        empty_state("None reported"@, unicode)
    } else {
        all_findings(findings, unicode)
    })
}

fn render_findings(out: &mut Vec<Piece>, findings: &Vec<Finding>, unicode: bool)
    ensures
        final(out).deep_view() == old(out).deep_view() + findings_section(
            findings.deep_view(),
            unicode,
        ),
{
    let ghost before = out.deep_view();
    assert(findings.deep_view().len() == findings@.len());
    add_section_heading(out, "FINDINGS");
    if findings.len() == 0 {
        add_empty_state(out, "None reported", unicode);
        assert(out.deep_view() =~= before + findings_section(findings.deep_view(), unicode));
        return;
    }
    let ghost start = out.deep_view();
    let ghost model = findings.deep_view();
    let mut i: usize = 0;
    while i < findings.len()
        invariant
            i <= findings.len(),
            model == findings.deep_view(),
            out.deep_view() =~= start + all_findings(model.take(i as int), unicode),
        decreases findings.len() - i,
    {
        proof {
            assert(model.take(i + 1).drop_last() =~= model.take(i as int));
            assert(model.take(i + 1).last() == findings@[i as int].deep_view());
        }
        if i > 0 {
            put(out, "\n", Style::Plain);
        }
        render_finding(out, &findings[i], unicode);
        i = i + 1;
    }
    assert(model.take(i as int) =~= model);
    assert(out.deep_view() =~= before + findings_section(findings.deep_view(), unicode));
}

/// Where a diagnostic is in its file.
pub open spec fn span_text(span: Option<SourceSpan>) -> Seq<char> {
    match span {
        Some(span) => ":"@ + digits(span.start as nat) + "-"@ + digits(span.end as nat),
        None => ":?-?"@,
    }
}

fn text_of_span(span: &Option<SourceSpan>) -> (r: String)
    ensures
        r@ == span_text(span.deep_view()),
{
    match span {
        Some(span) => concat4(
            ":",
            &decimal(span.start as u64),
            "-",
            &decimal(span.end as u64),
        ),
        None => ":?-?".to_string(),
    }
}

/// How a diagnostic is set off.
pub open spec fn severity_style(severity: DiagnosticSeverity) -> Style {
    match severity {
        DiagnosticSeverity::Error => Style::Error,
        DiagnosticSeverity::Warning => Style::Warning,
    }
}

fn style_of_severity(severity: DiagnosticSeverity) -> (r: Style)
    ensures
        r == severity_style(severity),
{
    match severity {
        DiagnosticSeverity::Error => Style::Error,
        DiagnosticSeverity::Warning => Style::Warning,
    }
}

/// The mark of a diagnostic.
pub open spec fn severity_mark(severity: DiagnosticSeverity) -> Glyph {
    match severity {
        DiagnosticSeverity::Error => Glyph::ErrorMark,
        DiagnosticSeverity::Warning => Glyph::WarningMark,
    }
}

fn mark_of_severity(severity: DiagnosticSeverity) -> (r: Glyph)
    ensures
        r == severity_mark(severity),
{
    match severity {
        DiagnosticSeverity::Error => Glyph::ErrorMark,
        DiagnosticSeverity::Warning => Glyph::WarningMark,
    }
}

/// How serious a diagnostic is, in one word.
pub open spec fn severity_word(value: DiagnosticSeverity) -> Seq<char> {
    match value {
        DiagnosticSeverity::Error => "ERROR"@,
        DiagnosticSeverity::Warning => "WARNING"@,
    }
}

/// How serious a diagnostic is, in one word.
#[must_use]
fn severity_label(value: DiagnosticSeverity) -> (r: &'static str)
    ensures
        r@ == severity_word(value),
{
    match value {
        DiagnosticSeverity::Error => "ERROR",
        DiagnosticSeverity::Warning => "WARNING",
    }
}

/// A diagnostic.
pub open spec fn diagnostic_section(
    diagnostic: AnalysisDiagnosticModel,
    unicode: bool,
) -> Seq<PieceModel> {
    seq![
        piece(
            glyph(severity_mark(diagnostic.severity), unicode),
            severity_style(diagnostic.severity),
        ),
        piece(" "@, Style::Plain),
        piece(severity_word(diagnostic.severity), severity_style(diagnostic.severity)),
        piece("  "@, Style::Plain),
        piece(safe(diagnostic.path, "<unknown>"@), Style::Plain),
        piece(span_text(diagnostic.span), Style::Plain),
        piece("  "@, Style::Plain),
        piece(safe(diagnostic.code, "UNKNOWN"@), Style::Heading),
        piece("\n"@, Style::Plain),
        piece("  "@, Style::Plain),
        piece(safe(diagnostic.message, "<no message>"@), Style::Plain),
        piece("\n"@, Style::Plain),
    ]
}

fn render_diagnostic(
    out: &mut Vec<Piece>,
    diagnostic: &AnalysisDiagnostic,
    unicode: bool,
)
    ensures
        final(out).deep_view() == old(out).deep_view() + diagnostic_section(diagnostic.deep_view(), unicode),
{
    let ghost before = out.deep_view();
    put(
        out,
        glyph_text(mark_of_severity(diagnostic.severity), unicode),
        style_of_severity(diagnostic.severity),
    );
    put(out, " ", Style::Plain);
    put(out, severity_label(diagnostic.severity), style_of_severity(diagnostic.severity));
    put(out, "  ", Style::Plain);
    put(out, &safe_text(&diagnostic.path, "<unknown>"), Style::Plain);
    put(out, &text_of_span(&diagnostic.span), Style::Plain);
    put(out, "  ", Style::Plain);
    put(out, &safe_text(&diagnostic.code, "UNKNOWN"), Style::Heading);
    put(out, "\n", Style::Plain);
    put(out, "  ", Style::Plain);
    put(out, &safe_text(&diagnostic.message, "<no message>"), Style::Plain);
    put(out, "\n", Style::Plain);
    assert(out.deep_view() =~= before + diagnostic_section(diagnostic.deep_view(), unicode));
}

/// Diagnostics, with empty lines between them.
pub open spec fn all_diagnostics(
    items: Seq<AnalysisDiagnosticModel>,
    unicode: bool,
) -> Seq<PieceModel>
    decreases items.len(),
{
    if items.len() == 0 {
        Seq::empty()
    } else {
        let rest = all_diagnostics(items.drop_last(), unicode);
        let last = items.last();
        (if items.len() > 1 {
            rest + seq![piece("\n"@, Style::Plain)]
        } else {
            rest
        }) + diagnostic_section(last, unicode)
    }
}

/// The diagnostics of a report.
pub open spec fn diagnostics_section(
    diagnostics: Seq<AnalysisDiagnosticModel>,
    unicode: bool,
) -> Seq<PieceModel> {
    section_heading("DIAGNOSTICS"@) + (if diagnostics.len() == 0 {
        empty_state("None reported"@, unicode)
    } else {
        all_diagnostics(diagnostics, unicode)
    })
}

fn render_diagnostics(out: &mut Vec<Piece>, diagnostics: &Vec<AnalysisDiagnostic>, unicode: bool)
    ensures
        final(out).deep_view() == old(out).deep_view() + diagnostics_section(
            diagnostics.deep_view(),
            unicode,
        ),
{
    let ghost before = out.deep_view();
    assert(diagnostics.deep_view().len() == diagnostics@.len());
    add_section_heading(out, "DIAGNOSTICS");
    if diagnostics.len() == 0 {
        add_empty_state(out, "None reported", unicode);
        assert(out.deep_view() =~= before + diagnostics_section(
            diagnostics.deep_view(),
            unicode,
        ));
        return;
    }
    let ghost start = out.deep_view();
    let ghost model = diagnostics.deep_view();
    let mut i: usize = 0;
    while i < diagnostics.len()
        invariant
            i <= diagnostics.len(),
            model == diagnostics.deep_view(),
            out.deep_view() =~= start + all_diagnostics(model.take(i as int), unicode),
        decreases diagnostics.len() - i,
    {
        proof {
            assert(model.take(i + 1).drop_last() =~= model.take(i as int));
            assert(model.take(i + 1).last() == diagnostics@[i as int].deep_view());
        }
        if i > 0 {
            put(out, "\n", Style::Plain);
        }
        render_diagnostic(out, &diagnostics[i], unicode);
        i = i + 1;
    }
    assert(model.take(i as int) =~= model);
    assert(out.deep_view() =~= before + diagnostics_section(diagnostics.deep_view(), unicode));
}

/// That the analysis is complete.
pub open spec fn complete_footer(unicode: bool) -> Seq<PieceModel> {
    seq![
        piece("\n"@, Style::Plain),
        piece(glyph(Glyph::SuccessMark, unicode), Style::Success),
        piece(" "@, Style::Plain),
        piece("COMPLETE"@, Style::Success),
        piece("  Reachability analysis finished.\n"@, Style::Plain),
    ]
}

fn add_complete_footer(
    out: &mut Vec<Piece>,
    unicode: bool,
)
    ensures
        final(out).deep_view() == old(out).deep_view() + complete_footer(unicode),
{
    let ghost before = out.deep_view();
    put(out, "\n", Style::Plain);
    put(out, glyph_text(Glyph::SuccessMark, unicode), Style::Success);
    put(out, " ", Style::Plain);
    put(out, "COMPLETE", Style::Success);
    put(out, "  Reachability analysis finished.\n", Style::Plain);
    assert(out.deep_view() =~= before + complete_footer(unicode));
}

/// That the analysis is not complete.
pub open spec fn incomplete_footer(unicode: bool) -> Seq<PieceModel> {
    seq![
        piece("\n"@, Style::Plain),
        piece(glyph(Glyph::WarningMark, unicode), Style::Warning),
        piece(" "@, Style::Plain),
        piece("INCOMPLETE"@, Style::Warning),
        piece("  Resolve coverage diagnostics, then scan again.\n"@, Style::Plain),
    ]
}

fn add_incomplete_footer(
    out: &mut Vec<Piece>,
    unicode: bool,
)
    ensures
        final(out).deep_view() == old(out).deep_view() + incomplete_footer(unicode),
{
    let ghost before = out.deep_view();
    put(out, "\n", Style::Plain);
    put(out, glyph_text(Glyph::WarningMark, unicode), Style::Warning);
    put(out, " ", Style::Plain);
    put(out, "INCOMPLETE", Style::Warning);
    put(out, "  Resolve coverage diagnostics, then scan again.\n", Style::Plain);
    assert(out.deep_view() =~= before + incomplete_footer(unicode));
}

/// How to get a report that machines read.
pub open spec fn json_hint(unicode: bool) -> Seq<PieceModel> {
    seq![
        piece("  "@, Style::Plain),
        piece(glyph(Glyph::HintMark, unicode), Style::Muted),
        piece(" JSON: run again with --format json for machine-readable output.\n"@, Style::Plain),
    ]
}

fn add_json_hint(
    out: &mut Vec<Piece>,
    unicode: bool,
)
    ensures
        final(out).deep_view() == old(out).deep_view() + json_hint(unicode),
{
    let ghost before = out.deep_view();
    put(out, "  ", Style::Plain);
    put(out, glyph_text(Glyph::HintMark, unicode), Style::Muted);
    put(out, " JSON: run again with --format json for machine-readable output.\n", Style::Plain);
    assert(out.deep_view() =~= before + json_hint(unicode));
}

/// The foot of a report.
pub open spec fn footer(status: AnalysisStatus, unicode: bool) -> Seq<PieceModel> {
    (match status {
        AnalysisStatus::Complete => complete_footer(unicode),
        AnalysisStatus::Incomplete => incomplete_footer(unicode),
    }) + json_hint(unicode)
}

fn render_footer(out: &mut Vec<Piece>, status: AnalysisStatus, unicode: bool)
    ensures
        final(out).deep_view() == old(out).deep_view() + footer(status, unicode),
{
    let ghost before = out.deep_view();
    match status {
        AnalysisStatus::Complete => {
            add_complete_footer(out, unicode);
        },
        AnalysisStatus::Incomplete => {
            add_incomplete_footer(out, unicode);
        },
    }
    add_json_hint(out, unicode);
    assert(out.deep_view() =~= before + footer(status, unicode));
}

/// The pieces of a report.
pub open spec fn report_pieces(report: ScanReportModel, unicode: bool) -> Seq<PieceModel> {
    header(report, unicode) + findings_section(report.findings, unicode) + diagnostics_section(
        report.diagnostics,
        unicode,
    ) + footer(report.status, unicode)
}

/// A report as people read it.
#[must_use]
pub fn render_human(report: &ScanReport, options: RenderOptions) -> (r: String)
    ensures
        r@ == drawn(report_pieces(report.deep_view(), options.unicode), options.color),
{
    let mut pieces: Vec<Piece> = Vec::new();
    render_header(&mut pieces, report, options.unicode);
    render_findings(&mut pieces, &report.findings, options.unicode);
    render_diagnostics(&mut pieces, &report.diagnostics, options.unicode);
    render_footer(&mut pieces, report.status, options.unicode);
    assert(pieces.deep_view() =~= report_pieces(report.deep_view(), options.unicode));
    draw(&pieces, options.color)
}

/// How many line breaks there are.
pub open spec fn line_breaks(bytes: Seq<u8>) -> nat
    decreases bytes.len(),
{
    if bytes.len() == 0 {
        0
    } else {
        line_breaks(bytes.drop_last()) + (if bytes.last() == 10u8 {
            1nat
        } else {
            0nat
        })
    }
}

/// What follows the last line break.
pub open spec fn last_line(bytes: Seq<u8>) -> Seq<u8>
    decreases bytes.len(),
{
    if bytes.len() == 0 || bytes.last() == 10u8 {
        Seq::empty()
    } else {
        last_line(bytes.drop_last()).push(bytes.last())
    }
}

proof fn line_breaks_are_bytes(bytes: Seq<u8>)
    ensures
        line_breaks(bytes) <= bytes.len(),
        last_line(bytes).len() <= bytes.len(),
    decreases bytes.len(),
{
    if bytes.len() > 0 {
        line_breaks_are_bytes(bytes.drop_last());
    }
}

/// How many characters bytes are, or how many bytes where they are no text.
pub open spec fn char_count(bytes: Seq<u8>) -> nat {
    if valid_utf8(bytes) {
        decode_utf8(bytes).len()
    } else {
        bytes.len()
    }
}

/// The text that bytes are, if they are one: `std::str::from_utf8`, which succeeds where the
/// bytes are valid UTF-8.
#[verifier::external_body]
fn text_of_bytes(bytes: &[u8]) -> (r: Option<String>)
    ensures
        match r {
            Some(text) => valid_utf8(bytes@) && text@ == decode_utf8(bytes@),
            None => !valid_utf8(bytes@),
        },
{
    std::str::from_utf8(bytes).ok().map(str::to_owned)
}

/// A number, or a limit where that is less.
pub open spec fn no_more_than(n: nat, limit: nat) -> nat {
    if n > limit {
        limit
    } else {
        n
    }
}

/// The line and the column of a place in a file, counted from one; zeros where the file has no
/// content.
pub open spec fn position_of(bytes: Seq<u8>, offset: u32) -> (nat, nat) {
    if bytes.len() == 0 {
        (0, 0)
    } else {
        let before = bytes.take(
            if offset < bytes.len() {
                offset as int
            } else {
                bytes.len() as int
            },
        );
        (line_breaks(before) + 1, no_more_than(char_count(last_line(before)) + 1, u32::MAX as nat))
    }
}

/// The line and the column of a place in a file, counted from one; zeros where the file has no
/// content.
#[must_use]
pub fn source_position(bytes: &Vec<u8>, offset: u32) -> (r: (u64, u64))
    ensures
        r.0 == position_of(bytes@, offset).0,
        r.1 == position_of(bytes@, offset).1,
{
    if bytes.len() == 0 {
        return (0, 0);
    }
    let end: usize = if (offset as usize) < bytes.len() {
        offset as usize
    } else {
        bytes.len()
    };
    let mut breaks: u64 = 0;
    let mut line: Vec<u8> = Vec::new();
    let mut i: usize = 0;
    assert(bytes@.take(0) =~= Seq::empty());
    while i < end
        invariant
            i <= end <= bytes.len(),
            end <= u32::MAX,
            breaks == line_breaks(bytes@.take(i as int)),
            breaks <= i,
            line@ =~= last_line(bytes@.take(i as int)),
        decreases end - i,
    {
        assert(bytes@.take(i + 1).drop_last() =~= bytes@.take(i as int));
        assert(bytes@.take(i + 1).last() == bytes@[i as int]);
        if bytes[i] == 10u8 {
            breaks = breaks + 1;
            line = Vec::new();
        } else {
            line.push(bytes[i]);
        }
        i = i + 1;
    }
    proof {
        line_breaks_are_bytes(bytes@.take(end as int));
    }
    let count: usize = match text_of_bytes(line.as_slice()) {
        Some(text) => {
            proof {
                decoded_is_no_longer(line@);
            }
            text.as_str().unicode_len()
        },
        None => line.len(),
    };
    let column: u64 = if count >= 4_294_967_295 {
        4_294_967_295
    } else {
        count as u64 + 1
    };
    (breaks + 1, column)
}

proof fn decoded_is_no_longer(bytes: Seq<u8>)
    requires
        valid_utf8(bytes),
    ensures
        decode_utf8(bytes).len() <= bytes.len(),
    decreases bytes.len(),
{
    if bytes.len() > 0 {
        decoded_is_no_longer(vstd::utf8::pop_first_scalar(bytes));
    }
}

/// What a finding is about, in one word.
pub open spec fn finding_name(finding: FindingModel) -> Seq<char> {
    match finding.symbol {
        Some(symbol) => symbol,
        None => match finding.dependency {
            Some(dependency) => dependency,
            None => finding.issue_type,
        },
    }
}

fn name_of_finding(finding: &Finding) -> (r: String)
    ensures
        r@ == finding_name(finding.deep_view()),
{
    match &finding.symbol {
        Some(symbol) => symbol.replicate(),
        None => match &finding.dependency {
            Some(dependency) => dependency.replicate(),
            None => finding.issue_type.to_string(),
        },
    }
}

/// The place of a finding that is about one file, as it is written.
pub open spec fn position_text(
    finding: FindingModel,
    path: Seq<char>,
    sources: Seq<(Seq<char>, Seq<u8>)>,
) -> Seq<char> {
    match finding.span {
        Some(span) => if finding.paths.len() == 1 {
            let position = position_of(
                match lookup(sources, path) {
                    Some(bytes) => bytes,
                    None => Seq::empty(),
                },
                span.start,
            );
            ":"@ + digits(position.0) + ":"@ + digits(position.1)
        } else {
            ""@
        },
        None => ""@,
    }
}

fn text_of_position(
    finding: &Finding,
    path: &String,
    sources: &OrderedMap<String, Vec<u8>>,
) -> (r: String)
    ensures
        r@ == position_text(finding.deep_view(), path@, sources.deep_view()),
{
    assert(finding.paths.deep_view().len() == finding.paths@.len());
    match finding.span {
        Some(span) => {
            if finding.paths.len() == 1 {
                let position: (u64, u64) = match sources.get(path) {
                    Some(bytes) => {
                        assert(bytes.deep_view() =~= bytes@);
                        source_position(bytes, span.start)
                    },
                    None => (0, 0),
                };
                concat4(":", &decimal(position.0), ":", &decimal(position.1))
            } else {
                "".to_string()
            }
        },
        None => "".to_string(),
    }
}

/// A line for a file of a finding.
pub open spec fn compact_line(
    finding: FindingModel,
    path: Seq<char>,
    sources: Seq<(Seq<char>, Seq<u8>)>,
) -> Seq<char> {
    path + position_text(finding, path, sources) + " - "@ + finding.issue_id + " '"@ + finding_name(
        finding,
    ) + "' is unused\n"@
}

/// A text with a line for each file of a finding.
pub open spec fn compact_lines(
    items: Seq<Seq<char>>,
    start: Seq<char>,
    finding: FindingModel,
    sources: Seq<(Seq<char>, Seq<u8>)>,
) -> Seq<char>
    decreases items.len(),
{
    if items.len() == 0 {
        start
    } else {
        let rest = compact_lines(items.drop_last(), start, finding, sources);
        let last = items.last();
        rest + compact_line(finding, last, sources)
    }
}

/// A line for each file of each finding.
pub open spec fn compact_report(
    items: Seq<FindingModel>,
    sources: Seq<(Seq<char>, Seq<u8>)>,
) -> Seq<char>
    decreases items.len(),
{
    if items.len() == 0 {
        Seq::empty()
    } else {
        let rest = compact_report(items.drop_last(), sources);
        let last = items.last();
        compact_lines(last.paths, rest, last, sources)
    }
}

fn add_compact_lines(
    out: &mut String,
    finding: &Finding,
    sources: &OrderedMap<String, Vec<u8>>,
)
    ensures
        final(out)@ == compact_lines(
            finding.deep_view().paths,
            old(out)@,
            finding.deep_view(),
            sources.deep_view(),
        ),
{
    let ghost start = out@;
    let ghost about = finding.deep_view();
    let ghost read = sources.deep_view();
    let name: String = name_of_finding(finding);
    let paths: &Vec<String> = &finding.paths;
    let ghost model = paths.deep_view();
    let mut i: usize = 0;
    while i < paths.len()
        invariant
            i <= paths.len(),
            model == paths.deep_view(),
            about == finding.deep_view(),
            read == sources.deep_view(),
            name@ == finding_name(about),
            out@ == compact_lines(model.take(i as int), start, about, read),
        decreases paths.len() - i,
    {
        proof {
            assert(model.take(i + 1).drop_last() =~= model.take(i as int));
            assert(model.take(i + 1).last() == paths@[i as int].deep_view());
        }
        let position: String = text_of_position(finding, &paths[i], sources);
        let line: String = concat7(
            &paths[i],
            &position,
            " - ",
            finding.issue_id,
            " '",
            &name,
            "' is unused\n",
        );
        *out = concat2(out, &line);
        i = i + 1;
    }
    assert(model.take(i as int) =~= model);
}

/// A line for each file of each finding, with the place where there is one file. `sources`
/// are the files, as far as they can be read.
#[must_use]
pub fn render_compact(report: &ScanReport, sources: &OrderedMap<String, Vec<u8>>) -> (r: String)
    ensures
        r@ == compact_report(report.deep_view().findings, sources.deep_view()),
{
    let findings: &Vec<Finding> = &report.findings;
    let ghost read = sources.deep_view();
    let mut out: String = String::new();
    assert(out@ =~= Seq::empty());
    let ghost model = findings.deep_view();
    let mut i: usize = 0;
    while i < findings.len()
        invariant
            i <= findings.len(),
            model == findings.deep_view(),
            read == sources.deep_view(),
            out@ == compact_report(model.take(i as int), read),
        decreases findings.len() - i,
    {
        proof {
            assert(model.take(i + 1).drop_last() =~= model.take(i as int));
            assert(model.take(i + 1).last() == findings@[i as int].deep_view());
        }
        add_compact_lines(&mut out, &findings[i], sources);
        i = i + 1;
    }
    assert(model.take(i as int) =~= model);
    out
}

/// Whether a character may stand in what is written without colors: a line break, or a
/// character that changes nothing; where `wide` is not set, one of ASCII.
pub open spec fn is_decent(c: char, wide: bool) -> bool {
    c == '\n' || if wide {
        !is_unsafe(c)
    } else {
        0x20 <= c as u32 <= 0x7e
    }
}

/// Whether all characters of a text may stand in what is written.
pub open spec fn decent_text(s: Seq<char>, wide: bool) -> bool {
    forall|i: int| 0 <= i < s.len() ==> is_decent(#[trigger] s[i], wide)
}

/// Whether all characters of pieces may stand in what is written.
pub open spec fn decent_pieces(pieces: Seq<PieceModel>, wide: bool) -> bool {
    forall|i: int| 0 <= i < pieces.len() ==> decent_text((#[trigger] pieces[i]).text, wide)
}

/// Whether a text is one of ASCII.
pub open spec fn ascii_text(s: Seq<char>) -> bool {
    forall|i: int| 0 <= i < s.len() ==> (#[trigger] s[i]) as u32 <= 0x7f
}

/// Whether texts are of ASCII.
pub open spec fn ascii_texts(texts: Seq<Seq<char>>) -> bool {
    forall|i: int| 0 <= i < texts.len() ==> ascii_text(#[trigger] texts[i])
}

/// Whether a text, where there is one, is one of ASCII.
pub open spec fn ascii_option(text: Option<Seq<char>>) -> bool {
    match text {
        Some(text) => ascii_text(text),
        None => true,
    }
}

/// Whether all that a finding says is ASCII.
pub open spec fn ascii_finding(f: FindingModel) -> bool {
    &&& ascii_text(f.issue_id)
    &&& ascii_text(f.workspace)
    &&& ascii_texts(f.target_profiles)
    &&& ascii_text(f.summary)
    &&& ascii_option(f.symbol)
    &&& ascii_option(f.dependency)
    &&& ascii_texts(f.paths)
    &&& ascii_texts(f.evidence)
    &&& ascii_texts(f.blockers)
    &&& ascii_texts(f.suggested_actions)
}

/// Whether all that a diagnostic says is ASCII.
pub open spec fn ascii_diagnostic(d: AnalysisDiagnosticModel) -> bool {
    ascii_text(d.path) && ascii_text(d.code) && ascii_text(d.message)
}

/// Whether all that a report says of a project is ASCII.
pub open spec fn ascii_project(p: ProjectReportModel) -> bool {
    ascii_text(p.mode) && ascii_texts(world_values(p.worlds))
}

/// Whether all that a report says is ASCII.
pub open spec fn ascii_report(r: ScanReportModel) -> bool {
    &&& ascii_texts(r.entries)
    &&& match r.project {
        Some(project) => ascii_project(project),
        None => true,
    }
    &&& forall|i: int| 0 <= i < r.findings.len() ==> ascii_finding(#[trigger] r.findings[i])
    &&& forall|i: int| 0 <= i < r.diagnostics.len() ==> ascii_diagnostic(#[trigger] r.diagnostics[i])
}

proof fn decent_both(a: Seq<char>, b: Seq<char>, wide: bool)
    requires
        decent_text(a, wide),
        decent_text(b, wide),
    ensures
        decent_text(a + b, wide),
{
}

proof fn decent_pieces_both(a: Seq<PieceModel>, b: Seq<PieceModel>, wide: bool)
    requires
        decent_pieces(a, wide),
        decent_pieces(b, wide),
    ensures
        decent_pieces(a + b, wide),
{
}

proof fn hex_is_decent(n: nat, wide: bool)
    ensures
        decent_text(hex_digits(n), wide),
    decreases n,
{
    if n >= 16 {
        hex_is_decent(n / 16, wide);
    }
}

proof fn digits_are_decent(n: nat, wide: bool)
    ensures
        decent_text(digits(n), wide),
    decreases n,
{
    if n >= 10 {
        digits_are_decent(n / 10, wide);
    }
}

proof fn shown_is_decent(c: char, wide: bool)
    requires
        wide || c as u32 <= 0x7f,
    ensures
        decent_text(shown(c), wide),
{
    reveal_strlit("\\n");
    reveal_strlit("\\r");
    reveal_strlit("\\t");
    reveal_strlit("\\u{");
    reveal_strlit("}");
    hex_is_decent(c as u32 as nat, wide);
}

proof fn sanitized_is_decent(s: Seq<char>, wide: bool)
    requires
        wide || ascii_text(s),
    ensures
        decent_text(sanitized(s), wide),
    decreases s.len(),
{
    if s.len() > 0 {
        assert(s.last() == s[s.len() - 1]);
        assert forall|i: int| 0 <= i < s.drop_last().len() && ascii_text(s) implies (
        #[trigger] s.drop_last()[i]) as u32 <= 0x7f by {
            assert(s.drop_last()[i] == s[i]);
        }
        sanitized_is_decent(s.drop_last(), wide);
        shown_is_decent(s.last(), wide);
    }
}

proof fn safe_is_decent(text: Seq<char>, fallback: Seq<char>, wide: bool)
    requires
        wide || ascii_text(text),
        decent_text(fallback, wide),
    ensures
        decent_text(safe(text, fallback), wide),
{
    sanitized_is_decent(text, wide);
}

proof fn joined_is_ascii(parts: Seq<Seq<char>>)
    requires
        ascii_texts(parts),
    ensures
        ascii_text(joined(parts, ", "@)),
    decreases parts.len(),
{
    reveal_strlit(", ");
    if parts.len() > 0 {
        assert(parts.last() == parts[parts.len() - 1]);
        assert forall|i: int| 0 <= i < parts.drop_last().len() implies ascii_text(
            #[trigger] parts.drop_last()[i],
        ) by {
            assert(parts.drop_last()[i] == parts[i]);
        }
        joined_is_ascii(parts.drop_last());
    }
}

proof fn glyph_is_decent(mark: Glyph, unicode: bool, wide: bool)
    requires
        unicode ==> wide,
    ensures
        decent_text(glyph(mark, unicode), wide),
{
    reveal_strlit("›");
    reveal_strlit(">");
    reveal_strlit("·");
    reveal_strlit("|");
    reveal_strlit("●");
    reveal_strlit("*");
    reveal_strlit("├─");
    reveal_strlit("|-");
    reveal_strlit("└─");
    reveal_strlit("`-");
    reveal_strlit("—");
    reveal_strlit("-");
    reveal_strlit("✓");
    reveal_strlit("[OK]");
    reveal_strlit("▲");
    reveal_strlit("!");
    reveal_strlit("✕");
    reveal_strlit("x");
    reveal_strlit("↳");
    reveal_strlit("->");
    reveal_strlit("…");
    reveal_strlit("...");
    reveal_strlit("  ·  ");
    reveal_strlit("  |  ");
    reveal_strlit("  ·  fix ");
    reveal_strlit("  |  fix ");
}

proof fn metric_is_decent(count: usize, label: Seq<char>, style: Style, wide: bool)
    requires
        decent_text(label, wide),
    ensures
        decent_pieces(metric(count, label, style), wide),
{
    reveal_strlit(" ");
    digits_are_decent(count as nat, wide);
    assert(decent_text(digits(count as nat), wide));
    assert(decent_text(" "@, wide));
    assert(decent_text(label, wide));
}

proof fn metric_separator_is_decent(unicode: bool, wide: bool)
    requires
        unicode ==> wide,
    ensures
        decent_pieces(metric_separator(unicode), wide),
{
    reveal_strlit(" ");
    glyph_is_decent(Glyph::Separator, unicode, wide);
    assert(decent_text(" "@, wide));
    assert(decent_text(glyph(Glyph::Separator, unicode), wide));
}

proof fn section_heading_is_decent(heading: Seq<char>, wide: bool)
    requires
        decent_text(heading, wide),
    ensures
        decent_pieces(section_heading(heading), wide),
{
    reveal_strlit("\n");
    assert(decent_text("\n"@, wide));
    assert(decent_text(heading, wide));
}

proof fn empty_state_is_decent(message: Seq<char>, unicode: bool, wide: bool)
    requires
        decent_text(message, wide),
        unicode ==> wide,
    ensures
        decent_pieces(empty_state(message, unicode), wide),
{
    reveal_strlit("  ");
    reveal_strlit(" ");
    reveal_strlit("\n");
    glyph_is_decent(Glyph::EmptyMark, unicode, wide);
    assert(decent_text("  "@, wide));
    assert(decent_text(glyph(Glyph::EmptyMark, unicode), wide));
    assert(decent_text(" "@, wide));
    assert(decent_text(message, wide));
    assert(decent_text("\n"@, wide));
}

proof fn title_is_decent(wide: bool)
    ensures
        decent_pieces(title(), wide),
{
    reveal_strlit("ORPHANODE");
    reveal_strlit("  ");
    reveal_strlit("reachability scan");
    reveal_strlit("\n\n");
    assert(decent_text("ORPHANODE"@, wide));
    assert(decent_text("  "@, wide));
    assert(decent_text("reachability scan"@, wide));
    assert(decent_text("\n\n"@, wide));
}

proof fn no_entries_is_decent(wide: bool)
    ensures
        decent_pieces(no_entries(), wide),
{
    reveal_strlit(" Entries  ");
    reveal_strlit("none configured");
    reveal_strlit("\n");
    assert(decent_text(" Entries  "@, wide));
    assert(decent_text("none configured"@, wide));
    assert(decent_text("\n"@, wide));
}

proof fn one_entry_is_decent(entry: Seq<char>, wide: bool)
    requires
        wide || ascii_text(entry),
    ensures
        decent_pieces(one_entry(entry), wide),
{
    reveal_strlit(" Entry  ");
    reveal_strlit("<not provided>");
    reveal_strlit("\n");
    safe_is_decent(entry, "<not provided>"@, wide);
    assert(decent_text(" Entry  "@, wide));
    assert(decent_text(safe(entry, "<not provided>"@), wide));
    assert(decent_text("\n"@, wide));
}

proof fn listed_item_is_decent(item: Seq<char>, last: bool, unicode: bool, wide: bool)
    requires
        wide || ascii_text(item),
        unicode ==> wide,
    ensures
        decent_pieces(listed_item(item, last, unicode), wide),
{
    reveal_strlit("    ");
    reveal_strlit(" ");
    reveal_strlit("<empty>");
    reveal_strlit("\n");
    glyph_is_decent(Glyph::LastBranch, unicode, wide);
    glyph_is_decent(Glyph::Branch, unicode, wide);
    safe_is_decent(item, "<empty>"@, wide);
    assert(decent_text("    "@, wide));
    assert(decent_text(if last { glyph(Glyph::LastBranch, unicode) } else { glyph(Glyph::Branch, unicode) }, wide));
    assert(decent_text(" "@, wide));
    assert(decent_text(safe(item, "<empty>"@), wide));
    assert(decent_text("\n"@, wide));
}

proof fn more_entries_is_decent(count: usize, unicode: bool, wide: bool)
    requires
        unicode ==> wide,
    ensures
        decent_pieces(more_entries(count, unicode), wide),
{
    reveal_strlit("    ");
    reveal_strlit(" ");
    reveal_strlit(" more\n");
    glyph_is_decent(Glyph::LastBranch, unicode, wide);
    digits_are_decent(count as nat, wide);
    glyph_is_decent(Glyph::OverflowMark, unicode, wide);
    assert(decent_text("    "@, wide));
    assert(decent_text(glyph(Glyph::LastBranch, unicode), wide));
    assert(decent_text(" "@, wide));
    assert(decent_text(glyph(Glyph::OverflowMark, unicode) + " "@ + digits(count as nat) + " more\n"@, wide));
}

proof fn mode_line_is_decent(mode: Seq<char>, wide: bool)
    requires
        wide || ascii_text(mode),
    ensures
        decent_pieces(mode_line(mode), wide),
{
    reveal_strlit("  ");
    reveal_strlit("Mode");
    reveal_strlit("balanced");
    safe_is_decent(mode, "balanced"@, wide);
    assert(decent_text("  "@, wide));
    assert(decent_text("Mode"@, wide));
    assert(decent_text(safe(mode, "balanced"@), wide));
}

proof fn one_world_is_decent(world: Seq<char>, wide: bool)
    requires
        wide || ascii_text(world),
    ensures
        decent_pieces(one_world(world), wide),
{
    reveal_strlit(" (");
    reveal_strlit("unknown");
    reveal_strlit(")");
    safe_is_decent(world, "unknown"@, wide);
    assert(decent_text(" ("@, wide));
    assert(decent_text(safe(world, "unknown"@), wide));
    assert(decent_text(")"@, wide));
}

proof fn finding_head_is_decent(finding: FindingModel, unicode: bool, wide: bool)
    requires
        wide || ascii_finding(finding),
        unicode ==> wide,
    ensures
        decent_pieces(finding_head(finding, unicode), wide),
{
    reveal_strlit(" ");
    reveal_strlit("UNKNOWN");
    reveal_strlit("  ");
    reveal_strlit(" confidence\n");
    reveal_strlit("Scope");
    reveal_strlit(".");
    reveal_strlit(", ");
    reveal_strlit("default");
    reveal_strlit("\n");
    reveal_strlit("HIGH");
    reveal_strlit("MEDIUM");
    reveal_strlit("LOW");
    reveal_strlit("INCOMPLETE");
    reveal_strlit("not available");
    reveal_strlit("preview only");
    reveal_strlit("eligible");
    reveal_strlit("blocked");
    glyph_is_decent(Glyph::FindingMark, unicode, wide);
    safe_is_decent(finding.issue_id, "UNKNOWN"@, wide);
    safe_is_decent(finding.workspace, "."@, wide);
    glyph_is_decent(Glyph::ScopeSeparator, unicode, wide);
    if !wide {
        joined_is_ascii(finding.target_profiles);
    }
    safe_is_decent(joined(finding.target_profiles, ", "@), "default"@, wide);
    glyph_is_decent(Glyph::FixSeparator, unicode, wide);
    assert(decent_text(glyph(Glyph::FindingMark, unicode), wide));
    assert(decent_text(" "@, wide));
    assert(decent_text(safe(finding.issue_id, "UNKNOWN"@), wide));
    assert(decent_text("  "@, wide));
    assert(decent_text(confidence_word(finding.confidence), wide));
    assert(decent_text(" confidence\n"@, wide));
    assert(decent_text("Scope"@, wide));
    assert(decent_text(safe(finding.workspace, "."@), wide));
    assert(decent_text(glyph(Glyph::ScopeSeparator, unicode), wide));
    assert(decent_text(safe(joined(finding.target_profiles, ", "@), "default"@), wide));
    assert(decent_text(glyph(Glyph::FixSeparator, unicode), wide));
    assert(decent_text(eligibility_words(finding.fix_eligibility), wide));
    assert(decent_text("\n"@, wide));
}

proof fn summary_line_is_decent(summary: Seq<char>, wide: bool)
    requires
        wide || ascii_text(summary),
    ensures
        decent_pieces(summary_line(summary), wide),
{
    reveal_strlit("  ");
    reveal_strlit("<no summary>");
    reveal_strlit("\n");
    safe_is_decent(summary, "<no summary>"@, wide);
    assert(decent_text("  "@, wide));
    assert(decent_text(safe(summary, "<no summary>"@), wide));
    assert(decent_text("\n"@, wide));
}

proof fn labeled_line_is_decent(label: Seq<char>, text: Seq<char>, wide: bool)
    requires
        decent_text(label, wide),
        wide || ascii_text(text),
    ensures
        decent_pieces(labeled_line(label, text), wide),
{
    reveal_strlit("  ");
    reveal_strlit("<unknown>");
    reveal_strlit("\n");
    safe_is_decent(text, "<unknown>"@, wide);
    assert(decent_text("  "@, wide));
    assert(decent_text(label, wide));
    assert(decent_text(safe(text, "<unknown>"@), wide));
    assert(decent_text("\n"@, wide));
}

proof fn list_label_is_decent(label: Seq<char>, wide: bool)
    requires
        decent_text(label, wide),
    ensures
        decent_pieces(list_label(label), wide),
{
    reveal_strlit("  ");
    reveal_strlit("\n");
    assert(decent_text("  "@, wide));
    assert(decent_text(label, wide));
    assert(decent_text("\n"@, wide));
}

proof fn empty_list_is_decent(message: Seq<char>, unicode: bool, wide: bool)
    requires
        decent_text(message, wide),
        unicode ==> wide,
    ensures
        decent_pieces(empty_list(message, unicode), wide),
{
    reveal_strlit("    ");
    reveal_strlit(" ");
    reveal_strlit("\n");
    glyph_is_decent(Glyph::EmptyMark, unicode, wide);
    assert(decent_text("    "@, wide));
    assert(decent_text(glyph(Glyph::EmptyMark, unicode), wide));
    assert(decent_text(" "@, wide));
    assert(decent_text(message, wide));
    assert(decent_text("\n"@, wide));
}

proof fn diagnostic_section_is_decent(
    diagnostic: AnalysisDiagnosticModel,
    unicode: bool,
    wide: bool,
)
    requires
        wide || ascii_diagnostic(diagnostic),
        unicode ==> wide,
    ensures
        decent_pieces(diagnostic_section(diagnostic, unicode), wide),
{
    reveal_strlit(" ");
    reveal_strlit("  ");
    reveal_strlit("<unknown>");
    reveal_strlit("UNKNOWN");
    reveal_strlit("\n");
    reveal_strlit("<no message>");
    reveal_strlit("ERROR");
    reveal_strlit("WARNING");
    reveal_strlit(":");
    reveal_strlit("-");
    reveal_strlit(":?-?");
    glyph_is_decent(severity_mark(diagnostic.severity), unicode, wide);
    safe_is_decent(diagnostic.path, "<unknown>"@, wide);
    safe_is_decent(diagnostic.code, "UNKNOWN"@, wide);
    safe_is_decent(diagnostic.message, "<no message>"@, wide);
    match diagnostic.span {
        Some(span) => {
            digits_are_decent(span.start as nat, wide);
            digits_are_decent(span.end as nat, wide);
        },
        None => {},
    }
    assert(decent_text(glyph(severity_mark(diagnostic.severity), unicode), wide));
    assert(decent_text(" "@, wide));
    assert(decent_text(severity_word(diagnostic.severity), wide));
    assert(decent_text("  "@, wide));
    assert(decent_text(safe(diagnostic.path, "<unknown>"@), wide));
    assert(decent_text(span_text(diagnostic.span), wide));
    assert(decent_text(safe(diagnostic.code, "UNKNOWN"@), wide));
    assert(decent_text("\n"@, wide));
    assert(decent_text(safe(diagnostic.message, "<no message>"@), wide));
}

proof fn complete_footer_is_decent(unicode: bool, wide: bool)
    requires
        unicode ==> wide,
    ensures
        decent_pieces(complete_footer(unicode), wide),
{
    reveal_strlit("\n");
    reveal_strlit(" ");
    reveal_strlit("COMPLETE");
    reveal_strlit("  Reachability analysis finished.\n");
    glyph_is_decent(Glyph::SuccessMark, unicode, wide);
    assert(decent_text("\n"@, wide));
    assert(decent_text(glyph(Glyph::SuccessMark, unicode), wide));
    assert(decent_text(" "@, wide));
    assert(decent_text("COMPLETE"@, wide));
    assert(decent_text("  Reachability analysis finished.\n"@, wide));
}

proof fn incomplete_footer_is_decent(unicode: bool, wide: bool)
    requires
        unicode ==> wide,
    ensures
        decent_pieces(incomplete_footer(unicode), wide),
{
    reveal_strlit("\n");
    reveal_strlit(" ");
    reveal_strlit("INCOMPLETE");
    reveal_strlit("  Resolve coverage diagnostics, then scan again.\n");
    glyph_is_decent(Glyph::WarningMark, unicode, wide);
    assert(decent_text("\n"@, wide));
    assert(decent_text(glyph(Glyph::WarningMark, unicode), wide));
    assert(decent_text(" "@, wide));
    assert(decent_text("INCOMPLETE"@, wide));
    assert(decent_text("  Resolve coverage diagnostics, then scan again.\n"@, wide));
}

proof fn json_hint_is_decent(unicode: bool, wide: bool)
    requires
        unicode ==> wide,
    ensures
        decent_pieces(json_hint(unicode), wide),
{
    reveal_strlit("  ");
    reveal_strlit(" JSON: run again with --format json for machine-readable output.\n");
    glyph_is_decent(Glyph::HintMark, unicode, wide);
    assert(decent_text("  "@, wide));
    assert(decent_text(glyph(Glyph::HintMark, unicode), wide));
    assert(decent_text(" JSON: run again with --format json for machine-readable output.\n"@, wide));
}

proof fn listed_items_are_decent(
    items: Seq<Seq<char>>,
    count: nat,
    shown: nat,
    end: bool,
    unicode: bool,
    wide: bool,
)
    requires
        count <= items.len(),
        wide || ascii_texts(items),
        unicode ==> wide,
    ensures
        decent_pieces(listed_items(items, count, shown, end, unicode), wide),
    decreases count,
{
    if count > 0 {
        listed_items_are_decent(items, (count - 1) as nat, shown, end, unicode, wide);
        listed_item_is_decent(items[count - 1], count == shown && end, unicode, wide);
    }
}

proof fn one_piece_is_decent(text: Seq<char>, style: Style, wide: bool)
    requires
        decent_text(text, wide),
    ensures
        decent_pieces(seq![piece(text, style)], wide),
{
}

proof fn entries_section_is_decent(entries: Seq<Seq<char>>, unicode: bool, wide: bool)
    requires
        wide || ascii_texts(entries),
        unicode ==> wide,
    ensures
        decent_pieces(entries_section(entries, unicode), wide),
{
    glyph_is_decent(Glyph::Pointer, unicode, wide);
    if entries.len() == 0 {
        no_entries_is_decent(wide);
    } else if entries.len() == 1 {
        one_entry_is_decent(entries[0], wide);
    } else {
        let shown = shown_entries(entries.len());
        let head = " Entries  "@ + digits(entries.len()) + " configured\n"@;
        reveal_strlit(" Entries  ");
        reveal_strlit(" configured\n");
        digits_are_decent(entries.len(), wide);
        one_piece_is_decent(head, Style::Plain, wide);
        listed_items_are_decent(entries, shown, shown, entries.len() <= shown, unicode, wide);
        more_entries_is_decent((entries.len() - shown) as usize, unicode, wide);
        decent_pieces_both(
            seq![piece(head, Style::Plain)],
            listed_items(entries, shown, shown, entries.len() <= shown, unicode),
            wide,
        );
    }
}

proof fn project_section_is_decent(project: ProjectReportModel, unicode: bool, wide: bool)
    requires
        wide || ascii_project(project),
        unicode ==> wide,
    ensures
        decent_pieces(project_section(project, unicode), wide),
{
    let worlds = world_values(project.worlds);
    let separator = metric_separator(unicode);
    mode_line_is_decent(project.mode, wide);
    metric_separator_is_decent(unicode, wide);
    reveal_strlit(" workspace");
    reveal_strlit("s");
    reveal_strlit("");
    reveal_strlit(" (mixed world)");
    reveal_strlit(" target profiles");
    reveal_strlit(" plugins");
    reveal_strlit("\n");
    digits_are_decent(project.workspaces.len(), wide);
    digits_are_decent(project.target_profiles.len(), wide);
    digits_are_decent(project.detected_plugins.len(), wide);
    let spaces = seq![
        piece(
            digits(project.workspaces.len()) + " workspace"@ + plural(
                project.workspaces.len(),
                "s"@,
            ),
            Style::Plain,
        ),
    ];
    assert(decent_pieces(spaces, wide));
    let world = if worlds.len() == 1 {
        one_world(worlds[0])
    } else if worlds.len() > 0 {
        seq![piece(" (mixed world)"@, Style::Plain)]
    } else {
        Seq::empty()
    };
    if worlds.len() == 1 {
        one_world_is_decent(worlds[0], wide);
    }
    assert(decent_pieces(world, wide));
    let profiles = seq![
        piece(digits(project.target_profiles.len()) + " target profiles"@, Style::Plain),
    ];
    assert(decent_pieces(profiles, wide));
    let counted = seq![
        piece(digits(project.detected_plugins.len()) + " plugins"@, Style::Plain),
    ];
    assert(decent_pieces(counted, wide));
    decent_pieces_both(separator, counted, wide);
    let plugins = if project.detected_plugins.len() > 0 {
        separator + counted
    } else {
        Seq::empty()
    };
    decent_pieces_both(mode_line(project.mode), separator, wide);
    decent_pieces_both(mode_line(project.mode) + separator, spaces, wide);
    decent_pieces_both(mode_line(project.mode) + separator + spaces, world, wide);
    decent_pieces_both(mode_line(project.mode) + separator + spaces + world, separator, wide);
    let half = mode_line(project.mode) + separator + spaces + world + separator;
    decent_pieces_both(half, profiles, wide);
    decent_pieces_both(half + profiles, plugins, wide);
    decent_pieces_both(half + profiles + plugins, seq![piece("\n"@, Style::Plain)], wide);
}

proof fn numbers_section_is_decent(
    summary: ReportSummary,
    diagnostics: Seq<AnalysisDiagnosticModel>,
    unicode: bool,
    wide: bool,
)
    requires
        unicode ==> wide,
    ensures
        decent_pieces(numbers_section(summary, diagnostics, unicode), wide),
{
    reveal_strlit("  ");
    reveal_strlit("\n");
    reveal_strlit("reachable");
    reveal_strlit("unreachable");
    reveal_strlit("incomplete");
    reveal_strlit("diagnostics");
    let separator = metric_separator(unicode);
    metric_separator_is_decent(unicode, wide);
    metric_is_decent(summary.reachable_files, "reachable"@, Style::Success, wide);
    metric_is_decent(
        summary.unreachable_files,
        "unreachable"@,
        count_style(summary.unreachable_files),
        wide,
    );
    metric_is_decent(
        summary.incomplete_files,
        "incomplete"@,
        count_style(summary.incomplete_files),
        wide,
    );
    metric_is_decent(
        summary.diagnostics,
        "diagnostics"@,
        diagnostics_style(diagnostics),
        wide,
    );
    let start = seq![piece("  "@, Style::Plain)];
    assert(decent_pieces(start, wide));
    let a = metric(summary.reachable_files, "reachable"@, Style::Success);
    let b = metric(
        summary.unreachable_files,
        "unreachable"@,
        count_style(summary.unreachable_files),
    );
    let c = metric(
        summary.incomplete_files,
        "incomplete"@,
        count_style(summary.incomplete_files),
    );
    let d = metric(summary.diagnostics, "diagnostics"@, diagnostics_style(diagnostics));
    decent_pieces_both(start, a, wide);
    decent_pieces_both(start + a, separator, wide);
    decent_pieces_both(start + a + separator, b, wide);
    decent_pieces_both(start + a + separator + b, separator, wide);
    let half = start + a + separator + b + separator;
    decent_pieces_both(half, c, wide);
    decent_pieces_both(half + c, separator, wide);
    decent_pieces_both(half + c + separator, d, wide);
    decent_pieces_both(half + c + separator + d, seq![piece("\n"@, Style::Plain)], wide);
}

proof fn cache_section_is_decent(cache: CacheReportModel, wide: bool)
    ensures
        decent_pieces(cache_section(cache), wide),
{
    reveal_strlit("  ");
    reveal_strlit("Cache");
    reveal_strlit(" hit");
    reveal_strlit(" miss");
    reveal_strlit(" ");
    reveal_strlit("s");
    reveal_strlit("es");
    reveal_strlit("");
    reveal_strlit("  updated");
    reveal_strlit("\n");
    digits_are_decent(cache.hits as nat, wide);
    digits_are_decent(cache.misses as nat, wide);
    assert(decent_text(cache_text(cache), wide));
}

proof fn header_is_decent(report: ScanReportModel, unicode: bool, wide: bool)
    requires
        wide || ascii_report(report),
        unicode ==> wide,
    ensures
        decent_pieces(header(report, unicode), wide),
{
    title_is_decent(wide);
    entries_section_is_decent(report.entries, unicode, wide);
    let project = match report.project {
        Some(project) => project_section(project, unicode),
        None => Seq::empty(),
    };
    match report.project {
        Some(project) => project_section_is_decent(project, unicode, wide),
        None => {},
    }
    let numbers = numbers_section(report.summary, report.diagnostics, unicode);
    numbers_section_is_decent(report.summary, report.diagnostics, unicode, wide);
    let cache = match report.cache {
        Some(cache) => cache_section(cache),
        None => Seq::empty(),
    };
    match report.cache {
        Some(cache) => cache_section_is_decent(cache, wide),
        None => {},
    }
    let entries = entries_section(report.entries, unicode);
    decent_pieces_both(title(), entries, wide);
    decent_pieces_both(title() + entries, project, wide);
    decent_pieces_both(title() + entries + project, numbers, wide);
    decent_pieces_both(title() + entries + project + numbers, cache, wide);
}

proof fn text_list_is_decent(
    label: Seq<char>,
    items: Seq<Seq<char>>,
    message: Seq<char>,
    unicode: bool,
    wide: bool,
)
    requires
        decent_text(label, wide),
        decent_text(message, wide),
        wide || ascii_texts(items),
        unicode ==> wide,
    ensures
        decent_pieces(text_list(label, items, message, unicode), wide),
{
    list_label_is_decent(label, wide);
    if items.len() == 0 {
        empty_list_is_decent(message, unicode, wide);
    } else {
        listed_items_are_decent(items, items.len(), items.len(), true, unicode, wide);
    }
}

proof fn finding_section_is_decent(finding: FindingModel, unicode: bool, wide: bool)
    requires
        wide || ascii_finding(finding),
        unicode ==> wide,
    ensures
        decent_pieces(finding_section(finding, unicode), wide),
{
    reveal_strlit("Symbol");
    reveal_strlit("Dependency");
    reveal_strlit("Paths");
    reveal_strlit("No paths reported");
    reveal_strlit("Evidence");
    reveal_strlit("No evidence provided");
    reveal_strlit("Blockers");
    reveal_strlit("No blockers");
    reveal_strlit("Next");
    reveal_strlit("No action suggested");
    let head = finding_head(finding, unicode);
    finding_head_is_decent(finding, unicode, wide);
    let summary = if finding.summary.len() > 0 {
        summary_line(finding.summary)
    } else {
        Seq::empty()
    };
    summary_line_is_decent(finding.summary, wide);
    let symbol = match finding.symbol {
        Some(symbol) => labeled_line("Symbol"@, symbol),
        None => Seq::empty(),
    };
    match finding.symbol {
        Some(symbol) => labeled_line_is_decent("Symbol"@, symbol, wide),
        None => {},
    }
    let dependency = match finding.dependency {
        Some(dependency) => labeled_line("Dependency"@, dependency),
        None => Seq::empty(),
    };
    match finding.dependency {
        Some(dependency) => labeled_line_is_decent("Dependency"@, dependency, wide),
        None => {},
    }
    let paths = text_list("Paths"@, finding.paths, "No paths reported"@, unicode);
    text_list_is_decent("Paths"@, finding.paths, "No paths reported"@, unicode, wide);
    let evidence = text_list("Evidence"@, finding.evidence, "No evidence provided"@, unicode);
    text_list_is_decent("Evidence"@, finding.evidence, "No evidence provided"@, unicode, wide);
    let blockers = if finding.blockers.len() > 0 {
        text_list("Blockers"@, finding.blockers, "No blockers"@, unicode)
    } else {
        Seq::empty()
    };
    text_list_is_decent("Blockers"@, finding.blockers, "No blockers"@, unicode, wide);
    let actions = if finding.suggested_actions.len() > 0 {
        text_list("Next"@, finding.suggested_actions, "No action suggested"@, unicode)
    } else {
        Seq::empty()
    };
    text_list_is_decent(
        "Next"@,
        finding.suggested_actions,
        "No action suggested"@,
        unicode,
        wide,
    );
    decent_pieces_both(head, summary, wide);
    decent_pieces_both(head + summary, symbol, wide);
    decent_pieces_both(head + summary + symbol, dependency, wide);
    let half = head + summary + symbol + dependency;
    decent_pieces_both(half, paths, wide);
    decent_pieces_both(half + paths, evidence, wide);
    decent_pieces_both(half + paths + evidence, blockers, wide);
    decent_pieces_both(half + paths + evidence + blockers, actions, wide);
}

proof fn all_findings_are_decent(findings: Seq<FindingModel>, unicode: bool, wide: bool)
    requires
        wide || forall|i: int| 0 <= i < findings.len() ==> ascii_finding(#[trigger] findings[i]),
        unicode ==> wide,
    ensures
        decent_pieces(all_findings(findings, unicode), wide),
    decreases findings.len(),
{
    if findings.len() > 0 {
        reveal_strlit("\n");
        let rest = findings.drop_last();
        assert(findings.last() == findings[findings.len() - 1]);
        assert forall|i: int| 0 <= i < rest.len() && !wide implies ascii_finding(
            #[trigger] rest[i],
        ) by {
            assert(rest[i] == findings[i]);
        }
        all_findings_are_decent(rest, unicode, wide);
        finding_section_is_decent(findings.last(), unicode, wide);
        let gap = seq![piece("\n"@, Style::Plain)];
        assert(decent_pieces(gap, wide));
        decent_pieces_both(all_findings(rest, unicode), gap, wide);
        decent_pieces_both(
            if findings.len() > 1 {
                all_findings(rest, unicode) + gap
            } else {
                all_findings(rest, unicode)
            },
            finding_section(findings.last(), unicode),
            wide,
        );
    }
}

proof fn all_diagnostics_are_decent(
    diagnostics: Seq<AnalysisDiagnosticModel>,
    unicode: bool,
    wide: bool,
)
    requires
        wide || forall|i: int|
            0 <= i < diagnostics.len() ==> ascii_diagnostic(#[trigger] diagnostics[i]),
        unicode ==> wide,
    ensures
        decent_pieces(all_diagnostics(diagnostics, unicode), wide),
    decreases diagnostics.len(),
{
    if diagnostics.len() > 0 {
        reveal_strlit("\n");
        let rest = diagnostics.drop_last();
        assert(diagnostics.last() == diagnostics[diagnostics.len() - 1]);
        assert forall|i: int| 0 <= i < rest.len() && !wide implies ascii_diagnostic(
            #[trigger] rest[i],
        ) by {
            assert(rest[i] == diagnostics[i]);
        }
        all_diagnostics_are_decent(rest, unicode, wide);
        diagnostic_section_is_decent(diagnostics.last(), unicode, wide);
        let gap = seq![piece("\n"@, Style::Plain)];
        assert(decent_pieces(gap, wide));
        decent_pieces_both(all_diagnostics(rest, unicode), gap, wide);
        decent_pieces_both(
            if diagnostics.len() > 1 {
                all_diagnostics(rest, unicode) + gap
            } else {
                all_diagnostics(rest, unicode)
            },
            diagnostic_section(diagnostics.last(), unicode),
            wide,
        );
    }
}

proof fn report_pieces_are_decent(report: ScanReportModel, unicode: bool, wide: bool)
    requires
        wide || ascii_report(report),
        unicode ==> wide,
    ensures
        decent_pieces(report_pieces(report, unicode), wide),
{
    reveal_strlit("FINDINGS");
    reveal_strlit("DIAGNOSTICS");
    reveal_strlit("None reported");
    header_is_decent(report, unicode, wide);
    let findings = findings_section(report.findings, unicode);
    section_heading_is_decent("FINDINGS"@, wide);
    section_heading_is_decent("DIAGNOSTICS"@, wide);
    empty_state_is_decent("None reported"@, unicode, wide);
    all_findings_are_decent(report.findings, unicode, wide);
    decent_pieces_both(
        section_heading("FINDINGS"@),
        if report.findings.len() == 0 {
            empty_state("None reported"@, unicode)
        } else {
            all_findings(report.findings, unicode)
        },
        wide,
    );
    all_diagnostics_are_decent(report.diagnostics, unicode, wide);
    let diagnostics = diagnostics_section(report.diagnostics, unicode);
    decent_pieces_both(
        section_heading("DIAGNOSTICS"@),
        if report.diagnostics.len() == 0 {
            empty_state("None reported"@, unicode)
        } else {
            all_diagnostics(report.diagnostics, unicode)
        },
        wide,
    );
    let end = footer(report.status, unicode);
    complete_footer_is_decent(unicode, wide);
    incomplete_footer_is_decent(unicode, wide);
    json_hint_is_decent(unicode, wide);
    decent_pieces_both(
        match report.status {
            AnalysisStatus::Complete => complete_footer(unicode),
            AnalysisStatus::Incomplete => incomplete_footer(unicode),
        },
        json_hint(unicode),
        wide,
    );
    decent_pieces_both(header(report, unicode), findings, wide);
    decent_pieces_both(header(report, unicode) + findings, diagnostics, wide);
    decent_pieces_both(header(report, unicode) + findings + diagnostics, end, wide);
}

proof fn drawn_is_decent(pieces: Seq<PieceModel>, wide: bool)
    requires
        decent_pieces(pieces, wide),
    ensures
        decent_text(drawn(pieces, false), wide),
    decreases pieces.len(),
{
    if pieces.len() > 0 {
        assert(pieces.last() == pieces[pieces.len() - 1]);
        assert forall|i: int| 0 <= i < pieces.drop_last().len() implies decent_text(
            (#[trigger] pieces.drop_last()[i]).text,
            wide,
        ) by {
            assert(pieces.drop_last()[i] == pieces[i]);
        }
        drawn_is_decent(pieces.drop_last(), wide);
        decent_both(drawn(pieces.drop_last(), false), pieces.last().text, wide);
    }
}

/// Whatever a report says, what is written of it without colors holds no character that could
/// change how a terminal shows it: no escape sequence, no control character but line breaks.
pub proof fn colorless_reports_are_inert(report: ScanReportModel, unicode: bool, i: int)
    requires
        0 <= i < drawn(report_pieces(report, unicode), false).len(),
    ensures
        ({
            let c = drawn(report_pieces(report, unicode), false)[i];
            c == '\n' || !is_unsafe(c)
        }),
{
    report_pieces_are_decent(report, unicode, true);
    drawn_is_decent(report_pieces(report, unicode), true);
    assert(is_decent(drawn(report_pieces(report, unicode), false)[i], true));
}

/// A text without the sequences that set colors: each begins with an escape character and a
/// bracket, and ends with the next `m`.
pub open spec fn uncolored(s: Seq<char>) -> Seq<char>
    decreases s.len(),
{
    if s.len() == 0 {
        s
    } else if s.len() > 1 && s[0] == '\u{1b}' && s[1] == '[' && s.contains('m') {
        proof {
            first_index_bounds(s, 'm');
        }
        uncolored(s.skip(first_index(s, 'm') + 1))
    } else {
        seq![s[0]] + uncolored(s.drop_first())
    }
}

proof fn plain_text_stays(text: Seq<char>, rest: Seq<char>)
    requires
        !text.contains('\u{1b}'),
    ensures
        uncolored(text + rest) == text + uncolored(rest),
    decreases text.len(),
{
    if text.len() == 0 {
        assert(text + rest =~= rest);
        assert(text + uncolored(rest) =~= uncolored(rest));
    } else {
        let behind = text.drop_first();
        assert(text.contains(text[0]));
        assert(!behind.contains('\u{1b}')) by {
            if behind.contains('\u{1b}') {
                let i = choose|i: int| 0 <= i < behind.len() && behind[i] == '\u{1b}';
                assert(text[i + 1] == '\u{1b}');
            }
        }
        plain_text_stays(behind, rest);
        assert((text + rest)[0] == text[0]);
        assert((text + rest).drop_first() =~= behind + rest);
        assert(text + uncolored(rest) =~= seq![text[0]] + (behind + uncolored(rest)));
    }
}

proof fn sequences_go(code: Seq<char>, rest: Seq<char>)
    requires
        !code.contains('m'),
    ensures
        uncolored("\u{1b}["@ + code + "m"@ + rest) == uncolored(rest),
{
    reveal_strlit("\u{1b}[");
    reveal_strlit("m");
    let whole = "\u{1b}["@ + code + "m"@ + rest;
    let n = code.len() as int + 2;
    assert(whole[0] == '\u{1b}' && whole[1] == '[');
    assert(whole[n] == 'm');
    assert forall|i: int| 0 <= i < n implies whole[i] != 'm' by {
        if i >= 2 {
            assert(whole[i] == code[i - 2]);
            assert(code.contains(code[i - 2]));
        }
    }
    first_index_is(whole, 'm', n);
    assert(whole.skip(n + 1) =~= rest);
}

proof fn codes_hold_digits(style: Style)
    ensures
        forall|i: int|
            0 <= i < style_code(style).len() ==> {
                let c = #[trigger] style_code(style)[i];
                c == ';' || '0' <= c <= '9'
            },
        !style_code(style).contains('m'),
{
    reveal_strlit("");
    reveal_strlit("1;38;5;214");
    reveal_strlit("1");
    reveal_strlit("1;32");
    reveal_strlit("1;31");
    reveal_strlit("38;5;245");
}

proof fn one_piece_is_uncolored(item: PieceModel, rest: Seq<char>)
    requires
        !item.text.contains('\u{1b}'),
    ensures
        uncolored(drawn_piece(item, true) + rest) == item.text + uncolored(rest),
{
    if item.style == Style::Plain {
        plain_text_stays(item.text, rest);
    } else {
        let code = style_code(item.style);
        codes_hold_digits(item.style);
        reveal_strlit("\u{1b}[0m");
        reveal_strlit("\u{1b}[");
        reveal_strlit("m");
        let behind = item.text + ("\u{1b}[0m"@ + rest);
        assert(drawn_piece(item, true) + rest =~= "\u{1b}["@ + code + "m"@ + behind);
        sequences_go(code, behind);
        plain_text_stays(item.text, "\u{1b}[0m"@ + rest);
        let zero = seq!['0'];
        assert("\u{1b}[0m"@ + rest =~= "\u{1b}["@ + zero + "m"@ + rest);
        sequences_go(zero, rest);
    }
}

proof fn pieces_are_uncolored(pieces: Seq<PieceModel>, rest: Seq<char>)
    requires
        forall|i: int| 0 <= i < pieces.len() ==> !(#[trigger] pieces[i]).text.contains('\u{1b}'),
    ensures
        uncolored(drawn(pieces, true) + rest) == drawn(pieces, false) + uncolored(rest),
    decreases pieces.len(),
{
    if pieces.len() == 0 {
        assert(drawn(pieces, true) + rest =~= rest);
        assert(drawn(pieces, false) + uncolored(rest) =~= uncolored(rest));
    } else {
        let front = pieces.drop_last();
        let last = pieces.last();
        assert(last == pieces[pieces.len() - 1]);
        assert forall|i: int| 0 <= i < front.len() implies !(#[trigger] front[i]).text.contains(
            '\u{1b}',
        ) by {
            assert(front[i] == pieces[i]);
        }
        let behind = drawn_piece(last, true) + rest;
        assert(drawn(pieces, true) + rest =~= drawn(front, true) + behind);
        pieces_are_uncolored(front, behind);
        one_piece_is_uncolored(last, rest);
        assert(drawn(pieces, false) + uncolored(rest) =~= drawn(front, false) + (last.text
            + uncolored(rest)));
    }
}

proof fn decent_text_holds_no_escape(text: Seq<char>)
    requires
        decent_text(text, true),
    ensures
        !text.contains('\u{1b}'),
{
    if text.contains('\u{1b}') {
        let i = choose|i: int| 0 <= i < text.len() && text[i] == '\u{1b}';
        assert(is_decent(text[i], true));
    }
}

/// Colors change nothing but colors: what is written of a report with them, without the
/// sequences that set them, is what is written without them, and that holds no escape
/// character.
pub proof fn colors_only_color(report: ScanReportModel, unicode: bool)
    ensures
        uncolored(drawn(report_pieces(report, unicode), true)) == drawn(
            report_pieces(report, unicode),
            false,
        ),
        !drawn(report_pieces(report, unicode), false).contains('\u{1b}'),
{
    let pieces = report_pieces(report, unicode);
    report_pieces_are_decent(report, unicode, true);
    drawn_is_decent(pieces, true);
    decent_text_holds_no_escape(drawn(pieces, false));
    assert forall|i: int| 0 <= i < pieces.len() implies !(#[trigger] pieces[i]).text.contains(
        '\u{1b}',
    ) by {
        decent_text_holds_no_escape(pieces[i].text);
    }
    pieces_are_uncolored(pieces, Seq::empty());
    assert(drawn(pieces, true) + Seq::<char>::empty() =~= drawn(pieces, true));
    assert(drawn(pieces, false) + uncolored(Seq::<char>::empty()) =~= drawn(pieces, false));
}

proof fn drawn_is_ascii(pieces: Seq<PieceModel>, color: bool)
    requires
        decent_pieces(pieces, false),
    ensures
        ascii_text(drawn(pieces, color)),
    decreases pieces.len(),
{
    if pieces.len() > 0 {
        let front = pieces.drop_last();
        let last = pieces.last();
        assert(last == pieces[pieces.len() - 1]);
        assert forall|i: int| 0 <= i < front.len() implies decent_text(
            (#[trigger] front[i]).text,
            false,
        ) by {
            assert(front[i] == pieces[i]);
        }
        drawn_is_ascii(front, color);
        codes_hold_digits(last.style);
        reveal_strlit("\u{1b}[0m");
        reveal_strlit("\u{1b}[");
        reveal_strlit("m");
        let code = style_code(last.style);
        let own = drawn_piece(last, color);
        assert(decent_text(last.text, false));
        assert forall|i: int| 0 <= i < own.len() implies own[i] as u32 <= 0x7f by {
            if color && last.style != Style::Plain {
                if i < 2 {
                } else if i < 2 + code.len() {
                    assert(own[i] == code[i - 2]);
                } else if i == 2 + code.len() {
                } else if i < 3 + code.len() + last.text.len() {
                    assert(own[i] == last.text[i - 3 - code.len()]);
                }
            } else {
                assert(is_decent(last.text[i], false));
            }
        }
        let whole = drawn(pieces, color);
        assert forall|i: int| 0 <= i < whole.len() implies #[trigger] whole[i] as u32 <= 0x7f by {
            if i < drawn(front, color).len() {
                assert(whole[i] == drawn(front, color)[i]);
            } else {
                assert(whole[i] == own[i - drawn(front, color).len()]);
            }
        }
    }
}

/// What is written of a report in ASCII, without characters beyond it, is ASCII, with colors
/// and without them.
pub proof fn ascii_reports_are_written_in_ascii(report: ScanReportModel, color: bool)
    requires
        ascii_report(report),
    ensures
        ascii_text(drawn(report_pieces(report, false), color)),
{
    report_pieces_are_decent(report, false, false);
    drawn_is_ascii(report_pieces(report, false), color);
}

} // verus!
