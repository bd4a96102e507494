//! The output log: an ordered record of typed output items.

use crate::lines::{ends_with_newline, has_newline, lemma_lines_of_single_line, lines};
use uiua::DiagnosticKind;
use vstd::prelude::*;

verus! {

/// The severity of a diagnostic, as the interpreter reports it. The log only
/// carries it.
#[verifier::external_type_specification]
#[verifier::external_body]
pub struct ExDiagnosticKind(uiua::DiagnosticKind);

/// One entry of the output log.
pub enum OutputItem {
    /// A line of plain text, or the part of it printed so far.
    String(String),
    /// An encoded still image.
    Image(Vec<u8>),
    /// An encoded animation.
    Gif(Vec<u8>),
    /// Encoded audio.
    Audio(Vec<u8>),
    /// An error message.
    Error(String),
    /// A diagnostic message with its severity.
    Diagnostic(String, DiagnosticKind),
    /// A break between two groups of output.
    Separator,
}

/// What an [`OutputItem`] holds, as mathematical values.
pub enum OutputItemView {
    String(Seq<char>),
    Image(Seq<u8>),
    Gif(Seq<u8>),
    Audio(Seq<u8>),
    Error(Seq<char>),
    Diagnostic(Seq<char>, DiagnosticKind),
    Separator,
}

impl View for OutputItem {
    type V = OutputItemView;

    open spec fn view(&self) -> OutputItemView {
        match *self {
            OutputItem::String(s) => OutputItemView::String(s@),
            OutputItem::Image(b) => OutputItemView::Image(b@),
            OutputItem::Gif(b) => OutputItemView::Gif(b@),
            OutputItem::Audio(b) => OutputItemView::Audio(b@),
            OutputItem::Error(s) => OutputItemView::Error(s@),
            OutputItem::Diagnostic(s, kind) => OutputItemView::Diagnostic(s@, kind),
            OutputItem::Separator => OutputItemView::Separator,
        }
    }
}

/// The contents of a log, item by item.
pub open spec fn log_view(log: Seq<OutputItem>) -> Seq<OutputItemView> {
    log.map_values(|item: OutputItem| item@)
}

/// One text item for each of `segments`.
pub open spec fn text_items(segments: Seq<Seq<char>>) -> Seq<OutputItemView> {
    segments.map_values(|segment: Seq<char>| OutputItemView::String(segment))
}

/// `log` after text that continues the current line: it is joined to the
/// last item where that is a text item, and becomes a new text item
/// otherwise.
pub open spec fn continue_line(log: Seq<OutputItemView>, text: Seq<char>) -> Seq<OutputItemView> {
    if log.len() > 0 && log.last() is String {
        log.drop_last().push(OutputItemView::String(log.last()->String_0 + text))
    } else {
        log.push(OutputItemView::String(text))
    }
}

/// `log` after `text` was written to standard output.
///
/// Empty text changes nothing. Otherwise the first line of `text` continues
/// the current line, every further line is a text item of its own, and text
/// that ends with a line feed leaves an empty text item at the end.
pub open spec fn write_stdout(log: Seq<OutputItemView>, text: Seq<char>) -> Seq<OutputItemView> {
    let segments = lines(text);
    if segments.len() == 0 {
        log
    } else {
        let written = continue_line(log, segments[0]) + text_items(segments.skip(1));
        if ends_with_newline(text) {
            written.push(OutputItemView::String(Seq::empty()))
        } else {
            written
        }
    }
}

/// Whether the last item of `log` is a text item.
pub open spec fn ends_in_text(log: Seq<OutputItemView>) -> bool {
    log.len() > 0 && log.last() is String
}

/// Text that is not empty and holds no line feed, written to a log that does
/// not end in a text item, adds exactly one item: that text.
pub proof fn lemma_write_starts_line(log: Seq<OutputItemView>, s: Seq<char>)
    requires
        s.len() > 0,
        !has_newline(s),
        !ends_in_text(log),
    ensures
        write_stdout(log, s) == log.push(OutputItemView::String(s)),
{
    lemma_lines_of_single_line(s);
    assert(lines(s).skip(1) =~= Seq::empty());
    assert(write_stdout(log, s) =~= log.push(OutputItemView::String(s)));
}

/// Text without a line feed, written to a log that ends in a text item, adds
/// no item: it is joined to that item.
pub proof fn lemma_write_continues_line(log: Seq<OutputItemView>, s: Seq<char>, t: Seq<char>)
    requires
        !has_newline(t),
    ensures
        write_stdout(log.push(OutputItemView::String(s)), t) == log.push(
            OutputItemView::String(s + t),
        ),
{
    let before = log.push(OutputItemView::String(s));
    lemma_lines_of_single_line(t);
    assert(before.drop_last() =~= log);
    if t.len() == 0 {
        assert(s + t =~= s);
    } else {
        assert(lines(t).skip(1) =~= Seq::empty());
        assert(write_stdout(before, t) =~= log.push(OutputItemView::String(s + t)));
    }
}

/// Two writes of text without line feeds, the first of them not empty, to a
/// log that does not end in a text item, add exactly one item: the two texts
/// joined.
pub proof fn lemma_two_writes_one_item(log: Seq<OutputItemView>, s: Seq<char>, t: Seq<char>)
    requires
        s.len() > 0,
        !has_newline(s),
        !has_newline(t),
        !ends_in_text(log),
    ensures
        write_stdout(write_stdout(log, s), t) == log.push(OutputItemView::String(s + t)),
{
    lemma_write_starts_line(log, s);
    lemma_write_continues_line(log, s, t);
}

/// Writing never removes or reorders what the log holds: every item stays
/// where it is, and stays as it is, but for a text item at the end of the
/// log, to which the first line of text that is not empty is joined.
pub proof fn lemma_write_keeps_earlier_items(log: Seq<OutputItemView>, s: Seq<char>, i: int)
    requires
        0 <= i < log.len(),
    ensures
        write_stdout(log, s).len() >= log.len(),
        write_stdout(log, s)[i] == if i == log.len() - 1 && ends_in_text(log) && s.len() > 0 {
            OutputItemView::String(log[i]->String_0 + lines(s)[0])
        } else {
            log[i]
        },
{
}

} // verus!
