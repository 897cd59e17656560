//! Lines of history, as they are written above the viewport.

use vstd::prelude::*;

use crate::content::Content;
use crate::styled::{LineAlignment, SpanStyle, SpanView, StyledLine, StyledSpan};

verus! {

/// Columns of a line that lead to a destination.
#[derive(Clone, Debug, PartialEq, Eq)]
pub struct TerminalHyperlink {
    pub start_column: usize,
    pub end_column: usize,
    pub destination: String,
}

/// A line of history with its links.
#[derive(Clone, Debug, PartialEq, Eq)]
pub struct HyperlinkLine {
    pub line: StyledLine,
    /// What the spans are shown in where their own style leaves it open.
    pub style: SpanStyle,
    /// `None` where the line stands is left open.
    pub alignment: Option<LineAlignment>,
    pub hyperlinks: Vec<TerminalHyperlink>,
}

/// Who breaks long lines.
#[derive(Clone, Copy, Debug, PartialEq, Eq, Structural)]
pub enum HistoryLineWrapPolicy {
    /// They are wrapped to the viewport's width before they are written.
    PreWrap,
    /// They are left to the terminal.
    Terminal,
}

/// How lines are put above the viewport.
#[derive(Clone, Copy, Debug, PartialEq, Eq, Structural)]
pub enum InsertHistoryMode {
    /// Behind the last row above the viewport.
    Standard,
    /// Behind the last row of history, where there is a gap below it.
    StandardAtHistoryBoundary { history_bottom: u16 },
    /// Unwrapped, in the manner that Zellij needs.
    ZellijRaw,
}

/// What became of a request to replace the end of the history.
#[derive(Clone, Copy, Debug, PartialEq, Eq, Structural)]
pub enum HistoryTailReplacement {
    Replaced,
    RequiresTranscriptReflow,
    NotVisible,
}

/// Lines that are ready to be written in `wrap_width` columns, where they take `row_count` rows.
#[derive(Clone, Debug, PartialEq, Eq)]
pub struct PreparedHistoryLines {
    pub lines: Vec<HyperlinkLine>,
    pub wrap_width: usize,
    pub row_count: usize,
}

#[verifier::ext_equal]
pub struct HyperlinkView {
    pub start_column: usize,
    pub end_column: usize,
    pub destination: Seq<char>,
}

#[verifier::ext_equal]
pub struct LineView {
    pub spans: Seq<SpanView>,
    pub style: SpanStyle,
    pub alignment: Option<LineAlignment>,
    pub hyperlinks: Seq<HyperlinkView>,
}

#[verifier::ext_equal]
pub struct PreparedView {
    pub lines: Seq<LineView>,
    pub wrap_width: usize,
    pub row_count: usize,
}

impl DeepView for TerminalHyperlink {
    type V = HyperlinkView;

    open spec fn deep_view(&self) -> HyperlinkView {
        HyperlinkView {
            start_column: self.start_column,
            end_column: self.end_column,
            destination: self.destination@,
        }
    }
}

impl DeepView for HyperlinkLine {
    type V = LineView;

    open spec fn deep_view(&self) -> LineView {
        LineView {
            spans: self.line.deep_view(),
            style: self.style,
            alignment: self.alignment,
            hyperlinks: self.hyperlinks.deep_view(),
        }
    }
}

impl DeepView for PreparedHistoryLines {
    type V = PreparedView;

    open spec fn deep_view(&self) -> PreparedView {
        PreparedView {
            lines: self.lines.deep_view(),
            wrap_width: self.wrap_width,
            row_count: self.row_count,
        }
    }
}

impl Content for TerminalHyperlink {
    fn duplicate(&self) -> (copy: Self) {
        TerminalHyperlink {
            start_column: self.start_column,
            end_column: self.end_column,
            destination: self.destination.duplicate(),
        }
    }

    fn same_as(&self, other: &Self) -> (same: bool) {
        self.start_column == other.start_column && self.end_column == other.end_column
            && self.destination.same_as(&other.destination)
    }
}

impl Content for HyperlinkLine {
    fn duplicate(&self) -> (copy: Self) {
        HyperlinkLine {
            line: self.line.duplicate(),
            style: self.style,
            alignment: self.alignment,
            hyperlinks: self.hyperlinks.duplicate(),
        }
    }

    fn same_as(&self, other: &Self) -> (same: bool) {
        self.style == other.style && same_alignment(self.alignment, other.alignment)
            && self.line.same_as(&other.line) && self.hyperlinks.same_as(&other.hyperlinks)
    }
}

/// Whether two lines stand in the same place.
fn same_alignment(left: Option<LineAlignment>, right: Option<LineAlignment>) -> (same: bool)
    ensures
        same == (left == right),
{
    match (left, right) {
        (Some(left), Some(right)) => left == right,
        (None, None) => true,
        _ => false,
    }
}

/// The rows that so many columns take where `wrap_width` of them fit into a row. Nothing at all
/// still takes a row.
pub open spec fn rows_of(columns: nat, wrap_width: nat) -> nat {
    if columns == 0 {
        1
    } else {
        ((columns - 1) / (wrap_width as int) + 1) as nat
    }
}

/// The rows of a line.
pub open spec fn line_rows(line: LineView, wrap_width: nat) -> nat {
    rows_of(crate::numbers::clamped(crate::styled::line_width(line.spans)), wrap_width)
}

/// The rows of lines one below the other.
pub open spec fn total_rows(lines: Seq<LineView>, wrap_width: nat) -> nat {
    crate::numbers::sum(lines.map_values(|line: LineView| line_rows(line, wrap_width)))
}

/// Lines as they are prepared for a width.
pub open spec fn prepared_lines(lines: Seq<LineView>, wrap_width: usize) -> PreparedView {
    PreparedView {
        lines,
        wrap_width,
        row_count: crate::numbers::clamped(total_rows(lines, wrap_width as nat)) as usize,
    }
}

/// The width that history is wrapped to beside a viewport.
pub open spec fn wrap_width_of(viewport_width: u16) -> usize {
    if viewport_width == 0 {
        1
    } else {
        viewport_width as usize
    }
}

/// The mode for lines of a policy.
pub open spec fn insert_mode(
    is_zellij: bool,
    wrap_policy: HistoryLineWrapPolicy,
) -> InsertHistoryMode {
    if is_zellij && wrap_policy == HistoryLineWrapPolicy::Terminal {
        InsertHistoryMode::ZellijRaw
    } else {
        InsertHistoryMode::Standard
    }
}

/// Every line takes a row, and no line takes more than all of them together.
pub proof fn lemma_total_rows(lines: Seq<LineView>, wrap_width: nat)
    requires
        wrap_width > 0,
    ensures
        total_rows(lines, wrap_width) >= lines.len(),
        lines.len() > 0 ==> total_rows(lines, wrap_width) == total_rows(
            lines.drop_last(),
            wrap_width,
        ) + line_rows(lines.last(), wrap_width),
    decreases lines.len(),
{
    if lines.len() > 0 {
        let counts = lines.map_values(|line: LineView| line_rows(line, wrap_width));
        lemma_total_rows(lines.drop_last(), wrap_width);
        assert(counts.drop_last() =~= lines.drop_last().map_values(
            |line: LineView| line_rows(line, wrap_width),
        ));
        lemma_line_has_a_row(lines.last(), wrap_width);
    }
}

/// Every line takes a row.
pub proof fn lemma_line_has_a_row(line: LineView, wrap_width: nat)
    requires
        wrap_width > 0,
    ensures
        line_rows(line, wrap_width) >= 1,
        line_rows(line, wrap_width) <= usize::MAX,
{
    let columns = crate::numbers::clamped(crate::styled::line_width(line.spans));
    if columns > 0 {
        vstd::arithmetic::div_mod::lemma_div_pos_is_pos(columns - 1, wrap_width as int);
        vstd::arithmetic::div_mod::lemma_div_is_ordered_by_denominator(
            columns - 1,
            1,
            wrap_width as int,
        );
        vstd::arithmetic::div_mod::lemma_div_basics(columns - 1);
    }
}

/// Lines joined take the rows of both.
pub proof fn lemma_total_rows_join(left: Seq<LineView>, right: Seq<LineView>, wrap_width: nat)
    ensures
        total_rows(left + right, wrap_width) == total_rows(left, wrap_width) + total_rows(
            right,
            wrap_width,
        ),
{
    let count = |line: LineView| line_rows(line, wrap_width);
    crate::numbers::lemma_sum_join(left.map_values(count), right.map_values(count));
    assert((left + right).map_values(count) =~= left.map_values(count) + right.map_values(count));
}

/// A line takes as many full rows as its columns fill, and one more for the rest; an empty one takes
/// a row as well.
pub proof fn law_a_line_takes_the_rows_that_its_columns_fill(columns: nat, wrap_width: nat)
    requires
        wrap_width > 0,
    ensures
        columns == 0 ==> rows_of(columns, wrap_width) == 1,
        columns > 0 ==> (rows_of(columns, wrap_width) - 1) * wrap_width < columns <= rows_of(
            columns,
            wrap_width,
        ) * wrap_width,
{
    if columns > 0 {
        let full = (columns - 1) / (wrap_width as int);
        vstd::arithmetic::div_mod::lemma_fundamental_div_mod(columns - 1, wrap_width as int);
        vstd::arithmetic::div_mod::lemma_div_pos_is_pos(columns - 1, wrap_width as int);
        assert(rows_of(columns, wrap_width) == full + 1);
        assert(wrap_width * full == full * wrap_width) by (nonlinear_arith);
        assert((full + 1) * wrap_width == full * wrap_width + wrap_width) by (nonlinear_arith);
    }
}

/// Lines one below the other take the rows of each of them, and no more: none take none, and each
/// further one adds what it takes alone.
pub proof fn law_lines_take_the_rows_of_each(
    lines: Seq<LineView>,
    next: LineView,
    wrap_width: nat,
)
    ensures
        total_rows(Seq::empty(), wrap_width) == 0,
        total_rows(lines.push(next), wrap_width) == total_rows(lines, wrap_width) + rows_of(
            crate::numbers::clamped(crate::styled::line_width(next.spans)),
            wrap_width,
        ),
{
    let count = |line: LineView| line_rows(line, wrap_width);
    assert(lines.push(next).map_values(count).drop_last() =~= lines.map_values(count));
}

/// Preparing lines neither drops nor changes nor reorders any: they are the same lines, for the width
/// that was asked for, with the rows that they take.
pub proof fn law_preparing_keeps_every_line(lines: Seq<LineView>, wrap_width: usize)
    requires
        total_rows(lines, wrap_width as nat) <= usize::MAX,
    ensures
        prepared_lines(lines, wrap_width).lines == lines,
        prepared_lines(lines, wrap_width).wrap_width == wrap_width,
        prepared_lines(lines, wrap_width).row_count == total_rows(lines, wrap_width as nat),
{
}

/// History is wrapped to the viewport's columns, and to one where it has none.
pub proof fn law_history_is_wrapped_to_the_viewport(viewport_width: u16)
    ensures
        viewport_width > 0 ==> wrap_width_of(viewport_width) == viewport_width,
        viewport_width == 0 ==> wrap_width_of(viewport_width) == 1,
{
}

/// Only what is left to the terminal to wrap is written raw, and that below Zellij alone.
pub proof fn law_only_unwrapped_lines_below_zellij_are_raw(
    is_zellij: bool,
    wrap_policy: HistoryLineWrapPolicy,
)
    ensures
        insert_mode(is_zellij, wrap_policy) == InsertHistoryMode::ZellijRaw || insert_mode(
            is_zellij,
            wrap_policy,
        ) == InsertHistoryMode::Standard,
        insert_mode(is_zellij, wrap_policy) == InsertHistoryMode::ZellijRaw <==> is_zellij
            && wrap_policy == HistoryLineWrapPolicy::Terminal,
{
}

impl HyperlinkLine {
    /// A line in the terminal's own style and place, without links.
    pub fn plain(text: String) -> (line: Self)
        ensures
            line.deep_view() == (LineView {
                spans: seq![SpanView { text: text@, style: crate::styled::plain_style() }],
                style: crate::styled::plain_style(),
                alignment: None,
                hyperlinks: Seq::empty(),
            }),
    {
        let mut spans: Vec<StyledSpan> = Vec::new();
        spans.push(StyledSpan::new(text, SpanStyle::plain()));
        let hyperlinks: Vec<TerminalHyperlink> = Vec::new();
        assert(spans.deep_view() =~= seq![
            SpanView { text: text@, style: crate::styled::plain_style() },
        ]);
        assert(hyperlinks.deep_view() =~= Seq::<HyperlinkView>::empty());
        HyperlinkLine {
            line: StyledLine { spans },
            style: SpanStyle::plain(),
            alignment: None,
            hyperlinks,
        }
    }
}

/// The rows that `line` takes in `wrap_width` columns.
pub fn physical_row_count(line: &HyperlinkLine, wrap_width: usize) -> (rows: usize)
    requires
        wrap_width > 0,
    ensures
        rows == line_rows(line.deep_view(), wrap_width as nat),
{
    proof {
        lemma_line_has_a_row(line.deep_view(), wrap_width as nat);
    }
    let columns: usize = line.line.width();
    if columns == 0 {
        1
    } else {
        (columns - 1) / wrap_width + 1
    }
}

/// The rows that `lines` take in `wrap_width` columns, clamped to a machine word.
pub fn history_row_count(lines: &Vec<HyperlinkLine>, wrap_width: usize) -> (rows: usize)
    requires
        wrap_width > 0,
    ensures
        rows == crate::numbers::clamped(total_rows(lines.deep_view(), wrap_width as nat)),
{
    let ghost counts = lines.deep_view().map_values(
        |line: LineView| line_rows(line, wrap_width as nat),
    );
    let mut rows: usize = 0;
    let mut index: usize = 0;
    while index < lines.len()
        invariant
            wrap_width > 0,
            index <= lines.len(),
            counts == lines.deep_view().map_values(
                |line: LineView| line_rows(line, wrap_width as nat),
            ),
            rows == crate::numbers::clamped(crate::numbers::sum(counts.take(index as int))),
        decreases lines.len() - index,
    {
        proof {
            crate::numbers::lemma_sum_step(counts, index as int);
        }
        rows = rows.saturating_add(physical_row_count(&lines[index], wrap_width));
        index += 1;
    }
    assert(counts.take(index as int) =~= counts);
    rows
}

/// Count the rows of lines that are wrapped for `wrap_width` columns.
pub fn prepare_history_hyperlink_lines(wrapped: Vec<HyperlinkLine>, wrap_width: usize) -> (prepared:
    PreparedHistoryLines)
    requires
        wrap_width > 0,
    ensures
        prepared.deep_view() == prepared_lines(wrapped.deep_view(), wrap_width),
{
    let row_count: usize = history_row_count(&wrapped, wrap_width);
    PreparedHistoryLines { lines: wrapped, wrap_width, row_count }
}

/// The mode for lines of `wrap_policy`.
pub fn mode_for_policy(is_zellij: bool, wrap_policy: HistoryLineWrapPolicy) -> (mode:
    InsertHistoryMode)
    ensures
        mode == insert_mode(is_zellij, wrap_policy),
{
    if is_zellij && wrap_policy == HistoryLineWrapPolicy::Terminal {
        InsertHistoryMode::ZellijRaw
    } else {
        InsertHistoryMode::Standard
    }
}

/// Lines and links that are told apart by nothing in their views look the same, stand in the same place
/// and lead to the same destinations.
pub proof fn law_the_view_of_a_line_is_all_of_it(left: HyperlinkLine, right: HyperlinkLine, index: int)
    requires
        left.deep_view() == right.deep_view(),
    ensures
        left.line.deep_view() == right.line.deep_view(),
        left.style == right.style,
        left.alignment == right.alignment,
        left.hyperlinks@.len() == right.hyperlinks@.len(),
        0 <= index < left.hyperlinks@.len() ==> {
            let link = left.hyperlinks@[index];
            let other = right.hyperlinks@[index];
            &&& link.start_column == other.start_column
            &&& link.end_column == other.end_column
            &&& link.destination@ == other.destination@
        },
{
    assert(left.hyperlinks.deep_view().len() == right.hyperlinks.deep_view().len());
    if 0 <= index < left.hyperlinks@.len() {
        assert(left.hyperlinks.deep_view()[index] == right.hyperlinks.deep_view()[index]);
    }
}

/// Prepared lines that are told apart by nothing in their views are the same lines in the same rows.
pub proof fn law_the_view_of_prepared_lines_is_all_of_them(
    left: PreparedHistoryLines,
    right: PreparedHistoryLines,
)
    requires
        left.deep_view() == right.deep_view(),
    ensures
        left.lines.deep_view() == right.lines.deep_view(),
        left.wrap_width == right.wrap_width,
        left.row_count == right.row_count,
{
}

} // verus!
