//! Lines of styled text, and cutting them to a width.

use vstd::prelude::*;

use crate::content::Content;

verus! {

#[derive(Clone, Copy, Debug, PartialEq, Eq, Structural)]
pub enum TextColor {
    /// The terminal's own color.
    Terminal,
    Black,
    Red,
    Green,
    Yellow,
    Blue,
    Magenta,
    Cyan,
    Gray,
    DarkGray,
    LightRed,
    LightGreen,
    LightYellow,
    LightBlue,
    LightMagenta,
    LightCyan,
    White,
    Indexed(u8),
    Rgb(u8, u8, u8),
}

/// How a span is shown.
#[derive(Clone, Copy, Debug, PartialEq, Eq, Structural)]
pub struct SpanStyle {
    pub foreground: TextColor,
    pub background: TextColor,
    /// The color of the line below the text; the terminal's own one is that of the text.
    pub underline_color: TextColor,
    pub bold: bool,
    pub dim: bool,
    pub italic: bool,
    pub underlined: bool,
    pub slow_blink: bool,
    pub rapid_blink: bool,
    pub reversed: bool,
    pub hidden: bool,
    pub crossed_out: bool,
}

/// Where a line stands in the columns it is given.
#[derive(Clone, Copy, Debug, PartialEq, Eq, Structural)]
pub enum LineAlignment {
    Left,
    Center,
    Right,
}

/// A text in one style.
#[derive(Clone, Debug, PartialEq, Eq)]
pub struct StyledSpan {
    pub text: String,
    pub style: SpanStyle,
}

/// Spans shown one after the other.
#[derive(Clone, Debug, PartialEq, Eq)]
pub struct StyledLine {
    pub spans: Vec<StyledSpan>,
}

#[verifier::ext_equal]
pub struct SpanView {
    pub text: Seq<char>,
    pub style: SpanStyle,
}

impl DeepView for StyledSpan {
    type V = SpanView;

    open spec fn deep_view(&self) -> SpanView {
        SpanView { text: self.text@, style: self.style }
    }
}

impl DeepView for StyledLine {
    type V = Seq<SpanView>;

    open spec fn deep_view(&self) -> Seq<SpanView> {
        self.spans.deep_view()
    }
}

impl Content for StyledSpan {
    fn duplicate(&self) -> (copy: Self) {
        StyledSpan { text: self.text.duplicate(), style: self.style }
    }

    fn same_as(&self, other: &Self) -> (same: bool) {
        self.style == other.style && self.text.same_as(&other.text)
    }
}

impl Content for StyledLine {
    fn duplicate(&self) -> (copy: Self) {
        StyledLine { spans: self.spans.duplicate() }
    }

    fn same_as(&self, other: &Self) -> (same: bool) {
        self.spans.same_as(&other.spans)
    }
}

/// Text as the terminal shows it by itself.
pub open spec fn plain_style() -> SpanStyle {
    SpanStyle {
        foreground: TextColor::Terminal,
        background: TextColor::Terminal,
        underline_color: TextColor::Terminal,
        bold: false,
        dim: false,
        italic: false,
        underlined: false,
        slow_blink: false,
        rapid_blink: false,
        reversed: false,
        hidden: false,
        crossed_out: false,
    }
}

pub open spec fn bold_style() -> SpanStyle {
    SpanStyle { bold: true, ..plain_style() }
}

pub open spec fn dim_style() -> SpanStyle {
    SpanStyle { dim: true, ..plain_style() }
}

/// The columns of a line.
pub open spec fn line_width(spans: Seq<SpanView>) -> nat {
    crate::numbers::sum(
        spans.map_values(|span: SpanView| crate::text::display_width(span.text)),
    )
}

/// The leading characters of `text` that fit into `columns`, counted one by one.
pub open spec fn fitting_prefix(text: Seq<char>, columns: nat) -> Seq<char>
    decreases text.len(),
{
    if text.len() == 0 || crate::text::display_width(seq![text[0]]) > columns {
        Seq::empty()
    } else {
        seq![text[0]] + fitting_prefix(
            text.drop_first(),
            (columns - crate::text::display_width(seq![text[0]])) as nat,
        )
    }
}

/// The leading spans that fit into `columns`, the last of them cut where it has to be. Spans
/// without width take part wherever they stand before the cut.
pub open spec fn fitting_spans(spans: Seq<SpanView>, columns: nat) -> Seq<SpanView>
    decreases spans.len(),
{
    if spans.len() == 0 {
        Seq::empty()
    } else {
        let span = spans[0];
        let width = crate::text::display_width(span.text);
        if width == 0 || width <= columns {
            seq![span] + fitting_spans(spans.drop_first(), (columns - width) as nat)
        } else if columns == 0 {
            Seq::empty()
        } else {
            let cut = fitting_prefix(span.text, columns);
            if cut.len() == 0 {
                Seq::empty()
            } else {
                seq![SpanView { text: cut, ..span }]
            }
        }
    }
}

/// The style that a line ends in.
pub open spec fn closing_style(spans: Seq<SpanView>) -> SpanStyle {
    if spans.len() == 0 {
        plain_style()
    } else {
        spans.last().style
    }
}

/// The line itself where it fits into `columns`, and otherwise what fits beside an ellipsis in the
/// style that it is cut in.
pub open spec fn line_cut_to(spans: Seq<SpanView>, columns: nat) -> Seq<SpanView> {
    if columns == 0 {
        Seq::empty()
    } else if line_width(spans) <= columns {
        spans
    } else {
        let kept = fitting_spans(spans, (columns - 1) as nat);
        kept.push(SpanView { text: "\u{2026}"@, style: closing_style(kept) })
    }
}

/// A line is as wide as its spans one behind the other.
pub proof fn law_a_line_is_as_wide_as_its_spans(spans: Seq<SpanView>, next: SpanView)
    ensures
        line_width(Seq::empty()) == 0,
        line_width(spans.push(next)) == line_width(spans) + crate::text::display_width(next.text),
{
    let width = |span: SpanView| crate::text::display_width(span.text);
    assert(spans.push(next).map_values(width).drop_last() =~= spans.map_values(width));
    assert(Seq::<SpanView>::empty().map_values(width) =~= Seq::<nat>::empty());
}

/// The columns of characters, counted one by one.
pub open spec fn counted_columns(text: Seq<char>) -> nat
    decreases text.len(),
{
    if text.len() == 0 {
        0
    } else {
        crate::text::display_width(seq![text[0]]) + counted_columns(text.drop_first())
    }
}

/// The beginning of a text that is kept is a beginning of it, takes no more columns than there are, and
/// could not be longer by a character.
pub proof fn law_as_much_of_a_text_is_kept_as_fits(text: Seq<char>, columns: nat)
    ensures
        ({
            let kept = fitting_prefix(text, columns);
            &&& kept.len() <= text.len()
            &&& kept == text.take(kept.len() as int)
            &&& counted_columns(kept) <= columns
            &&& kept.len() < text.len() ==> counted_columns(text.take(kept.len() as int + 1)) > columns
        }),
    decreases text.len(),
{
    let kept = fitting_prefix(text, columns);
    if text.len() == 0 || crate::text::display_width(seq![text[0]]) > columns {
        assert(kept =~= text.take(0));
        if text.len() > 0 {
            reveal_with_fuel(counted_columns, 2);
            assert(text.take(1).drop_first() =~= Seq::<char>::empty());
            assert(text.take(1)[0] == text[0]);
        }
    } else {
        let left = (columns - crate::text::display_width(seq![text[0]])) as nat;
        let rest = text.drop_first();
        law_as_much_of_a_text_is_kept_as_fits(rest, left);
        let tail = fitting_prefix(rest, left);
        assert(kept =~= text.take(kept.len() as int));
        assert(kept.drop_first() =~= tail);
        if kept.len() < text.len() {
            let longer = text.take(kept.len() as int + 1);
            assert(longer.drop_first() =~= rest.take(tail.len() as int + 1));
            assert(longer[0] == text[0]);
        }
    }
}

/// The beginning of a line that is kept are its first spans in their styles, of which only the last one
/// can be cut, to a beginning of its text; and a line that fits is kept as it is.
pub proof fn law_the_beginning_of_a_line_is_kept(spans: Seq<SpanView>, columns: nat)
    ensures
        ({
            let kept = fitting_spans(spans, columns);
            &&& kept.len() <= spans.len()
            &&& forall|index: int|
                0 <= index < kept.len() - 1 ==> #[trigger] kept[index] == spans[index]
            &&& kept.len() > 0 ==> {
                let last = kept.len() - 1;
                &&& kept[last].style == spans[last].style
                &&& kept[last].text.len() <= spans[last].text.len()
                &&& kept[last].text == spans[last].text.take(kept[last].text.len() as int)
            }
            &&& line_width(spans) <= columns ==> kept == spans
        }),
    decreases spans.len(),
{
    let kept = fitting_spans(spans, columns);
    if spans.len() > 0 {
        let span = spans[0];
        let width = crate::text::display_width(span.text);
        let rest = spans.drop_first();
        let each = |span: SpanView| crate::text::display_width(span.text);
        crate::numbers::lemma_sum_drop_first(spans.map_values(each));
        assert(spans.map_values(each).drop_first() =~= rest.map_values(each));
        assert(span.text.take(span.text.len() as int) =~= span.text);
        if width == 0 || width <= columns {
            law_the_beginning_of_a_line_is_kept(rest, (columns - width) as nat);
            let tail = fitting_spans(rest, (columns - width) as nat);
            assert forall|index: int| 0 <= index < kept.len() - 1 implies #[trigger] kept[index]
                == spans[index] by {
                if index > 0 {
                    assert(kept[index] == tail[index - 1]);
                    assert(rest[index - 1] == spans[index]);
                }
            }
            if tail.len() > 0 {
                assert(kept[kept.len() - 1] == tail[tail.len() - 1]);
                assert(rest[tail.len() - 1] == spans[kept.len() - 1]);
            }
            if line_width(spans) <= columns {
                assert(tail == rest);
                assert(kept =~= spans);
            }
        } else if columns > 0 {
            law_as_much_of_a_text_is_kept_as_fits(span.text, columns);
        }
    } else {
        assert(kept =~= spans);
    }
}

/// Every span that fits is kept whole. The first one that does not is kept as far as its characters fit
/// into the columns that are left, and nothing behind it is kept.
pub proof fn law_every_span_that_fits_is_kept(spans: Seq<SpanView>, columns: nat, whole: int)
    requires
        0 <= whole < spans.len(),
        line_width(spans.take(whole)) <= columns < line_width(spans.take(whole + 1)),
    ensures
        ({
            let kept = fitting_spans(spans, columns);
            let left = (columns - line_width(spans.take(whole))) as nat;
            let beginning = fitting_prefix(spans[whole].text, left);
            &&& kept.len() == whole || kept.len() == whole + 1
            &&& kept.take(whole) == spans.take(whole)
            &&& kept.len() == whole + 1 <==> left > 0 && beginning.len() > 0
            &&& kept.len() == whole + 1 ==> kept[whole].text == beginning && kept[whole].style
                == spans[whole].style
        }),
    decreases spans.len(),
{
    let kept = fitting_spans(spans, columns);
    let width = crate::text::display_width(spans[0].text);
    let rest = spans.drop_first();
    law_a_line_is_as_wide_as_its_spans(Seq::empty(), spans[0]);
    assert(Seq::<SpanView>::empty().push(spans[0]) =~= spans.take(1));
    if whole == 0 {
        assert(spans.take(0) =~= Seq::<SpanView>::empty());
        assert(kept.take(0) =~= spans.take(0));
    } else {
        lemma_the_first_span_and_the_rest(spans.take(whole));
        lemma_the_first_span_and_the_rest(spans.take(whole + 1));
        assert(spans.take(whole).drop_first() =~= rest.take(whole - 1));
        assert(spans.take(whole + 1).drop_first() =~= rest.take(whole));
        let others = fitting_spans(rest, (columns - width) as nat);
        law_every_span_that_fits_is_kept(rest, (columns - width) as nat, whole - 1);
        assert(kept =~= seq![spans[0]] + others);
        assert(kept.take(whole) =~= seq![spans[0]] + others.take(whole - 1));
        assert(spans.take(whole) =~= seq![spans[0]] + rest.take(whole - 1));
    }
}

/// A line is as wide as its first span and the others.
proof fn lemma_the_first_span_and_the_rest(spans: Seq<SpanView>)
    requires
        spans.len() > 0,
    ensures
        line_width(spans) == crate::text::display_width(spans[0].text) + line_width(
            spans.drop_first(),
        ),
{
    let each = |span: SpanView| crate::text::display_width(span.text);
    crate::numbers::lemma_sum_drop_first(spans.map_values(each));
    assert(spans.map_values(each).drop_first() =~= spans.drop_first().map_values(each));
}

/// A line ends in the style of its last span, and an empty one in no style at all.
pub proof fn law_a_line_ends_in_the_style_of_its_last_span(spans: Seq<SpanView>, last: SpanView)
    ensures
        closing_style(spans.push(last)) == last.style,
        closing_style(Seq::empty()) == plain_style(),
{
}

/// A line that fits is shown as it is. One that does not ends in an ellipsis in the style that it is cut
/// in, behind as much of its beginning as leaves a column for it. Without columns nothing is shown.
pub proof fn law_a_line_that_goes_on_ends_in_an_ellipsis(spans: Seq<SpanView>, columns: nat)
    ensures
        columns == 0 ==> line_cut_to(spans, columns).len() == 0,
        columns > 0 && line_width(spans) <= columns ==> line_cut_to(spans, columns) == spans,
        columns > 0 && line_width(spans) > columns ==> {
            let cut = line_cut_to(spans, columns);
            let kept = fitting_spans(spans, (columns - 1) as nat);
            &&& cut.len() == kept.len() + 1
            &&& cut.drop_last() == kept
            &&& cut.last().text == seq!['\u{2026}']
            &&& kept.len() > 0 ==> cut.last().style == kept.last().style
            &&& kept.len() == 0 ==> cut.last().style == plain_style()
        },
{
    reveal_strlit("\u{2026}");
    assert("\u{2026}"@ =~= seq!['\u{2026}']);
    if columns > 0 && line_width(spans) > columns {
        let kept = fitting_spans(spans, (columns - 1) as nat);
        assert(line_cut_to(spans, columns).drop_last() =~= kept);
    }
}

/// Plain text has the terminal's own colors and no mark, and bold and dim text differ from it in that
/// alone.
pub proof fn law_plain_text_has_no_marks(style: SpanStyle)
    ensures
        style == plain_style() <==> style.foreground == TextColor::Terminal && style.background
            == TextColor::Terminal && style.underline_color == TextColor::Terminal && !style.bold
            && !style.dim && !style.italic && !style.underlined && !style.slow_blink
            && !style.rapid_blink && !style.reversed && !style.hidden && !style.crossed_out,
        bold_style() == (SpanStyle { bold: true, ..plain_style() }),
        dim_style() == (SpanStyle { dim: true, ..plain_style() }),
{
}

/// Spans that are told apart by nothing in their views have the same text and style.
pub proof fn law_the_view_of_a_span_is_all_of_it(left: StyledSpan, right: StyledSpan)
    ensures
        left.deep_view() == right.deep_view() <==> left.text@ == right.text@ && left.style
            == right.style,
{
}

impl SpanStyle {
    pub fn plain() -> (style: Self)
        ensures
            style == plain_style(),
    {
        SpanStyle {
            foreground: TextColor::Terminal,
            background: TextColor::Terminal,
            underline_color: TextColor::Terminal,
            bold: false,
            dim: false,
            italic: false,
            underlined: false,
            slow_blink: false,
            rapid_blink: false,
            reversed: false,
            hidden: false,
            crossed_out: false,
        }
    }

    pub fn bold() -> (style: Self)
        ensures
            style == bold_style(),
    {
        SpanStyle { bold: true, ..SpanStyle::plain() }
    }

    pub fn dim() -> (style: Self)
        ensures
            style == dim_style(),
    {
        SpanStyle { dim: true, ..SpanStyle::plain() }
    }
}

impl StyledSpan {
    pub fn new(text: String, style: SpanStyle) -> (span: Self)
        ensures
            span.deep_view() == (SpanView { text: text@, style }),
    {
        StyledSpan { text, style }
    }
}

impl StyledLine {
    /// The columns of the line, clamped to a machine word.
    pub fn width(&self) -> (columns: usize)
        ensures
            columns == crate::numbers::clamped(line_width(self.deep_view())),
    {
        let ghost widths = self.deep_view().map_values(
            |span: SpanView| crate::text::display_width(span.text),
        );
        let mut columns: usize = 0;
        let mut index: usize = 0;
        while index < self.spans.len()
            invariant
                index <= self.spans.len(),
                widths == self.deep_view().map_values(
                    |span: SpanView| crate::text::display_width(span.text),
                ),
                columns == crate::numbers::clamped(
                    crate::numbers::sum(widths.take(index as int)),
                ),
            decreases self.spans.len() - index,
        {
            proof {
                crate::numbers::lemma_sum_step(widths, index as int);
            }
            columns = columns.saturating_add(
                crate::text::text_width(self.spans[index].text.as_str()),
            );
            index += 1;
        }
        assert(widths.take(index as int) =~= widths);
        columns
    }

    /// The style that the line ends in.
    pub fn closing_style(&self) -> (style: SpanStyle)
        ensures
            style == closing_style(self.deep_view()),
    {
        if self.spans.len() == 0 {
            SpanStyle::plain()
        } else {
            self.spans[self.spans.len() - 1].style
        }
    }
}

/// The leading characters of `text` that fit into `columns`.
fn take_fitting_prefix(text: &str, columns: usize) -> (prefix: String)
    ensures
        prefix@ == fitting_prefix(text@, columns as nat),
{
    let length: usize = text.unicode_len();
    let mut left: usize = columns;
    let mut taken: usize = 0;
    assert(text@.skip(0) =~= text@);
    assert(text@.take(0) + fitting_prefix(text@, columns as nat) =~= fitting_prefix(
        text@,
        columns as nat,
    ));
    while taken < length
        invariant_except_break
            taken <= length,
            length == text@.len(),
            text@.take(taken as int) + fitting_prefix(text@.skip(taken as int), left as nat)
                == fitting_prefix(text@, columns as nat),
        ensures
            taken <= length,
            length == text@.len(),
            text@.take(taken as int) == fitting_prefix(text@, columns as nat),
        decreases length - taken,
    {
        let ghost rest = text@.skip(taken as int);
        let character = text.substring_char(taken, taken + 1);
        assert(character@ =~= seq![rest[0]]);
        let width: usize = crate::text::text_width(character);
        if width > left {
            assert(text@.take(taken as int) + Seq::<char>::empty() =~= text@.take(taken as int));
            break;
        }
        proof {
            assert(rest.drop_first() =~= text@.skip(taken + 1));
            let tail = fitting_prefix(text@.skip(taken + 1), (left - width) as nat);
            assert(text@.take(taken + 1) + tail =~= text@.take(taken as int) + (seq![rest[0]]
                + tail));
        }
        left = left - width;
        taken += 1;
        proof {
            if taken == length {
                assert(text@.skip(taken as int) =~= Seq::<char>::empty());
                assert(text@.take(taken as int) + Seq::<char>::empty() =~= text@.take(
                    taken as int,
                ));
            }
        }
    }
    text.substring_char(0, taken).to_owned()
}

/// The leading spans of `line` that fit into `columns`.
pub fn truncate_line_to_width(line: &StyledLine, columns: usize) -> (truncated: StyledLine)
    ensures
        truncated.deep_view() == fitting_spans(line.deep_view(), columns as nat),
{
    let mut kept: Vec<StyledSpan> = Vec::new();
    let mut left: usize = columns;
    let mut index: usize = 0;
    let ghost spans = line.deep_view();
    assert(spans.skip(0) =~= spans);
    assert(kept.deep_view() + fitting_spans(spans, columns as nat) =~= fitting_spans(
        spans,
        columns as nat,
    ));
    while index < line.spans.len()
        invariant
            index <= line.spans.len(),
            spans == line.deep_view(),
            kept.deep_view() + fitting_spans(spans.skip(index as int), left as nat)
                == fitting_spans(spans, columns as nat),
        decreases line.spans.len() - index,
    {
        let span = &line.spans[index];
        let ghost rest = spans.skip(index as int);
        let ghost before = kept.deep_view();
        let width: usize = crate::text::text_width(span.text.as_str());
        assert(rest[0] == span.deep_view());
        if width == 0 || width <= left {
            let copy = span.duplicate();
            let ghost copied = copy;
            kept.push(copy);
            proof {
                assert(rest.drop_first() =~= spans.skip(index + 1));
                let tail = fitting_spans(spans.skip(index + 1), (left - width) as nat);
                assert(kept.deep_view() =~= before.push(copied.deep_view()));
                assert(kept.deep_view() + tail =~= before + (seq![rest[0]] + tail));
            }
            left = left - width;
            index += 1;
        } else if left == 0 {
            assert(before + Seq::<SpanView>::empty() =~= before);
            return StyledLine { spans: kept };
        } else {
            let cut = take_fitting_prefix(span.text.as_str(), left);
            if cut.as_str().is_empty() {
                assert(before + Seq::<SpanView>::empty() =~= before);
            } else {
                let part = StyledSpan { text: cut, style: span.style };
                let ghost parted = part;
                kept.push(part);
                assert(kept.deep_view() =~= before + seq![parted.deep_view()]);
            }
            return StyledLine { spans: kept };
        }
    }
    assert(spans.skip(index as int) =~= Seq::<SpanView>::empty());
    assert(kept.deep_view() + Seq::<SpanView>::empty() =~= kept.deep_view());
    StyledLine { spans: kept }
}

/// Cut `line` to `columns` where it is wider, and show with an ellipsis that it goes on.
pub fn truncate_line_with_ellipsis_if_overflow(line: StyledLine, columns: u16) -> (cut:
    StyledLine)
    ensures
        cut.deep_view() == line_cut_to(line.deep_view(), columns as nat),
{
    if columns == 0 {
        let empty: Vec<StyledSpan> = Vec::new();
        assert(empty.deep_view() =~= Seq::<SpanView>::empty());
        return StyledLine { spans: empty };
    }
    if line.width() <= columns as usize {
        return line;
    }
    let mut truncated = truncate_line_to_width(&line, columns as usize - 1);
    let style = truncated.closing_style();
    let ghost kept = truncated.deep_view();
    let ellipsis = StyledSpan { text: "\u{2026}".to_owned(), style };
    let ghost closing = ellipsis;
    truncated.spans.push(ellipsis);
    assert(truncated.deep_view() =~= kept.push(closing.deep_view()));
    truncated
}

} // verus!
