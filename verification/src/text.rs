//! Measuring, cutting and writing plain text.

use ratatui::text::Span;
use unicode_segmentation::UnicodeSegmentation;

use vstd::prelude::*;

verus! {

/// The columns that ratatui gives a text.
pub uninterp spec fn display_width(text: Seq<char>) -> nat;

/// The extended grapheme clusters that unicode-segmentation finds in a text.
pub uninterp spec fn grapheme_clusters(text: Seq<char>) -> Seq<Seq<char>>;

/// The columns of `text`, as `ratatui::text::Span::width` counts them. Nothing is claimed of the
/// number beyond that it depends on the text alone.
#[verifier::external_body]
pub(crate) fn text_width(text: &str) -> (columns: usize)
    ensures
        columns == display_width(text@),
{
    Span::raw(text).width()
}

/// The clusters of `text`, as `UnicodeSegmentation::graphemes` yields the extended ones. Where the
/// clusters end is left to that function; joined in order they are the text.
#[verifier::external_body]
pub(crate) fn graphemes(text: &str) -> (clusters: Vec<String>)
    ensures
        clusters.deep_view() == grapheme_clusters(text@),
        clusters.deep_view().flatten_alt() == text@,
{
    text.graphemes(true).map(str::to_string).collect()
}

/// `String::push` of the standard library, which puts one character behind a text. It is asked for
/// only where the result stays below the largest capacity of a text.
pub assume_specification[ String::push ](text: &mut String, ch: char)
    requires
        vstd::utf8::encode_utf8(old(text)@).len() + 4 <= isize::MAX,
    ensures
        final(text)@ == old(text)@.push(ch),
;

/// A text of one character.
pub fn char_text(ch: char) -> (text: String)
    ensures
        text@ == seq![ch],
{
    let mut text = String::new();
    text.push(ch);
    assert(text@ =~= seq![ch]);
    text
}

/// Joining parts starts with the first of them.
pub proof fn lemma_flattened_first<T>(first: Seq<T>, rest: Seq<Seq<T>>)
    ensures
        (seq![first] + rest).flatten_alt() == first + rest.flatten_alt(),
    decreases rest.len(),
{
    let all = seq![first] + rest;
    if rest.len() == 0 {
        assert(all.drop_last() =~= Seq::<Seq<T>>::empty());
        assert(all.drop_last().flatten_alt() =~= Seq::<T>::empty());
        assert(all.flatten_alt() =~= first + rest.flatten_alt());
    } else {
        lemma_flattened_first(first, rest.drop_last());
        assert(all.drop_last() =~= seq![first] + rest.drop_last());
        assert(all.flatten_alt() =~= first + rest.flatten_alt());
    }
}

/// The text of `clusters`, cut to `max_clusters` of them. Where a cut leaves room for it, an
/// ellipsis of three dots takes the place of the last three.
pub open spec fn cut_to_clusters(clusters: Seq<Seq<char>>, max_clusters: nat) -> Seq<char> {
    if clusters.len() <= max_clusters {
        clusters.flatten_alt()
    } else if max_clusters >= 3 {
        clusters.take(max_clusters - 3).flatten_alt() + "..."@
    } else {
        clusters.take(max_clusters as int).flatten_alt()
    }
}

/// The first `count` of `clusters`, joined.
fn join_clusters(clusters: &Vec<String>, count: usize) -> (text: String)
    requires
        count <= clusters.len(),
    ensures
        text@ == clusters.deep_view().take(count as int).flatten_alt(),
{
    let mut text = String::new();
    let mut index: usize = 0;
    assert(clusters.deep_view().take(0).flatten_alt() =~= Seq::<char>::empty());
    while index < count
        invariant
            index <= count <= clusters.len(),
            text@ == clusters.deep_view().take(index as int).flatten_alt(),
        decreases count - index,
    {
        proof {
            let next = clusters.deep_view().take(index + 1);
            assert(next.drop_last() =~= clusters.deep_view().take(index as int));
        }
        text.append(clusters[index].as_str());
        index += 1;
    }
    text
}

/// Join `clusters`, cutting what goes beyond `max_clusters` of them.
pub fn truncate_clusters(clusters: &Vec<String>, max_clusters: usize) -> (text: String)
    ensures
        text@ == cut_to_clusters(clusters.deep_view(), max_clusters as nat),
{
    if clusters.len() <= max_clusters {
        assert(clusters.deep_view().take(clusters.len() as int) =~= clusters.deep_view());
        join_clusters(clusters, clusters.len())
    } else if max_clusters >= 3 {
        let mut text = join_clusters(clusters, max_clusters - 3);
        text.append("...");
        text
    } else {
        join_clusters(clusters, max_clusters)
    }
}

/// Cut `text` to `max_graphemes` grapheme clusters, so that no visible character is split.
pub fn truncate_text(text: &str, max_graphemes: usize) -> (truncated: String)
    ensures
        truncated@ == cut_to_clusters(grapheme_clusters(text@), max_graphemes as nat),
        grapheme_clusters(text@).len() <= max_graphemes ==> truncated@ == text@,
{
    let clusters = graphemes(text);
    truncate_clusters(&clusters, max_graphemes)
}

/// The character of a decimal digit.
pub open spec fn digit(value: nat) -> char {
    (0x30u32 + value) as char
}

/// The decimal notation of a number.
pub open spec fn decimal(number: nat) -> Seq<char>
    decreases number,
{
    if number < 10 {
        seq![digit(number)]
    } else {
        decimal(number / 10).push(digit(number % 10))
    }
}

/// The number that decimal digits stand for.
pub open spec fn number_of(digits: Seq<char>) -> nat
    decreases digits.len(),
{
    if digits.len() == 0 {
        0
    } else {
        10 * number_of(digits.drop_last()) + (digits.last() as int - 0x30) as nat
    }
}

/// A number in decimal notation reads as that number, is written in digits alone, and starts with a
/// zero only where it is zero.
pub proof fn law_decimal_notation_reads_as_the_number(number: nat)
    ensures
        number_of(decimal(number)) == number,
        decimal(number).len() > 0,
        forall|index: int|
            0 <= index < decimal(number).len() ==> '0' <= #[trigger] decimal(number)[index] <= '9',
        number > 0 ==> decimal(number)[0] != '0',
    decreases number,
{
    reveal_with_fuel(number_of, 2);
    if number < 10 {
        assert(seq![digit(number)].drop_last() =~= Seq::<char>::empty());
        assert(digit(number) as int == 0x30 + number);
    } else {
        law_decimal_notation_reads_as_the_number(number / 10);
        let leading = decimal(number / 10);
        assert(leading.push(digit(number % 10)).drop_last() =~= leading);
        assert(digit(number % 10) as int == 0x30 + number % 10);
    }
}

/// A text of no more clusters than there is room for stays as it is. Any other one is cut at a cluster,
/// never inside of one: it keeps its first clusters and, where there is room for that, gives up just
/// three of them for the dots that tell that it goes on.
pub proof fn law_a_cut_text_keeps_its_first_clusters(clusters: Seq<Seq<char>>, max_clusters: nat)
    ensures
        clusters.len() <= max_clusters ==> cut_to_clusters(clusters, max_clusters)
            == clusters.flatten_alt(),
        clusters.len() > max_clusters ==> exists|kept: int|
            0 <= kept <= max_clusters && {
                let beginning = #[trigger] clusters.take(kept).flatten_alt();
                ||| max_clusters < 3 && kept == max_clusters && cut_to_clusters(
                    clusters,
                    max_clusters,
                ) == beginning
                ||| max_clusters >= 3 && kept + 3 == max_clusters && cut_to_clusters(
                    clusters,
                    max_clusters,
                ) == beginning + seq!['.', '.', '.']
            },
{
    reveal_strlit("...");
    assert("..."@ =~= seq!['.', '.', '.']);
    if clusters.len() > max_clusters {
        let kept = if max_clusters >= 3 {
            max_clusters - 3
        } else {
            max_clusters as int
        };
        assert(clusters.take(kept).flatten_alt() == clusters.take(kept).flatten_alt());
    }
}

fn digit_text(value: usize) -> (text: &'static str)
    requires
        value < 10,
    ensures
        text@ == seq![digit(value as nat)],
{
    proof {
        reveal_strlit("0");
        reveal_strlit("1");
        reveal_strlit("2");
        reveal_strlit("3");
        reveal_strlit("4");
        reveal_strlit("5");
        reveal_strlit("6");
        reveal_strlit("7");
        reveal_strlit("8");
        reveal_strlit("9");
    }
    let text = match value {
        0 => "0",
        1 => "1",
        2 => "2",
        3 => "3",
        4 => "4",
        5 => "5",
        6 => "6",
        7 => "7",
        8 => "8",
        _ => "9",
    };
    assert(text@ =~= seq![digit(value as nat)]);
    text
}

/// Write `number` in decimal notation.
pub fn decimal_text(number: usize) -> (text: String)
    ensures
        text@ == decimal(number as nat),
    decreases number,
{
    if number < 10 {
        digit_text(number).to_owned()
    } else {
        let mut text = decimal_text(number / 10);
        text.append(digit_text(number % 10));
        assert(decimal((number / 10) as nat) + seq![digit((number % 10) as nat)]
            =~= decimal(number as nat));
        text
    }
}

} // verus!
