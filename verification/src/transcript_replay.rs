//! Transcripts that wait to be written anew.

use vstd::prelude::*;

use crate::content::Content;
use crate::history_lines::{
    mode_for_policy, prepare_history_hyperlink_lines, HistoryLineWrapPolicy, HyperlinkLine,
    InsertHistoryMode, LineView, PreparedHistoryLines, PreparedView,
};

verus! {

/// Lines of history that have not been written yet.
#[derive(Clone, Debug, PartialEq, Eq)]
pub struct PendingHistoryLines {
    pub lines: Vec<HyperlinkLine>,
    pub wrap_policy: HistoryLineWrapPolicy,
}

/// The screen that a transcript is written to.
#[derive(Clone, Copy, Debug, PartialEq, Eq, Structural)]
pub enum TranscriptReplayTarget {
    AlternateScreen,
    InlineViewport,
}

/// A transcript that waits to be written. Lines that follow each other under one policy form a
/// batch.
#[derive(Clone, Debug, PartialEq, Eq)]
pub struct PendingTranscriptReplay {
    pub target: TranscriptReplayTarget,
    pub history: Vec<PendingHistoryLines>,
}

/// Lines that are ready to be written in one manner.
#[derive(Clone, Debug, PartialEq, Eq)]
pub struct PreparedHistoryBatch {
    pub lines: PreparedHistoryLines,
    pub mode: InsertHistoryMode,
}

/// A transcript that is ready to be written.
#[derive(Clone, Debug, PartialEq, Eq)]
pub struct PreparedTranscriptReplay {
    pub history: Vec<PreparedHistoryBatch>,
}

#[verifier::ext_equal]
pub struct PendingBatchView {
    pub lines: Seq<LineView>,
    pub wrap_policy: HistoryLineWrapPolicy,
}

#[verifier::ext_equal]
pub struct ReplayView {
    pub target: TranscriptReplayTarget,
    pub history: Seq<PendingBatchView>,
}

#[verifier::ext_equal]
pub struct PreparedBatchView {
    pub lines: PreparedView,
    pub mode: InsertHistoryMode,
}

impl DeepView for PendingHistoryLines {
    type V = PendingBatchView;

    open spec fn deep_view(&self) -> PendingBatchView {
        PendingBatchView { lines: self.lines.deep_view(), wrap_policy: self.wrap_policy }
    }
}

impl DeepView for PendingTranscriptReplay {
    type V = ReplayView;

    open spec fn deep_view(&self) -> ReplayView {
        ReplayView { target: self.target, history: self.history.deep_view() }
    }
}

impl DeepView for PreparedHistoryBatch {
    type V = PreparedBatchView;

    open spec fn deep_view(&self) -> PreparedBatchView {
        PreparedBatchView { lines: self.lines.deep_view(), mode: self.mode }
    }
}

impl DeepView for PreparedTranscriptReplay {
    type V = Seq<PreparedBatchView>;

    open spec fn deep_view(&self) -> Seq<PreparedBatchView> {
        self.history.deep_view()
    }
}

/// Batches with more lines behind them, which join the last batch where the policy is the same.
pub open spec fn with_lines(
    history: Seq<PendingBatchView>,
    lines: Seq<LineView>,
    wrap_policy: HistoryLineWrapPolicy,
) -> Seq<PendingBatchView> {
    if lines.len() == 0 {
        history
    } else if history.len() > 0 && history.last().wrap_policy == wrap_policy {
        history.drop_last().push(
            PendingBatchView { lines: history.last().lines + lines, wrap_policy },
        )
    } else {
        history.push(PendingBatchView { lines, wrap_policy })
    }
}

/// The lines of all batches.
pub open spec fn all_lines(history: Seq<PendingBatchView>) -> Seq<LineView>
    decreases history.len(),
{
    if history.len() == 0 {
        Seq::empty()
    } else {
        all_lines(history.drop_last()) + history.last().lines
    }
}

/// The policy of each line of all batches.
pub open spec fn all_policies(history: Seq<PendingBatchView>) -> Seq<HistoryLineWrapPolicy>
    decreases history.len(),
{
    if history.len() == 0 {
        Seq::empty()
    } else {
        let last = history.last();
        all_policies(history.drop_last()) + Seq::new(last.lines.len(), |index: int| last.wrap_policy)
    }
}

/// Whether every batch has lines, and neighbours differ in their policy.
pub open spec fn is_batched(history: Seq<PendingBatchView>) -> bool {
    &&& forall|index: int| 0 <= index < history.len() ==> (#[trigger] history[index]).lines.len() > 0
    &&& forall|index: int, next: int|
        0 <= index < history.len() && next == index + 1 && next < history.len() ==> (
        #[trigger] history[index]).wrap_policy != (#[trigger] history[next]).wrap_policy
}

/// Batches as they are written, each with its lines wrapped as its policy asks.
pub open spec fn prepared_batches(
    history: Seq<PendingBatchView>,
    wrapped: Seq<Seq<LineView>>,
    wrap_width: usize,
    is_zellij: bool,
) -> Seq<PreparedBatchView> {
    Seq::new(
        history.len(),
        |index: int|
            PreparedBatchView {
                lines: crate::history_lines::prepared_lines(wrapped[index], wrap_width),
                mode: crate::history_lines::insert_mode(is_zellij, history[index].wrap_policy),
            },
    )
}

/// Appending lines to batches appends them to all lines, under the policy that they are appended
/// with. The other lines keep theirs.
pub proof fn law_appended_lines_follow_the_others(
    history: Seq<PendingBatchView>,
    lines: Seq<LineView>,
    wrap_policy: HistoryLineWrapPolicy,
)
    ensures
        all_lines(with_lines(history, lines, wrap_policy)) == all_lines(history) + lines,
        all_policies(with_lines(history, lines, wrap_policy)) == all_policies(history) + Seq::new(
            lines.len(),
            |index: int| wrap_policy,
        ),
{
    let joined = with_lines(history, lines, wrap_policy);
    let policies = Seq::new(lines.len(), |index: int| wrap_policy);
    if lines.len() == 0 {
        assert(all_lines(history) + lines =~= all_lines(history));
        assert(all_policies(history) + policies =~= all_policies(history));
    } else if history.len() > 0 && history.last().wrap_policy == wrap_policy {
        assert(joined.drop_last() =~= history.drop_last());
        assert(all_lines(joined) =~= all_lines(history) + lines);
        assert(all_policies(joined) =~= all_policies(history) + policies);
    } else {
        assert(joined.drop_last() =~= history);
        assert(all_policies(joined) =~= all_policies(history) + policies);
    }
}

/// All lines are the lines of each batch, one batch behind the other: none is lost, none comes twice.
pub proof fn law_all_lines_are_those_of_every_batch(history: Seq<PendingBatchView>)
    ensures
        all_lines(history) == history.map_values(|batch: PendingBatchView| batch.lines).flatten_alt(),
        all_policies(history).len() == all_lines(history).len(),
    decreases history.len(),
{
    let lines = history.map_values(|batch: PendingBatchView| batch.lines);
    if history.len() > 0 {
        law_all_lines_are_those_of_every_batch(history.drop_last());
        assert(lines.drop_last() =~= history.drop_last().map_values(
            |batch: PendingBatchView| batch.lines,
        ));
    }
}

/// Every batch is prepared with its own lines: what is prepared holds, batch by batch and in their
/// order, exactly the lines that the waiting batches were wrapped to, for the same columns. None is
/// lost, none comes twice, and each batch goes in the manner that its own policy calls for.
pub proof fn law_every_batch_is_prepared_with_its_own_lines(
    history: Seq<PendingBatchView>,
    wrapped: Seq<Seq<LineView>>,
    wrap_width: usize,
    is_zellij: bool,
)
    requires
        wrapped.len() == history.len(),
    ensures
        ({
            let prepared = prepared_batches(history, wrapped, wrap_width, is_zellij);
            &&& prepared.len() == history.len()
            &&& prepared.map_values(|batch: PreparedBatchView| batch.lines.lines) == wrapped
            &&& prepared.map_values(
                |batch: PreparedBatchView| batch.lines.lines,
            ).flatten_alt() == wrapped.flatten_alt()
            &&& forall|index: int|
                #![trigger prepared[index]]
                0 <= index < prepared.len() ==> {
                    &&& prepared[index].lines.lines == wrapped[index]
                    &&& prepared[index].lines.wrap_width == wrap_width
                    &&& prepared[index].lines.row_count == crate::numbers::clamped(
                        crate::history_lines::total_rows(wrapped[index], wrap_width as nat),
                    )
                    &&& prepared[index].mode == if is_zellij && history[index].wrap_policy
                        == HistoryLineWrapPolicy::Terminal {
                        InsertHistoryMode::ZellijRaw
                    } else {
                        InsertHistoryMode::Standard
                    }
                }
        }),
{
    let prepared = prepared_batches(history, wrapped, wrap_width, is_zellij);
    assert(prepared.map_values(|batch: PreparedBatchView| batch.lines.lines) =~= wrapped);
}

/// Appending lines keeps batches as large as their policies allow.
pub proof fn law_batches_stay_as_large_as_possible(
    history: Seq<PendingBatchView>,
    lines: Seq<LineView>,
    wrap_policy: HistoryLineWrapPolicy,
)
    requires
        is_batched(history),
    ensures
        is_batched(with_lines(history, lines, wrap_policy)),
{
    let joined = with_lines(history, lines, wrap_policy);
    assert forall|index: int| 0 <= index < joined.len() implies (#[trigger] joined[index]).lines.len()
        > 0 by {
        if index < history.len() {
            assert(history[index].lines.len() > 0);
        }
    }
    assert forall|index: int, next: int|
        0 <= index < joined.len() && next == index + 1 && next < joined.len() implies (
    #[trigger] joined[index]).wrap_policy != (#[trigger] joined[next]).wrap_policy by {
        if next < history.len() {
            assert(history[index].wrap_policy != history[next].wrap_policy);
        }
    }
}

impl PendingTranscriptReplay {
    pub fn new(
        target: TranscriptReplayTarget,
        lines: Vec<HyperlinkLine>,
        wrap_policy: HistoryLineWrapPolicy,
    ) -> (replay: Self)
        ensures
            replay.deep_view() == (ReplayView {
                target,
                history: with_lines(Seq::empty(), lines.deep_view(), wrap_policy),
            }),
    {
        let mut replay = PendingTranscriptReplay { target, history: Vec::new() };
        assert(replay.history.deep_view() =~= Seq::<PendingBatchView>::empty());
        replay.append(lines, wrap_policy);
        replay
    }

    /// Put more lines behind those that wait.
    pub fn append(&mut self, lines: Vec<HyperlinkLine>, wrap_policy: HistoryLineWrapPolicy)
        ensures
            final(self).deep_view() == (ReplayView {
                history: with_lines(
                    old(self).deep_view().history,
                    lines.deep_view(),
                    wrap_policy,
                ),
                ..old(self).deep_view()
            }),
    {
        if lines.len() == 0 {
            return;
        }
        let ghost before = self.history.deep_view();
        let ghost added = lines.deep_view();
        let joins_last = self.history.len() > 0 && self.history[self.history.len() - 1].wrap_policy
            == wrap_policy;
        if joins_last {
            match self.history.pop() {
                Some(mut last) => {
                    let ghost earlier = last.deep_view();
                    assert(self.history.deep_view() =~= before.drop_last());
                    let mut lines = lines;
                    last.lines.append(&mut lines);
                    assert(last.lines.deep_view() =~= earlier.lines + added);
                    let ghost joined = last.deep_view();
                    self.history.push(last);
                    assert(self.history.deep_view() =~= before.drop_last().push(joined));
                },
                None => {},
            }
        } else {
            let batch = PendingHistoryLines { lines, wrap_policy };
            let ghost pushed = batch.deep_view();
            self.history.push(batch);
            assert(self.history.deep_view() =~= before.push(pushed));
        }
    }

    /// Get the batches ready for `wrap_width` columns. The lines of each batch are handed over as
    /// its policy has them wrapped.
    pub fn prepare(&self, wrapped: Vec<Vec<HyperlinkLine>>, wrap_width: usize, is_zellij: bool) -> (
        prepared: PreparedTranscriptReplay)
        requires
            wrap_width > 0,
            wrapped.len() == self.deep_view().history.len(),
        ensures
            prepared.deep_view() == prepared_batches(
                self.deep_view().history,
                wrapped.deep_view(),
                wrap_width,
                is_zellij,
            ),
    {
        let ghost expected = prepared_batches(
            self.deep_view().history,
            wrapped.deep_view(),
            wrap_width,
            is_zellij,
        );
        let mut history: Vec<PreparedHistoryBatch> = Vec::new();
        let mut index: usize = 0;
        while index < self.history.len()
            invariant
                wrap_width > 0,
                index <= self.history.len(),
                wrapped.len() == self.history.len(),
                expected == prepared_batches(
                    self.deep_view().history,
                    wrapped.deep_view(),
                    wrap_width,
                    is_zellij,
                ),
                history.deep_view() == expected.take(index as int),
            decreases self.history.len() - index,
        {
            let ghost before = history.deep_view();
            let batch = PreparedHistoryBatch {
                lines: prepare_history_hyperlink_lines(wrapped[index].duplicate(), wrap_width),
                mode: mode_for_policy(is_zellij, self.history[index].wrap_policy),
            };
            let ghost pushed = batch.deep_view();
            history.push(batch);
            proof {
                assert(self.deep_view().history[index as int] == self.history@[index as int]
                    .deep_view());
                assert(wrapped.deep_view()[index as int] == wrapped@[index as int].deep_view());
                assert(pushed =~= expected[index as int]);
                assert(history.deep_view() =~= before.push(pushed));
                assert(history.deep_view() =~= expected.take(index + 1));
            }
            index += 1;
        }
        assert(expected.take(index as int) =~= expected);
        PreparedTranscriptReplay { history }
    }

    /// A copy of all lines that wait.
    pub fn lines(&self) -> (lines: Vec<HyperlinkLine>)
        ensures
            lines.deep_view() == all_lines(self.deep_view().history),
    {
        copy_pending_lines(&self.history)
    }
}

/// A copy of the lines of all batches.
pub fn copy_pending_lines(history: &Vec<PendingHistoryLines>) -> (lines: Vec<HyperlinkLine>)
    ensures
        lines.deep_view() == all_lines(history.deep_view()),
{
    let ghost batches = history.deep_view();
    let mut lines: Vec<HyperlinkLine> = Vec::new();
    let mut index: usize = 0;
    assert(lines.deep_view() =~= all_lines(batches.take(0)));
    while index < history.len()
        invariant
            index <= history.len(),
            batches == history.deep_view(),
            lines.deep_view() == all_lines(batches.take(index as int)),
        decreases history.len() - index,
    {
        let ghost before = lines.deep_view();
        let mut copy = history[index].lines.duplicate();
        let ghost added = copy.deep_view();
        lines.append(&mut copy);
        proof {
            assert(lines.deep_view() =~= before + added);
            assert(batches.take(index + 1).drop_last() =~= batches.take(index as int));
        }
        index += 1;
    }
    assert(batches.take(index as int) =~= batches);
    lines
}

/// Batches that are told apart by nothing in their views have the same lines, policies and modes, and
/// wait for the same place.
pub proof fn law_the_views_of_batches_are_all_of_them(
    pending: PendingHistoryLines,
    other_pending: PendingHistoryLines,
    replay: PendingTranscriptReplay,
    other_replay: PendingTranscriptReplay,
    prepared: PreparedHistoryBatch,
    other_prepared: PreparedHistoryBatch,
)
    ensures
        pending.deep_view() == other_pending.deep_view() ==> pending.lines.deep_view()
            == other_pending.lines.deep_view() && pending.wrap_policy == other_pending.wrap_policy,
        replay.deep_view() == other_replay.deep_view() ==> replay.target == other_replay.target
            && replay.history.deep_view() == other_replay.history.deep_view(),
        prepared.deep_view() == other_prepared.deep_view() ==> prepared.lines.deep_view()
            == other_prepared.lines.deep_view() && prepared.mode == other_prepared.mode,
{
}

} // verus!
