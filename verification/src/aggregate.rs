//! The stream aggregator: folds the lazy sequence of protocol chunks into
//! cumulative, UI-ready updates.
//!
//! Each delivered update replaces, not appends to, the displayed content;
//! the accumulator owns the concatenation. Every send reaches a terminal
//! update exactly once, on success or on failure, and nothing is emitted
//! after the terminal update.

use vstd::prelude::*;

use crate::api::ResponseUsage;
use crate::api::StreamingBuffer;
use crate::api::StreamingBufferModel;

verus! {

/// The prefix that marks an update's content as an error report rather
/// than model output.
pub open spec fn stream_error_token() -> Seq<char> {
    "Err\u{274}r:"@
}

/// One cumulative update delivered to the UI loop. `content` is the full
/// reconstruction of the response so far, never an increment.
#[derive(Clone, Debug)]
pub struct StreamingDelta {
    pub content: String,
    pub is_complete: bool,
    pub usage: Option<ResponseUsage>,
}

/// Spec model of a `StreamingDelta`.
pub struct StreamingDeltaModel {
    pub content: Seq<char>,
    pub is_complete: bool,
    pub usage: Option<ResponseUsage>,
}

impl DeepView for StreamingDelta {
    type V = StreamingDeltaModel;

    open spec fn deep_view(&self) -> StreamingDeltaModel {
        StreamingDeltaModel {
            content: self.content@,
            is_complete: self.is_complete,
            usage: self.usage,
        }
    }
}

/// Spec model of a `StreamAccumulator`.
pub struct AccumulatorModel {
    pub content: Seq<char>,
    pub usage: Option<ResponseUsage>,
    pub finished: bool,
}

impl AccumulatorModel {
    /// The state a fresh accumulator starts in.
    pub open spec fn fresh() -> AccumulatorModel {
        AccumulatorModel { content: Seq::empty(), usage: None, finished: false }
    }
}

/// How one protocol chunk advances the accumulator: the increment is
/// appended, carried usage is retained, and one cumulative update is
/// emitted. A finished accumulator ignores everything.
pub open spec fn spec_apply_chunk(m: AccumulatorModel, b: StreamingBufferModel) -> (
    AccumulatorModel,
    Option<StreamingDeltaModel>,
) {
    if m.finished {
        (m, None)
    } else {
        let content = m.content + b.content;
        let usage = if b.usage is Some {
            b.usage
        } else {
            m.usage
        };
        (
            AccumulatorModel { content, usage, finished: b.is_complete },
            Some(StreamingDeltaModel { content, is_complete: b.is_complete, usage }),
        )
    }
}

/// How a stream failure advances the accumulator: the content is replaced
/// by a sentinel-prefixed error report and one terminal update is emitted.
/// A finished accumulator ignores everything.
pub open spec fn spec_apply_failure(m: AccumulatorModel, msg: Seq<char>) -> (
    AccumulatorModel,
    Option<StreamingDeltaModel>,
) {
    if m.finished {
        (m, None)
    } else {
        let content = stream_error_token() + " "@ + msg;
        (
            AccumulatorModel { content, usage: m.usage, finished: true },
            Some(StreamingDeltaModel { content, is_complete: true, usage: m.usage }),
        )
    }
}

/// Folds the streaming sequence of one send into cumulative updates.
pub struct StreamAccumulator {
    content: String,
    usage: Option<ResponseUsage>,
    finished: bool,
}

impl DeepView for StreamAccumulator {
    type V = AccumulatorModel;

    closed spec fn deep_view(&self) -> AccumulatorModel {
        AccumulatorModel { content: self.content@, usage: self.usage, finished: self.finished }
    }
}

impl StreamAccumulator {
    /// An accumulator with nothing received yet.
    pub fn new() -> (r: StreamAccumulator)
        ensures
            r.deep_view() == AccumulatorModel::fresh(),
    {
        StreamAccumulator { content: String::new(), usage: None, finished: false }
    }

    /// True once the terminal update has been emitted.
    pub fn is_finished(&self) -> (r: bool)
        ensures
            r == self.deep_view().finished,
    {
        self.finished
    }

    /// Applies one chunk of the streaming sequence and returns the update
    /// to deliver, if any.
    pub fn apply_chunk(&mut self, b: &StreamingBuffer) -> (d: Option<StreamingDelta>)
        ensures
            (final(self).deep_view(), d.deep_view()) == spec_apply_chunk(
                old(self).deep_view(),
                b.deep_view(),
            ),
    {
        if self.finished {
            return None;
        }
        self.content.append(b.content.as_str());
        if b.usage.is_some() {
            self.usage = b.usage;
        }
        self.finished = b.is_complete;
        Some(
            StreamingDelta {
                content: self.content.clone(),
                is_complete: b.is_complete,
                usage: self.usage,
            },
        )
    }

    /// Applies a stream failure and returns the terminal update to deliver,
    /// if the terminal update was not already emitted.
    pub fn apply_failure(&mut self, msg: &str) -> (d: Option<StreamingDelta>)
        ensures
            (final(self).deep_view(), d.deep_view()) == spec_apply_failure(
                old(self).deep_view(),
                msg@,
            ),
    {
        if self.finished {
            return None;
        }
        let mut content = "Err\u{274}r:".to_owned();
        content.append(" ");
        content.append(msg);
        self.content = content;
        self.finished = true;
        Some(
            StreamingDelta { content: self.content.clone(), is_complete: true, usage: self.usage },
        )
    }
}

/// One element of the stream as the driving loop sees it: a decoded chunk
/// or a failure of the underlying sequence.
pub enum StreamItemModel {
    Chunk(StreamingBufferModel),
    Failure(Seq<char>),
}

/// One step of the accumulator on one stream element.
pub open spec fn spec_step(m: AccumulatorModel, item: StreamItemModel) -> (
    AccumulatorModel,
    Option<StreamingDeltaModel>,
) {
    match item {
        StreamItemModel::Chunk(b) => spec_apply_chunk(m, b),
        StreamItemModel::Failure(e) => spec_apply_failure(m, e),
    }
}

/// The accumulator run over a whole stream: the final state and the
/// updates emitted, in order.
pub open spec fn spec_run(m: AccumulatorModel, items: Seq<StreamItemModel>) -> (
    AccumulatorModel,
    Seq<StreamingDeltaModel>,
)
    decreases items.len(),
{
    if items.len() == 0 {
        (m, Seq::empty())
    } else {
        let (m1, d) = spec_step(m, items[0]);
        let (m2, ds) = spec_run(m1, items.drop_first());
        (
            m2,
            match d {
                Some(dd) => seq![dd] + ds,
                None => ds,
            },
        )
    }
}

/// A finished accumulator emits nothing, and in any run the terminal
/// update, if emitted, is the last update: at most one update of a send
/// is ever marked complete.
pub proof fn lemma_terminal_update_is_last(m: AccumulatorModel, items: Seq<StreamItemModel>)
    ensures
        m.finished ==> spec_run(m, items).1.len() == 0,
        forall|i: int|
            0 <= i < spec_run(m, items).1.len() && spec_run(m, items).1[i].is_complete ==> i
                == spec_run(m, items).1.len() - 1,
    decreases items.len(),
{
    if items.len() == 0 {
    } else {
        let (m1, d) = spec_step(m, items[0]);
        let (m2, ds) = spec_run(m1, items.drop_first());
        lemma_terminal_update_is_last(m1, items.drop_first());
        if m.finished {
            assert(m1 == m);
        } else {
            let dd = d->0;
            if dd.is_complete {
                assert(m1.finished);
                assert(ds.len() == 0);
                assert(spec_run(m, items).1 =~= seq![dd]);
            } else {
                assert(!m1.finished);
                assert(spec_run(m, items).1 =~= seq![dd] + ds);
            }
        }
    }
}

/// The concatenation of the first `k` increments.
pub open spec fn spec_concat_prefix(texts: Seq<Seq<char>>, k: int) -> Seq<char>
    decreases k,
{
    if k <= 0 {
        Seq::empty()
    } else {
        spec_concat_prefix(texts, k - 1) + texts[k - 1]
    }
}

/// The chunk carrying the text increment `t`.
pub open spec fn spec_text_chunk(t: Seq<char>) -> StreamItemModel {
    StreamItemModel::Chunk(StreamingBufferModel { content: t, is_complete: false, usage: None })
}

/// The completion marker chunk.
pub open spec fn spec_stop_chunk() -> StreamItemModel {
    StreamItemModel::Chunk(
        StreamingBufferModel { content: Seq::empty(), is_complete: true, usage: None },
    )
}

/// Helper for the prefix law: running an unfinished accumulator over text
/// increments `texts` emits one update per increment, whose content is the
/// content so far extended by the increments seen, none of them terminal.
proof fn lemma_run_text_chunks(m: AccumulatorModel, texts: Seq<Seq<char>>)
    requires
        !m.finished,
    ensures
        ({
            let (mf, ds) = spec_run(m, texts.map_values(|t: Seq<char>| spec_text_chunk(t)));
            &&& ds.len() == texts.len()
            &&& forall|i: int|
                0 <= i < ds.len() ==> (#[trigger] ds[i]).content == m.content
                    + spec_concat_prefix(texts, i + 1) && !ds[i].is_complete && ds[i].usage
                    == m.usage
            &&& mf.content == m.content + spec_concat_prefix(texts, texts.len() as int)
            &&& mf.usage == m.usage
            &&& !mf.finished
        }),
    decreases texts.len(),
{
    let items = texts.map_values(|t: Seq<char>| spec_text_chunk(t));
    if texts.len() == 0 {
        let (mf, ds) = spec_run(m, items);
        assert(m.content + spec_concat_prefix(texts, 0) =~= m.content);
    } else {
        let (m1, d) = spec_step(m, items[0]);
        let texts1 = texts.drop_first();
        let items1 = texts1.map_values(|t: Seq<char>| spec_text_chunk(t));
        assert(items.drop_first() =~= items1);
        lemma_run_text_chunks(m1, texts1);
        let (mf, ds1) = spec_run(m1, items1);
        let dd = d->0;
        let ds = spec_run(m, items).1;
        assert(ds =~= seq![dd] + ds1);
        assert(dd.content == m.content + texts[0]);
        assert forall|i: int| 0 <= i < ds.len() implies (#[trigger] ds[i]).content == m.content
            + spec_concat_prefix(texts, i + 1) && !ds[i].is_complete && ds[i].usage
            == m.usage by {
            lemma_concat_prefix_shift(texts, i + 1);
            if i == 0 {
                assert(spec_concat_prefix(texts, 1) == spec_concat_prefix(texts, 0) + texts[0]);
                assert(m.content + spec_concat_prefix(texts, 1) =~= m.content + texts[0]);
            } else {
                assert(ds[i] == ds1[i - 1]);
                assert(ds1[i - 1].content == m1.content + spec_concat_prefix(texts1, i));
                assert(m.content + spec_concat_prefix(texts, i + 1) =~= (m.content + texts[0])
                    + spec_concat_prefix(texts1, i));
            }
        }
        lemma_concat_prefix_shift(texts, texts.len() as int);
        assert(spec_run(m, items).0.content == m.content + spec_concat_prefix(
            texts,
            texts.len() as int,
        )) by {
            assert(mf.content == m1.content + spec_concat_prefix(texts1, texts1.len() as int));
            assert(m.content + spec_concat_prefix(texts, texts.len() as int) =~= (m.content
                + texts[0]) + spec_concat_prefix(texts1, texts1.len() as int));
        }
    }
}

/// `concat_prefix(texts, k)` taken from the front: the first increment,
/// then a prefix of the rest.
proof fn lemma_concat_prefix_shift(texts: Seq<Seq<char>>, k: int)
    requires
        1 <= k <= texts.len(),
    ensures
        spec_concat_prefix(texts, k) =~= texts[0] + spec_concat_prefix(texts.drop_first(), k - 1),
    decreases k,
{
    if k == 1 {
        assert(spec_concat_prefix(texts, 1) == spec_concat_prefix(texts, 0) + texts[0]);
        assert(spec_concat_prefix(texts, 1) =~= texts[0] + spec_concat_prefix(
            texts.drop_first(),
            0,
        ));
    } else {
        lemma_concat_prefix_shift(texts, k - 1);
        assert(texts.drop_first()[k - 2] == texts[k - 1]);
    }
}

/// A run over a single element takes exactly one step.
proof fn lemma_run_single(m: AccumulatorModel, item: StreamItemModel)
    ensures
        spec_run(m, seq![item]).0 == spec_step(m, item).0,
        spec_run(m, seq![item]).1 =~= (match spec_step(m, item).1 {
            Some(dd) => seq![dd],
            None => Seq::<StreamingDeltaModel>::empty(),
        }),
{
    let s = seq![item];
    assert(s.len() == 1);
    assert(s[0] == item);
    assert(s.drop_first() =~= Seq::<StreamItemModel>::empty());
    let (m1, d) = spec_step(m, item);
    assert(spec_run(m1, s.drop_first()).1 =~= Seq::<StreamingDeltaModel>::empty());
    assert(spec_run(m1, s.drop_first()).0 == m1);
}

/// The prefix law: for text increments `t1..tn` followed by the completion
/// marker, a fresh accumulator emits updates whose contents are the running
/// prefix concatenations of `t1..tn`, and only the last update, which holds
/// the whole concatenation, is marked complete.
pub proof fn lemma_aggregator_prefix_contents(texts: Seq<Seq<char>>)
    ensures
        ({
            let items = texts.map_values(|t: Seq<char>| spec_text_chunk(t)).push(
                spec_stop_chunk(),
            );
            let (mf, ds) = spec_run(AccumulatorModel::fresh(), items);
            &&& ds.len() == texts.len() + 1
            &&& forall|i: int|
                0 <= i < texts.len() ==> (#[trigger] ds[i]).content == spec_concat_prefix(
                    texts,
                    i + 1,
                ) && !ds[i].is_complete
            &&& ds[texts.len() as int].content == spec_concat_prefix(texts, texts.len() as int)
            &&& ds[texts.len() as int].is_complete
            &&& mf.finished
        }),
{
    lemma_aggregator_prefix_contents_from(AccumulatorModel::fresh(), texts);
    let items = texts.map_values(|t: Seq<char>| spec_text_chunk(t)).push(spec_stop_chunk());
    let ds = spec_run(AccumulatorModel::fresh(), items).1;
    assert forall|i: int| 0 <= i < texts.len() implies ds[i].content == #[trigger] spec_concat_prefix(
        texts,
        i + 1,
    ) && !ds[i].is_complete by {
        assert(ds[i].content == AccumulatorModel::fresh().content + spec_concat_prefix(
            texts,
            i + 1,
        ));
        assert(Seq::<char>::empty() + spec_concat_prefix(texts, i + 1) =~= spec_concat_prefix(
            texts,
            i + 1,
        ));
    }
    assert(Seq::<char>::empty() + spec_concat_prefix(texts, texts.len() as int)
        =~= spec_concat_prefix(texts, texts.len() as int));
}

/// Generalization of the prefix law over the starting state, used for the
/// induction: contents extend `m.content`.
proof fn lemma_aggregator_prefix_contents_from(m: AccumulatorModel, texts: Seq<Seq<char>>)
    requires
        !m.finished,
    ensures
        ({
            let items = texts.map_values(|t: Seq<char>| spec_text_chunk(t)).push(
                spec_stop_chunk(),
            );
            let (mf, ds) = spec_run(m, items);
            &&& ds.len() == texts.len() + 1
            &&& forall|i: int|
                0 <= i < texts.len() ==> (#[trigger] ds[i]).content == m.content
                    + spec_concat_prefix(texts, i + 1) && !ds[i].is_complete
            &&& ds[texts.len() as int].content == m.content + spec_concat_prefix(
                texts,
                texts.len() as int,
            )
            &&& ds[texts.len() as int].is_complete
            &&& mf.finished
        }),
{
    let chunk_items = texts.map_values(|t: Seq<char>| spec_text_chunk(t));
    let items = chunk_items.push(spec_stop_chunk());
    lemma_run_text_chunks(m, texts);
    let (m1, ds1) = spec_run(m, chunk_items);
    lemma_run_append(m, chunk_items, seq![spec_stop_chunk()]);
    assert(items =~= chunk_items + seq![spec_stop_chunk()]);
    lemma_run_single(m1, spec_stop_chunk());
    let (m2, d2) = spec_step(m1, spec_stop_chunk());
    assert(!m1.finished);
    let dd = d2->0;
    assert(dd.content =~= m1.content);
    assert(dd.is_complete);
    assert(m2.finished);
    let ds = spec_run(m, items).1;
    assert(ds =~= ds1 + seq![dd]);
    assert(ds.len() == texts.len() + 1);
    assert(ds[texts.len() as int] == dd);
    assert forall|i: int| 0 <= i < texts.len() implies (#[trigger] ds[i]).content == m.content
        + spec_concat_prefix(texts, i + 1) && !ds[i].is_complete by {
        assert(ds[i] == ds1[i]);
    }
}

/// Running over `a + b` is running over `a`, then over `b` from where `a`
/// left off; the updates concatenate.
pub proof fn lemma_run_append(m: AccumulatorModel, a: Seq<StreamItemModel>, b: Seq<StreamItemModel>)
    ensures
        spec_run(m, a + b).0 == spec_run(spec_run(m, a).0, b).0,
        spec_run(m, a + b).1 =~= spec_run(m, a).1 + spec_run(spec_run(m, a).0, b).1,
    decreases a.len(),
{
    if a.len() == 0 {
        assert(a + b =~= b);
        assert(spec_run(m, a).0 == m);
        assert(spec_run(m, a).1 =~= Seq::<StreamingDeltaModel>::empty());
    } else {
        let (m1, d) = spec_step(m, a[0]);
        lemma_run_append(m1, a.drop_first(), b);
        assert((a + b).drop_first() =~= a.drop_first() + b);
        assert((a + b)[0] == a[0]);
    }
}

} // verus!
