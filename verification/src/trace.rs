//! What a stream of notifications yields when it is pulled to its end
//! against a given succession of responses, and the laws of pagination that
//! follow.

use crate::fetch::{FetchFailure, PageView, Phase, Pulled, Stream};
use vstd::prelude::*;

verus! {

/// How a run of pulls ended.
pub enum StreamEnd {
    /// The stream signalled the end of the sequence.
    Exhausted,
    /// The stream handed out this error.
    Failed(FetchFailure),
    /// The stream asked for a page and no response was left to give it.
    Starved,
}

/// The outcome of pulling a stream until it ends.
pub struct Trace {
    /// The reasons of the items handed out, in order.
    pub items: Seq<Seq<char>>,
    /// What came after the last item.
    pub end: StreamEnd,
    /// The stream as the run left it.
    pub rest: Stream,
}

impl Trace {
    /// The same outcome after `items` were handed out first.
    pub open spec fn after(self, items: Seq<Seq<char>>) -> Trace {
        Trace { items: items + self.items, end: self.end, rest: self.rest }
    }
}

/// Pulls `stream` until it signals the end or an error. Each request that it
/// hands out is answered by the next response of `script`.
pub open spec fn run(stream: Stream, script: Seq<PageView>) -> Trace
    decreases script.len(), stream.pending.len(),
{
    let (next, out) = stream.pull();
    match out {
        Ok(Some(Pulled::Item(reason))) => run(next, script).after(seq![reason]),
        Ok(Some(Pulled::Request(_))) => if script.len() == 0 {
            Trace { items: Seq::empty(), end: StreamEnd::Starved, rest: next }
        } else {
            run(next.receive(script[0]), script.drop_first())
        },
        Ok(None) => Trace { items: Seq::empty(), end: StreamEnd::Exhausted, rest: next },
        Err(e) => Trace { items: Seq::empty(), end: StreamEnd::Failed(e), rest: next },
    }
}

/// The items of all pages of `script` that were read, page after page.
pub open spec fn all_items(script: Seq<PageView>) -> Seq<Seq<char>>
    decreases script.len(),
{
    if script.len() == 0 {
        Seq::empty()
    } else {
        script[0].items() + all_items(script.drop_first())
    }
}

/// Whether a response is a page that was read.
pub open spec fn is_page(response: PageView) -> bool {
    response.failure() is None
}

/// Whether a response is a page that names a further page.
pub open spec fn has_next(response: PageView) -> bool {
    is_page(response) && response.next_cursor().len() > 0
}

/// A ready stream first hands out the items it holds, then goes on as the
/// same stream without them.
pub proof fn lemma_run_hands_out_pending(stream: Stream, script: Seq<PageView>)
    requires
        stream.phase is Ready,
    ensures
        run(stream, script) == run(Stream { pending: Seq::empty(), ..stream }, script).after(
            stream.pending,
        ),
    decreases stream.pending.len(),
{
    let drained = Stream { pending: Seq::empty(), ..stream };
    if stream.pending.len() == 0 {
        assert(stream.pending =~= Seq::<Seq<char>>::empty());
        assert(stream == drained);
        assert(Seq::<Seq<char>>::empty() + run(drained, script).items =~= run(
            drained,
            script,
        ).items);
    } else {
        let next = stream.pull().0;
        lemma_run_hands_out_pending(next, script);
        assert(Stream { pending: Seq::empty(), ..next } == drained);
        assert(seq![stream.pending[0]] + (next.pending + run(drained, script).items)
            =~= stream.pending + run(drained, script).items);
    }
}

/// A ready stream whose cursor names a page hands out the items it holds,
/// asks for that page, and goes on from the response.
pub proof fn lemma_run_asks_for_next_page(stream: Stream, script: Seq<PageView>)
    requires
        stream.phase is Ready,
        stream.cursor.len() > 0,
        script.len() > 0,
    ensures
        run(stream, script) == run(
            Stream { pending: Seq::empty(), phase: Phase::Awaiting, ..stream }.receive(script[0]),
            script.drop_first(),
        ).after(stream.pending),
{
    lemma_run_hands_out_pending(stream, script);
    let drained = Stream { pending: Seq::empty(), ..stream };
    assert(drained.pull().0 == Stream { phase: Phase::Awaiting, ..drained });
}

/// Pagination to the end: where every response is a page that was read, every
/// page but the last names a further page and the last names none, a stream
/// whose cursor names the first page hands out exactly the items of all
/// pages, in order, and then signals the end of the sequence.
pub proof fn lemma_all_pages_in_order(stream: Stream, script: Seq<PageView>)
    requires
        stream.phase is Ready,
        stream.cursor.len() > 0,
        script.len() > 0,
        forall|i: int| 0 <= i < script.len() ==> is_page(#[trigger] script[i]),
        forall|i: int| 0 <= i < script.len() - 1 ==> has_next(#[trigger] script[i]),
        !has_next(script.last()),
    ensures
        run(stream, script).items == stream.pending + all_items(script),
        run(stream, script).end == StreamEnd::Exhausted,
    decreases script.len(),
{
    lemma_run_asks_for_next_page(stream, script);
    let later = script.drop_first();
    let next = Stream { pending: Seq::empty(), phase: Phase::Awaiting, ..stream }.receive(
        script[0],
    );
    assert(is_page(script[0]));
    assert(next.pending == script[0].items());
    if script.len() == 1 {
        assert(script.last() == script[0]);
        lemma_run_hands_out_pending(next, later);
        assert(all_items(later) =~= Seq::<Seq<char>>::empty());
        assert(stream.pending + (next.pending + Seq::<Seq<char>>::empty()) =~= stream.pending
            + (script[0].items() + all_items(later)));
    } else {
        assert(has_next(script[0]));
        assert forall|i: int| 0 <= i < later.len() implies is_page(#[trigger] later[i]) by {
            assert(later[i] == script[i + 1]);
        }
        assert forall|i: int| 0 <= i < later.len() - 1 implies has_next(#[trigger] later[i]) by {
            assert(later[i] == script[i + 1]);
        }
        assert(later.last() == script.last());
        lemma_all_pages_in_order(next, later);
        assert(stream.pending + (next.pending + all_items(later)) =~= stream.pending + all_items(
            script,
        ));
    }
}

/// Fail-stop: where the first `k` responses are pages that each name a
/// further page and the response after them fails, the stream hands out the
/// items of those `k` pages, in order, then the error of that response, once;
/// it is then stopped.
pub proof fn lemma_first_failure_ends_the_sequence(stream: Stream, script: Seq<PageView>, k: int)
    requires
        stream.phase is Ready,
        stream.cursor.len() > 0,
        0 <= k < script.len(),
        forall|i: int| 0 <= i < k ==> has_next(#[trigger] script[i]),
        script[k].failure() is Some,
    ensures
        run(stream, script).items == stream.pending + all_items(script.take(k)),
        run(stream, script).end == StreamEnd::Failed(script[k].failure()->0),
        run(stream, script).rest.phase is Stopped,
    decreases k,
{
    lemma_run_asks_for_next_page(stream, script);
    let later = script.drop_first();
    let next = Stream { pending: Seq::empty(), phase: Phase::Awaiting, ..stream }.receive(
        script[0],
    );
    if k == 0 {
        assert(script.take(0) =~= Seq::<PageView>::empty());
        assert(stream.pending + Seq::<Seq<char>>::empty() =~= stream.pending);
    } else {
        assert(has_next(script[0]));
        assert forall|i: int| 0 <= i < k - 1 implies has_next(#[trigger] later[i]) by {
            assert(later[i] == script[i + 1]);
        }
        assert(later[k - 1] == script[k]);
        lemma_first_failure_ends_the_sequence(next, later, k - 1);
        assert(script.take(k).drop_first() =~= later.take(k - 1));
        assert(script.take(k)[0] == script[0]);
        assert(stream.pending + (next.pending + all_items(later.take(k - 1))) =~= stream.pending
            + all_items(script.take(k)));
    }
}

/// Nothing follows a stop: a stopped stream signals the end at every pull,
/// drops every response, and stays as it is.
pub proof fn lemma_stopped_stream_stays_silent(stream: Stream, response: PageView)
    requires
        stream.phase is Stopped,
    ensures
        stream.pull() == (stream, Ok::<Option<Pulled>, FetchFailure>(None)),
        stream.receive(response) == stream,
{
}

} // verus!
