//! Whole polls: what a block shows after a tick and the responses that
//! follow it.

use crate::block::{ActionView, EventView, GithubState, NOT_AVAILABLE};
use crate::counts::counts_of;
use crate::fetch::PageView;
use crate::render::rendered;
use crate::trace::{all_items, has_next};
use vstd::prelude::*;

verus! {

/// The block after it has taken, for as long as it asks for a page, the next
/// response of `script`. `action` is what the block asked for last.
pub open spec fn answered(state: GithubState, action: ActionView, script: Seq<PageView>)
    -> GithubState
    decreases script.len(),
{
    if action is Fetch && script.len() > 0 {
        let (next, asked) = state.step(EventView::Response(script[0]));
        answered(next, asked, script.drop_first())
    } else {
        state
    }
}

/// The block after one poll: a tick, and the responses of `script` to the
/// requests that follow.
pub open spec fn polled(state: GithubState, script: Seq<PageView>) -> GithubState {
    let (started, asked) = state.step(EventView::Tick);
    answered(started, asked, script)
}

/// The length of all items of a script is that of its first page and of the
/// rest.
proof fn lemma_all_items_unfold(script: Seq<PageView>)
    requires
        script.len() > 0,
    ensures
        all_items(script) == script[0].items() + all_items(script.drop_first()),
{
}

/// A block that asks for no page takes no response.
proof fn lemma_answered_while_waiting(state: GithubState, action: ActionView, script: Seq<PageView>)
    requires
        action is Wait,
    ensures
        answered(state, action, script) == state,
{
}

/// A block that asks for a page takes the next response and goes on.
proof fn lemma_answered_unfold(state: GithubState, action: ActionView, script: Seq<PageView>)
    requires
        action is Fetch,
        script.len() > 0,
    ensures
        answered(state, action, script) == answered(
            state.step(EventView::Response(script[0])).0,
            state.step(EventView::Response(script[0])).1,
            script.drop_first(),
        ),
{
}

/// A poll under way that is answered by pages to the last one ends with the
/// counts of all items on display.
proof fn lemma_answered_by_all_pages(state: GithubState, script: Seq<PageView>)
    requires
        state.poll is Some,
        script.len() > 0,
        forall|i: int| 0 <= i < script.len() ==> script[i].failure() is None,
        forall|i: int| 0 <= i < script.len() - 1 ==> has_next(#[trigger] script[i]),
        !has_next(script.last()),
        state.poll->0.counted.len() + all_items(script).len() <= u64::MAX,
    ensures
        answered(state, ActionView::Fetch(state.request(state.poll->0.cursor)), script).text
            == rendered(
            state.format,
            counts_of(state.poll->0.counted + all_items(script)),
        )->Ok_0,
        answered(
            state,
            ActionView::Fetch(state.request(state.poll->0.cursor)),
            script,
        ).poll is None,
    decreases script.len(),
{
    let counted = state.poll->0.counted;
    let later = script.drop_first();
    let (next, asked) = state.step(EventView::Response(script[0]));
    lemma_all_items_unfold(script);
    lemma_answered_unfold(state, ActionView::Fetch(state.request(state.poll->0.cursor)), script);
    assert(script[0].failure() is None);
    if script.len() == 1 {
        lemma_answered_while_waiting(next, asked, later);
        assert(script.last() == script[0]);
        assert(all_items(later) =~= Seq::<Seq<char>>::empty());
        assert(counted + script[0].items() =~= counted + all_items(script));
    } else {
        assert(has_next(script[0]));
        assert forall|i: int| 0 <= i < later.len() implies later[i].failure() is None by {
            assert(later[i] == script[i + 1]);
        }
        assert forall|i: int| 0 <= i < later.len() - 1 implies has_next(#[trigger] later[i]) by {
            assert(later[i] == script[i + 1]);
        }
        assert(later.last() == script.last());
        assert(next.request(next.poll->0.cursor) == asked->Fetch_0);
        lemma_answered_by_all_pages(next, later);
        assert((counted + script[0].items()) + all_items(later) =~= counted + all_items(script));
    }
}

/// A poll to the end: where every response is a page that was read, every
/// page but the last names a further page, the last names none and the items
/// are no more than a `u64` counts, the block ends the poll with the counts of
/// exactly the items of all pages rendered on its display, whatever it showed
/// or counted before.
pub proof fn lemma_poll_shows_the_counts_of_all_pages(state: GithubState, script: Seq<PageView>)
    requires
        script.len() > 0,
        forall|i: int| 0 <= i < script.len() ==> script[i].failure() is None,
        forall|i: int| 0 <= i < script.len() - 1 ==> has_next(#[trigger] script[i]),
        !has_next(script.last()),
        all_items(script).len() <= u64::MAX,
    ensures
        polled(state, script).text == rendered(state.format, counts_of(all_items(script)))->Ok_0,
        polled(state, script).poll is None,
{
    let (started, asked) = state.step(EventView::Tick);
    assert(started.request(started.poll->0.cursor) == asked->Fetch_0);
    lemma_answered_by_all_pages(started, script);
    assert(Seq::<Seq<char>>::empty() + all_items(script) =~= all_items(script));
}

/// A poll under way that meets a failed response ends with
/// [`NOT_AVAILABLE`] on display.
proof fn lemma_answered_by_a_failure(state: GithubState, script: Seq<PageView>, k: int)
    requires
        state.poll is Some,
        0 <= k < script.len(),
        forall|i: int| 0 <= i < k ==> has_next(#[trigger] script[i]),
        script[k].failure() is Some,
    ensures
        answered(state, ActionView::Fetch(state.request(state.poll->0.cursor)), script).text
            == NOT_AVAILABLE@,
        answered(
            state,
            ActionView::Fetch(state.request(state.poll->0.cursor)),
            script,
        ).poll is None,
    decreases script.len(),
{
    let later = script.drop_first();
    let (next, asked) = state.step(EventView::Response(script[0]));
    lemma_answered_unfold(state, ActionView::Fetch(state.request(state.poll->0.cursor)), script);
    if asked is Wait {
        lemma_answered_while_waiting(next, asked, later);
    }
    if k > 0 {
        assert(has_next(script[0]));
        if asked is Fetch {
            assert forall|i: int| 0 <= i < k - 1 implies has_next(#[trigger] later[i]) by {
                assert(later[i] == script[i + 1]);
            }
            assert(later[k - 1] == script[k]);
            assert(next.request(next.poll->0.cursor) == asked->Fetch_0);
            lemma_answered_by_a_failure(next, later, k - 1);
        }
    }
}

/// Any failure spoils the poll: where a response fails after any number of
/// pages that each name a further page, the block ends the poll with
/// [`NOT_AVAILABLE`] on display and nothing of the pages before.
pub proof fn lemma_poll_with_a_failure_shows_not_available(
    state: GithubState,
    script: Seq<PageView>,
    k: int,
)
    requires
        0 <= k < script.len(),
        forall|i: int| 0 <= i < k ==> has_next(#[trigger] script[i]),
        script[k].failure() is Some,
    ensures
        polled(state, script).text == NOT_AVAILABLE@,
        polled(state, script).poll is None,
{
    let (started, asked) = state.step(EventView::Tick);
    assert(started.request(started.poll->0.cursor) == asked->Fetch_0);
    lemma_answered_by_a_failure(started, script, k);
}

} // verus!
