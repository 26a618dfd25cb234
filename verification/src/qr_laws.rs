//! What holds of every course that a login by QR code takes.

use vstd::prelude::*;

use crate::http;
use crate::navigation;
use crate::qr_login;
use crate::qr_login::{QrActionView, QrEventView, QrLoginView, QrPhase, QrPushView, QrStepView};

verus! {

/// The login after a sequence of events.
pub open spec fn state_after(start: QrLoginView, events: Seq<QrEventView>) -> QrLoginView
    decreases events.len(),
{
    if events.len() == 0 {
        start
    } else {
        qr_login::qr_step(state_after(start, events.drop_last()), events.last()).0
    }
}

/// What comes of the event at `i`.
pub open spec fn step_at(start: QrLoginView, events: Seq<QrEventView>, i: int) -> QrStepView {
    qr_login::qr_step(state_after(start, events.take(i)), events[i]).1
}

/// The phases in which the identifier of the login page is known.
pub open spec fn page_is_known(phase: QrPhase) -> bool {
    !(phase is Idle) && !(phase is BuildingClient) && !(phase is LoadingPage)
}

/// The phases before the channel of announcements is heard.
pub open spec fn is_opening(phase: QrPhase) -> bool {
    phase is Idle || phase is BuildingClient || phase is LoadingPage || phase is CollectingCookies
        || phase is OpeningChannel || phase is RequestingFirstCode
}

/// An announcement that the code was scanned.
pub open spec fn is_scan(event: QrEventView) -> bool {
    event matches QrEventView::TextReceived(message) && qr_login::push_of_text(message)
        == QrPushView::LoggedIn
}

/// An answer of the login service that confirms the scan.
pub open spec fn is_confirmation(event: QrEventView) -> bool {
    event matches QrEventView::LoginAnswered(url) && http::express_login_result(url) is Ok
}

/// An answer of the learning platform that lets the user in.
pub open spec fn is_entry(event: QrEventView) -> bool {
    event matches QrEventView::CanvasAnswered(status) && (http::is_success(status) || status == 302)
}

/// Whether a step reports the phase `phase`.
pub open spec fn reports(step: QrStepView, phase: Seq<char>) -> bool {
    step.report matches Some(status) && status.phase == phase
}

/// What was said before the login reached its phase.
spec fn path_is_complete(events: Seq<QrEventView>, phase: QrPhase) -> bool {
    &&& phase is CompletingLogin ==> exists|i: int|
        0 <= i < events.len() && #[trigger] is_scan(events[i])
    &&& phase is EnteringCanvas ==> exists|i: int, j: int|
        0 <= i < j < events.len() && #[trigger] is_scan(events[i]) && #[trigger] is_confirmation(
            events[j],
        )
}

proof fn lemma_path_is_complete(events: Seq<QrEventView>)
    ensures
        path_is_complete(events, state_after(qr_login::fresh_login(), events).phase),
    decreases events.len(),
{
    if events.len() > 0 {
        let earlier = events.drop_last();
        lemma_path_is_complete(earlier);
        let before = state_after(qr_login::fresh_login(), earlier);
        let after = state_after(qr_login::fresh_login(), events);
        let last = events.len() - 1;
        assert(after == qr_login::qr_step(before, events[last]).0);
        if after.phase is CompletingLogin {
            if before.phase is CompletingLogin {
                let i = choose|i: int| 0 <= i < earlier.len() && #[trigger] is_scan(earlier[i]);
                assert(is_scan(events[i]));
            } else {
                assert(before.phase is Listening);
                assert(is_scan(events[last]));
            }
        }
        if after.phase is EnteringCanvas {
            if before.phase is EnteringCanvas {
                let (i, j) = choose|i: int, j: int|
                    0 <= i < j < earlier.len() && #[trigger] is_scan(earlier[i])
                        && #[trigger] is_confirmation(earlier[j]);
                assert(is_scan(events[i]));
                assert(is_confirmation(events[j]));
            } else {
                assert(before.phase is CompletingLogin);
                let i = choose|i: int| 0 <= i < earlier.len() && #[trigger] is_scan(earlier[i]);
                assert(is_scan(events[i]));
                assert(is_confirmation(events[last]));
            }
        }
    }
}

/// A login reports that the user is let in only after the code was scanned, the scan was confirmed
/// and the learning platform let the user in, in this order. It has then ended.
pub proof fn law_authorized_means_scanned(events: Seq<QrEventView>, n: int)
    requires
        0 <= n < events.len(),
        reports(step_at(qr_login::fresh_login(), events, n), "authorized"@),
    ensures
        exists|i: int, j: int|
            0 <= i < j < n && #[trigger] is_scan(events[i]) && #[trigger] is_confirmation(
                events[j],
            ),
        is_entry(events[n]),
        state_after(qr_login::fresh_login(), events.take(n + 1)).phase is Ended,
{
    navigation::lemma_phase_names();
    let earlier = events.take(n);
    lemma_path_is_complete(earlier);
    let before = state_after(qr_login::fresh_login(), earlier);
    assert(before.phase is EnteringCanvas);
    let (i, j) = choose|i: int, j: int|
        0 <= i < j < earlier.len() && #[trigger] is_scan(earlier[i]) && #[trigger] is_confirmation(
            earlier[j],
        );
    assert(is_scan(events[i]));
    assert(is_confirmation(events[j]));
    assert(events.take(n + 1).drop_last() == earlier);
    assert(events.take(n + 1).last() == events[n]);
}

/// A login that has ended stays as it is: whatever happens, nothing is reported, shown or done.
pub proof fn law_ended_logins_stay_ended(state: QrLoginView, events: Seq<QrEventView>)
    requires
        state.phase is Ended,
    ensures
        state_after(state, events) == state,
        forall|i: int|
            0 <= i < events.len() ==> #[trigger] step_at(state, events, i) == qr_login::quiet(
                QrActionView::End,
            ),
    decreases events.len(),
{
    if events.len() > 0 {
        law_ended_logins_stay_ended(state, events.drop_last());
        assert forall|i: int| 0 <= i < events.len() implies #[trigger] step_at(state, events, i)
            == qr_login::quiet(QrActionView::End) by {
            let earlier = events.drop_last();
            if i < earlier.len() {
                assert(earlier.take(i) == events.take(i));
                assert(step_at(state, earlier, i) == qr_login::quiet(QrActionView::End));
            } else {
                assert(events.take(i) == earlier);
            }
        }
    }
}

/// Once the login page is known, a login keeps its identifier and address, and every request that
/// it makes in the user's name carries them.
pub proof fn law_requests_carry_the_login(start: QrLoginView, events: Seq<QrEventView>)
    requires
        page_is_known(start.phase),
    ensures
        page_is_known(state_after(start, events).phase),
        state_after(start, events).uuid == start.uuid,
        state_after(start, events).referer == start.referer,
        forall|i: int|
            #![trigger step_at(start, events, i)]
            0 <= i < events.len() ==> {
                let action = step_at(start, events, i).action;
                &&& action matches QrActionView::RequestImage { uuid, referer, .. } ==> uuid
                    == start.uuid && referer == start.referer
                &&& action matches QrActionView::CompleteLogin { uuid } ==> uuid == start.uuid
            },
    decreases events.len(),
{
    if events.len() > 0 {
        let earlier = events.drop_last();
        law_requests_carry_the_login(start, earlier);
        assert forall|i: int| #![trigger step_at(start, events, i)] 0 <= i < events.len() implies {
            let action = step_at(start, events, i).action;
            &&& action matches QrActionView::RequestImage { uuid, referer, .. } ==> uuid
                == start.uuid && referer == start.referer
            &&& action matches QrActionView::CompleteLogin { uuid } ==> uuid == start.uuid
        } by {
            if i < earlier.len() {
                assert(earlier.take(i) == events.take(i));
                assert(step_at(start, events, i) == step_at(start, earlier, i));
            } else {
                assert(events.take(i) == earlier);
            }
        }
    }
}

/// A picture that cannot be had does not end a login: it goes on waiting for the picture, or
/// listens again.
pub proof fn law_missing_pictures_end_nothing(state: QrLoginView, event: QrEventView)
    requires
        state.phase is RequestingImage || state.phase is ReadingImage,
    ensures
        ({
            let after = qr_login::qr_step(state, event).0.phase;
            after is RequestingImage || after is ReadingImage || after is Listening
        }),
        !(qr_login::qr_step(state, event).1.action is End),
{
}

/// Before the channel is heard every failure that is reported ends the login.
pub proof fn law_early_failures_end_the_login(state: QrLoginView, event: QrEventView)
    requires
        is_opening(state.phase),
    ensures
        reports(qr_login::qr_step(state, event).1, "error"@) <==> qr_login::qr_step(
            state,
            event,
        ).0.phase is Ended,
{
    navigation::lemma_phase_names();
}

/// Asking for another QR code changes nothing but the code: whether the request could be sent or
/// not, the login listens again as before, and nothing is reported.
pub proof fn law_refreshing_comes_back(state: QrLoginView, answer: QrEventView)
    requires
        state.phase is Listening,
        answer is RefreshSent || answer is RefreshFailed,
    ensures
        state_after(state, seq![QrEventView::RefreshRequested, answer]) == state,
        step_at(state, seq![QrEventView::RefreshRequested, answer], 0) == qr_login::quiet(
            QrActionView::SendRefresh,
        ),
        step_at(state, seq![QrEventView::RefreshRequested, answer], 1) == qr_login::quiet(
            QrActionView::Listen,
        ),
{
    let events = seq![QrEventView::RefreshRequested, answer];
    let first = seq![QrEventView::RefreshRequested];
    assert(events.drop_last() == first);
    assert(events.take(1) == first);
    assert(first.drop_last() == Seq::<QrEventView>::empty());
    assert(events.take(0) == Seq::<QrEventView>::empty());
    assert(state_after(state, Seq::<QrEventView>::empty()) == state);
    let asked = qr_login::in_phase(state, QrPhase::RequestingCode);
    assert(state_after(state, first) == asked);
    assert(state_after(state, events) == qr_login::in_phase(asked, QrPhase::Listening));
}

/// The user can stop a login that listens: it ends without a report.
pub proof fn law_stopping_ends_quietly(state: QrLoginView)
    requires
        state.phase is Listening,
    ensures
        qr_login::qr_step(state, QrEventView::StopRequested) == (
            qr_login::in_phase(state, QrPhase::Ended),
            qr_login::quiet(QrActionView::End),
        ),
{
}

} // verus!
