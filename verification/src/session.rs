//! The line protocol shared by every session, console or network: strip
//! the trailing line terminator, terminate the session on the literal
//! token `exit`, re-prompt without submitting on a blank line, and turn
//! any other line into a request. A session submits its requests strictly
//! one at a time, so the order of its requests is the order of its lines
//! up to the first `exit`.

use vstd::prelude::*;

use crate::queue::ReqView;
use crate::service::{lemma_outcomes_positional, run_spec, step_outcome, EventView, ServiceState};
use crate::value::lemma_deep_index;

verus! {

/// What one input line means to a session.
pub enum LineAction {
    /// The literal token `exit`: terminate this session, submit nothing.
    Exit,
    /// A request: the line with its terminator stripped.
    Submit(Vec<u8>),
    /// A blank line: only a fresh prompt, no request.
    Blank,
}

/// The mathematical value of a line action.
pub enum LineActionView {
    Exit,
    Submit(Seq<u8>),
    Blank,
}

impl View for LineAction {
    type V = LineActionView;

    open spec fn view(&self) -> LineActionView {
        match self {
            LineAction::Exit => LineActionView::Exit,
            LineAction::Submit(t) => LineActionView::Submit(t@),
            LineAction::Blank => LineActionView::Blank,
        }
    }
}

/// The line without its trailing terminator, both the bare and the
/// carriage-return form.
pub open spec fn strip_eol_spec(line: Seq<u8>) -> Seq<u8> {
    let t = if line.len() > 0 && line.last() == 10 {
        line.drop_last()
    } else {
        line
    };
    if t.len() > 0 && t.last() == 13 {
        t.drop_last()
    } else {
        t
    }
}

/// The session-terminating token: `exit`.
pub open spec fn exit_token() -> Seq<u8> {
    seq![101u8, 120u8, 105u8, 116u8]
}

/// What a session does with one input line.
pub open spec fn classify_spec(line: Seq<u8>) -> LineActionView {
    let t = strip_eol_spec(line);
    if t == exit_token() {
        LineActionView::Exit
    } else if t.len() == 0 {
        LineActionView::Blank
    } else {
        LineActionView::Submit(t)
    }
}

/// The requests a session submits for a sequence of input lines: each
/// non-blank line in order, stopping at the first `exit`.
pub open spec fn session_requests_spec(lines: Seq<Seq<u8>>) -> Seq<Seq<u8>>
    decreases lines.len(),
{
    if lines.len() == 0 {
        Seq::empty()
    } else {
        match classify_spec(lines[0]) {
            LineActionView::Exit => Seq::empty(),
            LineActionView::Blank => session_requests_spec(lines.drop_first()),
            LineActionView::Submit(t) => seq![t] + session_requests_spec(lines.drop_first()),
        }
    }
}

/// The literal line `exit` terminates exactly its own session and
/// produces zero requests, hence zero replies: nothing of the session's
/// input at or after the `exit` line is ever submitted.
pub proof fn lemma_exit_terminates_session(lines: Seq<Seq<u8>>)
    requires
        lines.len() > 0,
        classify_spec(lines[0]) is Exit,
    ensures
        session_requests_spec(lines) == Seq::<Seq<u8>>::empty(),
{
}

/// Classify one input line.
pub fn classify_line(line: &[u8]) -> (r: LineAction)
    ensures
        r@ == classify_spec(line@),
{
    let mut end: usize = line.len();
    if end > 0 && line[end - 1] == 10 {
        end = end - 1;
    }
    let ghost t1 = if line@.len() > 0 && line@.last() == 10 {
        line@.drop_last()
    } else {
        line@
    };
    proof {
        assert(t1 =~= line@.take(end as int));
    }
    if end > 0 && line[end - 1] == 13 {
        end = end - 1;
    }
    let ghost stripped = strip_eol_spec(line@);
    proof {
        assert(stripped =~= line@.take(end as int));
    }
    if end == 4 && line[0] == 101 && line[1] == 120 && line[2] == 105 && line[3] == 116 {
        proof {
            assert(stripped =~= exit_token());
        }
        LineAction::Exit
    } else if end == 0 {
        proof {
            assert(stripped.len() == 0);
            assert(exit_token().len() == 4);
        }
        LineAction::Blank
    } else {
        proof {
            assert(stripped != exit_token()) by {
                if stripped == exit_token() {
                    assert(stripped.len() == 4);
                    assert(line@.take(4)[0] == 101);
                    assert(line@.take(4)[1] == 120);
                    assert(line@.take(4)[2] == 105);
                    assert(line@.take(4)[3] == 116);
                }
            }
        }
        let mut text: Vec<u8> = Vec::new();
        let mut j: usize = 0;
        while j < end
            invariant
                j <= end <= line@.len(),
                text@ == line@.take(end as int).take(j as int),
            decreases end - j,
        {
            text.push(line[j]);
            j = j + 1;
            proof {
                assert(text@ =~= line@.take(end as int).take(j as int));
            }
        }
        proof {
            assert(text@ =~= line@.take(end as int));
        }
        LineAction::Submit(text)
    }
}

/// The requests a session submits for its input lines, in order, stopping
/// at the first `exit`.
pub fn session_requests(lines: &Vec<Vec<u8>>) -> (reqs: Vec<Vec<u8>>)
    ensures
        reqs.deep_view() == session_requests_spec(lines.deep_view()),
{
    let ghost all = lines.deep_view();
    let mut reqs: Vec<Vec<u8>> = Vec::new();
    let mut i: usize = 0;
    proof {
        assert(all.skip(0) =~= all);
        assert(reqs.deep_view() =~= Seq::<Seq<u8>>::empty());
        assert(Seq::<Seq<u8>>::empty() + session_requests_spec(all) =~= session_requests_spec(all));
    }
    while i < lines.len()
        invariant
            i <= lines@.len(),
            all == lines.deep_view(),
            all.len() == lines@.len(),
            session_requests_spec(all) == reqs.deep_view() + session_requests_spec(
                all.skip(i as int),
            ),
        decreases lines@.len() - i,
    {
        proof {
            lemma_deep_index(*lines, i as int);
            assert(all.skip(i as int)[0] == all[i as int]);
            assert(all.skip(i as int).drop_first() =~= all.skip(i + 1 as int));
        }
        let ghost done = reqs.deep_view();
        match classify_line(lines[i].as_slice()) {
            LineAction::Exit => {
                proof {
                    assert(session_requests_spec(all.skip(i as int)) =~= Seq::<Seq<u8>>::empty());
                    assert(done + Seq::<Seq<u8>>::empty() =~= done);
                }
                return reqs;
            },
            LineAction::Blank => {
            },
            LineAction::Submit(t) => {
                let ghost tv = t@;
                let ghost prior = reqs;
                reqs.push(t);
                proof {
                    assert forall|k: int| 0 <= k < reqs.deep_view().len() implies #[trigger] reqs.deep_view()[k]
                        == prior.deep_view().push(tv)[k] by {
                        if k < prior@.len() {
                            assert(reqs@[k] == prior@[k]);
                        } else {
                            assert(reqs.deep_view()[k] =~= tv);
                        }
                    }
                    assert(reqs.deep_view() =~= prior.deep_view().push(tv));
                    assert(session_requests_spec(all.skip(i as int)) == seq![tv]
                        + session_requests_spec(all.skip(i + 1 as int)));
                    assert(done.push(tv) + session_requests_spec(all.skip(i + 1 as int)) =~= done
                        + (seq![tv] + session_requests_spec(all.skip(i + 1 as int))));
                }
            },
        }
        i = i + 1;
    }
    proof {
        assert(all.skip(i as int) =~= Seq::<Seq<u8>>::empty());
        assert(reqs.deep_view() + Seq::<Seq<u8>>::empty() =~= reqs.deep_view());
    }
    reqs
}

/// A session's submitted requests, each as an `Incoming` event bound to
/// that session's reply sink.
pub open spec fn session_events(reqs: Seq<Seq<u8>>, s: usize) -> Seq<EventView> {
    reqs.map_values(|t: Seq<u8>| EventView::Incoming(ReqView { text: t, sink: s }))
}

/// A whole session, end to end: the lines read up to the first `exit`
/// yield one request per non-blank line, and an idle service answers
/// exactly one outcome per request, at the request's own position in
/// line order — a reply when the result is not nil, silent completion
/// when it is, and nothing at all for the lines at or after `exit`.
pub proof fn lemma_session_end_to_end(lines: Seq<Seq<u8>>, s: usize)
    ensures
        run_spec(ServiceState::Idle, session_events(session_requests_spec(lines), s)).len()
            == session_requests_spec(lines).len(),
        forall|i: int|
            0 <= i < session_requests_spec(lines).len() ==> run_spec(
                ServiceState::Idle,
                session_events(session_requests_spec(lines), s),
            )[i] == step_outcome(
                ServiceState::Idle,
                EventView::Incoming(
                    ReqView { text: #[trigger] session_requests_spec(lines)[i], sink: s },
                ),
            ),
{
    let reqs = session_requests_spec(lines);
    let evs = session_events(reqs, s);
    assert(evs.len() == reqs.len());
    assert(forall|i: int|
        0 <= i < evs.len() ==> #[trigger] evs[i] == EventView::Incoming(
            ReqView { text: reqs[i], sink: s },
        ));
    lemma_outcomes_positional(ServiceState::Idle, evs);
    assert forall|i: int| 0 <= i < reqs.len() implies run_spec(ServiceState::Idle, evs)[i]
        == step_outcome(
        ServiceState::Idle,
        EventView::Incoming(ReqView { text: #[trigger] reqs[i], sink: s }),
    ) by {
        assert(evs[i] == EventView::Incoming(ReqView { text: reqs[i], sink: s }));
        assert(run_spec(ServiceState::Idle, evs)[i] == step_outcome(ServiceState::Idle, evs[i]));
    }
}

} // verus!
