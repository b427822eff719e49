//! What is done for a frame, step by step.

use super::course::{lemma_emits, lemma_performs, with_jobs};
use super::inputs::does_to;
use super::laws::{commands_of, every_window_is_redrawn, redraws_from, state_after};
use super::model::{frame_step, received, rest_of, single_step, Next};
use super::whole::{begun, go};
use super::{
    Command, Effect, Event, Frame, Job, Model, Refresh, Reply, SurfaceError, Sweep, UiState, WindowOp,
};
use crate::host::Host;
use crate::window_man::{
    redraws_are_due_when_asked_for, replacing_touches_one_window, RedrawRequest, Window,
};
use vstd::prelude::*;

verus! {

/// A window is not drawn while there is no compositor.
pub proof fn nothing_is_drawn_without_a_compositor<H: Host>(s: Model<H>, raw: u64)
    requires
        !s.compositor,
    ensures
        received(s, Event::RedrawRequested { raw }) == s,
{
}

/// A user interface gets a new layout.
proof fn lemma_relayouts<H: Host, U>(
    now: Next<H, U>,
    id: u64,
    rest: Seq<Job<H>>,
    interface: U,
)
    requires
        now.model.agenda == seq![Job::<H>::Frame(Frame::Relayout { id })] + rest,
    ensures
        ({
            let asked = go(now, Reply::Done);
            let done = go(asked, Reply::Interface(interface));
            &&& asked.command == (Command::<H, U>::Relayout { id, interface: now.interfaces[id] })
            &&& done == (Next {
                model: with_jobs(now.model, rest),
                interfaces: now.interfaces.remove(id).insert(id, interface),
                command: Command::<H, U>::Proceed,
            })
        }),
{
    reveal(frame_step);
    lemma_performs(now.model, now.interfaces, now.model.agenda[0], rest, Reply::Done);
    let asked = go(now, Reply::Done);
    let job = Job::<H>::Frame(Frame::AwaitRelayout { id });
    assert(asked.model.agenda =~= seq![job] + rest);
    lemma_performs(asked.model, asked.interfaces, job, rest, Reply::Interface(interface));
    assert(Seq::<Job<H>>::empty() + rest =~= rest);
}

/// A user interface is told of a frame.
proof fn lemma_redraws<H: Host, U>(now: Next<H, U>, id: u64, count: usize, rest: Seq<Job<H>>)
    requires
        now.model.agenda == seq![Job::<H>::Frame(Frame::Redraw { id, count })] + rest,
    ensures
        go(now, Reply::Done) == (Next {
            model: with_jobs(
                now.model,
                seq![Job::<H>::Frame(Frame::AwaitRedraw { id, count })] + rest,
            ),
            interfaces: now.interfaces,
            command: Command::<H, U>::Redraw { id },
        }),
{
    reveal(frame_step);
    lemma_performs(now.model, now.interfaces, now.model.agenda[0], rest, Reply::Done);
}

/// Whether a frame of a window is begun and its user interface is told of it, with nothing else done.
pub open spec fn begins_frame<H: Host, U>(now: Next<H, U>, id: u64) -> bool {
    let begins = go(now, Reply::Done);
    let tells = go(begins, Reply::Done);
    &&& does_to(begins, id, WindowOp::BeginFrame)
    &&& tells.command == (Command::<H, U>::Redraw { id })
    &&& tells.interfaces == now.interfaces
    &&& tells.model == (Model { agenda: tells.model.agenda, ..now.model })
}

/// A window that is to be drawn is looked at first. If it has no area, that is all. If its surface is
/// of another version than the one that it was configured for, its user interface gets a new layout and
/// its surface is configured, and the version is noted; otherwise neither is done. Then the frame is
/// begun and the user interface is told of it. No other window is touched.
pub proof fn frames_begin_on_a_fresh_surface<H: Host, U>(
    s: Model<H>,
    ui: Map<u64, U>,
    raw: u64,
    id: u64,
    width: u32,
    height: u32,
    version: u64,
    relaid: U,
)
    requires
        s.agenda.len() == 0,
        s.compositor,
        s.windows.sorted(),
        s.windows.alias(raw) == Some(id),
    ensures
        ({
            let looking = go(begun(s, ui, Event::RedrawRequested { raw }), Reply::Done);
            let looked = go(
                looking,
                Reply::Inspected { width, height, surface_version: version },
            );
            let laying = go(looked, Reply::Done);
            let laid = go(laying, Reply::Interface(relaid));
            let configured = go(laid, Reply::Done);
            let windows = looked.model.windows;
            let window = s.windows.at(id);
            &&& looking.command == (Command::<H, U>::Inspect { id })
            &&& looked.command == Command::<H, U>::Proceed
            &&& looked.interfaces == ui
            &&& width == 0 || height == 0 ==> looked.model == s
            &&& width != 0 && height != 0 && window.surface_version == version ==> {
                &&& looked.model == (Model { agenda: looked.model.agenda, ..s })
                &&& begins_frame(looked, id)
            }
            &&& width != 0 && height != 0 && window.surface_version != version ==> {
                &&& windows.at(id) == (Window { surface_version: version, ..window })
                &&& forall|other: u64|
                    #![trigger s.windows.at(other)]
                    other != id && s.windows.has(other) ==> windows.at(other) == s.windows.at(other)
                &&& looked.model == (Model { windows, agenda: looked.model.agenda, ..s })
                &&& laying.command == (Command::<H, U>::Relayout { id, interface: ui[id] })
                &&& laid.command == Command::<H, U>::Proceed
                &&& laid.interfaces == ui.remove(id).insert(id, relaid)
                &&& laid.model == (Model { agenda: laid.model.agenda, ..looked.model })
                &&& does_to(configured, id, WindowOp::ConfigureSurface)
                &&& configured.interfaces == laid.interfaces
                &&& configured.model == (Model { agenda: configured.model.agenda, ..laid.model })
                &&& begins_frame(configured, id)
            }
        }),
{
    let told = begun(s, ui, Event::RedrawRequested { raw });
    let looking = go(told, Reply::Done);
    let looked = go(looking, Reply::Inspected { width, height, surface_version: version });
    let none = Seq::<Job<H>>::empty();
    let redraw = seq![Job::<H>::Frame(Frame::Redraw { id, count: 0 })];
    let begin = Effect::<H>::Window { id, op: WindowOp::BeginFrame };
    let configure = Effect::<H>::Window { id, op: WindowOp::ConfigureSurface };
    let window = s.windows.at(id);
    let jobs = seq![Job::Emit(begin)] + redraw;
    assert(s.windows.has(id));
    assert(window.id == id) by {
        assert(s.windows.entries[s.windows.place(id)].id == id);
    }
    replacing_touches_one_window(s.windows, Window { surface_version: version, ..window });
    assert(looking.command == (Command::<H, U>::Inspect { id }) && looking.interfaces == ui
        && looking.model == with_jobs(s, seq![Job::<H>::Frame(Frame::AwaitInspect { id })])) by {
        reveal(frame_step);
        assert(rest_of(told.model).agenda =~= none);
        assert(looking.model.agenda =~= seq![Job::<H>::Frame(Frame::AwaitInspect { id })]);
    }
    assert(looked.command == Command::<H, U>::Proceed && looked.interfaces == ui) by {
        reveal(frame_step);
    }
    assert(rest_of(looking.model) == s) by {
        assert(rest_of(looking.model).agenda =~= s.agenda);
    }
    if width == 0 || height == 0 {
        reveal(frame_step);
        assert(looked.model.agenda =~= s.agenda);
    } else if window.surface_version == version {
        assert(looked.model == with_jobs(s, jobs)) by {
            reveal(frame_step);
            assert(looked.model.agenda =~= jobs);
        }
        lemma_begins(looked, id);
    } else {
        let layout = Job::<H>::Frame(Frame::Relayout { id });
        let then = seq![Job::Emit(configure)] + jobs;
        assert(looked.model == (Model {
            windows: s.windows.replaced(Window { surface_version: version, ..window }),
            agenda: seq![layout] + then,
            ..s
        })) by {
            reveal(frame_step);
            assert(looked.model.agenda =~= seq![layout] + then);
        }
        lemma_relayouts(looked, id, then, relaid);
        let laid = go(go(looked, Reply::Done), Reply::Interface(relaid));
        lemma_emits(laid.model, laid.interfaces, configure, jobs, Reply::Done);
        lemma_begins(go(laid, Reply::Done), id);
    }
}

proof fn lemma_begins<H: Host, U>(now: Next<H, U>, id: u64)
    requires
        now.model.agenda == seq![
            Job::<H>::Emit(Effect::Window { id, op: WindowOp::BeginFrame }),
        ] + seq![Job::<H>::Frame(Frame::Redraw { id, count: 0 })],
    ensures
        begins_frame(now, id),
{
    let begin = Effect::<H>::Window { id, op: WindowOp::BeginFrame };
    let redraw = seq![Job::<H>::Frame(Frame::Redraw { id, count: 0 })];
    lemma_emits(now.model, now.interfaces, begin, redraw, Reply::Done);
    let none = Seq::<Job<H>>::empty();
    assert(redraw =~= redraw + none);
    lemma_redraws(go(now, Reply::Done), id, 0, none);
}

/// The frame is drawn when the user interface has nothing more to say, that is, when it has no message
/// and its layout is what it was, and in any case when it has been told again twice. Otherwise it is
/// told once more: right away if no message waits, and after the program has been updated if one does.
/// Then the actions that come of that are run, those on windows put off, all other windows are drawn
/// again, and the size of the window is checked.
pub proof fn frames_are_drawn_once_settled<H: Host, U>(
    now: Next<H, U>,
    id: u64,
    count: usize,
    state: UiState<H>,
    messages: Vec<H::Message>,
)
    requires
        now.model.agenda.len() > 0,
        now.model.agenda[0] == Job::<H>::Frame(Frame::AwaitRedraw { id, count }),
    ensures
        ({
            let next = go(now, Reply::Redrawn { state, messages });
            let settled = messages@.len() == 0 && (state matches UiState::Updated {
                has_layout_changed,
                ..
            } && !has_layout_changed);
            let rest = now.model.agenda.drop_first();
            &&& next.model.messages == now.model.messages + messages@
            &&& next.interfaces == now.interfaces
            &&& settled || count >= 2 <==> does_to(next, id, WindowOp::Draw)
            &&& !settled && count < 2 ==> {
                &&& next.command == Command::<H, U>::Proceed
                &&& next.model.messages.len() == 0 ==> next.model.agenda == seq![
                    Job::<H>::Frame(Frame::Redraw { id, count: (count + 1) as usize }),
                ] + rest
                &&& next.model.messages.len() > 0 ==> next.model.agenda == seq![
                    Job::<H>::Refresh(Refresh::Caching { next: 0 }),
                    Job::<H>::RunCollected { defer: true },
                    Job::<H>::Sweep(Sweep::Redraw { next: 0, except: Some(id) }),
                    Job::<H>::Frame(Frame::Check { id, count: (count + 1) as usize }),
                ] + rest
            }
        }),
{
    reveal(frame_step);
    let next = go(now, Reply::Redrawn { state, messages });
    let rest = now.model.agenda.drop_first();
    assert(rest_of(now.model).agenda == rest);
    assert(next.model.agenda.len() == rest.len() + 4 ==> next.model.agenda =~= seq![
        Job::<H>::Refresh(Refresh::Caching { next: 0 }),
        Job::<H>::RunCollected { defer: true },
        Job::<H>::Sweep(Sweep::Redraw { next: 0, except: Some(id) }),
        Job::<H>::Frame(Frame::Check { id, count: (count + 1) as usize }),
    ] + rest);
}

/// Whether a frame that has been drawn is told of, text that is being composed is drawn, and the frame
/// is presented, with nothing else done.
pub open spec fn presents_frame<H: Host, U>(now: Next<H, U>, id: u64, rest: Seq<Job<H>>) -> bool {
    let told = go(now, Reply::Done);
    let composed = go(told, Reply::Done);
    let presented = go(composed, Reply::Done);
    &&& does_to(told, id, WindowOp::BroadcastFrame)
    &&& does_to(composed, id, WindowOp::DrawPreedit)
    &&& presented.command == (Command::<H, U>::Present { id })
    &&& presented.interfaces == now.interfaces
    &&& presented.model == (Model {
        agenda: seq![Job::<H>::Frame(Frame::AwaitPresent { id })] + rest,
        ..now.model
    })
}

/// Once a frame has been drawn, the window is drawn again when its user interface wants it to be: with
/// the next frame, for which the system is asked right away and no other time is set, or at a time,
/// which is set then; if it wants nothing, the time that was set stays. The user interface gets the way
/// of entering text and the mouse cursor that it wants. Then the frame is presented. No other window is
/// touched.
pub proof fn drawn_windows_are_drawn_again_in_time<H: Host, U>(
    now: Next<H, U>,
    id: u64,
    count: usize,
    state: UiState<H>,
    messages: Vec<H::Message>,
)
    requires
        now.model.agenda.len() > 0,
        now.model.agenda[0] == Job::<H>::Frame(Frame::AwaitRedraw { id, count }),
        now.model.windows.sorted(),
        now.model.windows.has(id),
        state is Updated,
        does_to(go(now, Reply::Redrawn { state, messages }), id, WindowOp::Draw),
    ensures
        ({
            let drawn = go(now, Reply::Redrawn { state, messages });
            let asked = go(drawn, Reply::Done);
            let entry = go(asked, Reply::Done);
            let mouse = go(entry, Reply::Done);
            let before = now.model.windows;
            let windows = mouse.model.windows;
            let request = state->redraw_request;
            &&& asked.command == if request == RedrawRequest::NextFrame {
                Command::<H, U>::Effect(Effect::Window { id, op: WindowOp::RequestRedraw })
            } else {
                Command::<H, U>::Proceed
            }
            &&& does_to(entry, id, WindowOp::RequestInputMethod(state->input_method))
            &&& does_to(mouse, id, WindowOp::UpdateMouse(state->mouse_interaction))
            &&& windows.at(id) == (Window {
                redraw_at: match request {
                    RedrawRequest::At(time) => Some(time),
                    RedrawRequest::NextFrame => None,
                    RedrawRequest::Wait => before.at(id).redraw_at,
                },
                ..before.at(id)
            })
            &&& forall|other: u64|
                #![trigger before.at(other)]
                other != id && before.has(other) ==> windows.at(other) == before.at(other)
            &&& mouse.interfaces == now.interfaces
            &&& mouse.model == (Model {
                windows,
                messages: now.model.messages + messages@,
                agenda: mouse.model.agenda,
                ..now.model
            })
            &&& presents_frame(mouse, id, rest_of(now.model).agenda)
        }),
{
    let rest = rest_of(now.model).agenda;
    let drawn = go(now, Reply::Redrawn { state, messages });
    let end = end_of::<H>(id, rest);
    let request = state->redraw_request;
    lemma_drawn(now, id, count, state, messages);
    lemma_wishes(drawn, id, request, state->mouse_interaction, state->input_method, end);
    redraws_are_due_when_asked_for(now.model.windows, id, request);
    lemma_presenting(go(go(go(drawn, Reply::Done), Reply::Done), Reply::Done), id, rest);
}

/// A user interface that is outdated when its frame is drawn wants nothing: the frame is presented, and
/// the window is drawn again when it would have been.
pub proof fn outdated_interfaces_want_nothing<H: Host, U>(
    now: Next<H, U>,
    id: u64,
    count: usize,
    messages: Vec<H::Message>,
)
    requires
        now.model.agenda.len() > 0,
        now.model.agenda[0] == Job::<H>::Frame(Frame::AwaitRedraw { id, count }),
        does_to(
            go(now, Reply::Redrawn { state: UiState::Outdated, messages }),
            id,
            WindowOp::Draw,
        ),
    ensures
        ({
            let drawn = go(now, Reply::Redrawn { state: UiState::Outdated, messages });
            &&& drawn.interfaces == now.interfaces
            &&& drawn.model == (Model {
                messages: now.model.messages + messages@,
                agenda: drawn.model.agenda,
                ..now.model
            })
            &&& presents_frame(drawn, id, rest_of(now.model).agenda)
        }),
{
    let rest = rest_of(now.model).agenda;
    let drawn = go(now, Reply::Redrawn { state: UiState::Outdated, messages });
    let said = Model { messages: now.model.messages + messages@, ..now.model };
    let end = end_of::<H>(id, rest);
    assert(drawn.model == with_jobs(said, end) && drawn.interfaces == now.interfaces) by {
        reveal(frame_step);
        assert(drawn.model.agenda =~= end);
    }
    lemma_presenting(drawn, id, rest);
}

/// What is left to do for a frame once its user interface has what it wants.
spec fn end_of<H: Host>(id: u64, rest: Seq<Job<H>>) -> Seq<Job<H>> {
    seq![Job::Emit(Effect::Window { id, op: WindowOp::BroadcastFrame })] + (seq![
        Job::Emit(Effect::Window { id, op: WindowOp::DrawPreedit }),
    ] + (seq![Job::Frame(Frame::Present { id })] + rest))
}

/// What is left to do for a frame once it has been drawn.
spec fn wishes<H: Host>(
    id: u64,
    request: RedrawRequest,
    mouse: H::Interaction,
    method: H::InputMethod,
    end: Seq<Job<H>>,
) -> Seq<Job<H>> {
    seq![Job::RequestRedraw { id, request }] + (seq![
        Job::Emit(Effect::Window { id, op: WindowOp::RequestInputMethod(method) }),
    ] + (seq![Job::Emit(Effect::Window { id, op: WindowOp::UpdateMouse(mouse) })] + end))
}

proof fn lemma_drawn<H: Host, U>(
    now: Next<H, U>,
    id: u64,
    count: usize,
    state: UiState<H>,
    messages: Vec<H::Message>,
)
    requires
        now.model.agenda.len() > 0,
        now.model.agenda[0] == Job::<H>::Frame(Frame::AwaitRedraw { id, count }),
        does_to(go(now, Reply::Redrawn { state, messages }), id, WindowOp::Draw),
        state is Updated,
    ensures
        ({
            let drawn = go(now, Reply::Redrawn { state, messages });
            let end = end_of::<H>(id, rest_of(now.model).agenda);
            let said = Model { messages: now.model.messages + messages@, ..now.model };
            &&& drawn.interfaces == now.interfaces
            &&& drawn.model == with_jobs(
                said,
                wishes(
                    id,
                    state->redraw_request,
                    state->mouse_interaction,
                    state->input_method,
                    end,
                ),
            )
        }),
{
    reveal(frame_step);
    let drawn = go(now, Reply::Redrawn { state, messages });
    let end = end_of::<H>(id, rest_of(now.model).agenda);
    assert(drawn.model.agenda =~= wishes(
        id,
        state->redraw_request,
        state->mouse_interaction,
        state->input_method,
        end,
    ));
}

proof fn lemma_wishes<H: Host, U>(
    drawn: Next<H, U>,
    id: u64,
    request: RedrawRequest,
    mouse: H::Interaction,
    method: H::InputMethod,
    end: Seq<Job<H>>,
)
    requires
        drawn.model.agenda == wishes(id, request, mouse, method, end),
    ensures
        ({
            let asked = go(drawn, Reply::Done);
            let entry = go(asked, Reply::Done);
            let pointed = go(entry, Reply::Done);
            let windows = drawn.model.windows.requested(id, request);
            &&& asked.command == if request == RedrawRequest::NextFrame {
                Command::<H, U>::Effect(Effect::Window { id, op: WindowOp::RequestRedraw })
            } else {
                Command::<H, U>::Proceed
            }
            &&& does_to(entry, id, WindowOp::RequestInputMethod(method))
            &&& does_to(pointed, id, WindowOp::UpdateMouse(mouse))
            &&& pointed.interfaces == drawn.interfaces
            &&& pointed.model == with_jobs(Model { windows, ..drawn.model }, end)
        }),
{
    let ui = drawn.interfaces;
    let input = Effect::<H>::Window { id, op: WindowOp::RequestInputMethod(method) };
    let point = Effect::<H>::Window { id, op: WindowOp::UpdateMouse(mouse) };
    let second = seq![Job::Emit(point)] + end;
    let first = seq![Job::Emit(input)] + second;
    let asked = go(drawn, Reply::Done);
    lemma_asks_to_redraw(drawn, id, request, first);
    lemma_emits(asked.model, ui, input, second, Reply::Done);
    let entry = go(asked, Reply::Done);
    lemma_emits(entry.model, ui, point, end, Reply::Done);
}

/// A window is asked to be drawn again, now or at a set time.
pub(crate) proof fn lemma_asks_to_redraw<H: Host, U>(
    now: Next<H, U>,
    id: u64,
    request: RedrawRequest,
    rest: Seq<Job<H>>,
)
    requires
        now.model.agenda == seq![Job::<H>::RequestRedraw { id, request }] + rest,
    ensures
        go(now, Reply::Done) == (Next {
            model: with_jobs(
                Model { windows: now.model.windows.requested(id, request), ..now.model },
                rest,
            ),
            interfaces: now.interfaces,
            command: if request == RedrawRequest::NextFrame {
                Command::<H, U>::Effect(Effect::Window { id, op: WindowOp::RequestRedraw })
            } else {
                Command::<H, U>::Proceed
            },
        }),
{
    reveal(single_step);
    lemma_performs(now.model, now.interfaces, now.model.agenda[0], rest, Reply::Done);
    assert(Seq::<Job<H>>::empty() + rest =~= rest);
}

proof fn lemma_presenting<H: Host, U>(ready: Next<H, U>, id: u64, rest: Seq<Job<H>>)
    requires
        ready.model.agenda == end_of::<H>(id, rest),
    ensures
        presents_frame(ready, id, rest),
{
    let ui = ready.interfaces;
    let frame = Effect::<H>::Window { id, op: WindowOp::BroadcastFrame };
    let preedit = Effect::<H>::Window { id, op: WindowOp::DrawPreedit };
    let last = seq![Job::<H>::Frame(Frame::Present { id })] + rest;
    let then = seq![Job::Emit(preedit)] + last;
    lemma_emits(ready.model, ui, frame, then, Reply::Done);
    let told = go(ready, Reply::Done);
    lemma_emits(told.model, ui, preedit, last, Reply::Done);
    let composed = go(told, Reply::Done);
    reveal(frame_step);
    lemma_performs(composed.model, ui, composed.model.agenda[0], rest, Reply::Done);
}

/// A frame that was presented is done with. If its surface is outdated it is configured anew, and if it
/// is lost it is made anew; the window is drawn again then. After any other failure all windows are
/// drawn again.
pub proof fn failed_surfaces_are_mended<H: Host, U>(
    now: Next<H, U>,
    id: u64,
    result: Result<(), SurfaceError>,
)
    requires
        now.model.agenda.len() > 0,
        now.model.agenda[0] == Job::<H>::Frame(Frame::AwaitPresent { id }),
        now.model.windows.entries.len() <= usize::MAX,
    ensures
        ({
            let next = go(now, Reply::Presented(result));
            let mended = go(next, Reply::Done);
            let asked = go(mended, Reply::Done);
            let n = now.model.windows.entries.len();
            let commands = commands_of(next.model, next.interfaces, n + 1);
            &&& next.command == Command::<H, U>::Proceed
            &&& next.interfaces == now.interfaces
            &&& result is Ok ==> next.model == rest_of(now.model)
            &&& result == Err::<(), SurfaceError>(SurfaceError::Outdated) || result == Err::<
                (),
                SurfaceError,
            >(SurfaceError::Lost) ==> {
                &&& does_to(
                    mended,
                    id,
                    if result == Err::<(), SurfaceError>(SurfaceError::Lost) {
                        WindowOp::RecreateSurface
                    } else {
                        WindowOp::ConfigureSurface
                    },
                )
                &&& does_to(asked, id, WindowOp::RequestRedraw)
                &&& asked.model == rest_of(now.model)
                &&& asked.interfaces == now.interfaces
            }
            &&& result == Err::<(), SurfaceError>(SurfaceError::Timeout) || result == Err::<
                (),
                SurfaceError,
            >(SurfaceError::Other) ==> {
                &&& commands.len() == n + 1
                &&& forall|i: int|
                    0 <= i < n ==> #[trigger] commands[i] == Command::<H, U>::Effect(
                        Effect::Window {
                            id: now.model.windows.entries[i].id,
                            op: WindowOp::RequestRedraw,
                        },
                    )
                &&& commands[n as int] == Command::<H, U>::Proceed
                &&& state_after(next.model, next.interfaces, n + 1) == rest_of(now.model)
            }
        }),
{
    let rest = rest_of(now.model).agenda;
    let ui = now.interfaces;
    let next = go(now, Reply::Presented(result));
    let request = Effect::<H>::Window { id, op: WindowOp::RequestRedraw };
    reveal(frame_step);
    if result is Ok {
        assert(next.model.agenda =~= rest);
    } else {
        let error = result->Err_0;
        if error == SurfaceError::Outdated || error == SurfaceError::Lost {
            let mend = Effect::<H>::Window {
                id,
                op: if error == SurfaceError::Lost {
                    WindowOp::RecreateSurface
                } else {
                    WindowOp::ConfigureSurface
                },
            };
            let last = seq![Job::Emit(request)] + rest;
            assert(next.model.agenda =~= seq![Job::Emit(mend)] + last);
            lemma_emits(next.model, ui, mend, last, Reply::Done);
            lemma_emits(go(next, Reply::Done).model, ui, request, rest, Reply::Done);
        } else {
            let sweep = Job::<H>::Sweep(Sweep::Redraw { next: 0, except: None });
            assert(next.model.agenda =~= seq![sweep] + rest);
            assert(rest_of(next.model).agenda =~= rest);
            every_window_is_redrawn(next.model, ui, 0, None);
            let requests = redraws_from::<H, U>(now.model.windows, 0, None);
            assert(requests.len() == now.model.windows.entries.len());
        }
    }
}

/// After the program has been updated in the middle of a frame, the user interface of the window gets a
/// new layout exactly if the size of the window is another one now, and is told of the frame again.
pub proof fn frames_go_on_with_the_size_of_the_window<H: Host, U>(
    now: Next<H, U>,
    id: u64,
    count: usize,
    relaid: U,
)
    requires
        now.model.agenda.len() > 0,
        now.model.agenda[0] == Job::<H>::Frame(Frame::Check { id, count }),
        now.model.compositor,
    ensures
        ({
            let checking = go(now, Reply::Done);
            let same = go(checking, Reply::Flag(false));
            let other = go(checking, Reply::Flag(true));
            let laying = go(other, Reply::Done);
            let laid = go(laying, Reply::Interface(relaid));
            let again = seq![Job::<H>::Frame(Frame::AwaitRedraw { id, count })] + rest_of(
                now.model,
            ).agenda;
            &&& checking.command == (Command::<H, U>::CheckSize { id })
            &&& same.command == Command::<H, U>::Proceed
            &&& go(same, Reply::Done) == (Next {
                model: with_jobs(now.model, again),
                interfaces: now.interfaces,
                command: Command::<H, U>::Redraw { id },
            })
            &&& other.command == Command::<H, U>::Proceed
            &&& laying.command == (Command::<H, U>::Relayout { id, interface: now.interfaces[id] })
            &&& laid.command == Command::<H, U>::Proceed
            &&& go(laid, Reply::Done) == (Next {
                model: with_jobs(now.model, again),
                interfaces: now.interfaces.remove(id).insert(id, relaid),
                command: Command::<H, U>::Redraw { id },
            })
        }),
{
    let rest = rest_of(now.model).agenda;
    let ui = now.interfaces;
    let checking = go(now, Reply::Done);
    let redraw = seq![Job::<H>::Frame(Frame::Redraw { id, count })] + rest;
    let layout = seq![Job::<H>::Frame(Frame::Relayout { id })] + redraw;
    let same = go(checking, Reply::Flag(false));
    let other = go(checking, Reply::Flag(true));
    assert(checking == (Next {
        model: with_jobs(now.model, seq![Job::<H>::Frame(Frame::AwaitSize { id, count })] + rest),
        interfaces: ui,
        command: Command::<H, U>::CheckSize { id },
    })) by {
        reveal(frame_step);
    }
    assert(same.command == Command::<H, U>::Proceed && same.interfaces == ui && same.model == with_jobs(
        now.model,
        redraw,
    ) && other.command == Command::<H, U>::Proceed && other.interfaces == ui && other.model == with_jobs(
        now.model,
        layout,
    )) by {
        reveal(frame_step);
        assert(rest_of(checking.model).agenda =~= rest);
        assert(same.model.agenda =~= redraw);
        assert(other.model.agenda =~= layout);
    }
    lemma_redraws(same, id, count, rest);
    lemma_relayouts(other, id, redraw, relaid);
    lemma_redraws(go(go(other, Reply::Done), Reply::Interface(relaid)), id, count, rest);
}

} // verus!
