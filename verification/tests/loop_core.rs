use hacker::app::AppSettings;
use hacker::app::CancellableExitRequest;
use hacker::app::Context;
use hacker::app::ExitRequest;
use hacker::app::FrameRate;
use hacker::app::FrameTimer;
use hacker::app::render_phase;
use hacker::app::update_phase;
use hacker::game_loop::LoopContext;
use hacker::game_loop::PastaReader;

#[test]
fn context_flags_coalesce_and_clear_on_take() {
    let mut ctx = Context::new();
    assert!(!ctx.take_redraw_request());
    ctx.request_redraw();
    ctx.request_redraw();
    assert!(ctx.take_redraw_request());
    assert!(!ctx.take_redraw_request());
    ctx.request_update();
    assert!(ctx.take_update_request());
    assert!(!ctx.take_update_request());
}

#[test]
fn context_exit_request_is_taken_once() {
    let mut ctx = Context::new();
    assert!(ctx.take_exit_request().is_none());
    ctx.request_exit(ExitRequest::Failure(3));
    assert_eq!(ctx.take_exit_request(), Some(ExitRequest::Failure(3)));
    assert!(ctx.take_exit_request().is_none());
}

#[test]
fn later_exit_request_replaces_earlier_one() {
    let mut ctx = Context::new();
    ctx.request_exit(ExitRequest::Success);
    ctx.request_exit(ExitRequest::Failure(7));
    assert_eq!(ctx.take_exit_request(), Some(ExitRequest::Failure(7)));
}

#[test]
fn on_demand_timer_never_fires_on_its_own() {
    let mut timer = FrameTimer::new(FrameRate::OnDemand, 0);
    assert!(!timer.frame_ready(0));
    assert!(!timer.frame_ready(1_000_000));
}

#[test]
fn periodic_timer_fires_and_reschedules_one_period_later() {
    let mut timer = FrameTimer::new(FrameRate::Duration(10), 0);
    assert!(timer.frame_ready(0));
    assert_eq!(timer.next_frame(), 10);
    assert!(!timer.frame_ready(5));
    assert!(timer.frame_ready(10));
    assert_eq!(timer.next_frame(), 20);
    assert!(!timer.frame_ready(15));
    // a late fire keeps the fixed cadence: the deadline does not move to
    // one period after the observation
    assert!(timer.frame_ready(25));
    assert_eq!(timer.next_frame(), 30);
    assert!(!timer.frame_ready(29));
    assert!(timer.frame_ready(30));
    assert_eq!(timer.next_frame(), 40);
}

#[test]
fn due_timer_tick_subsumes_an_explicit_request() {
    let mut timer = FrameTimer::new(FrameRate::Duration(10), 0);
    let mut ctx = Context::new();
    ctx.request_update();
    assert!(update_phase(&mut timer, &mut ctx, 0));
    // the flag was consumed by the due tick: no second dispatch
    assert!(!update_phase(&mut timer, &mut ctx, 1));
}

#[test]
fn on_demand_update_dispatches_once_per_request() {
    let mut timer = FrameTimer::new(FrameRate::OnDemand, 0);
    let mut ctx = Context::new();
    assert!(!update_phase(&mut timer, &mut ctx, 0));
    ctx.request_update();
    assert!(update_phase(&mut timer, &mut ctx, 1));
    assert!(!update_phase(&mut timer, &mut ctx, 2));
}

#[test]
fn render_phase_mirrors_update_policy() {
    let mut timer = FrameTimer::new(FrameRate::OnDemand, 0);
    let mut ctx = Context::new();
    assert!(!render_phase(&mut timer, &mut ctx, 0));
    ctx.request_redraw();
    assert!(render_phase(&mut timer, &mut ctx, 1));
    assert!(!render_phase(&mut timer, &mut ctx, 2));
    // an update request does not trigger a render
    ctx.request_update();
    assert!(!render_phase(&mut timer, &mut ctx, 3));
}

#[test]
fn settings_hold_both_channel_rates() {
    let settings = AppSettings {
        render_framerate: FrameRate::OnDemand,
        update_framerate: FrameRate::Duration(16),
    };
    assert_eq!(settings.render_framerate, FrameRate::OnDemand);
    assert_eq!(settings.update_framerate, FrameRate::Duration(16));
}

#[test]
fn cancelled_exit_request_is_discarded() {
    let mut cer = CancellableExitRequest::new(ExitRequest::Success);
    assert!(!cer.is_cancelled());
    cer.cancel();
    assert!(cer.is_cancelled());
    assert_eq!(cer.resolve(), None);
}

#[test]
fn unchallenged_exit_request_becomes_the_outcome() {
    let cer = CancellableExitRequest::new(ExitRequest::Failure(2));
    assert_eq!(cer.resolve(), Some(ExitRequest::Failure(2)));
}

#[test]
fn game_loop_context_mirrors_take_semantics() {
    let mut ctx = LoopContext::new();
    assert!(ctx.take_request().is_none());
    assert!(!ctx.take_redraw_request());
    ctx.request_render();
    ctx.request_exit(ExitRequest::Success);
    assert!(ctx.take_redraw_request());
    assert!(!ctx.take_redraw_request());
    assert_eq!(ctx.take_request(), Some(ExitRequest::Success));
}

#[test]
fn game_loop_update_phase_advances_deadline_by_period() {
    let settings = hacker::game_loop::GameSettings { render_frametime: 16, update_frametime: 16 };
    let mut next_update: u64 = 0;
    assert!(hacker::game_loop::update_phase(&mut next_update, settings.update_frametime, 0));
    assert_eq!(next_update, 16);
    assert!(!hacker::game_loop::update_phase(&mut next_update, settings.update_frametime, 10));
    assert!(hacker::game_loop::update_phase(&mut next_update, settings.update_frametime, 20));
    assert_eq!(next_update, 32);
}

#[test]
fn game_loop_render_phase_honors_flag_and_deadline() {
    let mut next_render: u64 = 100;
    let mut ctx = LoopContext::new();
    // neither due nor requested
    assert!(!hacker::game_loop::render_phase(&mut next_render, 16, &mut ctx, 50));
    // requested but not due: dispatch, flag cleared, deadline kept
    ctx.request_render();
    assert!(hacker::game_loop::render_phase(&mut next_render, 16, &mut ctx, 60));
    assert_eq!(next_render, 100);
    assert!(!hacker::game_loop::render_phase(&mut next_render, 16, &mut ctx, 70));
    // due: dispatch, deadline advances, pending flag consumed
    ctx.request_render();
    assert!(hacker::game_loop::render_phase(&mut next_render, 16, &mut ctx, 100));
    assert_eq!(next_render, 116);
    assert!(!hacker::game_loop::render_phase(&mut next_render, 16, &mut ctx, 101));
}

#[test]
fn game_loop_cancellable_exit_mirrors_app_one() {
    let mut cer = hacker::game_loop::CancellableExitRequest::new(ExitRequest::Success);
    assert_eq!(cer.request, ExitRequest::Success);
    cer.cancel();
    assert_eq!(cer.resolve(), None);
}

#[test]
fn pasta_reader_batches_chunks_until_taken() {
    let mut reader = PastaReader::new();
    assert!(reader.is_empty());
    reader.push_paste("hello ");
    reader.push_paste("world");
    assert!(!reader.is_empty());
    assert_eq!(reader.take_text(), "hello world");
    assert!(reader.is_empty());
    assert_eq!(reader.take_text(), "");
}

#[test]
fn pasta_reader_clear_drops_the_batch() {
    let mut reader = PastaReader::new();
    reader.push_paste("abc");
    reader.clear();
    assert!(reader.is_empty());
    assert_eq!(reader.take_text(), "");
}
