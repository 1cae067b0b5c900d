use gqy_web::actor::{
    actor_step, after_work, command_succeeded, engine_after_change, keep_draining, pop_selection, ActorCommandView,
    ActorState, EngineState, Release, DRAIN_WAITS,
};

fn state() -> ActorState {
    ActorState { open: true, current_session: "cur".to_string() }
}

#[test]
fn a_shutdown_drains_runs_and_ends_the_loop() {
    let (next, plan) = actor_step(&state(), &ActorCommandView::Shutdown);
    assert!(!next.open);
    assert!(plan.cancel_and_drain && plan.stop);
    assert_eq!(plan.release, Release::Never);
    let (after, idle) = actor_step(&next, &ActorCommandView::SetModels);
    assert!(!after.open);
    assert!(!idle.stop && idle.release == Release::Never && !idle.clear_cache);
}

#[test]
fn admin_commands_release_their_reservation() {
    let (_, p) = actor_step(&state(), &ActorCommandView::SetModels);
    assert_eq!(p.release, Release::AfterWork);
    assert!(p.clear_cache && p.set_engine && !p.spawn);
    let (_, p) = actor_step(&state(), &ActorCommandView::ApplyConfig { requires_interrupt: true });
    assert!(p.cancel_and_drain);
    let (_, p) = actor_step(&state(), &ActorCommandView::ApplyConfig { requires_interrupt: false });
    assert!(!p.cancel_and_drain);
    let (_, p) = actor_step(&state(), &ActorCommandView::SwitchSession { release_reservation: false });
    assert_eq!(p.release, Release::Never);
    let (_, p) = actor_step(&state(), &ActorCommandView::StartTurn);
    assert!(p.spawn && p.release == Release::Never);
    let (_, p) = actor_step(&state(), &ActorCommandView::Compact { session_id: "cur".to_string() });
    assert!(p.spawn && p.release == Release::AfterTask && p.refresh_context);
}

#[test]
fn undo_and_pop_refresh_only_the_current_session() {
    let (_, p) = actor_step(&state(), &ActorCommandView::Undo { session_id: "cur".to_string() });
    assert!(p.refresh_context);
    let (_, p) = actor_step(&state(), &ActorCommandView::Pop { session_id: "other".to_string() });
    assert!(!p.refresh_context);
    assert_eq!(engine_after_change(true), EngineState::Ready);
    assert_eq!(engine_after_change(false), EngineState::Cold);
}

#[test]
fn a_pop_takes_exactly_the_named_turns() {
    let available = vec!["t1".to_string(), "t2".to_string(), "t3".to_string()];
    assert_eq!(pop_selection(&available, &vec![]), Ok(vec![]));
    assert_eq!(
        pop_selection(&available, &vec!["t3".to_string(), "t1".to_string()]),
        Ok(vec!["t1".to_string(), "t3".to_string()])
    );
    assert_eq!(
        pop_selection(&available, &vec!["t1".to_string(), "t9".to_string()]),
        Err("one or more conversation turns are no longer available".to_string())
    );
}

#[test]
fn draining_waits_at_most_a_hundred_times() {
    assert_eq!(DRAIN_WAITS, 100);
    assert!(keep_draining(0, true));
    assert!(keep_draining(99, true));
    assert!(!keep_draining(100, true));
    assert!(!keep_draining(0, false));
}

#[test]
fn cache_and_engine_change_only_after_a_successful_command() {
    let (_, p) = actor_step(&state(), &ActorCommandView::SetModels);
    let ok = after_work(&p, command_succeeded(&p, true, true), true);
    assert!(ok.clear_cache && ok.release);
    assert_eq!(ok.set_engine, Some(EngineState::Ready));
    let cold = after_work(&p, true, false);
    assert_eq!(cold.set_engine, Some(EngineState::Cold));
    let failed = after_work(&p, command_succeeded(&p, false, true), true);
    assert!(!failed.clear_cache && failed.set_engine.is_none() && failed.release);
    let (_, undo) = actor_step(&state(), &ActorCommandView::Undo { session_id: "cur".to_string() });
    assert!(!command_succeeded(&undo, true, false));
    assert!(command_succeeded(&undo, true, true));
}
