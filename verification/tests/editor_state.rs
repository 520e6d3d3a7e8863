use phantom_editor::actions::{Actions, Command, CommandSummonEntity, SummonStep};
use phantom_editor::events::PendingEvents;
use phantom_editor::logger::{enabled, LogBuffer, LogEntry, LogLevel, MAX_ENTRIES};
use phantom_editor::play::PlaySession;

struct AddOne {
    runs: u32,
}

impl Command<Vec<i32>> for AddOne {
    fn execute(&mut self, ctx: &mut Vec<i32>) {
        self.runs += 1;
        ctx.push(1);
    }

    fn undo(&mut self, ctx: &mut Vec<i32>) {
        ctx.pop();
    }
}

#[test]
fn undo_takes_back_and_redo_reapplies() {
    let mut ctx: Vec<i32> = Vec::new();
    let mut actions: Actions<AddOne> = Actions::new();
    actions.do_command(AddOne { runs: 0 }, &mut ctx);
    actions.do_command(AddOne { runs: 0 }, &mut ctx);
    assert_eq!(ctx.len(), 2);
    actions.undo(&mut ctx);
    assert_eq!(ctx.len(), 1);
    actions.redo(&mut ctx);
    assert_eq!(ctx.len(), 2);
    actions.redo(&mut ctx);
    assert_eq!(ctx.len(), 2);
    actions.undo(&mut ctx);
    actions.undo(&mut ctx);
    actions.undo(&mut ctx);
    assert!(ctx.is_empty());
}

#[test]
fn a_new_command_drops_the_redo_history() {
    let mut ctx: Vec<i32> = Vec::new();
    let mut actions: Actions<AddOne> = Actions::new();
    actions.do_command(AddOne { runs: 0 }, &mut ctx);
    actions.undo(&mut ctx);
    assert!(ctx.is_empty());
    actions.do_command(AddOne { runs: 0 }, &mut ctx);
    actions.redo(&mut ctx);
    assert_eq!(ctx.len(), 1);
}

#[test]
fn summon_command_reuses_its_entity_on_redo() {
    let mut c: CommandSummonEntity<u64> = CommandSummonEntity::new();
    assert_eq!(c.summon_step(), SummonStep::SummonNew);
    c.record_spawned(7);
    assert_eq!(c.undo_target(), 7);
    assert_eq!(c.summon_step(), SummonStep::Resummon(7));
}

#[test]
fn log_filter_by_level_and_target() {
    assert!(enabled(LogLevel::Debug, LogLevel::Info, "my_game"));
    assert!(enabled(LogLevel::Debug, LogLevel::Debug, "my_game"));
    assert!(!enabled(LogLevel::Debug, LogLevel::Trace, "my_game"));
    assert!(!enabled(LogLevel::Trace, LogLevel::Error, "winit::window"));
    assert!(!enabled(LogLevel::Trace, LogLevel::Error, "egui_dock"));
    assert!(!enabled(LogLevel::Trace, LogLevel::Info, "tracing::span"));
    assert!(enabled(LogLevel::Trace, LogLevel::Info, "tracing"));
    assert!(enabled(LogLevel::Error, LogLevel::Error, "phantom"));
}

#[test]
fn log_lines_and_colors() {
    let e = LogEntry { level: LogLevel::Warn, message: "hello".to_string() };
    assert_eq!(e.line(), "[WARN] hello");
    assert_eq!(LogLevel::Trace.label(), "TRACE");
    assert_eq!(LogLevel::Error.console_color(), (255, 100, 100));
    assert_eq!(LogLevel::Info.console_color(), (210, 210, 210));
    assert_eq!(LogLevel::Debug.rank(), 4);
}

#[test]
fn log_buffer_keeps_the_newest_entries() {
    let mut b = LogBuffer::new();
    for i in 0..(MAX_ENTRIES + 5) {
        b.push(LogEntry { level: LogLevel::Info, message: i.to_string() });
    }
    assert_eq!(b.len(), MAX_ENTRIES);
    assert_eq!(b.get(0).message, "5");
    assert_eq!(b.get(MAX_ENTRIES - 1).message, (MAX_ENTRIES + 4).to_string());
}

#[test]
fn play_then_stop_restores_the_snapshot() {
    let mut s = PlaySession::new();
    assert!(s.project_edits_allowed());
    assert!(s.start_playing(vec![1, 2, 3]));
    assert!(!s.project_edits_allowed());
    assert!(!s.start_playing(vec![9]));
    assert_eq!(s.stop_playing(), Some(vec![1, 2, 3]));
    assert!(!s.is_playing);
    assert_eq!(s.stop_playing(), None);
}

#[test]
fn injected_events_come_first() {
    let mut p: PendingEvents<u8> = PendingEvents::new();
    p.inject_event(1);
    p.inject_event(2);
    assert_eq!(p.take_with(vec![3, 4]), vec![1, 2, 3, 4]);
    assert_eq!(p.take_with(vec![5]), vec![5]);
}
