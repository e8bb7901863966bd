use minigene::{after_systems, drain_input, mini_frame, FrameEnd, FrameError, InputEvent, State, StateMachine, Trans, TransKind};
use plank_ecs::{Dispatcher, DispatcherBuilder, EcsError, IntoSystem, SystemResult, World};

struct Scripted {
    name: &'static str,
    plan: Vec<u8>,
    frame: usize,
}

// plan codes: 0 stay, 1 pop, 2 push a state "B" that pops on its first update, 3 quit
impl State<Vec<String>> for Scripted {
    fn on_start(&mut self, _w: &mut World, _d: &mut Dispatcher, log: &mut Vec<String>) {
        log.push(format!("start {}", self.name));
    }

    fn on_stop(&mut self, _w: &mut World, _d: &mut Dispatcher, log: &mut Vec<String>) {
        log.push(format!("stop {}", self.name));
    }

    fn on_pause(&mut self, _w: &mut World, _d: &mut Dispatcher, log: &mut Vec<String>) {
        log.push(format!("pause {}", self.name));
    }

    fn on_resume(&mut self, _w: &mut World, _d: &mut Dispatcher, log: &mut Vec<String>) {
        log.push(format!("resume {}", self.name));
    }

    fn update(&mut self, _w: &mut World, _d: &mut Dispatcher, log: &mut Vec<String>) -> Trans<Scripted> {
        log.push(format!("update {}", self.name));
        let code = self.plan.get(self.frame).copied().unwrap_or(0);
        self.frame += 1;
        match code {
            1 => Trans::Pop,
            2 => Trans::Push(Scripted { name: "B", plan: vec![1], frame: 0 }),
            3 => Trans::Quit,
            _ => Trans::Continue,
        }
    }
}

fn failing_system(_buffer: &Vec<char>) -> SystemResult {
    Err(EcsError::NotInitialized)
}

fn world_with_buffer() -> World {
    let mut world = World::default();
    world.initialize::<Vec<char>>();
    world
}

fn buffer(world: &World) -> Vec<char> {
    world.get::<Vec<char>>().unwrap().clone()
}

#[test]
fn drain_keeps_chars_before_close() {
    let events = vec![
        InputEvent::Character('a'),
        InputEvent::CloseRequested,
        InputEvent::Character('b'),
    ];
    assert_eq!(drain_input(&events), (vec!['a'], true));
}

#[test]
fn drain_ignores_other_events() {
    let events = vec![
        InputEvent::Other,
        InputEvent::Character('x'),
        InputEvent::Other,
        InputEvent::Character('y'),
    ];
    assert_eq!(drain_input(&events), (vec!['x', 'y'], false));
    assert_eq!(drain_input(&vec![]), (vec![], false));
}

#[test]
fn close_request_stops_before_systems_and_update() {
    let mut world = world_with_buffer();
    let mut dispatcher = DispatcherBuilder::default()
        .add(failing_system)
        .build(&mut world);
    let mut log = Vec::new();
    let mut sm = StateMachine::new(Scripted { name: "A", plan: vec![], frame: 0 });
    sm.start(&mut world, &mut dispatcher, &mut log);
    let events = vec![
        InputEvent::Character('a'),
        InputEvent::CloseRequested,
        InputEvent::Character('b'),
    ];
    let r = mini_frame(&mut world, &mut dispatcher, &mut log, &events, &mut sm);
    assert!(matches!(r, Ok(FrameEnd::Closed)));
    assert_eq!(buffer(&world), vec!['a']);
    assert_eq!(log, vec!["start A", "stop A"]);
    assert!(!sm.is_running());
}

#[test]
fn characters_reach_the_buffer_in_order() {
    let mut world = world_with_buffer();
    let mut dispatcher = DispatcherBuilder::default().build(&mut world);
    let mut log = Vec::new();
    let mut sm = StateMachine::new(Scripted { name: "A", plan: vec![], frame: 0 });
    sm.start(&mut world, &mut dispatcher, &mut log);
    let events = vec![InputEvent::Character('h'), InputEvent::Other, InputEvent::Character('i')];
    let r = mini_frame(&mut world, &mut dispatcher, &mut log, &events, &mut sm);
    assert!(matches!(r, Ok(FrameEnd::Ticked(TransKind::Continue))));
    assert_eq!(buffer(&world), vec!['h', 'i']);
    assert_eq!(log, vec!["start A", "update A"]);
}

#[test]
fn failing_systems_end_the_frame() {
    let mut world = world_with_buffer();
    let mut dispatcher = DispatcherBuilder::default()
        .add(failing_system)
        .build(&mut world);
    let mut log = Vec::new();
    let mut sm = StateMachine::new(Scripted { name: "A", plan: vec![3], frame: 0 });
    sm.start(&mut world, &mut dispatcher, &mut log);
    let r = mini_frame(&mut world, &mut dispatcher, &mut log, &vec![], &mut sm);
    assert!(matches!(r, Err(FrameError::Dispatch(_))));
    assert_eq!(log, vec!["start A"]);
    assert!(sm.is_running());
}

#[test]
fn missing_char_buffer_ends_the_frame() {
    let mut world = World::default();
    let mut dispatcher = DispatcherBuilder::default().build(&mut world);
    let mut log = Vec::new();
    let mut sm = StateMachine::new(Scripted { name: "A", plan: vec![], frame: 0 });
    sm.start(&mut world, &mut dispatcher, &mut log);
    let events = vec![InputEvent::Character('q')];
    let r = mini_frame(&mut world, &mut dispatcher, &mut log, &events, &mut sm);
    assert!(matches!(r, Err(FrameError::CharBuffer(_))));
    assert_eq!(log, vec!["start A"]);
}

#[test]
fn push_pop_quit_over_three_frames() {
    let mut world = world_with_buffer();
    let mut dispatcher = DispatcherBuilder::default().build(&mut world);
    let mut log = Vec::new();
    let mut sm = StateMachine::new(Scripted { name: "A", plan: vec![2, 3], frame: 0 });
    sm.start(&mut world, &mut dispatcher, &mut log);
    assert_eq!(sm.depth(), 1);

    let r = mini_frame(&mut world, &mut dispatcher, &mut log, &vec![], &mut sm);
    assert!(matches!(r, Ok(FrameEnd::Ticked(TransKind::Push))));
    assert_eq!(sm.depth(), 2);
    assert_eq!(log, vec!["start A", "update A", "pause A", "start B"]);

    let r = mini_frame(&mut world, &mut dispatcher, &mut log, &vec![], &mut sm);
    assert!(matches!(r, Ok(FrameEnd::Ticked(TransKind::Pop))));
    assert_eq!(sm.depth(), 1);
    assert_eq!(&log[4..], &["update B", "stop B", "resume A"]);

    let r = mini_frame(&mut world, &mut dispatcher, &mut log, &vec![], &mut sm);
    assert!(matches!(r, Ok(FrameEnd::Ticked(TransKind::Quit))));
    assert_eq!(sm.depth(), 0);
    assert!(!sm.is_running());
    assert_eq!(&log[7..], &["update A", "stop A"]);
}

#[test]
fn after_systems_updates_only_on_success() {
    let mut world = world_with_buffer();
    let mut dispatcher = DispatcherBuilder::default().build(&mut world);
    let mut log = Vec::new();
    let mut sm = StateMachine::new(Scripted { name: "A", plan: vec![1], frame: 0 });
    sm.start(&mut world, &mut dispatcher, &mut log);

    let failed = Err(EcsError::AlreadyBorrowed);
    let r = after_systems(failed, &mut world, &mut dispatcher, &mut log, &mut sm);
    assert!(matches!(r, Err(FrameError::Dispatch(EcsError::AlreadyBorrowed))));
    assert_eq!(log, vec!["start A"]);
    assert!(sm.is_running());

    let r = after_systems(Ok(()), &mut world, &mut dispatcher, &mut log, &mut sm);
    assert!(matches!(r, Ok(TransKind::Pop)));
    assert_eq!(log, vec!["start A", "update A", "stop A"]);
    assert!(!sm.is_running());
}
