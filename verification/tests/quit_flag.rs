use main_loop::{MainLoopEvent, QuitFlag};

#[test]
fn new_flag_is_lowered() {
    let flag = QuitFlag::new();
    assert!(!flag.should_quit());
}

#[test]
fn continue_leaves_the_flag_lowered() {
    let mut flag = QuitFlag::new();
    assert_eq!(flag.record(MainLoopEvent::Continue), MainLoopEvent::Continue);
    assert!(!flag.should_quit());
    assert_eq!(flag.record(MainLoopEvent::Continue), MainLoopEvent::Continue);
    assert!(!flag.should_quit());
}

#[test]
fn terminate_raises_the_flag() {
    let mut flag = QuitFlag::new();
    assert_eq!(flag.record(MainLoopEvent::Terminate), MainLoopEvent::Terminate);
    assert!(flag.should_quit());
}

#[test]
fn raised_flag_stays_raised() {
    let mut flag = QuitFlag::new();
    assert_eq!(flag.record(MainLoopEvent::Continue), MainLoopEvent::Continue);
    assert_eq!(flag.record(MainLoopEvent::Terminate), MainLoopEvent::Terminate);
    assert!(flag.should_quit());
    assert_eq!(flag.record(MainLoopEvent::Continue), MainLoopEvent::Continue);
    assert!(flag.should_quit());
    assert_eq!(flag.record(MainLoopEvent::Terminate), MainLoopEvent::Terminate);
    assert!(flag.should_quit());
}

#[test]
fn events_compare_by_variant() {
    assert_eq!(MainLoopEvent::Continue, MainLoopEvent::Continue);
    assert_eq!(MainLoopEvent::Terminate, MainLoopEvent::Terminate);
    assert_ne!(MainLoopEvent::Continue, MainLoopEvent::Terminate);
    let event = MainLoopEvent::Terminate;
    let copy = event;
    assert_eq!(event, copy);
}
