use iridium::events::{Cancelable, Event, EventBus, EventError, EventPriority};
use std::cell::RefCell;
use std::rc::Rc;

struct Probe {
    value: i32,
    canceled: bool,
}

impl Cancelable for Probe {
    fn canceled(&self) -> bool {
        self.canceled
    }

    fn is_canceled(&self) -> bool {
        self.canceled
    }

    fn set_canceled(&mut self, canceled: bool) {
        self.canceled = canceled;
    }
}

impl Event for Probe {
    fn name(&self) -> &'static str {
        "Probe"
    }
}

type Handler = Box<dyn Fn(Probe) -> (Probe, Result<(), EventError>)>;

fn recording(log: &Rc<RefCell<Vec<&'static str>>>, label: &'static str) -> Handler {
    let log = log.clone();
    Box::new(move |event| {
        log.borrow_mut().push(label);
        (event, Ok(()))
    })
}

fn canceling(log: &Rc<RefCell<Vec<&'static str>>>, label: &'static str) -> Handler {
    let log = log.clone();
    Box::new(move |mut event: Probe| {
        log.borrow_mut().push(label);
        event.set_canceled(true);
        (event, Ok(()))
    })
}

fn priorities(bus: &EventBus<Handler>) -> Vec<EventPriority> {
    (0..bus.len()).map(|i| bus.priority_at(i)).collect()
}

#[test]
fn handlers_run_by_priority_monitor_last() {
    let log = Rc::new(RefCell::new(Vec::new()));
    let mut bus: EventBus<Handler> = EventBus::new();
    bus.subscribe_with_priority(EventPriority::Monitor, recording(&log, "monitor"));
    bus.subscribe_with_priority(EventPriority::Low, recording(&log, "low"));
    bus.subscribe_with_priority(EventPriority::Highest, recording(&log, "highest"));
    bus.subscribe_with_priority(EventPriority::Normal, recording(&log, "normal"));
    let (event, verdict) = bus.emit(Probe { value: 1, canceled: false });
    assert!(verdict.is_ok());
    assert_eq!(event.value, 1);
    assert_eq!(*log.borrow(), vec!["highest", "normal", "low", "monitor"]);
    assert_eq!(
        priorities(&bus),
        vec![EventPriority::Highest, EventPriority::Normal, EventPriority::Low, EventPriority::Monitor]
    );
}

#[test]
fn all_six_priorities_in_order() {
    let log = Rc::new(RefCell::new(Vec::new()));
    let mut bus: EventBus<Handler> = EventBus::new();
    bus.subscribe_with_priority(EventPriority::Lowest, recording(&log, "lowest"));
    bus.subscribe_with_priority(EventPriority::Monitor, recording(&log, "monitor"));
    bus.subscribe_with_priority(EventPriority::High, recording(&log, "high"));
    bus.subscribe_with_priority(EventPriority::Low, recording(&log, "low"));
    bus.subscribe_with_priority(EventPriority::Highest, recording(&log, "highest"));
    bus.subscribe_with_priority(EventPriority::Normal, recording(&log, "normal"));
    bus.emit(Probe { value: 0, canceled: false });
    assert_eq!(*log.borrow(), vec!["highest", "high", "normal", "low", "lowest", "monitor"]);
}

#[test]
fn equal_priorities_keep_registration_order() {
    let log = Rc::new(RefCell::new(Vec::new()));
    let mut bus: EventBus<Handler> = EventBus::new();
    bus.subscribe(recording(&log, "first"));
    bus.subscribe_with_priority(EventPriority::High, recording(&log, "high"));
    bus.subscribe(recording(&log, "second"));
    bus.subscribe_with_priority(EventPriority::Normal, recording(&log, "third"));
    bus.emit(Probe { value: 0, canceled: false });
    assert_eq!(*log.borrow(), vec!["high", "first", "second", "third"]);
}

#[test]
fn subscribe_uses_normal_priority() {
    let log = Rc::new(RefCell::new(Vec::new()));
    let mut bus: EventBus<Handler> = EventBus::new();
    bus.subscribe(recording(&log, "a"));
    assert_eq!(bus.len(), 1);
    assert_eq!(bus.priority_at(0), EventPriority::Normal);
}

#[test]
fn canceled_event_skips_all_but_monitors() {
    let log = Rc::new(RefCell::new(Vec::new()));
    let mut bus: EventBus<Handler> = EventBus::new();
    bus.subscribe_with_priority(EventPriority::Monitor, recording(&log, "monitor"));
    bus.subscribe_with_priority(EventPriority::Lowest, recording(&log, "lowest"));
    bus.subscribe_with_priority(EventPriority::Low, recording(&log, "low"));
    bus.subscribe_with_priority(EventPriority::Normal, canceling(&log, "normal"));
    bus.subscribe_with_priority(EventPriority::Highest, recording(&log, "highest"));
    bus.subscribe_with_priority(EventPriority::Monitor, recording(&log, "monitor2"));
    let (event, verdict) = bus.emit(Probe { value: 0, canceled: false });
    assert!(verdict.is_ok());
    assert!(event.is_canceled());
    assert_eq!(*log.borrow(), vec!["highest", "normal", "monitor", "monitor2"]);
}

#[test]
fn event_canceled_from_the_start_reaches_monitors_only() {
    let log = Rc::new(RefCell::new(Vec::new()));
    let mut bus: EventBus<Handler> = EventBus::new();
    bus.subscribe_with_priority(EventPriority::Highest, recording(&log, "highest"));
    bus.subscribe_with_priority(EventPriority::Monitor, recording(&log, "monitor"));
    bus.emit(Probe { value: 0, canceled: true });
    assert_eq!(*log.borrow(), vec!["monitor"]);
}

#[test]
fn uncanceling_lets_later_handlers_run() {
    let log = Rc::new(RefCell::new(Vec::new()));
    let mut bus: EventBus<Handler> = EventBus::new();
    bus.subscribe_with_priority(EventPriority::Highest, canceling(&log, "cancel"));
    bus.subscribe_with_priority(EventPriority::Low, recording(&log, "low"));
    let monitor_log = log.clone();
    bus.subscribe_with_priority(
        EventPriority::Monitor,
        Box::new(move |mut event: Probe| {
            monitor_log.borrow_mut().push("monitor");
            event.set_canceled(false);
            (event, Ok(()))
        }),
    );
    bus.subscribe_with_priority(EventPriority::Monitor, recording(&log, "monitor2"));
    let (event, _) = bus.emit(Probe { value: 0, canceled: false });
    assert!(!event.is_canceled());
    assert_eq!(*log.borrow(), vec!["cancel", "monitor", "monitor2"]);
}

#[test]
fn handlers_see_what_earlier_ones_left() {
    let seen = Rc::new(RefCell::new(Vec::new()));
    let mut bus: EventBus<Handler> = EventBus::new();
    let seen_by_monitor = seen.clone();
    bus.subscribe_with_priority(
        EventPriority::Monitor,
        Box::new(move |event: Probe| {
            seen_by_monitor.borrow_mut().push(event.value);
            (event, Ok(()))
        }),
    );
    bus.subscribe_with_priority(
        EventPriority::Normal,
        Box::new(|mut event: Probe| {
            event.value = 10;
            (event, Ok(()))
        }),
    );
    bus.subscribe_with_priority(
        EventPriority::High,
        Box::new(|mut event: Probe| {
            event.value += 1;
            (event, Ok(()))
        }),
    );
    let (event, _) = bus.emit(Probe { value: 5, canceled: false });
    assert_eq!(event.value, 10);
    assert_eq!(*seen.borrow(), vec![10]);
}

#[test]
fn handler_error_aborts_dispatch() {
    let log = Rc::new(RefCell::new(Vec::new()));
    let mut bus: EventBus<Handler> = EventBus::new();
    bus.subscribe_with_priority(EventPriority::Highest, recording(&log, "highest"));
    let failing_log = log.clone();
    bus.subscribe_with_priority(
        EventPriority::Normal,
        Box::new(move |mut event: Probe| {
            failing_log.borrow_mut().push("failing");
            event.value = 99;
            (event, Err(EventError::UnexpectedType("Probe".to_string())))
        }),
    );
    bus.subscribe_with_priority(EventPriority::Low, recording(&log, "low"));
    bus.subscribe_with_priority(EventPriority::Monitor, recording(&log, "monitor"));
    let (event, verdict) = bus.emit(Probe { value: 0, canceled: false });
    assert!(matches!(verdict, Err(EventError::UnexpectedType(name)) if name == "Probe"));
    assert_eq!(event.value, 99);
    assert_eq!(*log.borrow(), vec!["highest", "failing"]);
}

#[test]
fn empty_bus_gives_event_back() {
    let bus: EventBus<Handler> = EventBus::new();
    assert_eq!(bus.len(), 0);
    let (event, verdict) = bus.emit(Probe { value: 3, canceled: false });
    assert!(verdict.is_ok());
    assert_eq!(event.value, 3);
    assert_eq!(event.name(), "Probe");
}

#[test]
fn priority_levels() {
    assert_eq!(EventPriority::Monitor.level(), 0);
    assert_eq!(EventPriority::Lowest.level(), 1);
    assert_eq!(EventPriority::Low.level(), 2);
    assert_eq!(EventPriority::Normal.level(), 3);
    assert_eq!(EventPriority::High.level(), 4);
    assert_eq!(EventPriority::Highest.level(), 5);
    assert!(EventPriority::Monitor < EventPriority::Lowest);
    assert!(EventPriority::High < EventPriority::Highest);
}
