use elm_editor::elm::{Action, Automat, Cmd, Fetch, Resource};

fn drain(cmd: Cmd<u32, &'static str>) -> Vec<String> {
    let mut automat = Automat::new(cmd);
    let mut seen = Vec::new();
    for _ in 0..100 {
        match automat.step() {
            Action::Continue => {}
            Action::Perform(e) => seen.push(format!("perform {}", e)),
            Action::Deliver(m) => seen.push(format!("deliver {}", m)),
            Action::AwaitEvent => {
                seen.push("await".to_string());
                break;
            }
            Action::Quit => {
                seen.push("quit".to_string());
                break;
            }
        }
    }
    seen
}

#[test]
fn none_does_nothing_and_waits_for_events() {
    assert_eq!(drain(Cmd::none()), vec!["await"]);
}

#[test]
fn dispatch_delivers_its_message() {
    assert_eq!(drain(Cmd::dispatch(7)), vec!["deliver 7", "await"]);
}

#[test]
fn suspend_performs_its_effect() {
    assert_eq!(drain(Cmd::suspend("size")), vec!["perform size", "await"]);
}

#[test]
fn gtfo_quits() {
    assert_eq!(drain(Cmd::gtfo()), vec!["quit"]);
}

#[test]
fn and_then_runs_self_first() {
    let cmd = Cmd::dispatch(1).and_then(Cmd::dispatch(2));
    assert!(matches!(&cmd, Cmd::AndThen(then, first)
        if matches!(**then, Cmd::Dispatch(2)) && matches!(**first, Cmd::Dispatch(1))));
    assert_eq!(drain(cmd), vec!["deliver 1", "deliver 2", "await"]);
}

#[test]
fn and_then_nested_keeps_order() {
    let left = Cmd::dispatch(1).and_then(Cmd::suspend("a")).and_then(Cmd::dispatch(3));
    let right = Cmd::dispatch(1).and_then(Cmd::suspend("a").and_then(Cmd::dispatch(3)));
    let expected = vec!["deliver 1", "perform a", "deliver 3", "await"];
    assert_eq!(drain(left), expected);
    assert_eq!(drain(right), expected);
}

#[test]
fn and_then_with_none_is_neutral() {
    assert_eq!(drain(Cmd::none().and_then(Cmd::dispatch(5))), vec!["deliver 5", "await"]);
    assert_eq!(drain(Cmd::dispatch(5).and_then(Cmd::none())), vec!["deliver 5", "await"]);
}

#[test]
fn gtfo_stops_before_later_commands() {
    let cmd = Cmd::dispatch(1).and_then(Cmd::gtfo()).and_then(Cmd::dispatch(2));
    assert_eq!(drain(cmd), vec!["deliver 1", "quit"]);
}

#[test]
fn step_defers_the_second_part() {
    let mut automat: Automat<u32, u32> = Automat::new(Cmd::dispatch(1).and_then(Cmd::dispatch(2)));
    assert!(matches!(automat.step(), Action::Continue));
    assert!(matches!(automat.current, Cmd::Dispatch(1)));
    assert_eq!(automat.stack.len(), 1);
    assert!(matches!(automat.stack[0], Cmd::Dispatch(2)));
    assert!(matches!(automat.step(), Action::Deliver(1)));
    assert!(matches!(automat.current, Cmd::Nothing));
    assert!(matches!(automat.step(), Action::Continue));
    assert!(matches!(automat.current, Cmd::Dispatch(2)));
    assert!(automat.stack.is_empty());
}

#[test]
fn resume_runs_the_update_answer_before_deferred_work() {
    let mut automat: Automat<u32, u32> = Automat::new(Cmd::suspend(9).and_then(Cmd::dispatch(2)));
    assert!(matches!(automat.step(), Action::Continue));
    assert!(matches!(automat.step(), Action::Perform(9)));
    automat.resume(Cmd::dispatch(5));
    assert!(matches!(automat.step(), Action::Deliver(5)));
    automat.resume(Cmd::none());
    assert!(matches!(automat.step(), Action::Continue));
    assert!(matches!(automat.step(), Action::Deliver(2)));
    automat.resume(Cmd::none());
    assert!(matches!(automat.step(), Action::AwaitEvent));
}

#[test]
fn resource_default_is_unknown() {
    let r: Resource<u8> = Resource::default();
    assert!(matches!(r, Resource::Unknown));
    assert_eq!(r.present(), None);
}

#[test]
fn resource_settle_and_present() {
    let ok: Resource<u8> = Resource::settle(Ok(4));
    assert!(matches!(ok, Resource::Present(4)));
    assert_eq!(ok.present(), Some(&4));
    let failed: Resource<u8> = Resource::settle(Err("no such file".to_string()));
    assert!(matches!(&failed, Resource::Failed(e) if e == "no such file"));
    assert_eq!(failed.present(), None);
}

#[test]
fn resource_fetch_suspends_the_effect_and_deliver_wraps_the_outcome() {
    let cmd: Cmd<String, Fetch<fn() -> Result<u8, String>, fn(Resource<u8>) -> String>> =
        Resource::<u8>::fetch(
            (|| Ok(3)) as fn() -> Result<u8, String>,
            (|r: Resource<u8>| format!("{:?}", r)) as fn(Resource<u8>) -> String,
        );
    match cmd {
        Cmd::Suspend(fetch) => {
            let outcome = (fetch.effect)();
            assert_eq!(Resource::deliver(outcome, fetch.as_msg), "Present(3)");
        }
        _ => panic!("fetch must suspend"),
    }
    let msg = Resource::<u8>::deliver(Err("gone".to_string()), |r: Resource<u8>| format!("{:?}", r));
    assert_eq!(msg, "Failed(\"gone\")");
}
