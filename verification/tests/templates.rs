use kit::templates::{
    Argument, FrameworkProcessState, HyperappEchoState, HyprEchoReq, HyprEchoState,
};
use kit::todo::{HyperappTodoState, TodoItem};

fn item(id: &str, text: &str, completed: bool) -> TodoItem {
    TodoItem { id: id.to_string(), text: text.to_string(), completed }
}

fn is_uuid_v4(s: &str) -> bool {
    let c: Vec<char> = s.chars().collect();
    if c.len() != 36 {
        return false;
    }
    for (i, ch) in c.iter().enumerate() {
        if i == 8 || i == 13 || i == 18 || i == 23 {
            if *ch != '-' {
                return false;
            }
        } else if !(ch.is_ascii_digit() || ('a'..='f').contains(ch)) {
            return false;
        }
    }
    c[14] == '4' && ['8', '9', 'a', 'b'].contains(&c[19])
}

#[test]
fn hyperapp_echo_acknowledges() {
    let s = HyperappEchoState::default();
    let r = s.echo(Argument { header: "h".to_string(), body: "b".to_string() });
    assert_eq!(r.response, "Ack");
}

#[test]
fn hypr_echo_acknowledges() {
    let s = HyprEchoState::default();
    let r = s.echo(HyprEchoReq { payload: "anything".to_string() });
    assert_eq!(r.payload, "Ack");
}

#[test]
fn hypr_ws_echo_pushes_json_ack() {
    let mut s = HyprEchoState::default();
    let push = s.ws_echo(7);
    assert_eq!(push.channel_id, 7);
    assert_eq!(push.mime, "application/json");
    assert_eq!(push.bytes, b"\"Ack\"".to_vec());
}

#[test]
fn framework_state_stores_values_once() {
    let mut s = FrameworkProcessState { state: vec![] };
    s.initialize();
    assert_eq!(s.add_to_state("a".to_string()), Ok(true));
    assert_eq!(s.submit_entry("b".to_string()), Ok(true));
    assert_eq!(s.add_to_state("a".to_string()), Ok(true));
    assert_eq!(s.get_state(), Ok(vec!["a".to_string(), "b".to_string()]));
    assert_eq!(s.view_state(String::new()), Ok(vec!["a".to_string(), "b".to_string()]));
}

#[test]
fn todo_add_task_gets_random_id() {
    let mut s = HyperappTodoState::default();
    let t = s.add_task("buy milk".to_string()).ok().unwrap();
    assert_eq!(t.text, "buy milk");
    assert!(!t.completed);
    assert!(is_uuid_v4(&t.id), "id {} is no v4 uuid", t.id);
    let t2 = s.add_task("other".to_string()).ok().unwrap();
    assert_ne!(t.id, t2.id);
    let tasks = s.get_tasks(String::new()).ok().unwrap();
    assert_eq!(tasks.len(), 2);
    assert_eq!(tasks[0].id, t.id);
}

#[test]
fn todo_blank_text_is_refused() {
    let mut s = HyperappTodoState::default();
    match s.add_task("  \t\n".to_string()) {
        Err(e) => assert_eq!(e, "Task text cannot be empty"),
        Ok(_) => panic!("blank task accepted"),
    }
    assert!(s.tasks.is_empty());
    match s.add_task_with_id(String::new(), "x".to_string()) {
        Err(e) => assert_eq!(e, "Task text cannot be empty"),
        Ok(_) => panic!("empty task accepted"),
    }
}

#[test]
fn todo_add_with_id_appends() {
    let mut s = HyperappTodoState::default();
    let t = s.add_task_with_id(" x ".to_string(), "id-1".to_string()).ok().unwrap();
    assert_eq!((t.id.as_str(), t.text.as_str(), t.completed), ("id-1", " x ", false));
    assert_eq!(s.tasks.len(), 1);
}

#[test]
fn todo_toggle_twice_restores() {
    let mut s = HyperappTodoState { tasks: vec![item("1", "a", false), item("2", "b", true)] };
    let t = s.toggle_task("2".to_string()).ok().unwrap();
    assert!(!t.completed);
    assert!(!s.tasks[1].completed);
    s.toggle_task("2".to_string()).ok().unwrap();
    assert!(s.tasks[1].completed);
    assert!(!s.tasks[0].completed);
}

#[test]
fn todo_toggle_unknown_id_is_an_error() {
    let mut s = HyperappTodoState { tasks: vec![item("1", "a", false)] };
    match s.toggle_task("9".to_string()) {
        Err(e) => assert_eq!(e, "Task with ID 9 not found"),
        Ok(_) => panic!("unknown id toggled"),
    }
    assert!(!s.tasks[0].completed);
}

#[test]
fn todo_import_then_export_gives_back_the_tasks() {
    let initial = HyperappTodoState {
        tasks: vec![item("1", "Task 1", false), item("2", "Task 2", true)],
    };
    let mut s = HyperappTodoState::default();
    assert_eq!(s.import_state(Ok(initial.clone())), Ok(true));
    let exported = s.export_state().ok().unwrap();
    assert_eq!(exported.tasks.len(), 2);
    for (a, b) in initial.tasks.iter().zip(exported.tasks.iter()) {
        assert_eq!((&a.id, &a.text, a.completed), (&b.id, &b.text, b.completed));
    }
}

#[test]
fn todo_failed_import_keeps_tasks() {
    let mut s = HyperappTodoState { tasks: vec![item("1", "a", false)] };
    match s.import_state(Err("expected value at line 1 column 1".to_string())) {
        Err(e) => assert_eq!(e, "Failed to deserialize state data: expected value at line 1 column 1"),
        Ok(_) => panic!("bad data imported"),
    }
    assert_eq!(s.tasks.len(), 1);
    s.initialize();
    assert!(s.tasks.is_empty());
}
