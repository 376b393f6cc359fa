//! Tests of the task type, the task manager's routes and queries, and
//! the to-do and calculator apps.

use minihttp::CalculatorApp;
use minihttp::HandlerError;
use minihttp::HttpApp;
use minihttp::HttpRequest;
use minihttp::Task;
use minihttp::TaskRoute;
use minihttp::TasksApp;
use minihttp::ToDoApp;
use minihttp::server::response_for;

#[test]
fn task_getters_and_flags() {
    let mut t = Task::new("write tests", false);
    assert_eq!(*t.get_index(), 0);
    assert_eq!(t.get_text(), "write tests");
    assert!(!t.is_done());
    t.check();
    assert!(t.is_done());
    t.uncheck();
    assert!(!t.is_done());
    t.set_index(4);
    assert_eq!(*t.get_index(), 4);
}

#[test]
fn task_lines_round_trip() {
    let t = Task::new("buy milk", true);
    assert_eq!(t.to_string(), "buy milk\ttrue");
    let back = Task::from_string("buy milk\ttrue").unwrap();
    assert_eq!(back.get_text(), "buy milk");
    assert!(back.is_done());
    assert_eq!(*back.get_index(), 0);
}

#[test]
fn task_lines_without_tab_or_flag_are_rejected() {
    assert_eq!(
        Task::from_string("no tab at all").unwrap_err(),
        HandlerError::InvalidTaskData
    );
    assert_eq!(
        Task::from_string("text\tmaybe").unwrap_err(),
        HandlerError::InvalidTaskData
    );
}

fn get_request(target: &str) -> HttpRequest {
    let line = format!("GET {} HTTP/1.1", target);
    HttpRequest::from_first_line(&line).unwrap()
}

#[test]
fn routes_follow_method_and_target() {
    let app = TasksApp::new();
    assert_eq!(app.route(&get_request("/")), TaskRoute::Index);
    assert_eq!(app.route(&get_request("/add?text=x")), TaskRoute::Add);
    assert_eq!(app.route(&get_request("/update?check=1")), TaskRoute::Update);
    assert_eq!(app.route(&get_request("/other")), TaskRoute::Decline);
    let post = HttpRequest::from_first_line("POST / HTTP/1.1").unwrap();
    assert_eq!(app.route(&post), TaskRoute::Decline);
}

#[test]
fn loading_data_numbers_tasks_by_line() {
    let mut app = TasksApp::new();
    app.load_data("milk\tfalse\n\neggs\ttrue").unwrap();
    let tasks = app.get_tasks();
    assert_eq!(tasks.len(), 2);
    assert_eq!(*tasks[0].get_index(), 1);
    assert_eq!(tasks[0].get_text(), "milk");
    assert!(!tasks[0].is_done());
    // The empty line keeps its line number, so the next task is third.
    assert_eq!(*tasks[1].get_index(), 3);
    assert_eq!(tasks[1].get_text(), "eggs");
    assert!(tasks[1].is_done());
}

#[test]
fn loading_bad_data_keeps_the_good_prefix() {
    let mut app = TasksApp::new();
    let err = app.load_data("milk\tfalse\nbroken line").unwrap_err();
    assert_eq!(err, HandlerError::InvalidTaskData);
    assert_eq!(app.get_tasks().len(), 1);
    assert_eq!(app.get_tasks()[0].get_text(), "milk");
}

#[test]
fn data_string_joins_task_lines() {
    let mut app = TasksApp::new();
    app.load_data("milk\tfalse\neggs\ttrue").unwrap();
    assert_eq!(app.data_string(), "milk\tfalse\neggs\ttrue");
    let empty = TasksApp::new();
    assert_eq!(empty.data_string(), "");
}

#[test]
fn adding_a_task_takes_the_text_parameter() {
    let mut app = TasksApp::new();
    app.serve_add("/add?text=buy milk").unwrap();
    assert_eq!(app.get_tasks().len(), 1);
    assert_eq!(app.get_tasks()[0].get_text(), "buy milk");
    assert!(!app.get_tasks()[0].is_done());
}

#[test]
fn adding_without_a_text_parameter_fails() {
    let mut app = TasksApp::new();
    assert_eq!(
        app.serve_add("/add?nope=1").unwrap_err(),
        HandlerError::InvalidQuery
    );
    assert_eq!(app.get_tasks().len(), 0);
}

#[test]
fn updates_check_uncheck_and_remove_by_position() {
    let mut app = TasksApp::new();
    app.load_data("a\tfalse\nb\tfalse\nc\ttrue").unwrap();

    app.serve_update("/update?check=2").unwrap();
    assert!(app.get_tasks()[1].is_done());

    app.serve_update("/update?uncheck=3").unwrap();
    assert!(!app.get_tasks()[2].is_done());

    app.serve_update("/update?remove=1").unwrap();
    assert_eq!(app.get_tasks().len(), 2);
    assert_eq!(app.get_tasks()[0].get_text(), "b");
}

#[test]
fn update_errors_name_their_cause() {
    let mut app = TasksApp::new();
    app.load_data("a\tfalse").unwrap();
    // A zero is no task number: task numbers start at one.
    assert_eq!(
        app.serve_update("/update?check=0").unwrap_err(),
        HandlerError::InvalidQuery
    );
    // A number past the list is an invalid index.
    assert_eq!(
        app.serve_update("/update?check=2").unwrap_err(),
        HandlerError::InvalidTaskIndex
    );
    // A huge number is an invalid index as well, never a crash.
    assert_eq!(
        app.serve_update("/update?check=99999999999999999999999999").unwrap_err(),
        HandlerError::InvalidTaskIndex
    );
    // An unknown operation changes nothing and succeeds.
    app.serve_update("/update?frob=1").unwrap();
    assert_eq!(app.get_tasks().len(), 1);
}

#[test]
fn calculator_declines_every_request() {
    let mut calc = CalculatorApp {};
    let req = get_request("/");
    let mut resp = response_for(&req);
    assert_eq!(calc.handle(&req, &mut resp), Ok(false));
    assert_eq!(resp.body, "");
}

#[test]
fn todo_wants_only_the_root() {
    let todo = ToDoApp {};
    assert!(todo.wants("/"));
    assert!(!todo.wants("/index.html"));
    let entries = todo.index_entries();
    assert_eq!(entries.len(), 3);
    assert_eq!(entries[0].0, 1);
    assert_eq!(entries[2].0, 3);
    assert_eq!(entries[1].1, "I have to do everything!");
}
