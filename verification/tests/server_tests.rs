//! Tests of the handler chain dispatch, the static fallback, and the
//! worker-pool model.

use minihttp::CalculatorApp;
use minihttp::HandlerError;
use minihttp::HttpApp;
use minihttp::HttpRequest;
use minihttp::HttpResponse;
use minihttp::PoolWork;
use minihttp::ThreadPool;
use minihttp::server::bad_request_response;
use minihttp::server::dispatch;
use minihttp::server::fallback;
use minihttp::server::public_path;
use minihttp::server::response_for;

/// A probe handler: counts its invocations and claims or declines as
/// told.
struct Probe {
    calls: usize,
    claims: bool,
    mark: &'static str,
}

impl HttpApp for Probe {
    fn handle(
        &mut self,
        _http_request: &HttpRequest,
        http_response: &mut HttpResponse,
    ) -> Result<bool, HandlerError> {
        self.calls += 1;
        if self.claims {
            http_response.add_body(self.mark);
            Ok(true)
        } else {
            Ok(false)
        }
    }
}

/// A handler that always fails.
struct Failing {}

impl HttpApp for Failing {
    fn handle(
        &mut self,
        _http_request: &HttpRequest,
        _http_response: &mut HttpResponse,
    ) -> Result<bool, HandlerError> {
        Err(HandlerError::Io)
    }
}

fn sample_request() -> HttpRequest {
    HttpRequest::from_first_line("GET /hello HTTP/1.1").unwrap()
}

#[test]
fn dispatch_stops_at_the_first_claiming_handler() {
    let req = sample_request();
    let mut resp = response_for(&req);
    let mut probes = vec![
        Probe { calls: 0, claims: false, mark: "a" },
        Probe { calls: 0, claims: true, mark: "b" },
        Probe { calls: 0, claims: false, mark: "c" },
    ];
    let (r, _) = dispatch(&mut probes, &req, &mut resp);
    assert_eq!(r.unwrap(), Some(1));
    // Handlers up to the claiming one ran once; later ones never ran.
    assert_eq!(probes[0].calls, 1);
    assert_eq!(probes[1].calls, 1);
    assert_eq!(probes[2].calls, 0);
    // The response reflects only the claiming handler's mutation.
    assert_eq!(resp.body, "b");
}

#[test]
fn dispatch_declines_when_every_handler_declines() {
    let req = sample_request();
    let mut resp = response_for(&req);
    let mut probes = vec![
        Probe { calls: 0, claims: false, mark: "a" },
        Probe { calls: 0, claims: false, mark: "b" },
    ];
    let (r, _) = dispatch(&mut probes, &req, &mut resp);
    assert_eq!(r.unwrap(), None);
    assert_eq!(probes[0].calls, 1);
    assert_eq!(probes[1].calls, 1);
    assert_eq!(resp.body, "");
}

#[test]
fn dispatch_propagates_a_handler_failure() {
    let req = sample_request();
    let mut resp = response_for(&req);
    let mut chain = vec![Failing {}];
    let (r, _) = dispatch(&mut chain, &req, &mut resp);
    assert_eq!(r.unwrap_err(), HandlerError::Io);
}

#[test]
fn redirect_marks_the_response() {
    let probe = Probe { calls: 0, claims: false, mark: "" };
    let req = sample_request();
    let mut resp = response_for(&req);
    probe.redirect(&mut resp, "/");
    assert_eq!(resp.code, 302);
    assert_eq!(resp.message, "Found");
    assert_eq!(resp.headers.get("Location").unwrap(), "/");
}

#[test]
fn serve_static_appends_the_file_text() {
    let probe = Probe { calls: 0, claims: false, mark: "" };
    let req = sample_request();
    let mut resp = response_for(&req);
    probe.serve_static(&mut resp, "<html></html>");
    assert_eq!(resp.body, "<html></html>");
    assert_eq!(resp.code, 200);
}

#[test]
fn response_is_seeded_from_the_request_version() {
    let req = sample_request();
    let resp = response_for(&req);
    assert_eq!(resp.version, "HTTP/1.1");
    assert_eq!(resp.code, 200);
    assert_eq!(resp.message, "OK");
    assert_eq!(resp.body, "");
}

#[test]
fn bad_request_response_is_a_400() {
    let resp = bad_request_response();
    assert_eq!(resp.code, 400);
    assert_eq!(resp.message, "Bad Request");
}

#[test]
fn public_path_prefixes_the_public_root() {
    assert_eq!(public_path("/hello.html"), "./public/hello.html");
}

#[test]
fn found_file_serves_with_status_kept() {
    let req = sample_request();
    let mut resp = response_for(&req);
    let contents = "file contents".to_string();
    let served = fallback(&mut resp, Some(&contents), "not found page");
    assert!(served);
    assert_eq!(resp.code, 200);
    assert_eq!(resp.body, "file contents");
}

#[test]
fn missing_file_serves_the_not_found_page() {
    let req = sample_request();
    let mut resp = response_for(&req);
    let served = fallback(&mut resp, None, "not found page");
    assert!(!served);
    assert_eq!(resp.code, 404);
    assert_eq!(resp.message, "Not Found");
    assert_eq!(resp.body, "not found page");
}

#[test]
fn pool_completes_every_job_exactly_once() {
    // Five jobs on a pool of two workers: two is no more than five.
    let mut pool = ThreadPool::new(2);
    for job in 1..=5u64 {
        pool.execute(job);
    }
    pool.shutdown();
    pool.drain();
    // Every job completed exactly once, in submission order, and the
    // count reached the number submitted.
    assert_eq!(pool.completed, vec![1, 2, 3, 4, 5]);
    assert_eq!(pool.completed.len(), 5);
    // Every worker received its sentinel and exited.
    assert_eq!(pool.stopped, 2);
    assert!(pool.queue.is_empty());
}

#[test]
fn whole_cycle_serves_the_not_found_page() {
    let lines = vec!["GET /missing HTTP/1.1".to_string()];
    let req = HttpRequest::from_lines(&lines).unwrap();
    let mut resp = response_for(&req);
    let mut chain = vec![CalculatorApp {}];
    let (r, _) = dispatch(&mut chain, &req, &mut resp);
    assert_eq!(r.unwrap(), None);
    fallback(&mut resp, None, "gone");
    assert_eq!(resp.to_string(), "HTTP/1.1 404 Not Found\n\ngone");
}

#[test]
fn pool_with_spare_workers_still_completes() {
    let mut pool = ThreadPool::new(4);
    pool.execute(1);
    pool.shutdown();
    pool.drain();
    assert_eq!(pool.completed, vec![1]);
    assert_eq!(pool.stopped, 4);
}

#[test]
fn pool_steps_hand_out_work_in_order() {
    let mut pool = ThreadPool::new(1);
    pool.execute(7);
    pool.shutdown();
    assert_eq!(pool.step(), Some(PoolWork::Job(7)));
    assert_eq!(pool.step(), Some(PoolWork::Sentinel));
    assert_eq!(pool.step(), None);
    assert_eq!(pool.completed, vec![7]);
    assert_eq!(pool.stopped, 1);
}
