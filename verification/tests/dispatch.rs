use request_dispatch::{
    BasicController, BodyGuard, Controller, ControllerDispatch, DelegateFunction, Method,
    PathMatcher, RequestContinuation, RequestGuard, RequestGuardCollection, StatusCode,
    StatusDelegate, SyncRequest, SyncResponse, BAD_REQUEST, METHOD_NOT_ALLOWED, OK,
};
use std::sync::atomic::{AtomicUsize, Ordering};
use std::sync::Arc;

/// Counts its calls and answers with a fixed status.
struct Recorder {
    status: u16,
    calls: Arc<AtomicUsize>,
}

impl Recorder {
    fn new(status: u16) -> (Recorder, Arc<AtomicUsize>) {
        let calls = Arc::new(AtomicUsize::new(0));
        (Recorder { status, calls: calls.clone() }, calls)
    }
}

impl DelegateFunction<u8> for Recorder {
    fn call(&self, _context: &u8, _req: &SyncRequest, res: &mut SyncResponse) {
        self.calls.fetch_add(1, Ordering::SeqCst);
        res.status(StatusCode::new(self.status));
    }
}

/// Writes the context and the request's body into the response's body.
struct Echo;

impl DelegateFunction<u8> for Echo {
    fn call(&self, context: &u8, req: &SyncRequest, res: &mut SyncResponse) {
        let mut body = vec![*context];
        body.extend_from_slice(req.body());
        res.set_body(body);
    }
}

/// Counts its calls, sets a status and returns a fixed signal.
struct Gate {
    status: u16,
    signal: RequestContinuation,
    calls: Arc<AtomicUsize>,
}

impl Gate {
    fn new(status: u16, signal: RequestContinuation) -> (Gate, Arc<AtomicUsize>) {
        let calls = Arc::new(AtomicUsize::new(0));
        (Gate { status, signal, calls: calls.clone() }, calls)
    }
}

impl RequestGuard for Gate {
    fn validate(&self, _req: &SyncRequest, res: &mut SyncResponse) -> RequestContinuation {
        self.calls.fetch_add(1, Ordering::SeqCst);
        res.status(StatusCode::new(self.status));
        self.signal
    }
}

fn request(method: Method, path: &str, body: &[u8]) -> SyncRequest {
    SyncRequest::new(method, path.to_string(), body.to_vec())
}

fn count(calls: &Arc<AtomicUsize>) -> usize {
    calls.load(Ordering::SeqCst)
}

#[test]
fn matching_route_runs_its_delegate_and_keeps_its_status() {
    let mut table = ControllerDispatch::new(1u8);
    let (h1, calls) = Recorder::new(204);
    table.add(Method::Get, "^/health$", h1).unwrap();
    let mut res = SyncResponse::new();
    table.dispatch(&request(Method::Get, "/health", b""), &mut res);
    assert_eq!(count(&calls), 1);
    assert_eq!(res.status_code(), StatusCode::new(204));
}

#[test]
fn delegate_that_leaves_the_status_alone_keeps_the_callers_status() {
    let mut table = ControllerDispatch::new(7u8);
    table.add(Method::Get, "^/health$", Echo).unwrap();
    let mut res = SyncResponse::new();
    res.status(StatusCode::new(299));
    table.dispatch(&request(Method::Get, "/health", b"ab"), &mut res);
    assert_eq!(res.status_code(), StatusCode::new(299));
    assert_eq!(res.body(), &vec![7u8, b'a', b'b']);
}

#[test]
fn other_method_is_not_allowed() {
    let mut table = ControllerDispatch::new(1u8);
    let (h1, calls) = Recorder::new(204);
    table.add(Method::Get, "^/x$", h1).unwrap();
    let mut res = SyncResponse::new();
    table.dispatch(&request(Method::Post, "/x", b""), &mut res);
    assert_eq!(res.status_code(), StatusCode::new(METHOD_NOT_ALLOWED));
    assert_eq!(res.status_code().as_u16(), 405);
    assert_eq!(count(&calls), 0);
}

#[test]
fn empty_table_allows_no_method() {
    let table = ControllerDispatch::new(1u8);
    let mut res = SyncResponse::new();
    res.set_body(vec![1, 2, 3]);
    table.dispatch(&request(Method::Get, "/", b""), &mut res);
    assert_eq!(res.status_code(), StatusCode::new(405));
    assert_eq!(res.body(), &vec![1u8, 2, 3]);
}

#[test]
fn other_path_is_a_bad_request() {
    let mut table = ControllerDispatch::new(1u8);
    let (h1, calls) = Recorder::new(204);
    table.add(Method::Get, "^/x$", h1).unwrap();
    let mut res = SyncResponse::new();
    table.dispatch(&request(Method::Get, "/y", b""), &mut res);
    assert_eq!(res.status_code(), StatusCode::new(BAD_REQUEST));
    assert_eq!(res.status_code().as_u16(), 400);
    assert_eq!(count(&calls), 0);
}

#[test]
fn path_known_under_another_method_only_is_not_allowed() {
    let mut table = ControllerDispatch::new(1u8);
    let (h1, calls1) = Recorder::new(201);
    let (h2, calls2) = Recorder::new(202);
    table.add(Method::Get, "^/x$", h1).unwrap();
    table.add(Method::Put, "^/y$", h2).unwrap();
    let mut res = SyncResponse::new();
    table.dispatch(&request(Method::Delete, "/x", b""), &mut res);
    assert_eq!(res.status_code(), StatusCode::new(405));
    let mut res = SyncResponse::new();
    table.dispatch(&request(Method::Put, "/x", b""), &mut res);
    assert_eq!(res.status_code(), StatusCode::new(400));
    assert_eq!(count(&calls1), 0);
    assert_eq!(count(&calls2), 0);
}

#[test]
fn body_guard_stops_an_empty_upload() {
    let mut table = ControllerDispatch::new(1u8);
    let (h1, calls) = Recorder::new(201);
    table.add_with_guards(Method::Post, "^/upload$", BodyGuard.into(), h1).unwrap();
    let mut res = SyncResponse::new();
    table.dispatch(&request(Method::Post, "/upload", b""), &mut res);
    assert_eq!(count(&calls), 0);
    assert_eq!(res.status_code(), StatusCode::new(OK));
    assert!(res.body().is_empty());
}

#[test]
fn body_guard_lets_a_filled_upload_pass() {
    let mut table = ControllerDispatch::new(1u8);
    let (h1, calls) = Recorder::new(201);
    table.add_with_guards(Method::Post, "^/upload$", BodyGuard.into(), h1).unwrap();
    let mut res = SyncResponse::new();
    table.dispatch(&request(Method::Post, "/upload", b"data"), &mut res);
    assert_eq!(count(&calls), 1);
    assert_eq!(res.status_code(), StatusCode::new(201));
}

#[test]
fn first_registered_route_wins() {
    let mut table = ControllerDispatch::new(1u8);
    let (e1, calls1) = Recorder::new(201);
    let (e2, calls2) = Recorder::new(202);
    table.add(Method::Get, "^/same", e1).unwrap();
    table.add(Method::Get, "^/same$", e2).unwrap();
    let mut res = SyncResponse::new();
    table.dispatch(&request(Method::Get, "/same", b""), &mut res);
    assert_eq!(count(&calls1), 1);
    assert_eq!(count(&calls2), 0);
    assert_eq!(res.status_code(), StatusCode::new(201));
}

#[test]
fn earlier_route_of_another_method_is_passed_over() {
    let mut table = ControllerDispatch::new(1u8);
    let (e1, calls1) = Recorder::new(201);
    let (e2, calls2) = Recorder::new(202);
    let (e3, calls3) = Recorder::new(203);
    table.add(Method::Post, "^/same$", e1).unwrap();
    table.add(Method::Get, "^/other$", e2).unwrap();
    table.add(Method::Get, "^/same$", e3).unwrap();
    let mut res = SyncResponse::new();
    table.dispatch(&request(Method::Get, "/same", b""), &mut res);
    assert_eq!(count(&calls1), 0);
    assert_eq!(count(&calls2), 0);
    assert_eq!(count(&calls3), 1);
    assert_eq!(res.status_code(), StatusCode::new(203));
}

#[test]
fn stopping_guard_ends_the_request_without_fall_through() {
    let mut table = ControllerDispatch::new(1u8);
    let (first, first_calls) = Gate::new(299, RequestContinuation::Next);
    let (second, second_calls) = Gate::new(403, RequestContinuation::Stop);
    let (third, third_calls) = Gate::new(298, RequestContinuation::Next);
    let mut guards = RequestGuardCollection::new();
    guards.add(first);
    guards.add(second);
    guards.add(third);
    let (e1, calls1) = Recorder::new(201);
    let (e2, calls2) = Recorder::new(202);
    table.add_with_guards(Method::Get, "^/guarded$", guards, e1).unwrap();
    table.add(Method::Get, "^/guarded$", e2).unwrap();
    let mut res = SyncResponse::new();
    table.dispatch(&request(Method::Get, "/guarded", b"x"), &mut res);
    assert_eq!(count(&first_calls), 1);
    assert_eq!(count(&second_calls), 1);
    assert_eq!(count(&third_calls), 0);
    assert_eq!(count(&calls1), 0);
    assert_eq!(count(&calls2), 0);
    assert_eq!(res.status_code(), StatusCode::new(403));
}

#[test]
fn passing_guards_run_in_order_before_the_delegate() {
    let mut table = ControllerDispatch::new(9u8);
    let (first, first_calls) = Gate::new(298, RequestContinuation::Next);
    let (second, second_calls) = Gate::new(299, RequestContinuation::Next);
    let mut guards = RequestGuardCollection::new();
    guards.add(first);
    guards.add(second);
    table.add_with_guards(Method::Put, "^/item$", guards, Echo).unwrap();
    let mut res = SyncResponse::new();
    table.dispatch(&request(Method::Put, "/item", b"z"), &mut res);
    assert_eq!(count(&first_calls), 1);
    assert_eq!(count(&second_calls), 1);
    assert_eq!(res.status_code(), StatusCode::new(299));
    assert_eq!(res.body(), &vec![9u8, b'z']);
}

#[test]
fn empty_guard_collection_behaves_as_no_guards() {
    let mut guarded = ControllerDispatch::new(1u8);
    let (h1, calls1) = Recorder::new(201);
    guarded.add_with_guards(Method::Get, "^/a$", RequestGuardCollection::new(), h1).unwrap();
    let mut bare = ControllerDispatch::new(1u8);
    let (h2, calls2) = Recorder::new(201);
    bare.add(Method::Get, "^/a$", h2).unwrap();
    for (method, path) in [(Method::Get, "/a"), (Method::Get, "/b"), (Method::Post, "/a")] {
        let mut left = SyncResponse::new();
        let mut right = SyncResponse::new();
        guarded.dispatch(&request(method, path, b""), &mut left);
        bare.dispatch(&request(method, path, b""), &mut right);
        assert_eq!(left.status_code(), right.status_code());
        assert_eq!(left.body(), right.body());
    }
    assert_eq!(count(&calls1), 1);
    assert_eq!(count(&calls2), 1);
}

#[test]
fn unanchored_pattern_matches_longer_paths() {
    let mut table = ControllerDispatch::new(1u8);
    let (open, open_calls) = Recorder::new(201);
    table.add(Method::Get, "^/a", open).unwrap();
    let mut res = SyncResponse::new();
    table.dispatch(&request(Method::Get, "/a/b", b""), &mut res);
    assert_eq!(count(&open_calls), 1);
    assert_eq!(res.status_code(), StatusCode::new(201));

    let mut table = ControllerDispatch::new(1u8);
    let (closed, closed_calls) = Recorder::new(202);
    table.add(Method::Get, "^/a$", closed).unwrap();
    let mut res = SyncResponse::new();
    table.dispatch(&request(Method::Get, "/a/b", b""), &mut res);
    assert_eq!(count(&closed_calls), 0);
    assert_eq!(res.status_code(), StatusCode::new(400));
}

#[test]
fn pattern_without_anchors_matches_inside_the_path() {
    let mut table = ControllerDispatch::new(1u8);
    let (h1, calls) = Recorder::new(201);
    table.add(Method::Get, "/users", h1).unwrap();
    let mut res = SyncResponse::new();
    table.dispatch(&request(Method::Get, "/api/users/extra", b""), &mut res);
    assert_eq!(count(&calls), 1);
}

#[test]
fn malformed_pattern_is_refused_and_registers_nothing() {
    let mut table = ControllerDispatch::new(1u8);
    let (h1, calls) = Recorder::new(201);
    let error = table.add(Method::Get, "^/(", h1).unwrap_err();
    assert_eq!(error.pattern(), "^/(");
    assert!(!error.reason().is_empty());
    let (h2, _) = Recorder::new(202);
    let error = table
        .add_with_guards(Method::Get, "[", RequestGuardCollection::new(), h2)
        .unwrap_err();
    assert_eq!(error.pattern(), "[");
    let mut res = SyncResponse::new();
    table.dispatch(&request(Method::Get, "/(", b""), &mut res);
    assert_eq!(res.status_code(), StatusCode::new(405));
    assert_eq!(count(&calls), 0);
}

#[test]
fn route_with_a_compiled_pattern_is_appended() {
    let mut table = ControllerDispatch::new(1u8);
    let (h1, calls) = Recorder::new(201);
    let matcher = PathMatcher::new("^/ready$").unwrap();
    table.add_route(Method::Head, matcher, None, h1);
    let mut res = SyncResponse::new();
    table.dispatch(&request(Method::Head, "/ready", b""), &mut res);
    assert_eq!(count(&calls), 1);
    assert_eq!(res.status_code(), StatusCode::new(201));
}

#[test]
fn status_delegate_sets_its_status() {
    let mut table = ControllerDispatch::new(());
    table.add(Method::Get, "^/gone$", StatusDelegate { status: StatusCode::new(410) }).unwrap();
    let mut res = SyncResponse::new();
    res.set_body(vec![5]);
    table.dispatch(&request(Method::Get, "/gone", b""), &mut res);
    assert_eq!(res.status_code(), StatusCode::new(410));
    assert_eq!(res.body(), &vec![5u8]);
}

#[test]
fn basic_controller_forwards_to_its_table() {
    let mut controller = BasicController::new(3u8);
    let (h1, calls) = Recorder::new(201);
    controller.add(Method::Get, "^/x$", h1).unwrap();
    controller.add_with_guards(Method::Post, "^/x$", BodyGuard.into(), Echo).unwrap();
    assert!(controller.add(Method::Get, "(", Echo).is_err());

    let mut res = SyncResponse::new();
    controller.handle(&request(Method::Get, "/x", b""), &mut res);
    assert_eq!(count(&calls), 1);
    assert_eq!(res.status_code(), StatusCode::new(201));

    let mut res = SyncResponse::new();
    controller.handle(&request(Method::Post, "/x", b"q"), &mut res);
    assert_eq!(res.body(), &vec![3u8, b'q']);

    let mut res = SyncResponse::new();
    controller.handle(&request(Method::Post, "/x", b""), &mut res);
    assert!(res.body().is_empty());

    let mut res = SyncResponse::new();
    controller.handle(&request(Method::Put, "/x", b""), &mut res);
    assert_eq!(res.status_code(), StatusCode::new(405));

    let mut res = SyncResponse::new();
    controller.handle(&request(Method::Get, "/z", b""), &mut res);
    assert_eq!(res.status_code(), StatusCode::new(400));
}

#[test]
fn controller_is_usable_as_a_trait_object() {
    let mut controller = BasicController::new(1u8);
    controller.add(Method::Get, "^/x$", StatusDelegate { status: StatusCode::new(202) }).unwrap();
    let shared: Arc<dyn Controller> = Arc::new(controller);
    let mut res = SyncResponse::new();
    shared.handle(&request(Method::Get, "/x", b""), &mut res);
    assert_eq!(res.status_code(), StatusCode::new(202));
}
