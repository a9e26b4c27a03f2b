//! The dispatch table, and the controller that wraps it.

use crate::guard::{
    chain_verdict, lemma_first_stop_ends_chain, BoxedGuard, RequestContinuation,
    RequestGuardCollection, Verdict,
};
use crate::message::{
    Method, RequestView, ResponseView, StatusCode, SyncRequest, SyncResponse, BAD_REQUEST,
    METHOD_NOT_ALLOWED,
};
use crate::pattern::{pattern_compiles, pattern_matches, PathMatcher, PatternError};
use vstd::prelude::*;

verus! {

/// Something that answers requests.
///
/// The connection layer calls `handle` once for each request it has parsed.
/// Nothing runs after it: what `res` holds when `handle` returns is what the
/// client receives. `answer` is the controller's model: the response it
/// leaves as a function of the controller, the request and the response it
/// was handed. An implementation that does not say what its model is leaves
/// it unknown.
pub trait Controller: Send + Sync {
    open spec fn answer(&self, req: RequestView, res: ResponseView) -> ResponseView {
        arbitrary()
    }

    fn handle(&self, req: &SyncRequest, res: &mut SyncResponse)
        ensures
            final(res)@ == self.answer(req@, old(res)@),
    ;
}

/// What a route hands a request to once its guards have let it pass.
///
/// A delegate receives the table's context by reference, reads the request
/// and writes the response. `response` is its model: the response it leaves
/// as a function of the delegate, the context, the request and the response
/// it was handed. An implementation that does not say what its model is
/// leaves it unknown.
pub trait DelegateFunction<T>: Send + Sync {
    open spec fn response(&self, context: &T, req: RequestView, res: ResponseView) -> ResponseView {
        arbitrary()
    }

    fn call(&self, context: &T, req: &SyncRequest, res: &mut SyncResponse)
        ensures
            final(res)@ == self.response(context, req@, old(res)@),
    ;
}

/// A delegate of any type, owned on the heap.
#[verifier::reject_recursive_types(T)]
pub struct BoxedDelegate<T> {
    pub delegate: Box<dyn DelegateFunction<T>>,
}

/// `delegate`, boxed.
pub open spec fn boxed_delegate<T, F: 'static + DelegateFunction<T>>(delegate: F) -> BoxedDelegate<T> {
    BoxedDelegate { delegate: Box::new(delegate) }
}

/// A delegate that answers every request with one fixed status and leaves
/// the body as it finds it.
#[derive(Clone, Copy, Debug)]
pub struct StatusDelegate {
    pub status: StatusCode,
}

impl<T> DelegateFunction<T> for StatusDelegate {
    open spec fn response(&self, context: &T, req: RequestView, res: ResponseView) -> ResponseView {
        res.with_status(self.status)
    }

    fn call(&self, context: &T, req: &SyncRequest, res: &mut SyncResponse) {
        res.status(self.status);
    }
}

/// A route as contracts see it.
#[verifier::reject_recursive_types(T)]
pub struct Route<T> {
    pub method: Method,
    /// The text of the path pattern.
    pub pattern: Seq<char>,
    /// The guards in registration order, if a collection is attached.
    pub guards: Option<Seq<BoxedGuard>>,
    pub delegate: BoxedDelegate<T>,
}

impl<T> Route<T> {
    /// Whether this route is one for `req`: the methods are equal and the
    /// pattern matches the path.
    pub open spec fn selects(self, req: RequestView) -> bool {
        self.method == req.method && pattern_matches(self.pattern, req.path)
    }

    /// What the guards of this route make of `req`. A route without a guard
    /// collection lets every request pass untouched.
    pub open spec fn guard_verdict(self, req: RequestView, res: ResponseView) -> Verdict {
        match self.guards {
            Some(guards) => chain_verdict(guards, 0, req, res),
            None => Verdict { signal: RequestContinuation::Next, response: res },
        }
    }

    /// The response this route gives to `req`: the one its guards leave if
    /// one of them stops the request, else the one its delegate makes of
    /// what the guards left.
    pub open spec fn response(self, context: &T, req: RequestView, res: ResponseView) -> ResponseView {
        let checked = self.guard_verdict(req, res);
        if checked.signal == RequestContinuation::Stop {
            checked.response
        } else {
            self.delegate.delegate.response(context, req, checked.response)
        }
    }
}

/// Whether some route of `routes` is registered under `method`.
pub open spec fn knows_method<T>(routes: Seq<Route<T>>, method: Method) -> bool {
    exists|i: int| 0 <= i < routes.len() && (#[trigger] routes[i]).method == method
}

/// Whether `retained` lists, in increasing order, exactly the indices of the
/// routes of `routes` before `bound` that are registered under `method`.
spec fn lists_method<T>(
    routes: Seq<Route<T>>,
    method: Method,
    retained: Seq<usize>,
    bound: int,
) -> bool {
    &&& forall|k: int|
        0 <= k < retained.len() ==> (#[trigger] retained[k]) < bound && routes[retained[k] as int].method
            == method
    &&& forall|j: int, k: int|
        0 <= j < k < retained.len() ==> (#[trigger] retained[j]) < (#[trigger] retained[k])
    &&& forall|i: int|
        0 <= i < bound && (#[trigger] routes[i]).method == method ==> exists|k: int|
            0 <= k < retained.len() && (#[trigger] retained[k]) as int == i
}

/// Whether `index` is the first route, in registration order, that selects
/// `req`.
pub open spec fn is_first_selected<T>(routes: Seq<Route<T>>, req: RequestView, index: int) -> bool {
    &&& 0 <= index < routes.len()
    &&& routes[index].selects(req)
    &&& forall|earlier: int| 0 <= earlier < index ==> !(#[trigger] routes[earlier]).selects(req)
}

/// The response a table with the routes `routes` and the context `context`
/// gives to `req`, starting from `res`.
pub open spec fn dispatch_response<T>(
    context: &T,
    routes: Seq<Route<T>>,
    req: RequestView,
    res: ResponseView,
) -> ResponseView {
    if !knows_method(routes, req.method) {
        res.with_status(StatusCode { code: METHOD_NOT_ALLOWED })
    } else if exists|index: int| is_first_selected(routes, req, index) {
        let index = choose|index: int| is_first_selected(routes, req, index);
        routes[index].response(context, req, res)
    } else {
        res.with_status(StatusCode { code: BAD_REQUEST })
    }
}

/// At most one route is the first that selects a request.
pub proof fn lemma_first_selected_is_unique<T>(
    routes: Seq<Route<T>>,
    req: RequestView,
    one: int,
    other: int,
)
    requires
        is_first_selected(routes, req, one),
        is_first_selected(routes, req, other),
    ensures
        one == other,
{
    if one < other {
        assert(!routes[one].selects(req));
    }
    if other < one {
        assert(!routes[other].selects(req));
    }
}

/// First match wins: the first route in registration order whose method and
/// pattern fit the request answers it, and no other route has a say. Where
/// its guards let the request pass, or it has none, the answer is what its
/// delegate makes, once, of the response the guards left.
pub proof fn lemma_first_selected_answers<T>(
    context: &T,
    routes: Seq<Route<T>>,
    req: RequestView,
    res: ResponseView,
    index: int,
)
    requires
        is_first_selected(routes, req, index),
    ensures
        dispatch_response(context, routes, req, res) == routes[index].response(context, req, res),
        routes[index].guard_verdict(req, res).signal == RequestContinuation::Next
            ==> dispatch_response(context, routes, req, res)
            == routes[index].delegate.delegate.response(
            context,
            req,
            routes[index].guard_verdict(req, res).response,
        ),
{
    assert(knows_method(routes, req.method)) by {
        assert(routes[index].method == req.method);
    }
    let chosen = choose|i: int| is_first_selected(routes, req, i);
    lemma_first_selected_is_unique(routes, req, chosen, index);
}

/// Registration never changes an answer that a route already gives: a
/// request that some route of `routes` selects is answered alike whatever
/// route is appended.
pub proof fn lemma_appended_route_leaves_answers_alone<T>(
    context: &T,
    routes: Seq<Route<T>>,
    appended: Route<T>,
    req: RequestView,
    res: ResponseView,
    index: int,
)
    requires
        is_first_selected(routes, req, index),
    ensures
        is_first_selected(routes.push(appended), req, index),
        dispatch_response(context, routes.push(appended), req, res) == dispatch_response(
            context,
            routes,
            req,
            res,
        ),
{
    let grown = routes.push(appended);
    assert(grown[index] == routes[index]);
    assert forall|earlier: int| 0 <= earlier < index implies !(#[trigger] grown[earlier]).selects(
        req,
    ) by {
        assert(grown[earlier] == routes[earlier]);
    }
    lemma_first_selected_answers(context, routes, req, res, index);
    lemma_first_selected_answers(context, grown, req, res, index);
}

/// A request whose method no route is registered under gets the status 405,
/// whatever paths the routes of other methods match.
pub proof fn lemma_unknown_method_is_not_allowed<T>(
    context: &T,
    routes: Seq<Route<T>>,
    req: RequestView,
    res: ResponseView,
)
    requires
        forall|i: int| 0 <= i < routes.len() ==> (#[trigger] routes[i]).method != req.method,
    ensures
        dispatch_response(context, routes, req, res) == res.with_status(
            StatusCode { code: METHOD_NOT_ALLOWED },
        ),
{
}

/// A request whose method some route is registered under, but whose path
/// none of those routes matches, gets the status 400.
pub proof fn lemma_unmatched_path_is_bad_request<T>(
    context: &T,
    routes: Seq<Route<T>>,
    req: RequestView,
    res: ResponseView,
)
    requires
        knows_method(routes, req.method),
        forall|i: int|
            0 <= i < routes.len() && (#[trigger] routes[i]).method == req.method
                ==> !pattern_matches(routes[i].pattern, req.path),
    ensures
        dispatch_response(context, routes, req, res) == res.with_status(
            StatusCode { code: BAD_REQUEST },
        ),
{
    if exists|index: int| is_first_selected(routes, req, index) {
        let index = choose|index: int| is_first_selected(routes, req, index);
        assert(routes[index].method == req.method);
    }
}

/// No fall-through: where a guard of the first selected route stops the
/// request, the answer is the response that guard left. The guards behind it
/// have no part in it, nor has the route's delegate, nor any other route.
pub proof fn lemma_stopped_request_keeps_guard_response<T>(
    context: &T,
    routes: Seq<Route<T>>,
    req: RequestView,
    res: ResponseView,
    index: int,
    stopping: int,
)
    requires
        is_first_selected(routes, req, index),
        routes[index].guards is Some,
        0 <= stopping < routes[index].guards->0.len(),
        chain_verdict(routes[index].guards->0.take(stopping), 0, req, res).signal
            == RequestContinuation::Next,
        routes[index].guards->0[stopping].guard.verdict(
            req,
            chain_verdict(routes[index].guards->0.take(stopping), 0, req, res).response,
        ).signal == RequestContinuation::Stop,
    ensures
        dispatch_response(context, routes, req, res) == routes[index].guards->0[stopping].guard.verdict(
            req,
            chain_verdict(routes[index].guards->0.take(stopping), 0, req, res).response,
        ).response,
{
    lemma_first_selected_answers(context, routes, req, res, index);
    lemma_first_stop_ends_chain(routes[index].guards->0, stopping, req, res);
}

/// A route with an empty guard collection answers as the same route without
/// a guard collection does, and so does every table that holds it.
pub proof fn lemma_empty_guards_are_no_guards<T>(
    context: &T,
    routes: Seq<Route<T>>,
    req: RequestView,
    res: ResponseView,
    index: int,
)
    requires
        0 <= index < routes.len(),
        routes[index].guards == Some(Seq::<BoxedGuard>::empty()),
    ensures
        routes[index].response(context, req, res) == (Route {
            guards: None,
            ..routes[index]
        }).response(context, req, res),
        dispatch_response(context, routes, req, res) == dispatch_response(
            context,
            routes.update(index, Route { guards: None, ..routes[index] }),
            req,
            res,
        ),
{
    let bare = Route { guards: None, ..routes[index] };
    let others = routes.update(index, bare);
    assert(routes[index].response(context, req, res) == bare.response(context, req, res));
    assert forall|i: int| 0 <= i < routes.len() implies (#[trigger] others[i]).method
        == routes[i].method && others[i].selects(req) == routes[i].selects(req) by {}
    assert(knows_method(routes, req.method) == knows_method(others, req.method)) by {
        if knows_method(routes, req.method) {
            let i = choose|i: int| 0 <= i < routes.len() && (#[trigger] routes[i]).method == req.method;
            assert(others[i].method == req.method);
        }
        if knows_method(others, req.method) {
            let i = choose|i: int| 0 <= i < others.len() && (#[trigger] others[i]).method == req.method;
            assert(routes[i].method == req.method);
        }
    }
    assert forall|i: int| is_first_selected(routes, req, i) == is_first_selected(
        others,
        req,
        i,
    ) by {
        if is_first_selected(routes, req, i) {
            assert(others[i].selects(req));
            assert forall|earlier: int| 0 <= earlier < i implies !(#[trigger] others[earlier]).selects(
                req,
            ) by {
                assert(!routes[earlier].selects(req));
            }
        }
        if is_first_selected(others, req, i) {
            assert(routes[i].selects(req));
            assert forall|earlier: int| 0 <= earlier < i implies !(#[trigger] routes[earlier]).selects(
                req,
            ) by {
                assert(!others[earlier].selects(req));
            }
        }
    }
    if exists|i: int| is_first_selected(routes, req, i) {
        let i = choose|i: int| is_first_selected(routes, req, i);
        let j = choose|j: int| is_first_selected(others, req, j);
        assert(is_first_selected(others, req, i));
        lemma_first_selected_is_unique(others, req, i, j);
        if i != index {
            assert(others[i] == routes[i]);
        }
    }
}

/// One registered route.
#[verifier::reject_recursive_types(T)]
struct ControllerDelegate<T> {
    method: Method,
    matcher: PathMatcher,
    guards: Option<RequestGuardCollection>,
    delegate: BoxedDelegate<T>,
}

impl<T> View for ControllerDelegate<T> {
    type V = Route<T>;

    closed spec fn view(&self) -> Route<T> {
        Route {
            method: self.method,
            pattern: self.matcher@,
            guards: match self.guards {
                Some(guards) => Some(guards@),
                None => None,
            },
            delegate: self.delegate,
        }
    }
}

/// A table of routes and the context that every delegate receives.
///
/// The context is fixed when the table is made. Routes are only ever
/// appended: none is changed or removed. Registration takes the table
/// exclusively and a dispatch takes it shared, so a dispatch sees the table
/// either before a registration or after it, never in between; a server that
/// registers while it serves keeps the table behind a reader/writer lock.
#[verifier::reject_recursive_types(T)]
pub struct ControllerDispatch<T> {
    /// The context sent with the request to the delegate.
    delegate_context: T,
    /// The routes, in registration order.
    delegates: Vec<ControllerDelegate<T>>,
}

impl<T: Send + Sync> ControllerDispatch<T> {
    /// The context, fixed when the table was made.
    pub closed spec fn context(&self) -> &T {
        &self.delegate_context
    }

    /// The routes in registration order.
    pub closed spec fn routes(&self) -> Seq<Route<T>> {
        self.delegates@.map_values(|delegate: ControllerDelegate<T>| delegate@)
    }

    /// The response this table gives to `req`, starting from `res`.
    pub open spec fn response(&self, req: RequestView, res: ResponseView) -> ResponseView {
        dispatch_response(self.context(), self.routes(), req, res)
    }

    /// A table without routes.
    pub fn new(delegate_context: T) -> (table: Self)
        ensures
            table.context() == delegate_context,
            table.routes() == Seq::<Route<T>>::empty(),
    {
        ControllerDispatch { delegate_context, delegates: Vec::new() }
    }

    /// Appends a route whose pattern is already compiled.
    pub fn add_route<F: 'static + DelegateFunction<T>>(
        &mut self,
        method: Method,
        matcher: PathMatcher,
        guards: Option<RequestGuardCollection>,
        delegate_func: F,
    )
        ensures
            final(self).context() == old(self).context(),
            final(self).routes() == old(self).routes().push(
                Route {
                    method,
                    pattern: matcher@,
                    guards: match guards {
                        Some(guards) => Some(guards@),
                        None => None,
                    },
                    delegate: boxed_delegate(delegate_func),
                },
            ),
    {
        let delegate = BoxedDelegate { delegate: Box::new(delegate_func) };
        let entry = ControllerDelegate { method, matcher, guards, delegate };
        self.delegates.push(entry);
    }

    /// Registers `delegate_func` for the requests with the method `method`
    /// whose path the pattern `path` matches. The route has no guards.
    ///
    /// Fails, and registers nothing, exactly when `path` does not compile.
    pub fn add<F: 'static + DelegateFunction<T>>(
        &mut self,
        method: Method,
        path: &str,
        delegate_func: F,
    ) -> (added: Result<(), PatternError>)
        ensures
            final(self).context() == old(self).context(),
            added is Ok <==> pattern_compiles(path@),
            added is Ok ==> final(self).routes() == old(self).routes().push(
                Route {
                    method,
                    pattern: path@,
                    guards: None,
                    delegate: boxed_delegate(delegate_func),
                },
            ),
            added matches Err(error) ==> final(self).routes() == old(self).routes()
                && error.spec_pattern() == path@,
    {
        match PathMatcher::new(path) {
            Ok(matcher) => {
                self.add_route(method, matcher, None, delegate_func);
                Ok(())
            },
            Err(error) => Err(error),
        }
    }

    /// Registers `delegate_func` as [`ControllerDispatch::add`] does, behind
    /// the guards of `guards`.
    ///
    /// Fails, and registers nothing, exactly when `path` does not compile.
    pub fn add_with_guards<F: 'static + DelegateFunction<T>>(
        &mut self,
        method: Method,
        path: &str,
        guards: RequestGuardCollection,
        delegate_func: F,
    ) -> (added: Result<(), PatternError>)
        ensures
            final(self).context() == old(self).context(),
            added is Ok <==> pattern_compiles(path@),
            added is Ok ==> final(self).routes() == old(self).routes().push(
                Route {
                    method,
                    pattern: path@,
                    guards: Some(guards@),
                    delegate: boxed_delegate(delegate_func),
                },
            ),
            added matches Err(error) ==> final(self).routes() == old(self).routes()
                && error.spec_pattern() == path@,
    {
        match PathMatcher::new(path) {
            Ok(matcher) => {
                self.add_route(method, matcher, Some(guards), delegate_func);
                Ok(())
            },
            Err(error) => Err(error),
        }
    }

    /// The indices of the routes registered under `method`, in registration
    /// order.
    fn retained(&self, method: Method) -> (retained: Vec<usize>)
        ensures
            lists_method(self.routes(), method, retained@, self.routes().len() as int),
    {
        let mut retained: Vec<usize> = Vec::new();
        let mut index: usize = 0;
        while index < self.delegates.len()
            invariant
                index <= self.delegates@.len(),
                self.routes().len() == self.delegates@.len(),
                lists_method(self.routes(), method, retained@, index as int),
            decreases self.delegates@.len() - index,
        {
            let ghost before = retained@;
            if self.delegates[index].method == method {
                retained.push(index);
            }
            assert forall|i: int|
                0 <= i < index + 1 && (#[trigger] self.routes()[i]).method == method implies exists|
                k: int,
            |
                0 <= k < retained@.len() && (#[trigger] retained@[k]) as int == i by {
                if i < index {
                    let k = choose|k: int| 0 <= k < before.len() && (#[trigger] before[k]) as int == i;
                    assert(retained@[k] as int == i);
                } else {
                    assert(retained@[before.len() as int] as int == i);
                }
            }
            index = index + 1;
        }
        retained
    }

    /// Answers `req`.
    ///
    /// Among the routes registered under the request's method, the first
    /// whose pattern matches the request's path answers: its guards run in
    /// order, and unless one of them stops the request its delegate runs on
    /// the response they left. No other route is tried, whatever the guards
    /// say. Where no route is registered under the method, the status
    /// becomes 405; where one is but no pattern matches, it becomes 400.
    pub fn dispatch(&self, req: &SyncRequest, res: &mut SyncResponse)
        ensures
            final(res)@ == self.response(req@, old(res)@),
    {
        let method = req.method();
        let retained = self.retained(method);
        if retained.len() == 0 {
            res.status(StatusCode::new(METHOD_NOT_ALLOWED));
            return ;
        }
        assert(knows_method(self.routes(), req@.method)) by {
            assert(self.routes()[retained@[0] as int].method == req@.method);
        }
        let mut position: usize = 0;
        while position < retained.len()
            invariant
                position <= retained@.len(),
                res@ == old(res)@,
                method == req@.method,
                self.routes().len() == self.delegates@.len(),
                knows_method(self.routes(), req@.method),
                lists_method(self.routes(), method, retained@, self.routes().len() as int),
                forall|k: int|
                    0 <= k < position ==> !self.routes()[(#[trigger] retained@[k]) as int].selects(
                        req@,
                    ),
            decreases retained@.len() - position,
        {
            let index = retained[position];
            let delegate = &self.delegates[index];
            assert(delegate@ == self.routes()[index as int]);
            if delegate.matcher.is_match(req.path()) {
                proof {
                    assert forall|earlier: int| 0 <= earlier < index implies !(
                    #[trigger] self.routes()[earlier]).selects(req@) by {
                        if self.routes()[earlier].method == method {
                            let k = choose|k: int|
                                0 <= k < retained@.len() && (#[trigger] retained@[k]) as int
                                    == earlier;
                            if k > position {
                                assert(retained@[position as int] < retained@[k]);
                            }
                        }
                    }
                    assert(is_first_selected(self.routes(), req@, index as int));
                    let chosen = choose|i: int| is_first_selected(self.routes(), req@, i);
                    if chosen < index {
                        assert(!self.routes()[chosen].selects(req@));
                    }
                    if index < chosen {
                        assert(!self.routes()[index as int].selects(req@));
                    }
                }
                match &delegate.guards {
                    Some(guards) => {
                        let signal = guards.validate(req, res);
                        if signal == RequestContinuation::Stop {
                            return ;
                        }
                    },
                    None => {},
                }
                delegate.delegate.delegate.call(&self.delegate_context, req, res);
                return ;
            }
            position = position + 1;
        }
        assert(!exists|i: int| is_first_selected(self.routes(), req@, i)) by {
            if exists|i: int| is_first_selected(self.routes(), req@, i) {
                let i = choose|i: int| is_first_selected(self.routes(), req@, i);
                assert(self.routes()[i].method == method);
                let k = choose|k: int|
                    0 <= k < retained@.len() && (#[trigger] retained@[k]) as int == i;
                assert(!self.routes()[retained@[k] as int].selects(req@));
            }
        }
        res.status(StatusCode::new(BAD_REQUEST));
    }
}

/// A controller that is nothing but a dispatch table.
#[verifier::reject_recursive_types(C)]
pub struct BasicController<C> {
    dispatch: ControllerDispatch<C>,
}

impl<C: Send + Sync> Controller for BasicController<C> {
    open spec fn answer(&self, req: RequestView, res: ResponseView) -> ResponseView {
        dispatch_response(self.context(), self.routes(), req, res)
    }

    fn handle(&self, req: &SyncRequest, res: &mut SyncResponse) {
        self.dispatch.dispatch(req, res);
    }
}

impl<C: Send + Sync> BasicController<C> {
    /// The context of the table, fixed when the controller was made.
    pub closed spec fn context(&self) -> &C {
        self.dispatch.context()
    }

    /// The routes of the table, in registration order.
    pub closed spec fn routes(&self) -> Seq<Route<C>> {
        self.dispatch.routes()
    }

    /// A controller without routes.
    pub fn new(controller_context: C) -> (controller: Self)
        ensures
            controller.context() == controller_context,
            controller.routes() == Seq::<Route<C>>::empty(),
    {
        BasicController { dispatch: ControllerDispatch::new(controller_context) }
    }

    /// Registers a route without guards, as [`ControllerDispatch::add`] does.
    pub fn add<F: 'static + DelegateFunction<C>>(
        &mut self,
        method: Method,
        path: &str,
        delegate_func: F,
    ) -> (added: Result<(), PatternError>)
        ensures
            final(self).context() == old(self).context(),
            added is Ok <==> pattern_compiles(path@),
            added is Ok ==> final(self).routes() == old(self).routes().push(
                Route {
                    method,
                    pattern: path@,
                    guards: None,
                    delegate: boxed_delegate(delegate_func),
                },
            ),
            added matches Err(error) ==> final(self).routes() == old(self).routes()
                && error.spec_pattern() == path@,
    {
        self.dispatch.add(method, path, delegate_func)
    }

    /// Registers a route behind guards, as
    /// [`ControllerDispatch::add_with_guards`] does.
    pub fn add_with_guards<F: 'static + DelegateFunction<C>>(
        &mut self,
        method: Method,
        path: &str,
        guards: RequestGuardCollection,
        delegate_func: F,
    ) -> (added: Result<(), PatternError>)
        ensures
            final(self).context() == old(self).context(),
            added is Ok <==> pattern_compiles(path@),
            added is Ok ==> final(self).routes() == old(self).routes().push(
                Route {
                    method,
                    pattern: path@,
                    guards: Some(guards@),
                    delegate: boxed_delegate(delegate_func),
                },
            ),
            added matches Err(error) ==> final(self).routes() == old(self).routes()
                && error.spec_pattern() == path@,
    {
        self.dispatch.add_with_guards(method, path, guards, delegate_func)
    }
}

} // verus!
