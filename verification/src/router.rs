//! Label- and method-based request routing.

use crate::errors::CrawlError;
use crate::request::{same_method, Method, Request};
use crate::text::{owned, same};
use crate::url::{clone_opt, opt_view};
use vstd::prelude::*;

verus! {

/// Provides request metadata used to select a route.
pub trait HasRequest {
    /// Returns the request associated with this context.
    fn request(&self) -> &Request;
}

/// Restricts a route to selected HTTP methods.
#[derive(Debug)]
pub enum MethodFilter {
    /// Matches every HTTP method.
    Any,
    /// Matches only the listed HTTP methods.
    Only(Vec<Method>),
}

/// Whether a method is in a list.
pub open spec fn lists_method(methods: Seq<Method>, method: Method) -> bool {
    exists|i: int| 0 <= i < methods.len() && same_method(#[trigger] methods[i], method)
}

fn is_listed(methods: &Vec<Method>, method: &Method) -> (r: bool)
    ensures
        r == lists_method(methods@, *method),
{
    let mut i: usize = 0;
    while i < methods.len()
        invariant
            i <= methods.len(),
            forall|k: int| 0 <= k < i ==> !same_method(#[trigger] methods@[k], *method),
        decreases methods.len() - i,
    {
        if methods[i].same_as(method) {
            return true;
        }
        i = i + 1;
    }
    false
}

/// Whether every method of one list is in another.
pub open spec fn lists_all(methods: Seq<Method>, others: Seq<Method>) -> bool {
    forall|i: int| 0 <= i < others.len() ==> lists_method(methods, #[trigger] others[i])
}

fn all_listed(methods: &Vec<Method>, others: &Vec<Method>) -> (r: bool)
    ensures
        r == lists_all(methods@, others@),
{
    let mut i: usize = 0;
    while i < others.len()
        invariant
            i <= others.len(),
            forall|k: int| 0 <= k < i ==> lists_method(methods@, #[trigger] others@[k]),
        decreases others.len() - i,
    {
        if !is_listed(methods, &others[i]) {
            assert(!lists_method(methods@, others@[i as int]));
            return false;
        }
        i = i + 1;
    }
    true
}

impl MethodFilter {
    /// Whether the filter accepts a method.
    pub open spec fn accepts(self, method: Method) -> bool {
        match self {
            MethodFilter::Any => true,
            MethodFilter::Only(methods) => lists_method(methods@, method),
        }
    }

    /// Whether the filter accepts every method that `other` accepts, as far as their lists show.
    pub open spec fn covers(self, other: MethodFilter) -> bool {
        match (self, other) {
            (MethodFilter::Any, _) => true,
            (MethodFilter::Only(_), MethodFilter::Any) => false,
            (MethodFilter::Only(earlier), MethodFilter::Only(later)) => lists_all(
                earlier@,
                later@,
            ),
        }
    }

    /// Returns whether this filter accepts `method`.
    pub fn matches(&self, method: &Method) -> (r: bool)
        ensures
            r == self.accepts(*method),
    {
        match self {
            MethodFilter::Any => true,
            MethodFilter::Only(methods) => is_listed(methods, method),
        }
    }

    /// Returns whether this filter leaves nothing for `other`.
    pub fn shadows(&self, other: &MethodFilter) -> (r: bool)
        ensures
            r == self.covers(*other),
    {
        match (self, other) {
            (MethodFilter::Any, _) => true,
            (MethodFilter::Only(_), MethodFilter::Any) => false,
            (MethodFilter::Only(earlier), MethodFilter::Only(later)) => all_listed(earlier, later),
        }
    }
}

/// The mathematical value of a method.
pub enum MethodView {
    /// A method of the standard set.
    Standard(Method),
    /// A method outside the standard set, by its name.
    Extension(Seq<char>),
}

/// The mathematical value of a method.
pub open spec fn method_view(method: Method) -> MethodView {
    match method {
        Method::Extension(name) => MethodView::Extension(name@),
        standard => MethodView::Standard(standard),
    }
}

impl MethodFilter {
    /// Whether the filter accepts the methods with a value.
    pub open spec fn accepts_view(self, view: MethodView) -> bool {
        match self {
            MethodFilter::Any => true,
            MethodFilter::Only(methods) => exists|i: int|
                0 <= i < methods@.len() && method_view(#[trigger] methods@[i]) == view,
        }
    }
}

/// A filter accepts a method by its value alone.
pub proof fn filters_go_by_the_value(filter: MethodFilter, method: Method)
    ensures
        filter.accepts(method) == filter.accepts_view(method_view(method)),
{
    if let MethodFilter::Only(methods) = filter {
        assert forall|i: int| 0 <= i < methods@.len() implies same_method(
            #[trigger] methods@[i],
            method,
        ) == (method_view(methods@[i]) == method_view(method)) by {}
    }
}

/// A length that no extension method of a list reaches.
spec fn beyond(methods: Seq<Method>) -> nat
    decreases methods.len(),
{
    if methods.len() == 0 {
        0
    } else {
        let rest = beyond(methods.drop_last());
        match methods.last() {
            Method::Extension(name) => rest + name@.len() + 1,
            _ => rest,
        }
    }
}

proof fn lemma_beyond(methods: Seq<Method>, i: int)
    requires
        0 <= i < methods.len(),
    ensures
        methods[i] is Extension ==> methods[i]->Extension_0@.len() < beyond(methods),
    decreases methods.len(),
{
    if i < methods.len() - 1 {
        lemma_beyond(methods.drop_last(), i);
        assert(methods.drop_last()[i] == methods[i]);
    }
}

/// A filter shadows another exactly where it accepts all that the other accepts. So one that accepts
/// any method is shadowed by no list, and an empty list by every filter.
pub proof fn shadowing_is_accepting_all(earlier: MethodFilter, later: MethodFilter)
    ensures
        earlier.covers(later) <==> forall|view: MethodView|
            later.accepts_view(view) ==> #[trigger] earlier.accepts_view(view),
        earlier.covers(later) ==> forall|method: Method|
            later.accepts(method) ==> #[trigger] earlier.accepts(method),
{
    match (earlier, later) {
        (MethodFilter::Any, _) => {},
        (MethodFilter::Only(listed), MethodFilter::Any) => {
            let name = Seq::new(beyond(listed@), |i: int| 'x');
            let view = MethodView::Extension(name);
            assert(later.accepts_view(view));
            if earlier.accepts_view(view) {
                let i = choose|i: int|
                    0 <= i < listed@.len() && method_view(#[trigger] listed@[i]) == view;
                lemma_beyond(listed@, i);
            }
        },
        (MethodFilter::Only(listed), MethodFilter::Only(others)) => {
            if earlier.covers(later) {
                assert forall|view: MethodView| later.accepts_view(view) implies
                    #[trigger] earlier.accepts_view(view) by {
                    let i = choose|i: int|
                        0 <= i < others@.len() && method_view(#[trigger] others@[i]) == view;
                    assert(lists_method(listed@, others@[i]));
                    filters_go_by_the_value(earlier, others@[i]);
                }
                assert forall|method: Method| later.accepts(method) implies
                    #[trigger] earlier.accepts(method) by {
                    filters_go_by_the_value(later, method);
                    filters_go_by_the_value(earlier, method);
                    assert(earlier.accepts_view(method_view(method)));
                }
            } else {
                let i = choose|i: int|
                    0 <= i < others@.len() && !lists_method(listed@, #[trigger] others@[i]);
                assert(method_view(others@[i]) == method_view(others@[i]));
                assert(later.accepts_view(method_view(others@[i])));
                filters_go_by_the_value(earlier, others@[i]);
                assert(!earlier.accepts_view(method_view(others@[i])));
            }
        },
    }
}

/// A registered route. A route without a label matches every request label.
#[derive(Debug)]
pub struct Route<H> {
    pub label: Option<String>,
    pub methods: MethodFilter,
    pub handler: H,
}

impl<H> Route<H> {
    /// Whether the route takes a request with a label and a method.
    pub open spec fn takes(self, label: Option<Seq<char>>, method: Method) -> bool {
        (self.label is None || opt_view(self.label) == label) && self.methods.accepts(method)
    }

    /// Whether a route with a label and methods behind this one is never reached.
    pub open spec fn hides(self, label: Option<Seq<char>>, methods: MethodFilter) -> bool {
        (self.label is None || opt_view(self.label) == label) && self.methods.covers(methods)
    }
}

fn same_label(a: &Option<String>, b: &Option<String>) -> (r: bool)
    ensures
        r == (opt_view(*a) == opt_view(*b)),
{
    match (a, b) {
        (Some(x), Some(y)) => same(x.as_str(), y.as_str()),
        (None, None) => true,
        _ => false,
    }
}

/// The number of the first route, from `from` on, that takes a request.
pub open spec fn first_route<H>(
    routes: Seq<Route<H>>,
    label: Option<Seq<char>>,
    method: Method,
    from: int,
) -> Option<int>
    decreases routes.len() - from,
{
    if from < 0 || from >= routes.len() {
        None
    } else if routes[from].takes(label, method) {
        Some(from)
    } else {
        first_route(routes, label, method, from + 1)
    }
}

/// Routes requests by label and HTTP method to handlers of type `H`, behind middleware of type `M`.
#[derive(Debug)]
pub struct Router<H, M> {
    pub routes: Vec<Route<H>>,
    pub default: Option<H>,
    pub middleware: Vec<M>,
}

impl<H, M> Router<H, M> {
    /// Creates an empty router.
    pub fn new() -> (r: Router<H, M>)
        ensures
            r.routes@.len() == 0,
            r.default is None,
            r.middleware@.len() == 0,
    {
        Router { routes: Vec::new(), default: None, middleware: Vec::new() }
    }

    /// Adds a route that matches `label` with any HTTP method.
    pub fn route(self, label: &str, handler: H) -> (r: Router<H, M>)
        ensures
            r.routes@.len() == self.routes@.len() + 1,
            r.routes@.drop_last() == self.routes@,
            opt_view(r.routes@.last().label) == Some(label@),
            r.routes@.last().methods is Any,
            r.routes@.last().handler == handler,
            r.default == self.default,
            r.middleware == self.middleware,
    {
        self.push_route(Some(owned(label)), MethodFilter::Any, handler)
    }

    /// Adds a route that matches `label` with one HTTP method.
    pub fn route_method(self, label: &str, method: Method, handler: H) -> (r: Router<H, M>)
        ensures
            r.routes@.len() == self.routes@.len() + 1,
            r.routes@.drop_last() == self.routes@,
            opt_view(r.routes@.last().label) == Some(label@),
            r.routes@.last().methods is Only,
            r.routes@.last().methods->Only_0@ == seq![method],
            r.routes@.last().handler == handler,
            r.default == self.default,
            r.middleware == self.middleware,
    {
        let methods: Vec<Method> = vec![method];
        assert(methods@ =~= seq![method]);
        self.route_methods(label, methods, handler)
    }

    /// Adds a route that matches `label` with any of the supplied HTTP methods.
    pub fn route_methods(self, label: &str, methods: Vec<Method>, handler: H) -> (r: Router<H, M>)
        ensures
            r.routes@.len() == self.routes@.len() + 1,
            r.routes@.drop_last() == self.routes@,
            opt_view(r.routes@.last().label) == Some(label@),
            r.routes@.last().methods == MethodFilter::Only(methods),
            r.routes@.last().handler == handler,
            r.default == self.default,
            r.middleware == self.middleware,
    {
        self.push_route(Some(owned(label)), MethodFilter::Only(methods), handler)
    }

    /// Sets the fallback handler used when no registered route matches.
    pub fn default(self, handler: H) -> (r: Router<H, M>)
        ensures
            r.routes == self.routes,
            r.default == Some(handler),
            r.middleware == self.middleware,
    {
        Router { routes: self.routes, default: Some(handler), middleware: self.middleware }
    }

    /// Appends middleware that runs in registration order before a matched handler.
    pub fn middleware(self, middleware: M) -> (r: Router<H, M>)
        ensures
            r.routes == self.routes,
            r.default == self.default,
            r.middleware@ == self.middleware@.push(middleware),
    {
        let mut all: Vec<M> = self.middleware;
        all.push(middleware);
        Router { routes: self.routes, default: self.default, middleware: all }
    }

    /// Adds a route.
    pub fn push_route(self, label: Option<String>, methods: MethodFilter, handler: H) -> (r: Router<
        H,
        M,
    >)
        ensures
            r.routes@ == self.routes@.push(Route { label, methods, handler }),
            r.default == self.default,
            r.middleware == self.middleware,
    {
        let mut routes: Vec<Route<H>> = self.routes;
        routes.push(Route { label, methods, handler });
        assert(routes@.drop_last() =~= self.routes@);
        Router { routes, default: self.default, middleware: self.middleware }
    }

    /// Whether a route added now would never be reached, because an earlier one shadows it.
    pub fn is_shadowed(&self, label: &Option<String>, methods: &MethodFilter) -> (r: bool)
        ensures
            r == exists|i: int|
                0 <= i < self.routes@.len() && (#[trigger] self.routes@[i]).hides(
                    opt_view(*label),
                    *methods,
                ),
    {
        let mut i: usize = 0;
        while i < self.routes.len()
            invariant
                i <= self.routes.len(),
                forall|k: int|
                    0 <= k < i ==> !(#[trigger] self.routes@[k]).hides(opt_view(*label), *methods),
            decreases self.routes.len() - i,
        {
            let route: &Route<H> = &self.routes[i];
            if (route.label.is_none() || same_label(&route.label, label)) && route.methods.shadows(
                methods,
            ) {
                assert(self.routes@[i as int].hides(opt_view(*label), *methods));
                return true;
            }
            i = i + 1;
        }
        false
    }

    /// The handler that a request goes to.
    pub open spec fn handler_for(self, label: Option<Seq<char>>, method: Method) -> Option<H> {
        match first_route(self.routes@, label, method, 0) {
            Some(i) => Some(self.routes@[i].handler),
            None => self.default,
        }
    }

    /// Selects the handler of a request: the first matching route's, else the fallback, else an
    /// error that names the label and the method.
    pub fn select(&self, label: &Option<String>, method: &Method) -> (r: Result<&H, CrawlError>)
        ensures
            match r {
                Ok(handler) => self.handler_for(opt_view(*label), *method) == Some(*handler),
                Err(e) => self.handler_for(opt_view(*label), *method) is None && e == (
                CrawlError::MissingRoute { label: *label, method: *method }),
            },
    {
        let mut i: usize = 0;
        while i < self.routes.len()
            invariant
                i <= self.routes.len(),
                first_route(self.routes@, opt_view(*label), *method, 0) == first_route(
                    self.routes@,
                    opt_view(*label),
                    *method,
                    i as int,
                ),
            decreases self.routes.len() - i,
        {
            let route: &Route<H> = &self.routes[i];
            if (route.label.is_none() || same_label(&route.label, label)) && route.methods.matches(
                method,
            ) {
                return Ok(&route.handler);
            }
            i = i + 1;
        }
        match &self.default {
            Some(handler) => Ok(handler),
            None => Err(
                CrawlError::MissingRoute { label: clone_opt(label), method: method.clone() },
            ),
        }
    }
}

/// What is to be done next for a request.
#[derive(Debug)]
pub enum HandlingStep<C> {
    /// Run the middleware with a number on a context.
    Middleware { number: usize, context: C },
    /// Run the chosen handler on a context.
    Handler { context: C },
    /// Nothing: the request has its result.
    Finished(Result<(), CrawlError>),
}

/// How what was to be done for a request ended.
#[derive(Debug)]
pub enum HandlingEnd<C> {
    /// The middleware with a number gave a context, or an error.
    Middleware { number: usize, outcome: Result<C, CrawlError> },
    /// The handler gave the result.
    Handler(Result<(), CrawlError>),
}

/// What comes once `number` middleware have run, the last of them giving `context`.
pub open spec fn step_at<C>(number: nat, count: nat, context: C) -> HandlingStep<C> {
    if number < count {
        HandlingStep::Middleware { number: number as usize, context }
    } else {
        HandlingStep::Handler { context }
    }
}

/// Whether a step can end in a way: each by its own.
pub open spec fn can_end<C>(step: HandlingStep<C>, end: HandlingEnd<C>) -> bool {
    match (step, end) {
        (
            HandlingStep::Middleware { number, context: _ },
            HandlingEnd::Middleware { number: ended, outcome: _ },
        ) => number == ended,
        (HandlingStep::Handler { context: _ }, HandlingEnd::Handler(_)) => true,
        _ => false,
    }
}

/// What follows a step that ended, among `count` middleware.
pub open spec fn step_after<C>(count: nat, end: HandlingEnd<C>) -> HandlingStep<C> {
    match end {
        HandlingEnd::Middleware { number, outcome: Ok(context) } => step_at(
            (number + 1) as nat,
            count,
            context,
        ),
        HandlingEnd::Middleware { number: _, outcome: Err(error) } => HandlingStep::Finished(
            Err(error),
        ),
        HandlingEnd::Handler(result) => HandlingStep::Finished(result),
    }
}

/// Goes on with a request after a step has ended, where there are `count` middleware.
pub fn proceed<C>(count: usize, end: HandlingEnd<C>) -> (r: HandlingStep<C>)
    requires
        end is Middleware ==> end->number < count,
    ensures
        r == step_after(count as nat, end),
{
    match end {
        HandlingEnd::Middleware { number, outcome: Ok(context) } => if number + 1 < count {
            HandlingStep::Middleware { number: number + 1, context }
        } else {
            HandlingStep::Handler { context }
        },
        HandlingEnd::Middleware { number: _, outcome: Err(error) } => HandlingStep::Finished(
            Err(error),
        ),
        HandlingEnd::Handler(result) => HandlingStep::Finished(result),
    }
}

impl<H, M> Router<H, M> {
    /// Begins to handle a request in a context. Without a handler for it no middleware runs.
    pub fn begin<C>(&self, label: &Option<String>, method: &Method, context: C) -> (r: HandlingStep<
        C,
    >)
        ensures
            match self.handler_for(opt_view(*label), *method) {
                Some(_) => r == step_at(0, self.middleware@.len(), context),
                None => r == HandlingStep::<C>::Finished(
                    Err(CrawlError::MissingRoute { label: *label, method: *method }),
                ),
            },
    {
        match self.select(label, method) {
            Ok(_) => if self.middleware.len() > 0 {
                HandlingStep::Middleware { number: 0, context }
            } else {
                HandlingStep::Handler { context }
            },
            Err(error) => HandlingStep::Finished(Err(error)),
        }
    }
}

/// Whether a request that has a handler is handled by `steps`, which end by `ends`.
pub open spec fn is_handled_by<C>(
    count: nat,
    context: C,
    steps: Seq<HandlingStep<C>>,
    ends: Seq<HandlingEnd<C>>,
) -> bool {
    &&& steps.len() == ends.len() + 1
    &&& steps[0] == step_at(0, count, context)
    &&& forall|i: int|
        0 <= i < ends.len() ==> can_end(#[trigger] steps[i], ends[i]) && steps[i + 1] == step_after(
            count,
            ends[i],
        )
}

/// The context that step number `at` runs on, if it runs on what was given: the first one on the
/// request's own, any other on what the one before returned.
pub open spec fn runs_on<C>(context: C, ends: Seq<HandlingEnd<C>>, at: int, given: C) -> bool {
    if at == 0 {
        given == context
    } else {
        ends[at - 1] == (HandlingEnd::<C>::Middleware {
            number: (at - 1) as usize,
            outcome: Ok(given),
        })
    }
}

/// Middleware runs in the order of registration, each on the context that the one before returned;
/// the handler runs once, behind the last of them, on the context that it returned. The first error
/// of a middleware is the result, and nothing runs behind it; otherwise the result is the handler's.
pub proof fn middleware_runs_in_order<C>(
    count: nat,
    context: C,
    steps: Seq<HandlingStep<C>>,
    ends: Seq<HandlingEnd<C>>,
    at: int,
)
    requires
        count <= usize::MAX,
        is_handled_by(count, context, steps, ends),
        0 <= at < steps.len(),
    ensures
        match steps[at] {
            HandlingStep::Middleware { number, context: given } => {
                &&& number == at && at < count
                &&& runs_on(context, ends, at, given)
            },
            HandlingStep::Handler { context: given } => {
                &&& at == count
                &&& runs_on(context, ends, at, given)
            },
            HandlingStep::Finished(result) => {
                &&& at == steps.len() - 1 && at > 0
                &&& match ends[at - 1] {
                    HandlingEnd::Middleware { number, outcome: Err(error) } => number == at - 1 && at
                        - 1 < count && result == Err::<
                        (),
                        CrawlError,
                    >(error),
                    HandlingEnd::Handler(given) => at - 1 == count && result == given,
                    _ => false,
                }
            },
        },
    decreases at,
{
    if at > 0 {
        middleware_runs_in_order(count, context, steps, ends, at - 1);
        assert(can_end(steps[at - 1], ends[at - 1]));
        assert(steps[at - 1 + 1] == step_after(count, ends[at - 1]));
        if steps[at] is Finished && at < ends.len() {
            assert(can_end(steps[at], ends[at]));
        }
    }
}

/// A shadowed route is never selected: whatever it takes, the route in front of it takes first.
pub proof fn shadowed_routes_are_unreachable<H>(
    routes: Seq<Route<H>>,
    earlier: int,
    later: int,
    label: Option<Seq<char>>,
    method: Method,
)
    requires
        0 <= earlier < later < routes.len(),
        routes[earlier].hides(opt_view(routes[later].label), routes[later].methods),
        routes[later].label is Some || routes[earlier].label is None,
    ensures
        first_route(routes, label, method, 0) != Some(later),
{
    if routes[later].takes(label, method) {
        match (routes[earlier].methods, routes[later].methods) {
            (MethodFilter::Only(a), MethodFilter::Only(b)) => {
                let i = choose|i: int| 0 <= i < b@.len() && same_method(#[trigger] b@[i], method);
                assert(lists_method(a@, b@[i]));
                let k = choose|k: int| 0 <= k < a@.len() && same_method(#[trigger] a@[k], b@[i]);
                assert(same_method(a@[k], method));
            },
            _ => {},
        }
        assert(routes[earlier].takes(label, method));
        lemma_first_is_not_after(routes, label, method, 0, earlier);
    } else {
        lemma_first_takes(routes, label, method, 0);
    }
}

proof fn lemma_first_is_not_after<H>(
    routes: Seq<Route<H>>,
    label: Option<Seq<char>>,
    method: Method,
    from: int,
    at: int,
)
    requires
        0 <= from <= at < routes.len(),
        routes[at].takes(label, method),
    ensures
        first_route(routes, label, method, from) is Some,
        first_route(routes, label, method, from).unwrap() <= at,
    decreases at - from,
{
    if !routes[from].takes(label, method) {
        lemma_first_is_not_after(routes, label, method, from + 1, at);
    }
}

proof fn lemma_first_takes<H>(
    routes: Seq<Route<H>>,
    label: Option<Seq<char>>,
    method: Method,
    from: int,
)
    requires
        0 <= from <= routes.len(),
    ensures
        match first_route(routes, label, method, from) {
            Some(i) => from <= i < routes.len() && routes[i].takes(label, method),
            None => true,
        },
    decreases routes.len() - from,
{
    if from < routes.len() && !routes[from].takes(label, method) {
        lemma_first_takes(routes, label, method, from + 1);
    }
}

/// A route takes a request where it is for any label or for the very label of the request, and for any
/// method or for one of its methods, compared by name.
pub proof fn what_a_route_takes<H>(route: Route<H>, label: Option<Seq<char>>, method: Method)
    ensures
        ({
            let labelled = route.label is None || (label is Some && route.label is Some
                && route.label.unwrap()@ == label.unwrap());
            let allowed = match route.methods {
                MethodFilter::Any => true,
                MethodFilter::Only(methods) => exists|i: int|
                    0 <= i < methods@.len() && ((#[trigger] methods@[i]) == method || (
                    methods@[i] is Extension && method is Extension && methods@[i]->Extension_0@
                        == method->Extension_0@)),
            };
            route.takes(label, method) <==> labelled && allowed
        }),
{
    if let MethodFilter::Only(methods) = route.methods {
        if exists|i: int|
            0 <= i < methods@.len() && ((#[trigger] methods@[i]) == method || (methods@[i]
                is Extension && method is Extension && methods@[i]->Extension_0@
                == method->Extension_0@)) {
            let i = choose|i: int|
                0 <= i < methods@.len() && ((#[trigger] methods@[i]) == method || (methods@[i]
                    is Extension && method is Extension && methods@[i]->Extension_0@
                    == method->Extension_0@));
            assert(same_method(methods@[i], method));
        }
        if lists_method(methods@, method) {
            let i = choose|i: int|
                0 <= i < methods@.len() && same_method(#[trigger] methods@[i], method);
            assert(methods@[i] == method || (methods@[i] is Extension && method is Extension
                && methods@[i]->Extension_0@ == method->Extension_0@));
        }
    }
}

/// A request goes to the first route that takes it, and to the default handler, where there is one,
/// only if no route does.
pub proof fn first_routes_win<H, M>(
    router: Router<H, M>,
    label: Option<Seq<char>>,
    method: Method,
    at: int,
)
    requires
        0 <= at <= router.routes@.len(),
        forall|k: int| 0 <= k < at ==> !(#[trigger] router.routes@[k]).takes(label, method),
        at < router.routes@.len() ==> router.routes@[at].takes(label, method),
    ensures
        at < router.routes@.len() ==> router.handler_for(label, method) == Some(
            router.routes@[at].handler,
        ),
        at == router.routes@.len() ==> router.handler_for(label, method) == router.default,
{
    lemma_first_route_from(router.routes@, label, method, 0, at);
}

proof fn lemma_first_route_from<H>(
    routes: Seq<Route<H>>,
    label: Option<Seq<char>>,
    method: Method,
    from: int,
    at: int,
)
    requires
        0 <= from <= at <= routes.len(),
        forall|k: int| from <= k < at ==> !(#[trigger] routes[k]).takes(label, method),
        at < routes.len() ==> routes[at].takes(label, method),
    ensures
        first_route(routes, label, method, from) == if at < routes.len() {
            Some(at)
        } else {
            None::<int>
        },
    decreases routes.len() - from,
{
    if from < at {
        lemma_first_route_from(routes, label, method, from + 1, at);
    }
}

/// A route hides what a later one would take where it is for any label or for the same, and accepts
/// all methods that the later one accepts.
pub proof fn what_a_route_hides<H>(route: Route<H>, label: Option<Seq<char>>, methods: MethodFilter)
    ensures
        route.hides(label, methods) <==> {
            &&& route.label is None || (label is Some && route.label is Some
                && route.label.unwrap()@ == label.unwrap())
            &&& forall|view: MethodView|
                methods.accepts_view(view) ==> #[trigger] route.methods.accepts_view(view)
        },
{
    shadowing_is_accepting_all(route.methods, methods);
}

/// The handler comes right behind the last middleware, or first where there is none; a failure ends
/// the handling with its error, and so does the handler with its result.
pub proof fn steps_lead_to_the_handler<C>(
    number: usize,
    count: nat,
    context: C,
    error: CrawlError,
    result: Result<(), CrawlError>,
)
    requires
        number < count <= usize::MAX,
    ensures
        step_at(0, 0, context) == (HandlingStep::Handler { context }),
        step_at(0, count, context) == (HandlingStep::Middleware { number: 0, context }),
        number + 1 < count ==> step_after(
            count,
            HandlingEnd::Middleware { number, outcome: Ok(context) },
        ) == (HandlingStep::Middleware { number: (number + 1) as usize, context }),
        number + 1 == count ==> step_after(
            count,
            HandlingEnd::Middleware { number, outcome: Ok(context) },
        ) == (HandlingStep::Handler { context }),
        step_after(count, HandlingEnd::<C>::Middleware { number, outcome: Err(error) })
            == HandlingStep::<C>::Finished(Err(error)),
        step_after(count, HandlingEnd::<C>::Handler(result)) == HandlingStep::<C>::Finished(result),
{
}

} // verus!
