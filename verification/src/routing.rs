//! Composable message routing: small routers that each turn some application
//! messages into intents of one kind, combinators that chain them, and a
//! classifier that names the router responsible for a message.
//!
//! Entity ids are the 128-bit values of their UUIDs.

use vstd::prelude::*;
use crate::text::owned;
use crate::graph_model::Position;

verus! {

/// Layout chosen for the graph view.
#[derive(Clone, Copy, Debug, PartialEq, Eq, Structural)]
pub enum LayoutType {
    Manual,
    Hierarchical,
    ForceDirected,
    Circular,
}

/// Messages of the application that routers look at.
#[derive(Clone, Debug, PartialEq)]
pub enum AppMessage {
    ConceptEntityClicked(u128),
    ConceptEntityDragged { node_id: u128, position: Position },
    ConceptRelationCreated { from: u128, to: u128 },
    GraphLayoutChanged(LayoutType),
    FilterPeopleToggled(bool),
    FilterOrgsToggled(bool),
    FilterNatsToggled(bool),
    FilterPkiToggled(bool),
    FilterYubikeyToggled(bool),
    SearchQueryChanged(String),
    SearchCleared,
    SearchResultSelected(u128),
    ExportRequested { path: String, include_keys: bool },
    ImportRequested { path: String },
    ErrorOccurred(String),
    StatusUpdated(String),
}

/// Graph interaction intents.
#[derive(Clone, Copy, Debug, PartialEq, Eq, Structural)]
pub enum GraphIntent {
    NodeClicked(u128),
    NodeDragged { node_id: u128, position: Position },
    EdgeCreated { from: u128, to: u128 },
    LayoutChanged(LayoutType),
}

/// Filter and search intents of the graph view.
#[derive(Clone, Debug, PartialEq)]
pub enum GraphFilterIntent {
    /// Show (`Some(true)`) or hide (`Some(false)`) a category; `None` leaves
    /// it as it is.
    ToggleCategoryFilter {
        people: Option<bool>,
        orgs: Option<bool>,
        nats: Option<bool>,
        pki: Option<bool>,
        yubikey: Option<bool>,
    },
    SearchQueryChanged(String),
    ClearSearch,
    SelectNode(u128),
}

/// Export and import intents.
#[derive(Clone, Debug, PartialEq)]
pub enum IoIntent {
    Export { path: String, include_keys: bool },
    Import { path: String },
}

/// System-level intents.
#[derive(Clone, Debug, PartialEq)]
pub enum SystemIntent {
    Error(String),
    Status(String),
}

/// The category of a message, which decides the router that handles it.
#[derive(Clone, Copy, Debug, PartialEq, Eq, Structural)]
pub enum MessageCategory {
    Graph,
    Filter,
    Search,
    Io,
    System,
}

/// What the graph router makes of a message.
pub open spec fn graph_intent_of(m: AppMessage) -> Option<GraphIntent> {
    match m {
        AppMessage::ConceptEntityClicked(id) => Some(GraphIntent::NodeClicked(id)),
        AppMessage::ConceptEntityDragged { node_id, position } => Some(
            GraphIntent::NodeDragged { node_id, position },
        ),
        AppMessage::ConceptRelationCreated { from, to } => Some(GraphIntent::EdgeCreated { from, to }),
        AppMessage::GraphLayoutChanged(layout) => Some(GraphIntent::LayoutChanged(layout)),
        _ => None,
    }
}

/// A category toggle that touches one category only.
pub open spec fn toggle_only(
    people: Option<bool>,
    orgs: Option<bool>,
    nats: Option<bool>,
    pki: Option<bool>,
    yubikey: Option<bool>,
) -> GraphFilterIntent {
    GraphFilterIntent::ToggleCategoryFilter { people, orgs, nats, pki, yubikey }
}

/// What the filter router makes of a message.
pub open spec fn filter_intent_of(m: AppMessage) -> Option<GraphFilterIntent> {
    match m {
        AppMessage::FilterPeopleToggled(show) => Some(toggle_only(Some(show), None, None, None, None)),
        AppMessage::FilterOrgsToggled(show) => Some(toggle_only(None, Some(show), None, None, None)),
        AppMessage::FilterNatsToggled(show) => Some(toggle_only(None, None, Some(show), None, None)),
        AppMessage::FilterPkiToggled(show) => Some(toggle_only(None, None, None, Some(show), None)),
        AppMessage::FilterYubikeyToggled(show) => Some(toggle_only(None, None, None, None, Some(show))),
        _ => None,
    }
}

/// What the search router makes of a message.
pub open spec fn search_intent_of(m: AppMessage) -> Option<GraphFilterIntent> {
    match m {
        AppMessage::SearchQueryChanged(query) => Some(GraphFilterIntent::SearchQueryChanged(query)),
        AppMessage::SearchCleared => Some(GraphFilterIntent::ClearSearch),
        AppMessage::SearchResultSelected(id) => Some(GraphFilterIntent::SelectNode(id)),
        _ => None,
    }
}

/// What the I/O router makes of a message.
pub open spec fn io_intent_of(m: AppMessage) -> Option<IoIntent> {
    match m {
        AppMessage::ExportRequested { path, include_keys } => Some(IoIntent::Export { path, include_keys }),
        AppMessage::ImportRequested { path } => Some(IoIntent::Import { path }),
        _ => None,
    }
}

/// What the system router makes of a message.
pub open spec fn system_intent_of(m: AppMessage) -> Option<SystemIntent> {
    match m {
        AppMessage::ErrorOccurred(err) => Some(SystemIntent::Error(err)),
        AppMessage::StatusUpdated(status) => Some(SystemIntent::Status(status)),
        _ => None,
    }
}

/// The category of a message.
pub open spec fn category_of(m: AppMessage) -> MessageCategory {
    match m {
        AppMessage::ConceptEntityClicked(_)
        | AppMessage::ConceptEntityDragged { .. }
        | AppMessage::ConceptRelationCreated { .. }
        | AppMessage::GraphLayoutChanged(_) => MessageCategory::Graph,
        AppMessage::FilterPeopleToggled(_)
        | AppMessage::FilterOrgsToggled(_)
        | AppMessage::FilterNatsToggled(_)
        | AppMessage::FilterPkiToggled(_)
        | AppMessage::FilterYubikeyToggled(_) => MessageCategory::Filter,
        AppMessage::SearchQueryChanged(_)
        | AppMessage::SearchCleared
        | AppMessage::SearchResultSelected(_) => MessageCategory::Search,
        AppMessage::ExportRequested { .. } | AppMessage::ImportRequested { .. } => MessageCategory::Io,
        AppMessage::ErrorOccurred(_) | AppMessage::StatusUpdated(_) => MessageCategory::System,
    }
}

/// The name of the router for a category.
pub open spec fn router_name(c: MessageCategory) -> Seq<char> {
    match c {
        MessageCategory::Graph => "GraphRouter"@,
        MessageCategory::Filter => "FilterRouter"@,
        MessageCategory::Search => "SearchRouter"@,
        MessageCategory::Io => "IoRouter"@,
        MessageCategory::System => "SystemRouter"@,
    }
}

/// A partial function from messages to intents.
pub trait MessageHandler<M, I> {
    /// Whether the handler may be asked about `message`.
    spec fn accepts(&self, message: M) -> bool;

    /// Whether `intent` is an answer the handler may give for `message`.
    spec fn answers(&self, message: M, intent: Option<I>) -> bool;

    /// Turns `message` into an intent, or `None` when it does not handle it.
    fn handle(&self, message: &M) -> (intent: Option<I>)
        requires
            self.accepts(*message),
        ensures
            self.answers(*message, intent),
    ;
}

/// A handler given by a closure.
pub struct FnHandler<F> {
    f: F,
}

impl<F> FnHandler<F> {
    /// The closure that handles messages.
    pub closed spec fn function(&self) -> F {
        self.f
    }
}

impl<M, I, F: Fn(&M) -> Option<I>> MessageHandler<M, I> for FnHandler<F> {
    open spec fn accepts(&self, message: M) -> bool {
        call_requires(self.function(), (&message,))
    }

    open spec fn answers(&self, message: M, intent: Option<I>) -> bool {
        call_ensures(self.function(), (&message,), intent)
    }

    fn handle(&self, message: &M) -> (intent: Option<I>) {
        (self.f)(message)
    }
}

/// Tries `first`, and `second` only where `first` has no answer.
pub struct OrElse<A, B> {
    pub first: A,
    pub second: B,
}

impl<M, I, A: MessageHandler<M, I>, B: MessageHandler<M, I>> MessageHandler<M, I> for OrElse<A, B> {
    open spec fn accepts(&self, message: M) -> bool {
        self.first.accepts(message) && self.second.accepts(message)
    }

    open spec fn answers(&self, message: M, intent: Option<I>) -> bool {
        ||| (intent is Some && self.first.answers(message, intent))
        ||| (self.first.answers(message, None) && self.second.answers(message, intent))
    }

    fn handle(&self, message: &M) -> (intent: Option<I>) {
        match self.first.handle(message) {
            Some(i) => Some(i),
            None => self.second.handle(message),
        }
    }
}

/// The graph router: clicks, drags, new relations and layout changes.
#[derive(Clone, Copy, Debug)]
pub struct GraphRouter;

/// The filter router: category toggles.
#[derive(Clone, Copy, Debug)]
pub struct FilterRouter;

/// The search router: query changes, clearing and selecting a result.
#[derive(Clone, Copy, Debug)]
pub struct SearchRouter;

/// The I/O router: export and import requests.
#[derive(Clone, Copy, Debug)]
pub struct IoRouter;

/// The system router: errors and status updates.
#[derive(Clone, Copy, Debug)]
pub struct SystemRouter;

impl MessageHandler<AppMessage, GraphIntent> for GraphRouter {
    open spec fn accepts(&self, message: AppMessage) -> bool {
        true
    }

    open spec fn answers(&self, message: AppMessage, intent: Option<GraphIntent>) -> bool {
        intent == graph_intent_of(message)
    }

    fn handle(&self, message: &AppMessage) -> (intent: Option<GraphIntent>) {
        match message {
            AppMessage::ConceptEntityClicked(id) => Some(GraphIntent::NodeClicked(*id)),
            AppMessage::ConceptEntityDragged { node_id, position } => Some(
                GraphIntent::NodeDragged { node_id: *node_id, position: *position },
            ),
            AppMessage::ConceptRelationCreated { from, to } => Some(
                GraphIntent::EdgeCreated { from: *from, to: *to },
            ),
            AppMessage::GraphLayoutChanged(layout) => Some(GraphIntent::LayoutChanged(*layout)),
            _ => None,
        }
    }
}

impl MessageHandler<AppMessage, GraphFilterIntent> for FilterRouter {
    open spec fn accepts(&self, message: AppMessage) -> bool {
        true
    }

    open spec fn answers(&self, message: AppMessage, intent: Option<GraphFilterIntent>) -> bool {
        intent == filter_intent_of(message)
    }

    fn handle(&self, message: &AppMessage) -> (intent: Option<GraphFilterIntent>) {
        match message {
            AppMessage::FilterPeopleToggled(show) => Some(
                GraphFilterIntent::ToggleCategoryFilter {
                    people: Some(*show),
                    orgs: None,
                    nats: None,
                    pki: None,
                    yubikey: None,
                },
            ),
            AppMessage::FilterOrgsToggled(show) => Some(
                GraphFilterIntent::ToggleCategoryFilter {
                    people: None,
                    orgs: Some(*show),
                    nats: None,
                    pki: None,
                    yubikey: None,
                },
            ),
            AppMessage::FilterNatsToggled(show) => Some(
                GraphFilterIntent::ToggleCategoryFilter {
                    people: None,
                    orgs: None,
                    nats: Some(*show),
                    pki: None,
                    yubikey: None,
                },
            ),
            AppMessage::FilterPkiToggled(show) => Some(
                GraphFilterIntent::ToggleCategoryFilter {
                    people: None,
                    orgs: None,
                    nats: None,
                    pki: Some(*show),
                    yubikey: None,
                },
            ),
            AppMessage::FilterYubikeyToggled(show) => Some(
                GraphFilterIntent::ToggleCategoryFilter {
                    people: None,
                    orgs: None,
                    nats: None,
                    pki: None,
                    yubikey: Some(*show),
                },
            ),
            _ => None,
        }
    }
}

impl MessageHandler<AppMessage, GraphFilterIntent> for SearchRouter {
    open spec fn accepts(&self, message: AppMessage) -> bool {
        true
    }

    open spec fn answers(&self, message: AppMessage, intent: Option<GraphFilterIntent>) -> bool {
        intent == search_intent_of(message)
    }

    fn handle(&self, message: &AppMessage) -> (intent: Option<GraphFilterIntent>) {
        match message {
            AppMessage::SearchQueryChanged(query) => Some(
                GraphFilterIntent::SearchQueryChanged(query.clone()),
            ),
            AppMessage::SearchCleared => Some(GraphFilterIntent::ClearSearch),
            AppMessage::SearchResultSelected(id) => Some(GraphFilterIntent::SelectNode(*id)),
            _ => None,
        }
    }
}

impl MessageHandler<AppMessage, IoIntent> for IoRouter {
    open spec fn accepts(&self, message: AppMessage) -> bool {
        true
    }

    open spec fn answers(&self, message: AppMessage, intent: Option<IoIntent>) -> bool {
        intent == io_intent_of(message)
    }

    fn handle(&self, message: &AppMessage) -> (intent: Option<IoIntent>) {
        match message {
            AppMessage::ExportRequested { path, include_keys } => Some(
                IoIntent::Export { path: path.clone(), include_keys: *include_keys },
            ),
            AppMessage::ImportRequested { path } => Some(IoIntent::Import { path: path.clone() }),
            _ => None,
        }
    }
}

impl MessageHandler<AppMessage, SystemIntent> for SystemRouter {
    open spec fn accepts(&self, message: AppMessage) -> bool {
        true
    }

    open spec fn answers(&self, message: AppMessage, intent: Option<SystemIntent>) -> bool {
        intent == system_intent_of(message)
    }

    fn handle(&self, message: &AppMessage) -> (intent: Option<SystemIntent>) {
        match message {
            AppMessage::ErrorOccurred(err) => Some(SystemIntent::Error(err.clone())),
            AppMessage::StatusUpdated(status) => Some(SystemIntent::Status(status.clone())),
            _ => None,
        }
    }
}

/// A route: a handler that turns some messages into intents.
pub struct Route<H> {
    handler: H,
}

impl<H> Route<H> {
    /// The handler behind the route.
    pub closed spec fn handler(&self) -> H {
        self.handler
    }

    /// Routes a message: the intent the handler gives for it, if any.
    pub fn route<M, I>(&self, message: &M) -> (intent: Option<I>) where H: MessageHandler<M, I>
        requires
            self.handler().accepts(*message),
        ensures
            self.handler().answers(*message, intent),
    {
        self.handler.handle(message)
    }

    /// This route, then `other` for the messages this route does not handle.
    pub fn or_else<M, I, F>(self, other: F) -> (r: Route<OrElse<H, FnHandler<F>>>) where
        H: MessageHandler<M, I>,
        F: Fn(&M) -> Option<I>,

        ensures
            r.handler().first == self.handler(),
            r.handler().second.function() == other,
    {
        Route { handler: OrElse { first: self.handler, second: FnHandler { f: other } } }
    }
}

impl<F> Route<FnHandler<F>> {
    /// A route that asks the closure `handler`.
    pub fn new<M, I>(handler: F) -> (r: Self) where F: Fn(&M) -> Option<I>
        ensures
            r.handler().function() == handler,
    {
        Route { handler: FnHandler { f: handler } }
    }
}

/// The route of graph interaction messages.
pub fn graph_router() -> (r: Route<GraphRouter>)
    ensures
        r.handler() == GraphRouter,
{
    Route { handler: GraphRouter }
}

/// The route of category filter messages.
pub fn filter_router() -> (r: Route<FilterRouter>)
    ensures
        r.handler() == FilterRouter,
{
    Route { handler: FilterRouter }
}

/// The route of search messages.
pub fn search_router() -> (r: Route<SearchRouter>)
    ensures
        r.handler() == SearchRouter,
{
    Route { handler: SearchRouter }
}

/// The route of export and import messages.
pub fn io_router() -> (r: Route<IoRouter>)
    ensures
        r.handler() == IoRouter,
{
    Route { handler: IoRouter }
}

/// The route of system messages.
pub fn system_router() -> (r: Route<SystemRouter>)
    ensures
        r.handler() == SystemRouter,
{
    Route { handler: SystemRouter }
}

/// Combines two routes to the same intents: the first that handles a
/// message answers it.
pub fn compose_routes<A, B>(first: Route<A>, second: Route<B>) -> (r: Route<OrElse<A, B>>)
    ensures
        r.handler().first == first.handler(),
        r.handler().second == second.handler(),
{
    Route { handler: OrElse { first: first.handler, second: second.handler } }
}

/// The intents present in `answers`, in order.
pub open spec fn present<I>(answers: Seq<Option<I>>) -> Seq<I>
    decreases answers.len(),
{
    if answers.len() == 0 {
        Seq::empty()
    } else {
        let rest = present(answers.drop_last());
        match answers.last() {
            Some(i) => rest.push(i),
            None => rest,
        }
    }
}

/// Asks every route about `message` and collects, in order, the intents of
/// those that handle it.
pub fn parallel_route<M, I, H: MessageHandler<M, I>>(message: &M, routers: Vec<Box<Route<H>>>) -> (r: Vec<I>)
    requires
        forall|k: int| 0 <= k < routers.len() ==> (#[trigger] routers[k]).handler().accepts(*message),
    ensures
        exists|answers: Seq<Option<I>>|
            {
                &&& answers.len() == routers.len()
                &&& forall|k: int|
                    0 <= k < routers.len() ==> (#[trigger] routers[k]).handler().answers(
                        *message,
                        answers[k],
                    )
                &&& r@ == present(answers)
            },
{
    let mut out: Vec<I> = Vec::new();
    let ghost mut answers: Seq<Option<I>> = Seq::empty();
    let mut k: usize = 0;
    while k < routers.len()
        invariant
            k <= routers.len(),
            answers.len() == k,
            forall|j: int| 0 <= j < routers.len() ==> (#[trigger] routers[j]).handler().accepts(*message),
            forall|j: int| 0 <= j < k ==> (#[trigger] routers[j]).handler().answers(*message, answers[j]),
            out@ == present(answers),
        decreases routers.len() - k,
    {
        let a = routers[k].route(message);
        proof {
            assert(answers.push(a).drop_last() =~= answers);
            answers = answers.push(a);
        }
        match a {
            Some(i) => out.push(i),
            None => {},
        }
        k = k + 1;
    }
    out
}

/// A source of labels for one message, used for cross-cutting concerns such
/// as logging.
pub trait LabelSource<M>: Sized {
    /// Whether the source may be asked about `message`.
    spec fn accepts(&self, message: M) -> bool;

    /// Whether `labels` is an answer the source may give for `message`.
    spec fn answers(&self, message: M, labels: Seq<String>) -> bool;

    /// The number of sources behind this one.
    spec fn source_count(&self) -> nat;

    /// Whether `labels` is an answer that source `k` may give for
    /// `message`.
    spec fn source_answers(&self, k: int, message: M, labels: Seq<String>) -> bool;

    /// The labels for `message`.
    fn labels(&self, message: &M) -> (labels: Vec<String>)
        requires
            self.accepts(*message),
        ensures
            self.answers(*message, labels@),
    ;

    /// An answer is what the sources answer, one after the other.
    proof fn lemma_answers_by_source(&self, message: M, labels: Seq<String>)
        ensures
            self.answers(message, labels) <==> exists|parts: Seq<Seq<String>>|
                {
                    &&& parts.len() == self.source_count()
                    &&& forall|k: int| 0 <= k < parts.len() ==> self.source_answers(k, message, #[trigger] parts[k])
                    &&& labels == #[trigger] flatten(parts)
                },
    ;
}

/// The lists of `parts`, one after the other.
pub open spec fn flatten(parts: Seq<Seq<String>>) -> Seq<String>
    decreases parts.len(),
{
    if parts.len() == 0 {
        Seq::empty()
    } else {
        flatten(parts.drop_last()) + parts.last()
    }
}

/// Whether `parts` holds one answer of each source of `r` for `message`,
/// in the order the sources were added.
pub open spec fn from_each<M, R: LabelSource<M>>(r: R, message: M, parts: Seq<Seq<String>>) -> bool {
    &&& parts.len() == r.source_count()
    &&& forall|k: int| 0 <= k < parts.len() ==> r.source_answers(k, message, #[trigger] parts[k])
}

/// No label source at all.
#[derive(Clone, Copy, Debug)]
pub struct NoRouters;

/// The sources of `rest`, then one more closure.
pub struct Chain<R, F> {
    rest: R,
    last: F,
}

impl<R, F> Chain<R, F> {
    /// The sources added before the last one.
    pub closed spec fn rest(&self) -> R {
        self.rest
    }

    /// The source added last.
    pub closed spec fn last(&self) -> F {
        self.last
    }
}

impl<M> LabelSource<M> for NoRouters {
    open spec fn accepts(&self, message: M) -> bool {
        true
    }

    open spec fn answers(&self, message: M, labels: Seq<String>) -> bool {
        labels == Seq::<String>::empty()
    }

    open spec fn source_count(&self) -> nat {
        0
    }

    open spec fn source_answers(&self, k: int, message: M, labels: Seq<String>) -> bool {
        false
    }

    fn labels(&self, message: &M) -> (labels: Vec<String>) {
        Vec::new()
    }

    proof fn lemma_answers_by_source(&self, message: M, labels: Seq<String>) {
        let none = Seq::<Seq<String>>::empty();
        if labels == Seq::<String>::empty() {
            assert(labels == flatten(none));
        }
    }
}

impl<M, R: LabelSource<M>, F: Fn(&M) -> Vec<String>> LabelSource<M> for Chain<R, F> {
    open spec fn accepts(&self, message: M) -> bool {
        self.rest().accepts(message) && call_requires(self.last(), (&message,))
    }

    open spec fn answers(&self, message: M, labels: Seq<String>) -> bool {
        exists|front: Seq<String>, back: Vec<String>|
            {
                &&& self.rest().answers(message, front)
                &&& call_ensures(self.last(), (&message,), back)
                &&& labels == front + back@
            }
    }

    open spec fn source_count(&self) -> nat {
        self.rest().source_count() + 1
    }

    open spec fn source_answers(&self, k: int, message: M, labels: Seq<String>) -> bool {
        if k < self.rest().source_count() {
            self.rest().source_answers(k, message, labels)
        } else {
            k == self.rest().source_count() && exists|v: Vec<String>|
                #[trigger] call_ensures(self.last(), (&message,), v) && v@ == labels
        }
    }

    proof fn lemma_answers_by_source(&self, message: M, labels: Seq<String>) {
        let n = self.rest().source_count() as int;
        if self.answers(message, labels) {
            let (front, back) = choose|front: Seq<String>, back: Vec<String>|
                {
                    &&& self.rest().answers(message, front)
                    &&& call_ensures(self.last(), (&message,), back)
                    &&& labels == front + back@
                };
            self.rest().lemma_answers_by_source(message, front);
            let pr = choose|pr: Seq<Seq<String>>|
                {
                    &&& pr.len() == self.rest().source_count()
                    &&& forall|k: int| 0 <= k < pr.len() ==> self.rest().source_answers(k, message, #[trigger] pr[k])
                    &&& front == #[trigger] flatten(pr)
                };
            let parts = pr.push(back@);
            assert(parts.drop_last() =~= pr);
            assert forall|k: int| 0 <= k < parts.len() implies self.source_answers(k, message, #[trigger] parts[k]) by {
                if k < n {
                    assert(parts[k] == pr[k]);
                } else {
                    assert(call_ensures(self.last(), (&message,), back) && back@ == parts[k]);
                }
            }
            assert(labels == flatten(parts));
        }
        if exists|parts: Seq<Seq<String>>|
            {
                &&& parts.len() == self.source_count()
                &&& forall|k: int| 0 <= k < parts.len() ==> self.source_answers(k, message, #[trigger] parts[k])
                &&& labels == #[trigger] flatten(parts)
            } {
            let parts = choose|parts: Seq<Seq<String>>|
                {
                    &&& parts.len() == self.source_count()
                    &&& forall|k: int| 0 <= k < parts.len() ==> self.source_answers(k, message, #[trigger] parts[k])
                    &&& labels == #[trigger] flatten(parts)
                };
            let pr = parts.drop_last();
            assert forall|k: int| 0 <= k < pr.len() implies self.rest().source_answers(k, message, #[trigger] pr[k]) by {
                assert(pr[k] == parts[k]);
                assert(self.source_answers(k, message, parts[k]));
            }
            self.rest().lemma_answers_by_source(message, flatten(pr));
            assert(self.source_answers(n, message, parts[n]));
            let v = choose|v: Vec<String>| #[trigger] call_ensures(self.last(), (&message,), v) && v@ == parts[n];
            assert(parts.last() == parts[n]);
            assert(labels == flatten(pr) + v@);
        }
    }

    fn labels(&self, message: &M) -> (labels: Vec<String>) {
        let mut front = self.rest.labels(message);
        let ghost front_seq = front@;
        let mut back = (self.last)(message);
        let ghost back_vec = back;
        front.append(&mut back);
        assert(self.rest().answers(*message, front_seq) && call_ensures(
            self.last(),
            (message,),
            back_vec,
        ) && front@ == front_seq + back_vec@);
        front
    }
}

/// Sends a message to several label sources and gathers what they return.
pub struct Fanout<R> {
    routers: R,
}

impl<R> Fanout<R> {
    /// The label sources, in the order they were added.
    pub closed spec fn routers(&self) -> R {
        self.routers
    }

    /// Adds a label source after the present ones.
    pub fn add_router<F>(self, router: F) -> (r: Fanout<Chain<R, F>>)
        ensures
            r.routers().rest() == self.routers(),
            r.routers().last() == router,
    {
        Fanout { routers: Chain { rest: self.routers, last: router } }
    }

    /// The labels of every source for `message`, source by source.
    pub fn route<M>(&self, message: &M) -> (labels: Vec<String>) where R: LabelSource<M>
        requires
            self.routers().accepts(*message),
        ensures
            self.routers().answers(*message, labels@),
    {
        self.routers.labels(message)
    }
}

/// A fanout answers with what each of its sources answers, one after the
/// other in the order the sources were added; one without sources answers
/// with no labels.
pub proof fn lemma_fanout_concatenates<M, R: LabelSource<M>>(f: Fanout<R>, message: M, labels: Seq<String>)
    ensures
        f.routers().answers(message, labels) <==> exists|parts: Seq<Seq<String>>|
            #[trigger] from_each(f.routers(), message, parts) && labels == flatten(parts),
{
    let r = f.routers();
    r.lemma_answers_by_source(message, labels);
    if r.answers(message, labels) {
        let parts = choose|parts: Seq<Seq<String>>|
            {
                &&& parts.len() == r.source_count()
                &&& forall|k: int| 0 <= k < parts.len() ==> r.source_answers(k, message, #[trigger] parts[k])
                &&& labels == #[trigger] flatten(parts)
            };
        assert(from_each(r, message, parts));
    }
    if exists|parts: Seq<Seq<String>>| #[trigger] from_each(r, message, parts) && labels == flatten(parts) {
        let parts = choose|parts: Seq<Seq<String>>| #[trigger] from_each(r, message, parts) && labels == flatten(parts);
        assert(labels == flatten(parts));
    }
}

impl Fanout<NoRouters> {
    /// A fanout without sources.
    pub fn new() -> (r: Self)
        ensures
            r.routers() == NoRouters,
    {
        Fanout { routers: NoRouters }
    }
}

/// Classifies messages and names the router for each category.
pub struct IntentClassifier {
    pub name: String,
}

impl IntentClassifier {
    /// A classifier called `name`.
    pub fn new(name: &str) -> (r: Self)
        ensures
            r.name@ == name@,
    {
        IntentClassifier { name: owned(name) }
    }

    /// The category of `message`.
    pub fn classify(&self, message: &AppMessage) -> (c: MessageCategory)
        ensures
            c == category_of(*message),
    {
        match message {
            AppMessage::ConceptEntityClicked(_)
            | AppMessage::ConceptEntityDragged { .. }
            | AppMessage::ConceptRelationCreated { .. }
            | AppMessage::GraphLayoutChanged(_) => MessageCategory::Graph,
            AppMessage::FilterPeopleToggled(_)
            | AppMessage::FilterOrgsToggled(_)
            | AppMessage::FilterNatsToggled(_)
            | AppMessage::FilterPkiToggled(_)
            | AppMessage::FilterYubikeyToggled(_) => MessageCategory::Filter,
            AppMessage::SearchQueryChanged(_)
            | AppMessage::SearchCleared
            | AppMessage::SearchResultSelected(_) => MessageCategory::Search,
            AppMessage::ExportRequested { .. } | AppMessage::ImportRequested { .. } => MessageCategory::Io,
            AppMessage::ErrorOccurred(_) | AppMessage::StatusUpdated(_) => MessageCategory::System,
        }
    }

    /// The name of the router that handles `category`.
    pub fn route_by_category(&self, category: MessageCategory) -> (r: String)
        ensures
            r@ == router_name(category),
    {
        match category {
            MessageCategory::Graph => owned("GraphRouter"),
            MessageCategory::Filter => owned("FilterRouter"),
            MessageCategory::Search => owned("SearchRouter"),
            MessageCategory::Io => owned("IoRouter"),
            MessageCategory::System => owned("SystemRouter"),
        }
    }
}

/// Each message belongs to exactly the router its category names: the
/// router of its category gives it an intent, and no other router does.
pub proof fn lemma_category_picks_the_router(m: AppMessage)
    ensures
        (category_of(m) == MessageCategory::Graph) == (graph_intent_of(m) is Some),
        (category_of(m) == MessageCategory::Filter) == (filter_intent_of(m) is Some),
        (category_of(m) == MessageCategory::Search) == (search_intent_of(m) is Some),
        (category_of(m) == MessageCategory::Io) == (io_intent_of(m) is Some),
        (category_of(m) == MessageCategory::System) == (system_intent_of(m) is Some),
{
}

/// Composing two routes whose handlers are exact gives, for every message,
/// the first one's intent when it has one and the second one's otherwise.
pub proof fn lemma_composed_route_prefers_first<M, I, A: MessageHandler<M, I>, B: MessageHandler<M, I>>(
    first: Route<A>,
    second: Route<B>,
    composed: Route<OrElse<A, B>>,
    message: M,
    from_first: Option<I>,
    from_second: Option<I>,
    intent: Option<I>,
)
    requires
        composed.handler().first == first.handler(),
        composed.handler().second == second.handler(),
        forall|x: Option<I>| first.handler().answers(message, x) <==> x == from_first,
        forall|x: Option<I>| second.handler().answers(message, x) <==> x == from_second,
        composed.handler().answers(message, intent),
    ensures
        intent == (if from_first is Some { from_first } else { from_second }),
{
}

/// Composition of routes: the composed route may be asked what both routes
/// may be asked, and answers a message with the first route's intent where
/// that route has one, and otherwise with the second route's answer.
pub proof fn lemma_compose_routes<M, I, A: MessageHandler<M, I>, B: MessageHandler<M, I>>(
    first: Route<A>,
    second: Route<B>,
    composed: Route<OrElse<A, B>>,
    message: M,
    intent: Option<I>,
)
    requires
        composed.handler().first == first.handler(),
        composed.handler().second == second.handler(),
    ensures
        composed.handler().accepts(message) == (first.handler().accepts(message) && second.handler().accepts(
            message,
        )),
        composed.handler().answers(message, intent) <==> {
            ||| (intent is Some && first.handler().answers(message, intent))
            ||| (first.handler().answers(message, None) && second.handler().answers(message, intent))
        },
{
}

/// A route with a fallback closure: it answers a message with the route's
/// own intent where the route has one, and otherwise with what the closure
/// returns for the message.
pub proof fn lemma_or_else<M, I, H: MessageHandler<M, I>, F: Fn(&M) -> Option<I>>(
    route: Route<H>,
    other: F,
    combined: Route<OrElse<H, FnHandler<F>>>,
    message: M,
    intent: Option<I>,
)
    requires
        combined.handler().first == route.handler(),
        combined.handler().second.function() == other,
    ensures
        combined.handler().accepts(message) == (route.handler().accepts(message) && call_requires(
            other,
            (&message,),
        )),
        combined.handler().answers(message, intent) <==> {
            ||| (intent is Some && route.handler().answers(message, intent))
            ||| (route.handler().answers(message, None) && call_ensures(other, (&message,), intent))
        },
{
}

/// The filter route composed with the search route answers every message
/// with the filter intent where there is one, and otherwise with the search
/// intent.
pub proof fn lemma_filter_then_search(m: AppMessage, intent: Option<GraphFilterIntent>)
    ensures
        (OrElse { first: FilterRouter, second: SearchRouter }).answers(m, intent) <==> intent == (if filter_intent_of(
            m,
        ) is Some {
            filter_intent_of(m)
        } else {
            search_intent_of(m)
        }),
{
}

/// A category toggle carries the visibility asked for, unchanged, in the
/// field of its own category and in no other: the filter route answers
/// each toggle with exactly that intent.
pub proof fn lemma_filter_toggles_carry_visibility(show: bool, intent: Option<GraphFilterIntent>)
    ensures
        FilterRouter.answers(AppMessage::FilterPeopleToggled(show), intent) <==> intent == Some(
            GraphFilterIntent::ToggleCategoryFilter { people: Some(show), orgs: None, nats: None, pki: None, yubikey: None },
        ),
        FilterRouter.answers(AppMessage::FilterOrgsToggled(show), intent) <==> intent == Some(
            GraphFilterIntent::ToggleCategoryFilter { people: None, orgs: Some(show), nats: None, pki: None, yubikey: None },
        ),
        FilterRouter.answers(AppMessage::FilterNatsToggled(show), intent) <==> intent == Some(
            GraphFilterIntent::ToggleCategoryFilter { people: None, orgs: None, nats: Some(show), pki: None, yubikey: None },
        ),
        FilterRouter.answers(AppMessage::FilterPkiToggled(show), intent) <==> intent == Some(
            GraphFilterIntent::ToggleCategoryFilter { people: None, orgs: None, nats: None, pki: Some(show), yubikey: None },
        ),
        FilterRouter.answers(AppMessage::FilterYubikeyToggled(show), intent) <==> intent == Some(
            GraphFilterIntent::ToggleCategoryFilter { people: None, orgs: None, nats: None, pki: None, yubikey: Some(show) },
        ),
{
}

/// Each routed message keeps its content: the graph route turns a click,
/// a drag, a new relation and a layout change into the intent of the same
/// kind with the same node, position, ends or layout; the search route
/// turns a query into the same query, clearing into clearing the search
/// and a chosen result into selecting that node; the I/O route keeps the
/// path and whether keys are included; the system route keeps the error or
/// status text.
pub proof fn lemma_routes_keep_content(
    id: u128,
    p: Position,
    to: u128,
    layout: LayoutType,
    text: String,
    flag: bool,
    g: Option<GraphIntent>,
    f: Option<GraphFilterIntent>,
    io: Option<IoIntent>,
    sys: Option<SystemIntent>,
)
    ensures
        GraphRouter.answers(AppMessage::ConceptEntityClicked(id), g) <==> g == Some(GraphIntent::NodeClicked(id)),
        GraphRouter.answers(AppMessage::ConceptEntityDragged { node_id: id, position: p }, g) <==> g == Some(
            GraphIntent::NodeDragged { node_id: id, position: p },
        ),
        GraphRouter.answers(AppMessage::ConceptRelationCreated { from: id, to }, g) <==> g == Some(
            GraphIntent::EdgeCreated { from: id, to },
        ),
        GraphRouter.answers(AppMessage::GraphLayoutChanged(layout), g) <==> g == Some(GraphIntent::LayoutChanged(layout)),
        SearchRouter.answers(AppMessage::SearchQueryChanged(text), f) <==> f == Some(
            GraphFilterIntent::SearchQueryChanged(text),
        ),
        SearchRouter.answers(AppMessage::SearchCleared, f) <==> f == Some(GraphFilterIntent::ClearSearch),
        SearchRouter.answers(AppMessage::SearchResultSelected(id), f) <==> f == Some(GraphFilterIntent::SelectNode(id)),
        IoRouter.answers(AppMessage::ExportRequested { path: text, include_keys: flag }, io) <==> io == Some(
            IoIntent::Export { path: text, include_keys: flag },
        ),
        IoRouter.answers(AppMessage::ImportRequested { path: text }, io) <==> io == Some(IoIntent::Import { path: text }),
        SystemRouter.answers(AppMessage::ErrorOccurred(text), sys) <==> sys == Some(SystemIntent::Error(text)),
        SystemRouter.answers(AppMessage::StatusUpdated(text), sys) <==> sys == Some(SystemIntent::Status(text)),
{
}

/// The filter and search routers never both handle a message, so their
/// composition answers exactly what either of them answers.
pub proof fn lemma_filter_and_search_are_disjoint(m: AppMessage)
    ensures
        filter_intent_of(m) is None || search_intent_of(m) is None,
        (filter_intent_of(m) is Some || search_intent_of(m) is Some) == (category_of(m)
            == MessageCategory::Filter || category_of(m) == MessageCategory::Search),
{
}

} // verus!
