//! The service: its two handlers, and the application that is assembled from
//! routes, the API document and the documentation UI.
//!
//! The application decides what a request is answered with. It owns no socket:
//! whoever listens hands it the method and the path of a request and sends
//! what it returns.

use crate::error::{error_message, DomainError, ErrorView};
use crate::host::{get_host_info, host_info_of, FactsView, HostFacts};
use crate::json::{
    decimal, error_body, error_json, host_info_json, joined, json_string, member,
};
use crate::openapi::{
    document_json, document_of, document_wf, documents, entry_index, entry_matches, entry_schema,
    has_entry, lemma_document_describes_routes, lemma_one_entry_per_route, ApiInfo, DocumentView,
    InfoView, OpenApiDocument,
};
use crate::registry::SchemaRegistry;
use crate::route::{Method, RouteDescriptor, RouteView};
use crate::schema::{
    declare, has_name, is_object_of, is_value_of, values_fit, FieldView, PrimitiveType,
    ResponseSchema, SchemaView,
};
use crate::ui::{
    is_under, lemma_plain_text_unchanged, page_head, page_tail, ui_page, UiMount, UiView,
};
use crate::url::{directories, lemma_segments_of_joined, merged, normalized, resolved};
use vstd::prelude::*;
use vstd::string::StringExecFns;
use vstd::utf8::valid_utf8;

verus! {

/// The handlers of the service.
#[derive(Clone, Copy, Debug, PartialEq, Eq, Structural)]
pub enum Handler {
    /// Answers with a constant greeting.
    Index,
    /// Answers with information about the host.
    HostInfo,
}

/// The media type of a response body.
#[derive(Clone, Copy, Debug, PartialEq, Eq, Structural)]
pub enum ContentType {
    PlainText,
    Json,
    Html,
}

/// The media type as it is written in a `Content-Type` header.
pub open spec fn content_type_name(content_type: ContentType) -> Seq<char> {
    match content_type {
        ContentType::PlainText => "text/plain"@,
        ContentType::Json => "application/json"@,
        ContentType::Html => "text/html"@,
    }
}

impl ContentType {
    /// The media type as it is written in a `Content-Type` header.
    pub fn name(&self) -> (r: &'static str)
        ensures
            r@ == content_type_name(*self),
    {
        match self {
            ContentType::PlainText => "text/plain",
            ContentType::Json => "application/json",
            ContentType::Html => "text/html",
        }
    }
}

/// What a request is answered with.
#[derive(Debug, PartialEq, Eq)]
pub struct Response {
    /// The HTTP status code.
    pub status: u16,
    pub content_type: ContentType,
    /// The body, as UTF-8 text.
    pub body: String,
}

/// A response as a mathematical value.
pub struct ResponseView {
    pub status: u16,
    pub content_type: ContentType,
    pub body: Seq<char>,
}

impl View for Response {
    type V = ResponseView;

    open spec fn view(&self) -> ResponseView {
        ResponseView { status: self.status, content_type: self.content_type, body: self.body@ }
    }
}

impl Clone for Response {
    fn clone(&self) -> (r: Response)
        ensures
            r@ == self@,
    {
        Response { status: self.status, content_type: self.content_type, body: self.body.clone() }
    }
}

/// The greeting.
pub open spec fn greeting() -> Seq<char> {
    "Hello, World!"@
}

/// What the index handler answers: always the greeting.
pub open spec fn index_response() -> ResponseView {
    ResponseView { status: 200, content_type: ContentType::PlainText, body: greeting() }
}

/// What the host information handler answers for the given facts: the payload
/// as JSON, or status 500 with the message of the error.
pub open spec fn hostinfo_response(facts: FactsView) -> ResponseView {
    match host_info_of(facts) {
        Ok(info) => ResponseView {
            status: 200,
            content_type: ContentType::Json,
            body: host_info_json(info.hostname, info.pid, info.uptime),
        },
        Err(e) => ResponseView {
            status: 500,
            content_type: ContentType::Json,
            body: error_json(error_message(e)),
        },
    }
}

/// The index handler. It answers every request with the greeting.
pub fn index() -> (r: Response)
    ensures
        r@ == index_response(),
{
    Response {
        status: 200,
        content_type: ContentType::PlainText,
        body: String::from_str("Hello, World!"),
    }
}

/// The host information handler. A failure of the provider is reported to the
/// client and goes no further.
pub fn hostinfo(facts: HostFacts) -> (r: Response)
    ensures
        r@ == hostinfo_response(facts@),
{
    match get_host_info(facts) {
        Ok(info) => Response { status: 200, content_type: ContentType::Json, body: info.to_json() },
        Err(e) => Response {
            status: 500,
            content_type: ContentType::Json,
            body: error_body(e.message().as_str()),
        },
    }
}

/// The shape of the payload of `/hostinfo`.
pub open spec fn host_info_fields() -> Seq<FieldView> {
    seq![
        FieldView { name: "hostname"@, kind: PrimitiveType::Text },
        FieldView { name: "pid"@, kind: PrimitiveType::UInt32 },
        FieldView { name: "uptime"@, kind: PrimitiveType::UInt64 },
    ]
}

/// The response shape that a handler declares.
pub open spec fn handler_schema(handler: Handler) -> SchemaView {
    match handler {
        Handler::Index => SchemaView::Scalar(PrimitiveType::Text),
        Handler::HostInfo => SchemaView::Object(host_info_fields()),
    }
}

/// Whether a response has the declared shape: a scalar is served as plain
/// text, and the body is the text itself or the value as it is written; an
/// object is served as JSON, with exactly the declared fields.
pub open spec fn follows_schema(shape: SchemaView, response: ResponseView) -> bool {
    match shape {
        SchemaView::Scalar(PrimitiveType::Text) => response.content_type == ContentType::PlainText,
        SchemaView::Scalar(kind) => response.content_type == ContentType::PlainText
            && is_value_of(kind, response.body),
        SchemaView::Object(fields) => response.content_type == ContentType::Json
            && is_object_of(fields, response.body),
    }
}

/// What a handler answers for the given facts.
pub open spec fn handler_response(handler: Handler, facts: FactsView) -> ResponseView {
    match handler {
        Handler::Index => index_response(),
        Handler::HostInfo => hostinfo_response(facts),
    }
}

/// No handler answers with a payload that violates the shape it declares:
/// every successful response has the declared shape.
pub proof fn lemma_responses_follow_schema(handler: Handler, facts: FactsView)
    ensures
        handler_response(handler, facts).status == 200 ==> follows_schema(
            handler_schema(handler),
            handler_response(handler, facts),
        ),
{
    if handler == Handler::HostInfo && host_info_of(facts) is Ok {
        let info = host_info_of(facts)->Ok_0;
        let fields = host_info_fields();
        let values = seq![
            json_string(info.hostname),
            decimal(info.pid as nat),
            decimal(info.uptime as nat),
        ];
        assert(values_fit(fields, values));
        assert(Seq::new(fields.len(), |i: int| member(fields[i].name, values[i])) =~= seq![
            member("hostname"@, json_string(info.hostname)),
            member("pid"@, decimal(info.pid as nat)),
            member("uptime"@, decimal(info.uptime as nat)),
        ]);
    }
}

/// The summary that a handler declares.
pub open spec fn handler_summary(handler: Handler) -> Seq<char> {
    match handler {
        Handler::Index => "Returns a greeting"@,
        Handler::HostInfo => "Returns information about the host serving this page"@,
    }
}

/// The descriptor of `handler` mounted at `path`: the handlers answer `GET`.
pub open spec fn handler_route(handler: Handler, path: Seq<char>) -> RouteView {
    RouteView {
        path: path,
        method: Method::Get,
        summary: Some(handler_summary(handler)),
        schema: handler_schema(handler),
    }
}

impl Handler {
    /// The response shape that the handler declares.
    pub fn response_schema(&self) -> (r: ResponseSchema)
        ensures
            r@ == handler_schema(*self),
    {
        match self {
            Handler::Index => ResponseSchema::scalar(PrimitiveType::Text),
            Handler::HostInfo => {
                let shape = ResponseSchema::object().with_field(
                    String::from_str("hostname"),
                    PrimitiveType::Text,
                ).with_field(String::from_str("pid"), PrimitiveType::UInt32).with_field(
                    String::from_str("uptime"),
                    PrimitiveType::UInt64,
                );
                proof {
                    reveal_strlit("hostname");
                    reveal_strlit("pid");
                    reveal_strlit("uptime");
                    let h = FieldView { name: "hostname"@, kind: PrimitiveType::Text };
                    let p = FieldView { name: "pid"@, kind: PrimitiveType::UInt32 };
                    let u = FieldView { name: "uptime"@, kind: PrimitiveType::UInt64 };
                    let one = declare(Seq::empty(), h);
                    assert(!has_name(one, p.name)) by {
                        assert(h.name.len() != p.name.len());
                    }
                    let two = declare(one, p);
                    assert(declare(two, u) =~= host_info_fields());
                }
                shape
            },
        }
    }

    /// The summary that the handler declares.
    pub fn summary(&self) -> (r: &'static str)
        ensures
            r@ == handler_summary(*self),
    {
        match self {
            Handler::Index => "Returns a greeting",
            Handler::HostInfo => "Returns information about the host serving this page",
        }
    }
}

/// A mounted route as a mathematical value: the handler and its descriptor.
pub struct RouteBinding {
    pub handler: Handler,
    pub route: RouteView,
}

/// A handler, mounted at a path, with the descriptor that documents it.
pub struct Route {
    handler: Handler,
    descriptor: RouteDescriptor,
}

impl View for Route {
    type V = RouteBinding;

    closed spec fn view(&self) -> RouteBinding {
        RouteBinding { handler: self.handler, route: self.descriptor@ }
    }
}

impl Route {
    #[verifier::type_invariant]
    spec fn inv(&self) -> bool {
        self.descriptor@ == handler_route(self.handler, self.descriptor@.path)
    }

    /// Mounts `handler` at `path`. The descriptor is the handler's own: a route
    /// cannot be documented with a shape that its handler does not answer with.
    pub fn new(handler: Handler, path: String) -> (r: Route)
        ensures
            r@ == (RouteBinding { handler: handler, route: handler_route(handler, path@) }),
    {
        let descriptor = RouteDescriptor::new(
            path,
            Method::Get,
            handler.response_schema(),
        ).with_summary(String::from_str(handler.summary()));
        Route { handler, descriptor }
    }

    /// The handler of the route.
    pub fn handler(&self) -> (r: Handler)
        ensures
            r == self@.handler,
    {
        self.handler
    }

    /// The descriptor of the route.
    pub fn descriptor(&self) -> (r: &RouteDescriptor)
        ensures
            r@ == self@.route,
            r@ == handler_route(self@.handler, self@.route.path),
    {
        proof {
            use_type_invariant(self);
        }
        &self.descriptor
    }
}

/// The bindings of `routes`, in the same order.
pub open spec fn bindings(routes: Seq<Route>) -> Seq<RouteBinding> {
    routes.map_values(|r: Route| r@)
}

/// The descriptors of `routes`, in the same order.
pub open spec fn descriptors_of(routes: Seq<RouteBinding>) -> Seq<RouteView> {
    routes.map_values(|b: RouteBinding| b.route)
}

/// The path at which the API document is served.
pub open spec fn document_path() -> Seq<char> {
    "/openapi.json"@
}

/// The path under which the documentation UI is served.
pub open spec fn ui_base_path() -> Seq<char> {
    "/swagger_ui/"@
}

/// The URL, relative to the UI, from which the UI loads the API document.
pub open spec fn document_url() -> Seq<char> {
    "../openapi.json"@
}

/// An application as a mathematical value.
pub struct ApplicationView {
    /// The mounted routes, in mounting order.
    pub routes: Seq<RouteBinding>,
    /// The API document.
    pub document: DocumentView,
    /// The documentation UI.
    pub ui: UiView,
}

/// What holds of every assembled application: its document is the one built
/// from its routes, each route is documented with the shape that its handler
/// declares, and the UI stands at its fixed place and points at the document.
pub open spec fn application_wf(app: ApplicationView) -> bool {
    &&& document_of(app.document.info, descriptors_of(app.routes)) == Ok::<
        DocumentView,
        ErrorView,
    >(app.document)
    &&& document_wf(app.document)
    &&& forall|i: int|
        0 <= i < app.routes.len() ==> (#[trigger] app.routes[i]).route == handler_route(
            app.routes[i].handler,
            app.routes[i].route.path,
        )
    &&& app.ui == (UiView { base_path: ui_base_path(), document_url: document_url() })
}

/// What a request is resolved to.
#[derive(Clone, Copy, Debug, PartialEq, Eq, Structural)]
pub enum Target {
    /// One of the mounted handlers.
    Handler(Handler),
    /// The API document.
    Document,
    /// The page of the documentation UI.
    DocumentationUi,
    /// A static file of the documentation UI. The application holds none:
    /// whoever serves the files answers, and where nobody does, the
    /// application answers as for `NotFound`.
    UiAsset,
    /// Nothing is mounted there.
    NotFound,
}

/// The handler of the first route that is mounted at `path` for `method`.
pub open spec fn handler_for(routes: Seq<RouteBinding>, method: Method, path: Seq<char>) -> Option<
    Handler,
>
    decreases routes.len(),
{
    if routes.len() == 0 {
        None
    } else if routes[0].route.method == method && routes[0].route.path == path {
        Some(routes[0].handler)
    } else {
        handler_for(routes.drop_first(), method, path)
    }
}

/// What `method path` is resolved to: a mounted handler first, then the API
/// document, then the page of the documentation UI, then its static files.
pub open spec fn target_of(app: ApplicationView, method: Method, path: Seq<char>) -> Target {
    match handler_for(app.routes, method, path) {
        Some(handler) => Target::Handler(handler),
        None => if method == Method::Get && path == document_path() {
            Target::Document
        } else if method == Method::Get && path == app.ui.base_path {
            Target::DocumentationUi
        } else if method == Method::Get && is_under(app.ui.base_path, path) {
            Target::UiAsset
        } else {
            Target::NotFound
        },
    }
}

/// The message of the response to a request that nothing is mounted for.
pub open spec fn not_found_message() -> Seq<char> {
    "no such route"@
}

/// What `target` is answered with.
pub open spec fn response_to(app: ApplicationView, target: Target, facts: FactsView) -> ResponseView {
    match target {
        Target::Handler(handler) => handler_response(handler, facts),
        Target::Document => ResponseView {
            status: 200,
            content_type: ContentType::Json,
            body: document_json(app.document),
        },
        Target::DocumentationUi => ResponseView {
            status: 200,
            content_type: ContentType::Html,
            body: ui_page(app.ui.document_url),
        },
        Target::UiAsset | Target::NotFound => ResponseView {
            status: 404,
            content_type: ContentType::Json,
            body: error_json(not_found_message()),
        },
    }
}

/// The routes of the standard service: the index at `/` and the host
/// information at `/hostinfo`.
pub open spec fn standard_routes() -> Seq<RouteBinding> {
    seq![
        RouteBinding { handler: Handler::Index, route: handler_route(Handler::Index, "/"@) },
        RouteBinding {
            handler: Handler::HostInfo,
            route: handler_route(Handler::HostInfo, "/hostinfo"@),
        },
    ]
}

/// What `handler_for` finds: the handler of a route with that path and method
/// that no earlier such route precedes, or nothing where there is no such
/// route.
proof fn lemma_handler_for(routes: Seq<RouteBinding>, method: Method, path: Seq<char>)
    ensures
        match handler_for(routes, method, path) {
            Some(handler) => exists|i: int|
                0 <= i < routes.len() && (#[trigger] routes[i]).route.method == method
                    && routes[i].route.path == path && routes[i].handler == handler,
            None => forall|i: int|
                0 <= i < routes.len() ==> !((#[trigger] routes[i]).route.method == method
                    && routes[i].route.path == path),
        },
    decreases routes.len(),
{
    if routes.len() > 0 && !(routes[0].route.method == method && routes[0].route.path == path) {
        let rest = routes.drop_first();
        lemma_handler_for(rest, method, path);
        if handler_for(rest, method, path) is None {
            assert forall|i: int| 0 <= i < routes.len() implies !((
            #[trigger] routes[i]).route.method == method && routes[i].route.path == path) by {
                if i > 0 {
                    assert(rest[i - 1] == routes[i]);
                }
            }
        }
    }
}

/// The routes that are served are the routes that are documented: a request
/// reaches a handler exactly when the API document holds an entry for its path
/// and method, and that entry then carries the shape that the handler
/// declares.
pub proof fn lemma_served_iff_documented(app: ApplicationView, method: Method, path: Seq<char>)
    requires
        application_wf(app),
    ensures
        handler_for(app.routes, method, path) is Some <==> has_entry(
            app.document.paths,
            path,
            method,
        ),
        handler_for(app.routes, method, path) matches Some(handler) ==> entry_schema(
            app.document,
            entry_index(app.document.paths, path, method),
        ) == handler_schema(handler),
{
    let routes = descriptors_of(app.routes);
    let doc = app.document;
    lemma_document_describes_routes(doc.info, routes);
    lemma_handler_for(app.routes, method, path);
    if handler_for(app.routes, method, path) is Some {
        let handler = handler_for(app.routes, method, path)->Some_0;
        let i = choose|i: int|
            0 <= i < app.routes.len() && (#[trigger] app.routes[i]).route.method == method
                && app.routes[i].route.path == path && app.routes[i].handler == handler;
        assert(routes[i] == app.routes[i].route);
    }
}

/// What the service serves is what it documents: a request that reaches a
/// handler has an entry in the API document, and a successful response has
/// the shape that this entry gives.
pub proof fn lemma_responses_follow_document(
    app: ApplicationView,
    method: Method,
    path: Seq<char>,
    facts: FactsView,
)
    requires
        application_wf(app),
        target_of(app, method, path) is Handler,
    ensures
        has_entry(app.document.paths, path, method),
        response_to(app, target_of(app, method, path), facts).status == 200 ==> follows_schema(
            entry_schema(app.document, entry_index(app.document.paths, path, method)),
            response_to(app, target_of(app, method, path), facts),
        ),
{
    lemma_served_iff_documented(app, method, path);
    let handler = handler_for(app.routes, method, path)->Some_0;
    lemma_responses_follow_schema(handler, facts);
}

/// The standard service always assembles, and resolves its four addresses as
/// they are published: the index, the host information, the API document and
/// the documentation UI. Its document holds the two routes and nothing else.
pub proof fn lemma_standard_service(info: InfoView)
    ensures
        assembly_of(info, standard_routes()) is Ok,
        ({
            let app = assembly_of(info, standard_routes())->Ok_0;
            &&& application_wf(app)
            &&& target_of(app, Method::Get, "/"@) == Target::Handler(Handler::Index)
            &&& target_of(app, Method::Get, "/hostinfo"@) == Target::Handler(Handler::HostInfo)
            &&& target_of(app, Method::Get, document_path()) == Target::Document
            &&& target_of(app, Method::Get, ui_base_path()) == Target::DocumentationUi
            &&& has_entry(app.document.paths, "/"@, Method::Get)
            &&& has_entry(app.document.paths, "/hostinfo"@, Method::Get)
            &&& app.document.paths.len() == 2
        }),
{
    reveal_strlit("/");
    reveal_strlit("/hostinfo");
    reveal_strlit("/openapi.json");
    reveal_strlit("/swagger_ui/");
    let routes = standard_routes();
    let descriptors = descriptors_of(routes);
    assert("/"@.len() == 1 && "/hostinfo"@.len() == 9 && "/openapi.json"@.len() == 13
        && "/swagger_ui/"@.len() == 12);
    lemma_document_describes_routes(info, descriptors);
    reveal_with_fuel(handler_for, 3);
    reveal_with_fuel(document_of, 3);
}

/// Whenever both handlers are registered at their usual paths, in whatever
/// order and among whatever other routes, a document that builds holds exactly
/// one entry for `GET /` and exactly one for `GET /hostinfo`, each with the
/// shape that its handler declares.
pub proof fn lemma_both_handlers_documented(info: InfoView, routes: Seq<RouteView>)
    requires
        document_of(info, routes) is Ok,
        routes.contains(handler_route(Handler::Index, "/"@)),
        routes.contains(handler_route(Handler::HostInfo, "/hostinfo"@)),
    ensures
        ({
            let doc = document_of(info, routes)->Ok_0;
            let i = entry_index(doc.paths, "/"@, Method::Get);
            let h = entry_index(doc.paths, "/hostinfo"@, Method::Get);
            &&& 0 <= i < doc.paths.len()
            &&& 0 <= h < doc.paths.len()
            &&& entry_schema(doc, i) == handler_schema(Handler::Index)
            &&& entry_schema(doc, h) == handler_schema(Handler::HostInfo)
            &&& forall|k: int|
                0 <= k < doc.paths.len() ==> (entry_matches(
                    #[trigger] doc.paths[k],
                    "/"@,
                    Method::Get,
                ) <==> k == i)
            &&& forall|k: int|
                0 <= k < doc.paths.len() ==> (entry_matches(
                    #[trigger] doc.paths[k],
                    "/hostinfo"@,
                    Method::Get,
                ) <==> k == h)
        }),
{
    let a = choose|a: int| 0 <= a < routes.len() && routes[a] == handler_route(Handler::Index, "/"@);
    let b = choose|b: int|
        0 <= b < routes.len() && routes[b] == handler_route(Handler::HostInfo, "/hostinfo"@);
    lemma_one_entry_per_route(info, routes, a);
    lemma_one_entry_per_route(info, routes, b);
}

/// The index answers every request in the same way: whatever the host
/// reports, and however many requests came before, a `GET` of `/` is answered
/// with status 200 and the greeting.
pub proof fn lemma_index_always_greets(info: InfoView, facts: FactsView)
    ensures
        assembly_of(info, standard_routes()) is Ok,
        ({
            let app = assembly_of(info, standard_routes())->Ok_0;
            response_to(app, target_of(app, Method::Get, "/"@), facts) == index_response()
        }),
        index_response().status == 200,
        index_response().body == greeting(),
{
    lemma_standard_service(info);
}

/// A host name that is not valid UTF-8 costs one response, not the service:
/// `/hostinfo` answers with status 500 and a JSON body whose `error` member
/// holds the message, and `/` is answered as ever.
pub proof fn lemma_undecodable_hostname_is_reported(info: InfoView, facts: FactsView)
    requires
        !valid_utf8(facts.hostname),
    ensures
        assembly_of(info, standard_routes()) is Ok,
        ({
            let app = assembly_of(info, standard_routes())->Ok_0;
            &&& response_to(app, target_of(app, Method::Get, "/hostinfo"@), facts)
                == (ResponseView {
                status: 500,
                content_type: ContentType::Json,
                body: error_json("hostname does not parse as UTF-8"@),
            })
            &&& response_to(app, target_of(app, Method::Get, "/"@), facts) == index_response()
        }),
{
    lemma_standard_service(info);
}

/// The page of the documentation UI of an assembled service holds the
/// relative URL of the API document as it is, between the fixed head and tail
/// of the page.
pub proof fn lemma_ui_references_document(app: ApplicationView, facts: FactsView)
    requires
        application_wf(app),
    ensures
        response_to(app, Target::DocumentationUi, facts) == (ResponseView {
            status: 200,
            content_type: ContentType::Html,
            body: page_head() + "../openapi.json"@ + page_tail(),
        }),
{
    reveal_strlit("../openapi.json");
    let url = "../openapi.json"@;
    lemma_plain_text_unchanged(url);
}

/// The documentation UI is wired to the API document: the URL that the UI
/// is given, resolved from the path under which the UI is served, is the path
/// at which the document is served. So a browser that follows the URL is
/// answered with the document, unless a route was mounted in its place.
pub proof fn lemma_ui_reaches_document(app: ApplicationView)
    requires
        application_wf(app),
    ensures
        resolved(app.ui.base_path, app.ui.document_url) == Some(document_path()),
        handler_for(app.routes, Method::Get, document_path()) is None ==> target_of(
            app,
            Method::Get,
            resolved(app.ui.base_path, app.ui.document_url)->Some_0,
        ) == Target::Document,
{
    reveal_strlit("/");
    reveal_strlit(".");
    reveal_strlit("..");
    reveal_strlit("swagger_ui");
    reveal_strlit("openapi.json");
    reveal_strlit("/swagger_ui/");
    reveal_strlit("../openapi.json");
    reveal_strlit("/openapi.json");
    let base = seq![Seq::<char>::empty(), "swagger_ui"@, Seq::<char>::empty()];
    let reference = seq![".."@, "openapi.json"@];
    reveal_with_fuel(joined, 4);
    assert(joined(base, "/"@) =~= "/swagger_ui/"@);
    assert(joined(reference, "/"@) =~= "../openapi.json"@);
    lemma_segments_of_joined(base);
    lemma_segments_of_joined(reference);
    let all = merged(ui_base_path(), document_url());
    assert(all =~= seq![Seq::<char>::empty(), "swagger_ui"@, ".."@, "openapi.json"@]);
    reveal_with_fuel(directories, 4);
}

/// The assembled service: the mounted routes, the API document that was built
/// from them, and the documentation UI.
pub struct Application {
    routes: Vec<Route>,
    document: OpenApiDocument,
    document_text: String,
    ui: UiMount,
}

impl View for Application {
    type V = ApplicationView;

    closed spec fn view(&self) -> ApplicationView {
        ApplicationView { routes: bindings(self.routes@), document: self.document@, ui: self.ui@ }
    }
}

/// The result of assembling as a mathematical value.
pub open spec fn assembly_view(r: Result<Application, DomainError>) -> Result<
    ApplicationView,
    ErrorView,
> {
    match r {
        Ok(app) => Ok(app@),
        Err(e) => Err(e@),
    }
}

/// What assembling `routes` amounts to: the application with the document of
/// the routes and the UI at its fixed place, or the error of the build.
pub open spec fn assembly_of(info: InfoView, routes: Seq<RouteBinding>) -> Result<
    ApplicationView,
    ErrorView,
> {
    match document_of(info, descriptors_of(routes)) {
        Ok(document) => Ok(
            ApplicationView {
                routes: routes,
                document: document,
                ui: UiView { base_path: ui_base_path(), document_url: document_url() },
            },
        ),
        Err(e) => Err(e),
    }
}

impl Application {
    #[verifier::type_invariant]
    spec fn inv(&self) -> bool {
        &&& application_wf(self@)
        &&& self.document_text@ == document_json(self.document@)
    }

    /// Assembles the service, in the one order that is sound: every route is
    /// registered, then the API document is built from the registry, which
    /// freezes it, then the document and the documentation UI are mounted.
    /// Routes that conflict stop the assembly, and nothing is served.
    pub fn assemble(info: ApiInfo, routes: Vec<Route>) -> (r: Result<Application, DomainError>)
        ensures
            assembly_view(r) == assembly_of(info@, bindings(routes@)),
            r matches Ok(app) ==> application_wf(app@),
    {
        let mut registry = SchemaRegistry::new();
        let n = routes.len();
        let mut i: usize = 0;
        while i < n
            invariant
                i <= n,
                n == routes.len(),
                !registry@.frozen,
                registry@.entries == descriptors_of(bindings(routes@)).take(i as int),
                forall|k: int|
                    0 <= k < i ==> (#[trigger] bindings(routes@)[k]).route == handler_route(
                        bindings(routes@)[k].handler,
                        bindings(routes@)[k].route.path,
                    ),
            decreases n - i,
        {
            let route = &routes[i];
            let descriptor = route.descriptor().clone();
            match registry.register(descriptor) {
                Ok(()) => {},
                // Never taken: the registry is not frozen yet.
                Err(e) => {
                    return Err(e);
                },
            }
            i += 1;
        }
        assert(descriptors_of(bindings(routes@)).take(n as int) =~= descriptors_of(
            bindings(routes@),
        ));
        let ghost info_view = info@;
        match OpenApiDocument::from_registry(info, &mut registry) {
            Err(e) => Err(e),
            Ok(document) => {
                proof {
                    lemma_document_describes_routes(info_view, descriptors_of(bindings(routes@)));
                }
                let document_text = document.to_json();
                let ui = UiMount::mount(
                    String::from_str("/swagger_ui/"),
                    String::from_str("../openapi.json"),
                );
                Ok(Application { routes, document, document_text, ui })
            },
        }
    }

    /// The standard service: the index at `/` and the host information at
    /// `/hostinfo`. These two never conflict, so it always assembles.
    pub fn standard(info: ApiInfo) -> (r: Application)
        ensures
            assembly_of(info@, standard_routes()) == Ok::<ApplicationView, ErrorView>(r@),
            application_wf(r@),
    {
        let mut routes: Vec<Route> = Vec::new();
        routes.push(Route::new(Handler::Index, String::from_str("/")));
        routes.push(Route::new(Handler::HostInfo, String::from_str("/hostinfo")));
        proof {
            assert(bindings(routes@) =~= standard_routes());
            lemma_standard_service(info@);
        }
        match Application::assemble(info, routes) {
            Ok(app) => app,
            // Never taken: the two routes do not conflict.
            Err(_) => vstd::pervasive::unreached(),
        }
    }

    /// The API document. Every application that exists is well formed, which
    /// a caller learns here.
    pub fn document(&self) -> (r: &OpenApiDocument)
        ensures
            r@ == self@.document,
            application_wf(self@),
    {
        proof {
            use_type_invariant(self);
        }
        &self.document
    }

    /// The documentation UI.
    pub fn ui(&self) -> (r: &UiMount)
        ensures
            r@ == self@.ui,
            r@ == (UiView { base_path: ui_base_path(), document_url: document_url() }),
    {
        proof {
            use_type_invariant(self);
        }
        &self.ui
    }

    /// Decides what `method path` is answered by.
    pub fn resolve(&self, method: Method, path: &str) -> (r: Target)
        ensures
            r == target_of(self@, method, path@),
    {
        let wanted = String::from_str(path);
        let n = self.routes.len();
        let ghost all = bindings(self.routes@);
        let mut i: usize = 0;
        assert(all.skip(0) =~= all);
        while i < n
            invariant
                i <= n,
                n == self.routes.len(),
                all == bindings(self.routes@),
                wanted@ == path@,
                handler_for(all, method, path@) == handler_for(all.skip(i as int), method, path@),
            decreases n - i,
        {
            let route = &self.routes[i];
            proof {
                assert(all.skip(i as int).drop_first() =~= all.skip(i as int + 1));
            }
            if route.descriptor().method() == method && *route.descriptor().path() == wanted {
                return Target::Handler(route.handler());
            }
            i += 1;
        }
        if method == Method::Get && wanted == String::from_str("/openapi.json") {
            Target::Document
        } else if method == Method::Get && wanted == *self.ui.base_path() {
            Target::DocumentationUi
        } else if method == Method::Get && self.ui.holds(path) {
            Target::UiAsset
        } else {
            Target::NotFound
        }
    }

    /// Answers `target`. Only the host information handler reads `facts`.
    pub fn respond(&self, target: Target, facts: HostFacts) -> (r: Response)
        ensures
            r@ == response_to(self@, target, facts@),
    {
        proof {
            use_type_invariant(self);
        }
        match target {
            Target::Handler(Handler::Index) => index(),
            Target::Handler(Handler::HostInfo) => hostinfo(facts),
            Target::Document => Response {
                status: 200,
                content_type: ContentType::Json,
                body: self.document_text.clone(),
            },
            Target::DocumentationUi => Response {
                status: 200,
                content_type: ContentType::Html,
                body: self.ui.page(),
            },
            Target::UiAsset | Target::NotFound => Response {
                status: 404,
                content_type: ContentType::Json,
                body: error_body("no such route"),
            },
        }
    }

    /// Answers the request `method path`. The answer depends on the request
    /// and on the facts alone: the application keeps no state between
    /// requests.
    pub fn handle(&self, method: Method, path: &str, facts: HostFacts) -> (r: Response)
        ensures
            r@ == response_to(self@, target_of(self@, method, path@), facts@),
    {
        let target = self.resolve(method, path);
        self.respond(target, facts)
    }
}

} // verus!
