//! The API document and its builder.
//!
//! The document is what the registered routes amount to: one path entry for
//! each path and method, and one component for each distinct response shape.
//! Routes are taken in registration order. A route whose path and method are
//! already present adds nothing if it has the same response shape, and makes
//! the build fail if it has another.

use crate::error::{DomainError, ErrorView};
use crate::json::{decimal, decimal_text, join, joined, json_string, quote, texts};
use crate::registry::{route_views, SchemaRegistry};
use crate::route::{method_key, same_key, Method, RouteDescriptor, RouteView};
use crate::schema::{schema_json, ResponseSchema, SchemaView};
use vstd::prelude::*;
use vstd::string::StringExecFns;

verus! {

/// The info block of a document as a mathematical value.
pub struct InfoView {
    pub title: Seq<char>,
    pub version: Seq<char>,
}

/// A path entry as a mathematical value.
pub struct PathEntryView {
    pub path: Seq<char>,
    pub method: Method,
    pub summary: Option<Seq<char>>,
    /// Which component describes the response: an index into the document's
    /// components.
    pub component: int,
}

/// A document as a mathematical value.
pub struct DocumentView {
    pub info: InfoView,
    /// The path entries, in the order in which their routes were first
    /// registered.
    pub paths: Seq<PathEntryView>,
    /// The distinct response shapes, in the order in which they first occurred.
    pub components: Seq<SchemaView>,
}

/// Whether `paths` holds an entry for `method path`.
pub open spec fn has_entry(paths: Seq<PathEntryView>, path: Seq<char>, method: Method) -> bool {
    exists|i: int| 0 <= i < paths.len() && #[trigger] entry_matches(paths[i], path, method)
}

/// Whether `entry` is the entry of `method path`.
pub open spec fn entry_matches(entry: PathEntryView, path: Seq<char>, method: Method) -> bool {
    entry.path == path && entry.method == method
}

/// The index of the entry for `method path`. It means something only where
/// `has_entry` holds.
pub open spec fn entry_index(paths: Seq<PathEntryView>, path: Seq<char>, method: Method) -> int {
    choose|i: int| 0 <= i < paths.len() && #[trigger] entry_matches(paths[i], path, method)
}

/// Whether some entry of `paths` names component `c`.
pub open spec fn component_used(paths: Seq<PathEntryView>, c: int) -> bool {
    exists|i: int| 0 <= i < paths.len() && (#[trigger] paths[i]).component == c
}

/// The invariant of a document: no two entries share a path and a method, no
/// two components are the same shape, every entry names a component, and every
/// component is named by some entry.
pub open spec fn document_wf(doc: DocumentView) -> bool {
    &&& forall|i: int, j: int|
        0 <= i < j < doc.paths.len() ==> !entry_matches(
            #[trigger] doc.paths[i],
            (#[trigger] doc.paths[j]).path,
            doc.paths[j].method,
        )
    &&& doc.components.no_duplicates()
    &&& forall|i: int|
        0 <= i < doc.paths.len() ==> 0 <= (#[trigger] doc.paths[i]).component
            < doc.components.len()
    &&& forall|c: int| 0 <= c < doc.components.len() ==> #[trigger] component_used(doc.paths, c)
}

/// The shape of the response of entry `i`.
pub open spec fn entry_schema(doc: DocumentView, i: int) -> SchemaView {
    doc.components[doc.paths[i].component]
}

/// The document without routes.
pub open spec fn empty_document(info: InfoView) -> DocumentView {
    DocumentView { info: info, paths: Seq::empty(), components: Seq::empty() }
}

/// The error that reports that `route` disagrees with an earlier route.
pub open spec fn conflict_error(route: RouteView) -> ErrorView {
    ErrorView::SchemaConflictError { path: route.path, method: route.method }
}

/// `doc` with `route` taken in.
pub open spec fn with_route(doc: DocumentView, route: RouteView) -> Result<DocumentView, ErrorView> {
    if has_entry(doc.paths, route.path, route.method) {
        if entry_schema(doc, entry_index(doc.paths, route.path, route.method)) == route.schema {
            Ok(doc)
        } else {
            Err(conflict_error(route))
        }
    } else {
        let known = doc.components.contains(route.schema);
        let component = if known {
            doc.components.index_of(route.schema)
        } else {
            doc.components.len() as int
        };
        Ok(
            DocumentView {
                info: doc.info,
                paths: doc.paths.push(
                    PathEntryView {
                        path: route.path,
                        method: route.method,
                        summary: route.summary,
                        component: component,
                    },
                ),
                components: if known {
                    doc.components
                } else {
                    doc.components.push(route.schema)
                },
            },
        )
    }
}

/// The document that `routes` amount to, taken in order, or the error of the
/// first route that disagrees with an earlier one.
pub open spec fn document_of(info: InfoView, routes: Seq<RouteView>) -> Result<
    DocumentView,
    ErrorView,
>
    decreases routes.len(),
{
    if routes.len() == 0 {
        Ok(empty_document(info))
    } else {
        match document_of(info, routes.drop_last()) {
            Ok(doc) => with_route(doc, routes.last()),
            Err(e) => Err(e),
        }
    }
}

/// Taking a route in keeps the invariant of the document.
proof fn lemma_with_route_wf(doc: DocumentView, route: RouteView)
    requires
        document_wf(doc),
    ensures
        with_route(doc, route) matches Ok(next) ==> document_wf(next) && next.info == doc.info,
{
    if !has_entry(doc.paths, route.path, route.method) {
        let next = with_route(doc, route)->Ok_0;
        let n = doc.paths.len() as int;
        let c = next.paths[n].component;
        assert forall|k: int| 0 <= k < next.components.len() implies #[trigger] component_used(
            next.paths,
            k,
        ) by {
            if k < doc.components.len() {
                assert(component_used(doc.paths, k));
                let i = choose|i: int|
                    0 <= i < doc.paths.len() && (#[trigger] doc.paths[i]).component == k;
                assert(next.paths[i] == doc.paths[i]);
            }
        }
    }
}

/// An error, once met, is the result for every longer list of routes.
proof fn lemma_error_persists(info: InfoView, routes: Seq<RouteView>, k: int)
    requires
        0 <= k <= routes.len(),
        document_of(info, routes.take(k)) is Err,
    ensures
        document_of(info, routes) == document_of(info, routes.take(k)),
    decreases routes.len(),
{
    if k == routes.len() {
        assert(routes.take(k) =~= routes);
    } else {
        assert(routes.drop_last().take(k) =~= routes.take(k));
        lemma_error_persists(info, routes.drop_last(), k);
    }
}

/// The document of the first `k + 1` routes is that of the first `k` with
/// route `k` taken in.
proof fn lemma_document_step(info: InfoView, routes: Seq<RouteView>, k: int)
    requires
        0 <= k < routes.len(),
    ensures
        document_of(info, routes.take(k + 1)) == match document_of(info, routes.take(k)) {
            Ok(doc) => with_route(doc, routes[k]),
            Err(e) => Err(e),
        },
{
    assert(routes.take(k + 1).drop_last() =~= routes.take(k));
}

/// Two routes conflict when they share a path and a method but not the shape
/// of the response.
pub open spec fn conflicting(a: RouteView, b: RouteView) -> bool {
    same_key(a, b) && a.schema != b.schema
}

/// Whether two of `routes` conflict.
pub open spec fn has_conflict(routes: Seq<RouteView>) -> bool {
    exists|i: int, j: int|
        0 <= i < routes.len() && 0 <= j < routes.len() && conflicting(
            #[trigger] routes[i],
            #[trigger] routes[j],
        )
}

/// Whether one of `routes` is `method path`.
pub open spec fn has_route(routes: Seq<RouteView>, path: Seq<char>, method: Method) -> bool {
    exists|i: int|
        0 <= i < routes.len() && (#[trigger] routes[i]).path == path && routes[i].method == method
}

/// Whether `doc` holds an entry for `route`, with the route's response shape.
pub open spec fn documents(doc: DocumentView, route: RouteView) -> bool {
    &&& has_entry(doc.paths, route.path, route.method)
    &&& entry_schema(doc, entry_index(doc.paths, route.path, route.method)) == route.schema
}

/// Whether `doc` describes `routes` and nothing else: every route has its
/// entry, with its shape, and every entry is the entry of a route.
pub open spec fn describes(doc: DocumentView, routes: Seq<RouteView>) -> bool {
    &&& forall|i: int| 0 <= i < routes.len() ==> documents(doc, #[trigger] routes[i])
    &&& forall|k: int|
        0 <= k < doc.paths.len() ==> has_route(
            routes,
            (#[trigger] doc.paths[k]).path,
            doc.paths[k].method,
        )
}

/// In a document that meets its invariant, an entry is found under its own
/// path and method, and nowhere else.
proof fn lemma_entry_index_unique(paths: Seq<PathEntryView>, k: int)
    requires
        0 <= k < paths.len(),
        forall|i: int, j: int|
            0 <= i < j < paths.len() ==> !entry_matches(
                #[trigger] paths[i],
                (#[trigger] paths[j]).path,
                paths[j].method,
            ),
    ensures
        has_entry(paths, paths[k].path, paths[k].method),
        entry_index(paths, paths[k].path, paths[k].method) == k,
{
    assert(entry_matches(paths[k], paths[k].path, paths[k].method));
}

/// What a build amounts to. It succeeds exactly when no two routes conflict.
/// The document then meets its invariant, carries the given info block, and
/// describes the routes and nothing else. A failure names one of the routes.
pub proof fn lemma_document_describes_routes(info: InfoView, routes: Seq<RouteView>)
    ensures
        document_of(info, routes) is Ok <==> !has_conflict(routes),
        document_of(info, routes) matches Ok(doc) ==> document_wf(doc) && doc.info == info
            && describes(doc, routes),
        document_of(info, routes) matches Err(e) ==> exists|j: int|
            0 <= j < routes.len() && e == conflict_error(#[trigger] routes[j]),
    decreases routes.len(),
{
    if routes.len() == 0 {
        return ;
    }
    let prefix = routes.drop_last();
    let x = routes.last();
    let n = prefix.len() as int;
    lemma_document_describes_routes(info, prefix);
    assert(forall|i: int| 0 <= i < n ==> prefix[i] == routes[i]);
    if document_of(info, prefix) is Ok {
        let doc = document_of(info, prefix)->Ok_0;
        lemma_with_route_wf(doc, x);
        if !has_entry(doc.paths, x.path, x.method) {
            let next = with_route(doc, x)->Ok_0;
            let m = doc.paths.len() as int;
            assert forall|i: int| 0 <= i < routes.len() implies documents(
                next,
                #[trigger] routes[i],
            ) by {
                if i < n {
                    let w = entry_index(doc.paths, routes[i].path, routes[i].method);
                    lemma_entry_index_unique(next.paths, w);
                } else {
                    lemma_entry_index_unique(next.paths, m);
                }
            }
        }
    }
}

/// Every registered route has exactly one entry in the document, whatever the
/// number of times it was registered, and that entry carries the route's
/// response shape.
pub proof fn lemma_one_entry_per_route(info: InfoView, routes: Seq<RouteView>, i: int)
    requires
        document_of(info, routes) is Ok,
        0 <= i < routes.len(),
    ensures
        ({
            let doc = document_of(info, routes)->Ok_0;
            let k = entry_index(doc.paths, routes[i].path, routes[i].method);
            &&& 0 <= k < doc.paths.len()
            &&& entry_schema(doc, k) == routes[i].schema
            &&& forall|w: int|
                0 <= w < doc.paths.len() ==> (entry_matches(
                    #[trigger] doc.paths[w],
                    routes[i].path,
                    routes[i].method,
                ) <==> w == k)
        }),
{
    lemma_document_describes_routes(info, routes);
}

/// Whether route `i` is the first of `routes` with its path and method.
pub open spec fn first_registration(routes: Seq<RouteView>, i: int) -> bool {
    forall|j: int| 0 <= j < i ==> !same_key(#[trigger] routes[j], routes[i])
}

/// Where a path and a method are registered more than once, the first
/// registration makes the entry: the entry carries its summary.
pub proof fn lemma_first_registration_wins(info: InfoView, routes: Seq<RouteView>, i: int)
    requires
        document_of(info, routes) is Ok,
        0 <= i < routes.len(),
        first_registration(routes, i),
    ensures
        ({
            let doc = document_of(info, routes)->Ok_0;
            let k = entry_index(doc.paths, routes[i].path, routes[i].method);
            &&& 0 <= k < doc.paths.len()
            &&& entry_matches(doc.paths[k], routes[i].path, routes[i].method)
            &&& doc.paths[k].summary == routes[i].summary
        }),
    decreases routes.len(),
{
    let prefix = routes.drop_last();
    let x = routes.last();
    let n = prefix.len() as int;
    lemma_document_describes_routes(info, prefix);
    let doc = document_of(info, prefix)->Ok_0;
    let next = document_of(info, routes)->Ok_0;
    let m = doc.paths.len() as int;
    if i < n {
        lemma_first_registration_wins(info, prefix, i);
        let w = entry_index(doc.paths, routes[i].path, routes[i].method);
        if !has_entry(doc.paths, x.path, x.method) {
            lemma_entry_index_unique(next.paths, w);
        }
    } else {
        lemma_entry_index_unique(next.paths, m);
    }
}

/// The order of registration does not change which paths and methods the
/// document holds: two lists with the same routes, in whatever order, either
/// both fail to build or give documents with entries for the same paths and
/// methods.
pub proof fn lemma_path_set_ignores_order(info: InfoView, a: Seq<RouteView>, b: Seq<RouteView>)
    requires
        a.to_multiset() == b.to_multiset(),
    ensures
        document_of(info, a) is Ok <==> document_of(info, b) is Ok,
        document_of(info, a) is Ok ==> forall|path: Seq<char>, method: Method|
            has_entry(document_of(info, a)->Ok_0.paths, path, method) <==> has_entry(
                document_of(info, b)->Ok_0.paths,
                path,
                method,
            ),
{
    broadcast use vstd::seq_lib::to_multiset_contains;

    lemma_document_describes_routes(info, a);
    lemma_document_describes_routes(info, b);
    assert forall|x: RouteView| a.contains(x) <==> b.contains(x) by {
        assert(a.contains(x) <==> a.to_multiset().count(x) > 0);
    }
    lemma_same_routes_same_conflicts(a, b);
    lemma_same_routes_same_conflicts(b, a);
    if document_of(info, a) is Ok {
        let da = document_of(info, a)->Ok_0;
        let db = document_of(info, b)->Ok_0;
        assert forall|path: Seq<char>, method: Method|
            has_entry(da.paths, path, method) <==> has_entry(db.paths, path, method) by {
            lemma_entries_follow_routes(da, a, db, b, path, method);
            lemma_entries_follow_routes(db, b, da, a, path, method);
        }
    }
}

/// A conflict among routes is a conflict in every list that holds them.
proof fn lemma_same_routes_same_conflicts(a: Seq<RouteView>, b: Seq<RouteView>)
    requires
        forall|x: RouteView| a.contains(x) ==> b.contains(x),
    ensures
        has_conflict(a) ==> has_conflict(b),
{
    if has_conflict(a) {
        let (i, j) = choose|i: int, j: int|
            0 <= i < a.len() && 0 <= j < a.len() && conflicting(#[trigger] a[i], #[trigger] a[j]);
        assert(a.contains(a[i]) && a.contains(a[j]));
    }
}

/// Where one list of routes holds every route of another, its document holds
/// an entry for every path and method of the other's document.
proof fn lemma_entries_follow_routes(
    da: DocumentView,
    a: Seq<RouteView>,
    db: DocumentView,
    b: Seq<RouteView>,
    path: Seq<char>,
    method: Method,
)
    requires
        describes(da, a),
        describes(db, b),
        forall|x: RouteView| a.contains(x) ==> b.contains(x),
    ensures
        has_entry(da.paths, path, method) ==> has_entry(db.paths, path, method),
{
    if has_entry(da.paths, path, method) {
        let k = entry_index(da.paths, path, method);
        let i = choose|i: int|
            0 <= i < a.len() && (#[trigger] a[i]).path == da.paths[k].path && a[i].method
                == da.paths[k].method;
        assert(a.contains(a[i]));
    }
}

/// Building is a function of the info block and the routes: equal inputs give
/// the same error, or equal documents, whose JSON texts are then the same
/// character for character.
pub proof fn lemma_build_is_deterministic(
    info_a: InfoView,
    a: Seq<RouteView>,
    info_b: InfoView,
    b: Seq<RouteView>,
)
    requires
        info_a == info_b,
        a =~= b,
    ensures
        document_of(info_a, a) == document_of(info_b, b),
        document_of(info_a, a) matches Ok(doc) ==> document_json(doc) == document_json(
            document_of(info_b, b)->Ok_0,
        ),
{
}

/// The name under which component `c` stands in the document.
pub open spec fn component_name(c: int) -> Seq<char> {
    "Schema"@ + decimal(c as nat)
}

/// The media type of a response of the given shape: plain text for a scalar,
/// JSON for an object.
pub open spec fn media_type(shape: SchemaView) -> Seq<char> {
    match shape {
        SchemaView::Scalar(_) => "text/plain"@,
        SchemaView::Object(_) => "application/json"@,
    }
}

/// The summary member of an operation, with the comma that follows it; empty
/// where the entry has no summary.
pub open spec fn summary_member(summary: Option<Seq<char>>) -> Seq<char> {
    match summary {
        Some(text) => "\"summary\":"@ + json_string(text) + ","@,
        None => Seq::empty(),
    }
}

/// The operation object of entry `k`: its summary, if it has one, and its one
/// response, which refers to the entry's component.
pub open spec fn operation_json(doc: DocumentView, k: int) -> Seq<char> {
    "{"@ + summary_member(doc.paths[k].summary)
        + "\"responses\":{\"200\":{\"description\":\"\",\"content\":{\""@ + media_type(
        entry_schema(doc, k),
    ) + "\":{\"schema\":{\"$ref\":\"#/components/schemas/"@ + component_name(
        doc.paths[k].component,
    ) + "\"}}}}}}"@
}

/// Entry `k` as a member of its path item: the method, then the operation.
pub open spec fn operation_member(doc: DocumentView, k: int) -> Seq<char> {
    "\""@ + method_key(doc.paths[k].method) + "\":"@ + operation_json(doc, k)
}

/// The operation members of the entries before `upto` that are mounted at
/// `path`, in order.
pub open spec fn operations_of(doc: DocumentView, path: Seq<char>, upto: int) -> Seq<Seq<char>>
    decreases upto,
{
    if upto <= 0 {
        Seq::empty()
    } else {
        let rest = operations_of(doc, path, upto - 1);
        if doc.paths[upto - 1].path == path {
            rest.push(operation_member(doc, upto - 1))
        } else {
            rest
        }
    }
}

/// Whether entry `k` is the first entry mounted at its path.
pub open spec fn first_of_path(paths: Seq<PathEntryView>, k: int) -> bool {
    forall|j: int| 0 <= j < k ==> (#[trigger] paths[j]).path != paths[k].path
}

/// The path item of the path of entry `k`: the path, then every operation
/// mounted at it.
pub open spec fn path_member(doc: DocumentView, k: int) -> Seq<char> {
    json_string(doc.paths[k].path) + ":{"@ + joined(
        operations_of(doc, doc.paths[k].path, doc.paths.len() as int),
        ","@,
    ) + "}"@
}

/// One path item for each distinct path among the entries before `upto`, in
/// the order in which the paths first occur.
pub open spec fn path_members(doc: DocumentView, upto: int) -> Seq<Seq<char>>
    decreases upto,
{
    if upto <= 0 {
        Seq::empty()
    } else {
        let rest = path_members(doc, upto - 1);
        if first_of_path(doc.paths, upto - 1) {
            rest.push(path_member(doc, upto - 1))
        } else {
            rest
        }
    }
}

/// One member for each component: its name, then its JSON schema.
pub open spec fn component_members(components: Seq<SchemaView>) -> Seq<Seq<char>> {
    Seq::new(
        components.len(),
        |c: int| "\""@ + component_name(c) + "\":"@ + schema_json(components[c]),
    )
}

/// The document as JSON text, without white space: the OpenAPI version, the
/// info block, the paths and the components.
pub open spec fn document_json(doc: DocumentView) -> Seq<char> {
    "{\"openapi\":\"3.0.0\",\"info\":{\"title\":"@ + json_string(doc.info.title)
        + ",\"version\":"@ + json_string(doc.info.version) + "},\"paths\":{"@ + joined(
        path_members(doc, doc.paths.len() as int),
        ","@,
    ) + "},\"components\":{\"schemas\":{"@ + joined(component_members(doc.components), ","@)
        + "}}}"@
}

/// The info block of a document: its title and its version.
#[derive(Debug, PartialEq, Eq)]
pub struct ApiInfo {
    pub title: String,
    pub version: String,
}

impl View for ApiInfo {
    type V = InfoView;

    open spec fn view(&self) -> InfoView {
        InfoView { title: self.title@, version: self.version@ }
    }
}

impl Clone for ApiInfo {
    fn clone(&self) -> (r: ApiInfo)
        ensures
            r@ == self@,
    {
        ApiInfo { title: self.title.clone(), version: self.version.clone() }
    }
}

/// One path entry of a document.
struct PathEntry {
    path: String,
    method: Method,
    summary: Option<String>,
    component: usize,
}

impl View for PathEntry {
    type V = PathEntryView;

    closed spec fn view(&self) -> PathEntryView {
        PathEntryView {
            path: self.path@,
            method: self.method,
            summary: match self.summary {
                Some(s) => Some(s@),
                None => None,
            },
            component: self.component as int,
        }
    }
}

spec fn entry_views(entries: Seq<PathEntry>) -> Seq<PathEntryView> {
    entries.map_values(|e: PathEntry| e@)
}

spec fn schema_views(schemas: Seq<ResponseSchema>) -> Seq<SchemaView> {
    schemas.map_values(|s: ResponseSchema| s@)
}

/// The description of the service's API. It is built once and read-only from
/// then on.
pub struct OpenApiDocument {
    info: ApiInfo,
    paths: Vec<PathEntry>,
    components: Vec<ResponseSchema>,
}

impl View for OpenApiDocument {
    type V = DocumentView;

    closed spec fn view(&self) -> DocumentView {
        DocumentView {
            info: self.info@,
            paths: entry_views(self.paths@),
            components: schema_views(self.components@),
        }
    }
}

/// The result of a build as a mathematical value.
pub open spec fn build_view(r: Result<OpenApiDocument, DomainError>) -> Result<
    DocumentView,
    ErrorView,
> {
    match r {
        Ok(doc) => Ok(doc@),
        Err(e) => Err(e@),
    }
}

/// The index of the entry for `method path`, if there is one.
fn find_entry(paths: &Vec<PathEntry>, path: &String, method: Method) -> (r: Option<usize>)
    ensures
        r is Some == has_entry(entry_views(paths@), path@, method),
        r matches Some(k) ==> k < paths.len() && entry_matches(
            entry_views(paths@)[k as int],
            path@,
            method,
        ),
{
    let n = paths.len();
    let mut i: usize = 0;
    while i < n
        invariant
            i <= n,
            n == paths.len(),
            forall|j: int| 0 <= j < i ==> !entry_matches(#[trigger] entry_views(paths@)[j], path@, method),
        decreases n - i,
    {
        if paths[i].method == method && paths[i].path == *path {
            assert(entry_matches(entry_views(paths@)[i as int], path@, method));
            return Some(i);
        }
        i += 1;
    }
    None
}

/// The index of the component that is `schema`, if there is one.
fn find_component(components: &Vec<ResponseSchema>, schema: &ResponseSchema) -> (r: Option<usize>)
    ensures
        r is Some == schema_views(components@).contains(schema@),
        r matches Some(k) ==> k < components.len() && schema_views(components@)[k as int]
            == schema@,
{
    let n = components.len();
    let mut i: usize = 0;
    while i < n
        invariant
            i <= n,
            n == components.len(),
            forall|j: int| 0 <= j < i ==> #[trigger] schema_views(components@)[j] != schema@,
        decreases n - i,
    {
        if components[i].same_shape(schema) {
            assert(schema_views(components@)[i as int] == schema@);
            return Some(i);
        }
        i += 1;
    }
    None
}

impl OpenApiDocument {
    #[verifier::type_invariant]
    spec fn inv(&self) -> bool {
        document_wf(self@)
    }

    /// Builds the document of `descriptors`, taken in order. It fails with a
    /// `SchemaConflictError` for the first descriptor whose path and method
    /// were seen before with another response shape.
    pub fn build(info: ApiInfo, descriptors: &Vec<RouteDescriptor>) -> (r: Result<
        OpenApiDocument,
        DomainError,
    >)
        ensures
            build_view(r) == document_of(info@, route_views(descriptors@)),
            r matches Ok(doc) ==> document_wf(doc@),
    {
        let ghost routes = route_views(descriptors@);
        let mut paths: Vec<PathEntry> = Vec::new();
        let mut components: Vec<ResponseSchema> = Vec::new();
        let n = descriptors.len();
        let mut i: usize = 0;
        assert(entry_views(paths@) =~= Seq::empty());
        assert(schema_views(components@) =~= Seq::empty());
        while i < n
            invariant
                i <= n,
                n == descriptors.len(),
                routes == route_views(descriptors@),
                document_of(info@, routes.take(i as int)) == Ok::<DocumentView, ErrorView>(
                    DocumentView {
                        info: info@,
                        paths: entry_views(paths@),
                        components: schema_views(components@),
                    },
                ),
                document_wf(
                    DocumentView {
                        info: info@,
                        paths: entry_views(paths@),
                        components: schema_views(components@),
                    },
                ),
            decreases n - i,
        {
            let descriptor = &descriptors[i];
            let ghost doc = DocumentView {
                info: info@,
                paths: entry_views(paths@),
                components: schema_views(components@),
            };
            let ghost route = routes[i as int];
            proof {
                lemma_document_step(info@, routes, i as int);
                lemma_with_route_wf(doc, route);
            }
            match find_entry(&paths, descriptor.path(), descriptor.method()) {
                Some(k) => {
                    let c = paths[k].component;
                    if !components[c].same_shape(descriptor.response_schema()) {
                        proof {
                            lemma_error_persists(info@, routes, i as int + 1);
                        }
                        return Err(
                            DomainError::SchemaConflictError {
                                path: descriptor.path().clone(),
                                method: descriptor.method(),
                            },
                        );
                    }
                },
                None => {
                    let schema = descriptor.response_schema();
                    let c = match find_component(&components, schema) {
                        Some(c) => {
                            c
                        },
                        None => {
                            components.push(schema.clone());
                            components.len() - 1
                        },
                    };
                    let summary = match descriptor.summary() {
                        Some(s) => Some(s.clone()),
                        None => None,
                    };
                    paths.push(
                        PathEntry {
                            path: descriptor.path().clone(),
                            method: descriptor.method(),
                            summary,
                            component: c,
                        },
                    );
                    proof {
                        let next = with_route(doc, route)->Ok_0;
                        assert(entry_views(paths@) =~= next.paths);
                        assert(schema_views(components@) =~= next.components);
                    }
                },
            }
            i += 1;
        }
        assert(routes.take(n as int) =~= routes);
        Ok(OpenApiDocument { info, paths, components })
    }

    /// Builds the document of the routes in `registry` and, if that succeeds,
    /// freezes the registry: routes registered later could not appear in the
    /// document. A registry whose routes conflict stays as it was.
    pub fn from_registry(info: ApiInfo, registry: &mut SchemaRegistry) -> (r: Result<
        OpenApiDocument,
        DomainError,
    >)
        ensures
            build_view(r) == document_of(info@, old(registry)@.entries),
            r matches Ok(doc) ==> document_wf(doc@),
            final(registry)@.entries == old(registry)@.entries,
            final(registry)@.frozen == (old(registry)@.frozen || r is Ok),
    {
        let r = OpenApiDocument::build(info, registry.all_descriptors());
        if r.is_ok() {
            registry.freeze();
        }
        r
    }

    /// The title of the API.
    pub fn title(&self) -> (r: &String)
        ensures
            r@ == self@.info.title,
    {
        &self.info.title
    }

    /// The version of the API.
    pub fn version(&self) -> (r: &String)
        ensures
            r@ == self@.info.version,
    {
        &self.info.version
    }

    /// How many path entries the document holds. Every document that exists
    /// meets its invariant, which a caller learns here.
    pub fn path_count(&self) -> (r: usize)
        ensures
            r == self@.paths.len(),
            document_wf(self@),
    {
        proof {
            use_type_invariant(self);
        }
        self.paths.len()
    }

    /// How many components the document holds.
    pub fn component_count(&self) -> (r: usize)
        ensures
            r == self@.components.len(),
    {
        self.components.len()
    }

    /// The response shape that the document gives for `method path`, if it
    /// holds an entry for it.
    pub fn schema_of(&self, method: Method, path: &String) -> (r: Option<&ResponseSchema>)
        ensures
            r is Some == has_entry(self@.paths, path@, method),
            r matches Some(schema) ==> schema@ == entry_schema(
                self@,
                entry_index(self@.paths, path@, method),
            ),
    {
        proof {
            use_type_invariant(self);
        }
        match find_entry(&self.paths, path, method) {
            Some(k) => {
                Some(&self.components[self.paths[k].component])
            },
            None => None,
        }
    }

    /// The operation object of entry `k`.
    #[verifier::loop_isolation(false)]
    fn operation_text(&self, k: usize) -> (r: String)
        requires
            k < self.paths.len(),
        ensures
            r@ == operation_json(self@, k as int),
    {
        proof {
            use_type_invariant(self);
        }
        let entry = &self.paths[k];
        assert(self@.paths[k as int] == entry@);
        let mut out = String::from_str("{");
        match &entry.summary {
            Some(text) => {
                out.append("\"summary\":");
                out.append(quote(text.as_str()).as_str());
                out.append(",");
            },
            None => {},
        }
        out.append("\"responses\":{\"200\":{\"description\":\"\",\"content\":{\"");
        if self.components[entry.component].is_scalar() {
            out.append("text/plain");
        } else {
            out.append("application/json");
        }
        out.append("\":{\"schema\":{\"$ref\":\"#/components/schemas/");
        out.append("Schema");
        out.append(decimal_text(entry.component as u64).as_str());
        out.append("\"}}}}}}");
        out
    }

    /// The path item of the path of entry `k`.
    #[verifier::loop_isolation(false)]
    fn path_text(&self, k: usize) -> (r: String)
        requires
            k < self.paths.len(),
        ensures
            r@ == path_member(self@, k as int),
    {
        let n = self.paths.len();
        let ghost path = self@.paths[k as int].path;
        let mut operations: Vec<String> = Vec::new();
        let mut j: usize = 0;
        while j < n
            invariant
                j <= n,
                texts(operations@) == operations_of(self@, path, j as int),
            decreases n - j,
        {
            if self.paths[j].path == self.paths[k].path {
                let mut member = String::from_str("\"");
                member.append(self.paths[j].method.key());
                member.append("\":");
                member.append(self.operation_text(j).as_str());
                operations.push(member);
            }
            j += 1;
        }
        let mut out = quote(self.paths[k].path.as_str());
        out.append(":{");
        out.append(join(&operations, ",").as_str());
        out.append("}");
        out
    }

    /// Whether entry `k` is the first entry mounted at its path.
    #[verifier::loop_isolation(false)]
    fn is_first_of_path(&self, k: usize) -> (r: bool)
        requires
            k < self.paths.len(),
        ensures
            r == first_of_path(self@.paths, k as int),
    {
        let mut j: usize = 0;
        while j < k
            invariant
                j <= k,
                forall|i: int| 0 <= i < j ==> (#[trigger] self@.paths[i]).path != self@.paths[k as int].path,
            decreases k - j,
        {
            assert(self@.paths[j as int] == self.paths@[j as int]@);
            if self.paths[j].path == self.paths[k].path {
                return false;
            }
            j += 1;
        }
        true
    }

    /// The document as JSON text. Equal documents give the same text, byte for
    /// byte.
    #[verifier::loop_isolation(false)]
    pub fn to_json(&self) -> (r: String)
        ensures
            r@ == document_json(self@),
    {
        let n = self.paths.len();
        let mut items: Vec<String> = Vec::new();
        let mut k: usize = 0;
        while k < n
            invariant
                k <= n,
                texts(items@) == path_members(self@, k as int),
            decreases n - k,
        {
            if self.is_first_of_path(k) {
                let item = self.path_text(k);
                items.push(item);
            }
            k += 1;
        }
        let m = self.components.len();
        let mut members: Vec<String> = Vec::new();
        let mut c: usize = 0;
        while c < m
            invariant
                c <= m,
                members.len() == c,
                forall|i: int|
                    0 <= i < c ==> (#[trigger] members@[i])@ == component_members(
                        self@.components,
                    )[i],
            decreases m - c,
        {
            let mut member = String::from_str("\"");
            member.append("Schema");
            member.append(decimal_text(c as u64).as_str());
            member.append("\":");
            member.append(self.components[c].to_json().as_str());
            members.push(member);
            c += 1;
        }
        assert(texts(members@) =~= component_members(self@.components));
        let mut out = String::from_str("{\"openapi\":\"3.0.0\",\"info\":{\"title\":");
        out.append(quote(self.info.title.as_str()).as_str());
        out.append(",\"version\":");
        out.append(quote(self.info.version.as_str()).as_str());
        out.append("},\"paths\":{");
        out.append(join(&items, ",").as_str());
        out.append("},\"components\":{\"schemas\":{");
        out.append(join(&members, ",").as_str());
        out.append("}}}");
        out
    }
}

} // verus!
