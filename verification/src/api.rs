//! The web API: what each request asks for and how it is answered.
use crate::decision::{SuDecision, SuDecisionView};
use crate::feature::{FeaturePatch, FeaturePatchView};
use crate::http::{HttpRequest, RequestView};
use crate::json::Json;
use crate::ksucalls::GetInfoCmd;
use crate::modules::{ModuleAction, ModuleActionView};
use crate::su::{SuRequestView, WebState};
use crate::{decision, feature, json, number, page, response, text};
use serde_json::Value;
use vstd::prelude::*;

verus! {

/// Why a request to the API failed.
#[derive(Debug)]
pub enum ApiError {
    UnknownFeature,
    ExpectedJson,
    /// The body is not JSON; with the message that says why.
    InvalidJson(String),
    MissingValue,
    SetFeature,
    SaveConfig,
    MissingDecision,
    UnknownDecision,
    RequestNotFound,
    /// The profile of this package could not be set.
    Remember(String),
    Respond,
    /// A module operation failed; with its message.
    Module(String),
    SwitchNamespace,
    UnknownModuleAction,
    MissingModuleAction,
    UnknownSuEndpoint,
    InvalidRequestId,
    NotFound,
}

/// What a failure says.
pub enum Failure {
    UnknownFeature,
    ExpectedJson,
    InvalidJson(Seq<char>),
    MissingValue,
    SetFeature,
    SaveConfig,
    MissingDecision,
    UnknownDecision,
    RequestNotFound,
    Remember(Seq<char>),
    Respond,
    Module(Seq<char>),
    SwitchNamespace,
    UnknownModuleAction,
    MissingModuleAction,
    UnknownSuEndpoint,
    InvalidRequestId,
    NotFound,
}

impl View for ApiError {
    type V = Failure;

    open spec fn view(&self) -> Failure {
        match self {
            ApiError::UnknownFeature => Failure::UnknownFeature,
            ApiError::ExpectedJson => Failure::ExpectedJson,
            ApiError::InvalidJson(e) => Failure::InvalidJson(e@),
            ApiError::MissingValue => Failure::MissingValue,
            ApiError::SetFeature => Failure::SetFeature,
            ApiError::SaveConfig => Failure::SaveConfig,
            ApiError::MissingDecision => Failure::MissingDecision,
            ApiError::UnknownDecision => Failure::UnknownDecision,
            ApiError::RequestNotFound => Failure::RequestNotFound,
            ApiError::Remember(package) => Failure::Remember(package@),
            ApiError::Respond => Failure::Respond,
            ApiError::Module(e) => Failure::Module(e@),
            ApiError::SwitchNamespace => Failure::SwitchNamespace,
            ApiError::UnknownModuleAction => Failure::UnknownModuleAction,
            ApiError::MissingModuleAction => Failure::MissingModuleAction,
            ApiError::UnknownSuEndpoint => Failure::UnknownSuEndpoint,
            ApiError::InvalidRequestId => Failure::InvalidRequestId,
            ApiError::NotFound => Failure::NotFound,
        }
    }
}

impl Failure {
    /// The message that goes out.
    pub open spec fn message(self) -> Seq<char> {
        match self {
            Failure::UnknownFeature => "unknown feature"@,
            Failure::ExpectedJson => "expected application/json"@,
            Failure::InvalidJson(e) => e,
            Failure::MissingValue => "missing numeric value"@,
            Failure::SetFeature => "set feature"@,
            Failure::SaveConfig => "save feature config"@,
            Failure::MissingDecision => "missing decision"@,
            Failure::UnknownDecision => "decision must be allow or deny"@,
            Failure::RequestNotFound => "request not found"@,
            Failure::Remember(package) => "remember app profile for "@ + package,
            Failure::Respond => "respond su request"@,
            Failure::Module(e) => e,
            Failure::SwitchNamespace => "switch to global mount namespace"@,
            Failure::UnknownModuleAction => "unknown module action"@,
            Failure::MissingModuleAction => "missing module action"@,
            Failure::UnknownSuEndpoint => "unknown su request endpoint"@,
            Failure::InvalidRequestId => "invalid request id"@,
            Failure::NotFound => "not found"@,
        }
    }
}

impl ApiError {
    /// The message that goes out.
    pub fn message(&self) -> (r: String)
        ensures
            r@ == self@.message(),
    {
        match self {
            ApiError::UnknownFeature => "unknown feature".to_string(),
            ApiError::ExpectedJson => "expected application/json".to_string(),
            ApiError::InvalidJson(e) => e.clone(),
            ApiError::MissingValue => "missing numeric value".to_string(),
            ApiError::SetFeature => "set feature".to_string(),
            ApiError::SaveConfig => "save feature config".to_string(),
            ApiError::MissingDecision => "missing decision".to_string(),
            ApiError::UnknownDecision => "decision must be allow or deny".to_string(),
            ApiError::RequestNotFound => "request not found".to_string(),
            ApiError::Remember(package) => {
                let mut r = "remember app profile for ".to_string();
                r.append(package.as_str());
                r
            },
            ApiError::Respond => "respond su request".to_string(),
            ApiError::Module(e) => e.clone(),
            ApiError::SwitchNamespace => "switch to global mount namespace".to_string(),
            ApiError::UnknownModuleAction => "unknown module action".to_string(),
            ApiError::MissingModuleAction => "missing module action".to_string(),
            ApiError::UnknownSuEndpoint => "unknown su request endpoint".to_string(),
            ApiError::InvalidRequestId => "invalid request id".to_string(),
            ApiError::NotFound => "not found".to_string(),
        }
    }
}

/// What an answer holds.
pub open spec fn answer(r: Result<Value, ApiError>) -> Result<Json, Failure> {
    match r {
        Ok(value) => Ok(json::json(value)),
        Err(e) => Err(e@),
    }
}

/// Whether a request may come from the page that its `origin` field names.
pub open spec fn allowed_origin(headers: Map<Seq<char>, Seq<char>>) -> bool {
    headers.contains_key("origin"@) ==> (headers["origin"@] == "http://127.0.0.1:9700"@
        || headers["origin"@] == "http://localhost:9700"@)
}

/// Whether a request carries the token.
pub open spec fn authorized(headers: Map<Seq<char>, Seq<char>>, token: Seq<char>) -> bool {
    headers.contains_key("authorization"@) && headers["authorization"@] == "Bearer "@ + token
}

/// Whether a request may come from the page that its `origin` field names. One
/// without that field may.
#[verifier::allow_in_spec]
pub fn origin_allowed(req: &HttpRequest) -> (r: bool)
    ensures
        r == allowed_origin(req@.headers),
    returns
        allowed_origin(req@.headers),
{
    match req.headers.get("origin") {
        Some(origin) => text::str_eq(origin.as_str(), "http://127.0.0.1:9700") || text::str_eq(
            origin.as_str(),
            "http://localhost:9700",
        ),
        None => true,
    }
}

/// Whether a request carries the token.
#[verifier::allow_in_spec]
pub fn is_authorized(req: &HttpRequest, token: &str) -> (r: bool)
    ensures
        r == authorized(req@.headers, token@),
    returns
        authorized(req@.headers, token@),
{
    match req.headers.get("authorization") {
        Some(value) => {
            let value = text::chars_of(value.as_str());
            match text::strip_prefix_chars(value.as_slice(), "Bearer ") {
                Some(provided) => {
                    proof {
                        assert(value@ =~= "Bearer "@ + provided@);
                        assert(("Bearer "@ + token@).skip("Bearer "@.len() as int) =~= token@);
                    }
                    text::chars_eq(provided, token)
                },
                None => {
                    assert("Bearer "@.is_prefix_of("Bearer "@ + token@));
                    false
                },
            }
        },
        None => false,
    }
}

/// The JSON value in the body of a request.
pub open spec fn json_body(req: RequestView) -> Result<Json, Failure> {
    if req.headers.contains_key("content-type"@) && "application/json"@.is_prefix_of(
        req.headers["content-type"@],
    ) {
        match json::json_document(req.body) {
            Ok(value) => Ok(value),
            Err(e) => Err(Failure::InvalidJson(e)),
        }
    } else {
        Err(Failure::ExpectedJson)
    }
}

/// Reads the JSON value in the body of a request.
pub fn parse_json_body(req: &HttpRequest) -> (r: Result<Value, ApiError>)
    ensures
        answer(r) == json_body(req@),
{
    let expected = match req.headers.get("content-type") {
        Some(value) => {
            let value = text::chars_of(value.as_str());
            text::strip_prefix_chars(value.as_slice(), "application/json").is_some()
        },
        None => false,
    };
    if !expected {
        return Err(ApiError::ExpectedJson);
    }
    match json::json_from_slice(req.body.as_slice()) {
        Ok(value) => Ok(value),
        Err(e) => Err(ApiError::InvalidJson(e)),
    }
}

/// What the driver and the daemon say of themselves, as a JSON object.
pub open spec fn status_json(
    info: GetInfoCmd,
    version_code: Seq<char>,
    version_name: Seq<char>,
    safe_mode: bool,
) -> Json {
    json::object_of(
        seq![
            ("kernel_version"@, Json::Unsigned(info.version as u64)),
            ("kernel_flags"@, Json::Unsigned(info.flags as u64)),
            ("kernel_features"@, Json::Unsigned(info.features as u64)),
            ("kernel_uapi_version"@, Json::Unsigned(info.uapi_version as u64)),
            ("ksud_version_code"@, Json::Str(text::trim(version_code))),
            ("ksud_version_name"@, Json::Str(text::trim(version_name))),
            ("safe_mode"@, Json::Bool(safe_mode)),
        ],
    )
}

/// Answers with what the driver and the daemon say of themselves.
pub fn handle_status(
    info: &GetInfoCmd,
    version_code: &str,
    version_name: &str,
    safe_mode: bool,
) -> (r: Value)
    ensures
        json::json(r) == status_json(*info, version_code@, version_name@, safe_mode),
{
    let code = text::trim_str(version_code);
    let name = text::trim_str(version_name);
    let fields = vec![
        ("kernel_version".to_string(), json::json_number(info.version as u64)),
        ("kernel_flags".to_string(), json::json_number(info.flags as u64)),
        ("kernel_features".to_string(), json::json_number(info.features as u64)),
        ("kernel_uapi_version".to_string(), json::json_number(info.uapi_version as u64)),
        ("ksud_version_code".to_string(), json::json_string(code.as_str())),
        ("ksud_version_name".to_string(), json::json_string(name.as_str())),
        ("safe_mode".to_string(), json::json_bool(safe_mode)),
    ];
    assert(json::field_views(fields@) =~= seq![
        ("kernel_version"@, Json::Unsigned(info.version as u64)),
        ("kernel_flags"@, Json::Unsigned(info.flags as u64)),
        ("kernel_features"@, Json::Unsigned(info.features as u64)),
        ("kernel_uapi_version"@, Json::Unsigned(info.uapi_version as u64)),
        ("ksud_version_code"@, Json::Str(code@)),
        ("ksud_version_name"@, Json::Str(name@)),
        ("safe_mode"@, Json::Bool(safe_mode)),
    ]);
    proof {
        reveal_strlit("kernel_version");
        reveal_strlit("kernel_flags");
        reveal_strlit("kernel_features");
        reveal_strlit("kernel_uapi_version");
        reveal_strlit("ksud_version_code");
        reveal_strlit("ksud_version_name");
        reveal_strlit("safe_mode");
        let views = json::field_views(fields@);
        assert(views[0].0.len() == 14 && views[1].0.len() == 12 && views[2].0.len() == 15
            && views[3].0.len() == 19 && views[4].0.len() == 17 && views[5].0.len() == 17
            && views[6].0.len() == 9 && views[4].0[13] == 'c' && views[5].0[13] == 'n');
    }
    json::json_object(fields)
}

/// What a request to the API asks for.
pub enum ApiTask {
    Status,
    Features,
    Modules,
    SuRequests,
    FeaturePatch(FeaturePatch),
    ModuleAction(ModuleAction),
    SuDecision(SuDecision),
}

/// What is asked for.
pub enum TaskView {
    Status,
    Features,
    Modules,
    SuRequests,
    FeaturePatch(FeaturePatchView),
    ModuleAction(ModuleActionView),
    SuDecision(SuDecisionView),
}

impl View for ApiTask {
    type V = TaskView;

    open spec fn view(&self) -> TaskView {
        match self {
            ApiTask::Status => TaskView::Status,
            ApiTask::Features => TaskView::Features,
            ApiTask::Modules => TaskView::Modules,
            ApiTask::SuRequests => TaskView::SuRequests,
            ApiTask::FeaturePatch(patch) => TaskView::FeaturePatch(patch@),
            ApiTask::ModuleAction(action) => TaskView::ModuleAction(action@),
            ApiTask::SuDecision(decision) => TaskView::SuDecision(decision@),
        }
    }
}

/// The path of a request, without what follows the first `?`.
pub open spec fn path_of(target: Seq<char>) -> Seq<char> {
    text::split_on(target, seq!['?'])[0]
}

/// What a request under the modules asks for.
pub open spec fn module_task(rest: Seq<char>) -> Result<TaskView, Failure> {
    let parts = text::split_on(rest, seq!['/']);
    if parts.len() < 2 {
        Err(Failure::MissingModuleAction)
    } else {
        Ok(TaskView::ModuleAction(ModuleActionView { id: parts[0], action: parts[1] }))
    }
}

/// What a request under the requests for root asks for.
pub open spec fn su_task(
    req: RequestView,
    pending: Map<u64, SuRequestView>,
    rest: Seq<char>,
) -> Result<TaskView, Failure> {
    match text::strip_suffix(rest, "/decision"@) {
        None => Err(Failure::UnknownSuEndpoint),
        Some(id) => match number::unsigned_up_to(id, u64::MAX as nat) {
            None => Err(Failure::InvalidRequestId),
            Some(request_id) => match decision::su_decision(req, pending, request_id as u64) {
                Ok(decision) => Ok(TaskView::SuDecision(decision)),
                Err(e) => Err(e),
            },
        },
    }
}

/// What a request to the API asks for.
pub open spec fn api_task(req: RequestView, pending: Map<u64, SuRequestView>) -> Result<
    TaskView,
    Failure,
> {
    let path = path_of(req.path);
    if req.method == "GET"@ && path == "/api/v1/status"@ {
        Ok(TaskView::Status)
    } else if req.method == "GET"@ && path == "/api/v1/features"@ {
        Ok(TaskView::Features)
    } else if req.method == "GET"@ && path == "/api/v1/modules"@ {
        Ok(TaskView::Modules)
    } else if req.method == "GET"@ && path == "/api/v1/su/requests"@ {
        Ok(TaskView::SuRequests)
    } else if req.method == "PATCH"@ && text::strip_prefix(path, "/api/v1/features/"@) is Some {
        match feature::feature_patch(req, text::strip_prefix(path, "/api/v1/features/"@)->0) {
            Ok(patch) => Ok(TaskView::FeaturePatch(patch)),
            Err(e) => Err(e),
        }
    } else if req.method == "POST"@ && text::strip_prefix(path, "/api/v1/modules/"@) is Some {
        module_task(text::strip_prefix(path, "/api/v1/modules/"@)->0)
    } else if req.method == "POST"@ && text::strip_prefix(path, "/api/v1/su/requests/"@) is Some {
        su_task(req, pending, text::strip_prefix(path, "/api/v1/su/requests/"@)->0)
    } else {
        Err(Failure::NotFound)
    }
}

/// What a decision of `route_api` holds.
pub open spec fn task_view(r: Result<ApiTask, ApiError>) -> Result<TaskView, Failure> {
    match r {
        Ok(task) => Ok(task@),
        Err(e) => Err(e@),
    }
}

fn path_chars(target: &str) -> (path: Vec<char>)
    ensures
        path@ == path_of(target@),
{
    let target = text::chars_of(target);
    let mark = ['?'];
    assert(mark@ =~= seq!['?']);
    let parts = text::split_chars(target.as_slice(), &mark);
    assert(text::slices(parts@)[0] == parts@[0]@);
    vstd::slice::slice_to_vec(parts[0])
}

fn route_module(rest: &[char]) -> (r: Result<ApiTask, ApiError>)
    ensures
        task_view(r) == module_task(rest@),
{
    let slash = ['/'];
    assert(slash@ =~= seq!['/']);
    let parts = text::split_chars(rest, &slash);
    assert(text::slices(parts@).len() == parts@.len());
    if parts.len() < 2 {
        return Err(ApiError::MissingModuleAction);
    }
    Ok(
        ApiTask::ModuleAction(
            ModuleAction { id: text::string_of(parts[0]), action: text::string_of(parts[1]) },
        ),
    )
}

fn route_su(req: &HttpRequest, state: &WebState, rest: &[char]) -> (r: Result<ApiTask, ApiError>)
    ensures
        task_view(r) == su_task(req@, state@, rest@),
{
    let id = match text::strip_suffix_chars(rest, "/decision") {
        Some(id) => id,
        None => return Err(ApiError::UnknownSuEndpoint),
    };
    let request_id = match number::parse_unsigned(id, u64::MAX) {
        Some(request_id) => request_id,
        None => return Err(ApiError::InvalidRequestId),
    };
    match decision::read_su_decision(req, state, request_id) {
        Ok(decision) => Ok(ApiTask::SuDecision(decision)),
        Err(e) => Err(e),
    }
}

/// Finds out what a request to the API asks for.
pub fn route_api(req: &HttpRequest, state: &WebState) -> (r: Result<ApiTask, ApiError>)
    ensures
        task_view(r) == api_task(req@, state@),
{
    let path = path_chars(req.path.as_str());
    let path = path.as_slice();
    let method = req.method.as_str();
    if text::str_eq(method, "GET") {
        if text::chars_eq(path, "/api/v1/status") {
            return Ok(ApiTask::Status);
        }
        if text::chars_eq(path, "/api/v1/features") {
            return Ok(ApiTask::Features);
        }
        if text::chars_eq(path, "/api/v1/modules") {
            return Ok(ApiTask::Modules);
        }
        if text::chars_eq(path, "/api/v1/su/requests") {
            return Ok(ApiTask::SuRequests);
        }
    }
    if text::str_eq(method, "PATCH") {
        if let Some(name) = text::strip_prefix_chars(path, "/api/v1/features/") {
            let name = text::string_of(name);
            return match feature::read_feature_patch(req, name.as_str()) {
                Ok(patch) => Ok(ApiTask::FeaturePatch(patch)),
                Err(e) => Err(e),
            };
        }
    }
    if text::str_eq(method, "POST") {
        if let Some(rest) = text::strip_prefix_chars(path, "/api/v1/modules/") {
            return route_module(rest);
        }
        if let Some(rest) = text::strip_prefix_chars(path, "/api/v1/su/requests/") {
            return route_su(req, state, rest);
        }
    }
    Err(ApiError::NotFound)
}

/// Whether a request with this method is meant to change something.
pub open spec fn changes(method: Seq<char>) -> bool {
    method == "POST"@ || method == "PATCH"@ || method == "PUT"@ || method == "DELETE"@
}

/// How a connection goes on once its request is read.
pub enum Reply {
    /// Send these bytes.
    Send(Vec<u8>),
    /// Carry this out, then send what `write_answer` makes of the answer.
    Perform(ApiTask),
}

/// How a connection goes on.
pub enum ReplyView {
    Send(Seq<u8>),
    Perform(TaskView),
}

impl View for Reply {
    type V = ReplyView;

    open spec fn view(&self) -> ReplyView {
        match self {
            Reply::Send(bytes) => ReplyView::Send(bytes@),
            Reply::Perform(task) => ReplyView::Perform(task@),
        }
    }
}

/// An error, as a JSON object.
pub open spec fn error_json(message: Seq<char>) -> Json {
    json::object_of(seq![("error"@, Json::Str(message))])
}

/// The bytes of a response that holds an error, or the message of the error in
/// writing it.
pub open spec fn error_reply(status: Seq<char>, message: Seq<char>) -> Result<
    ReplyView,
    Seq<char>,
> {
    match response::json_response(status, error_json(message)) {
        Ok(bytes) => Ok(ReplyView::Send(bytes)),
        Err(e) => Err(e),
    }
}

/// The response to the answer of the API.
pub open spec fn answer_response(r: Result<Json, Failure>) -> Result<Seq<u8>, Seq<char>> {
    match r {
        Ok(value) => response::json_response("200 OK"@, value),
        Err(e) => response::json_response("400 Bad Request"@, error_json(e.message())),
    }
}

/// Whether a request is one to the API.
pub open spec fn to_the_api(req: RequestView) -> bool {
    "/api/"@.is_prefix_of(path_of(req.path))
}

/// How a connection goes on once its request is read.
pub open spec fn reply(
    req: RequestView,
    token: Seq<char>,
    pending: Map<u64, SuRequestView>,
) -> Result<ReplyView, Seq<char>> {
    let path = path_of(req.path);
    if to_the_api(req) {
        if !authorized(req.headers, token) {
            error_reply("401 Unauthorized"@, "unauthorized"@)
        } else if changes(req.method) && !allowed_origin(req.headers) {
            error_reply("403 Forbidden"@, "bad origin"@)
        } else {
            match api_task(req, pending) {
                Ok(task) => Ok(ReplyView::Perform(task)),
                Err(e) => error_reply("400 Bad Request"@, e.message()),
            }
        }
    } else if req.method == "GET"@ && (path == "/"@ || path == "/index.html"@) {
        Ok(
            ReplyView::Send(
                response::response(
                    "200 OK"@,
                    "text/html; charset=utf-8"@,
                    vstd::utf8::encode_utf8(page::INDEX_HTML@),
                ),
            ),
        )
    } else {
        Ok(
            ReplyView::Send(
                response::response(
                    "404 Not Found"@,
                    "text/plain; charset=utf-8"@,
                    vstd::utf8::encode_utf8("not found\n"@),
                ),
            ),
        )
    }
}

fn error_to_json(message: &str) -> (r: Value)
    ensures
        json::json(r) == error_json(message@),
{
    let fields = vec![("error".to_string(), json::json_string(message))];
    assert(json::field_views(fields@) =~= seq![("error"@, Json::Str(message@))]);
    json::json_object(fields)
}

fn write_error(status: &str, message: &str) -> (r: Result<Reply, String>)
    ensures
        match r {
            Ok(sent) => error_reply(status@, message@) == Ok::<ReplyView, Seq<char>>(sent@),
            Err(e) => error_reply(status@, message@) == Err::<ReplyView, Seq<char>>(e@),
        },
{
    let body = error_to_json(message);
    match response::write_json(status, &body) {
        Ok(bytes) => Ok(Reply::Send(bytes)),
        Err(e) => Err(e),
    }
}

/// Writes the response to an answer of the API.
pub fn write_answer(answered: &Result<Value, ApiError>) -> (r: Result<Vec<u8>, String>)
    ensures
        match r {
            Ok(bytes) => answer_response(answer(*answered)) == Ok::<Seq<u8>, Seq<char>>(bytes@),
            Err(e) => answer_response(answer(*answered)) == Err::<Seq<u8>, Seq<char>>(e@),
        },
{
    match answered {
        Ok(value) => response::write_json("200 OK", value),
        Err(e) => {
            let message = e.message();
            let body = error_to_json(message.as_str());
            response::write_json("400 Bad Request", &body)
        },
    }
}

/// Decides how a connection goes on once its request is read. A request to the
/// API must carry the token; one that is meant to change something must not
/// come from another page.
pub fn handle_connection(req: &HttpRequest, token: &str, state: &WebState) -> (r: Result<
    Reply,
    String,
>)
    ensures
        match r {
            Ok(next) => reply(req@, token@, state@) == Ok::<ReplyView, Seq<char>>(next@),
            Err(e) => reply(req@, token@, state@) == Err::<ReplyView, Seq<char>>(e@),
        },
{
    let path = path_chars(req.path.as_str());
    let path = path.as_slice();
    let method = req.method.as_str();
    if text::strip_prefix_chars(path, "/api/").is_some() {
        if !is_authorized(req, token) {
            return write_error("401 Unauthorized", "unauthorized");
        }
        let changes = text::str_eq(method, "POST") || text::str_eq(method, "PATCH")
            || text::str_eq(method, "PUT") || text::str_eq(method, "DELETE");
        if changes && !origin_allowed(req) {
            return write_error("403 Forbidden", "bad origin");
        }
        match route_api(req, state) {
            Ok(task) => Ok(Reply::Perform(task)),
            Err(e) => {
                let message = e.message();
                write_error("400 Bad Request", message.as_str())
            },
        }
    } else if text::str_eq(method, "GET") && (text::chars_eq(path, "/") || text::chars_eq(
        path,
        "/index.html",
    )) {
        Ok(
            Reply::Send(
                response::write_response(
                    "200 OK",
                    "text/html; charset=utf-8",
                    page::INDEX_HTML.as_bytes(),
                ),
            ),
        )
    } else {
        Ok(
            Reply::Send(
                response::write_response(
                    "404 Not Found",
                    "text/plain; charset=utf-8",
                    "not found\n".as_bytes(),
                ),
            ),
        )
    }
}

/// A request to the API without the token is answered as unauthorized, whatever
/// it asks for and whatever waits.
pub proof fn law_no_answer_without_the_token(
    req: RequestView,
    token: Seq<char>,
    pending: Map<u64, SuRequestView>,
)
    requires
        to_the_api(req),
        !authorized(req.headers, token),
    ensures
        reply(req, token, pending) == error_reply("401 Unauthorized"@, "unauthorized"@),
{
}

/// A request to the API that is meant to change something and comes from
/// another page is refused, whatever it asks for and whatever waits.
pub proof fn law_no_change_from_another_page(
    req: RequestView,
    token: Seq<char>,
    pending: Map<u64, SuRequestView>,
)
    requires
        to_the_api(req),
        authorized(req.headers, token),
        changes(req.method),
        !allowed_origin(req.headers),
    ensures
        reply(req, token, pending) == error_reply("403 Forbidden"@, "bad origin"@),
{
}

/// Only a request to the API with the token is carried out, and only one that
/// does not come from another page if it changes anything.
pub proof fn law_what_is_carried_out(
    req: RequestView,
    token: Seq<char>,
    pending: Map<u64, SuRequestView>,
)
    requires
        reply(req, token, pending) matches Ok(ReplyView::Perform(_)),
    ensures
        to_the_api(req),
        authorized(req.headers, token),
        reply(req, token, pending) matches Ok(ReplyView::Perform(task)) && (task is FeaturePatch
            || task is ModuleAction || task is SuDecision ==> allowed_origin(req.headers)),
{
}

/// A `GET` request changes nothing: it asks for the status, the features, the
/// modules or the requests that wait, or for nothing that there is.
pub proof fn law_get_only_reads(req: RequestView, pending: Map<u64, SuRequestView>)
    requires
        req.method == "GET"@,
    ensures
        match api_task(req, pending) {
            Ok(task) => task is Status || task is Features || task is Modules || task
                is SuRequests,
            Err(e) => e is NotFound,
        },
{
    reveal_strlit("GET");
    reveal_strlit("PATCH");
    reveal_strlit("POST");
    assert("GET"@.len() == 3 && "PATCH"@.len() == 5 && "POST"@.len() == 4);
}

/// The page and whatever is not of the API is answered in the same way with
/// any token and whatever waits.
pub proof fn law_page_needs_no_token(
    req: RequestView,
    token: Seq<char>,
    pending: Map<u64, SuRequestView>,
    other_token: Seq<char>,
    other_pending: Map<u64, SuRequestView>,
)
    requires
        !to_the_api(req),
    ensures
        reply(req, token, pending) == reply(req, other_token, other_pending),
        reply(req, token, pending) matches Ok(ReplyView::Send(_)),
{
}

/// The path is what stands before the first `?`.
proof fn lemma_path_of(path: Seq<char>, query: Seq<char>)
    requires
        !path.contains('?'),
    ensures
        path_of(path) == path,
        path_of(path + seq!['?'] + query) == path,
{
    let mark = seq!['?'];
    let target = path + mark + query;
    assert forall|j: int| 0 <= j < path.len() implies !#[trigger] text::occurs_at(
        target,
        mark,
        j,
    ) by {
        if text::occurs_at(target, mark, j) {
            assert(target.subrange(j, j + 1)[0] == mark[0]);
            assert(path[j] == '?');
        }
    }
    assert forall|j: int| !#[trigger] text::occurs_at(path, mark, j) by {
        if text::occurs_at(path, mark, j) {
            assert(path.subrange(j, j + 1)[0] == mark[0]);
            assert(path[j] == '?');
        }
    }
    assert(target.subrange(path.len() as int, path.len() as int + 1) =~= mark);
    text::lemma_find_is(target, mark, path.len() as int);
    assert(target.take(path.len() as int) =~= path);
    text::lemma_find_from(path, mark, 0);
}

/// What follows a `?` in the path of a request plays no part.
pub proof fn law_query_plays_no_part(
    req: RequestView,
    query: Seq<char>,
    token: Seq<char>,
    pending: Map<u64, SuRequestView>,
)
    requires
        !req.path.contains('?'),
    ensures
        reply(
            RequestView { path: req.path + seq!['?'] + query, ..req },
            token,
            pending,
        ) == reply(req, token, pending),
{
    lemma_path_of(req.path, query);
}

/// A decision is sent to the path that holds the id of its request, in decimal
/// digits.
pub proof fn law_decision_finds_its_request(
    req: RequestView,
    pending: Map<u64, SuRequestView>,
    request_id: u64,
)
    requires
        req.method == "POST"@,
        req.path == "/api/v1/su/requests/"@ + number::decimal(request_id as nat) + "/decision"@,
    ensures
        to_the_api(req),
        api_task(req, pending) == match decision::su_decision(req, pending, request_id) {
            Ok(decision) => Ok::<TaskView, Failure>(TaskView::SuDecision(decision)),
            Err(e) => Err(e),
        },
{
    reveal_strlit("GET");
    reveal_strlit("PATCH");
    reveal_strlit("POST");
    reveal_strlit("/api/");
    reveal_strlit("/api/v1/modules/");
    reveal_strlit("/api/v1/su/requests/");
    reveal_strlit("/decision");
    let id = number::decimal(request_id as nat);
    let path = req.path;
    let front = "/api/v1/su/requests/"@;
    let end = "/decision"@;
    number::lemma_decimal_digits(request_id as nat);
    number::law_decimal_reads_back(request_id as nat);
    assert forall|i: int| 0 <= i < path.len() implies path[i] != '?' by {
        if i < front.len() {
        } else if i < front.len() + id.len() {
            assert(number::is_digit(id[i - front.len()]));
        } else {
            assert(path[i] == end[i - front.len() - id.len()]);
        }
    }
    assert(!path.contains('?'));
    lemma_path_of(path, seq![]);
    assert(front.is_prefix_of(path));
    assert(path.skip(front.len() as int) =~= id + end);
    assert(end.is_suffix_of(id + end));
    assert((id + end).take(id.len() as int) =~= id);
    assert("POST"@.len() == 4 && "GET"@.len() == 3 && "PATCH"@.len() == 5);
    assert("/api/"@.is_prefix_of(path));
    assert(path[8] == 's' && "/api/v1/modules/"@[8] == 'm');
}

/// A feature is set through the path that holds its name.
pub proof fn law_feature_is_set_by_its_name(
    req: RequestView,
    pending: Map<u64, SuRequestView>,
    name: Seq<char>,
)
    requires
        req.method == "PATCH"@,
        req.path == "/api/v1/features/"@ + name,
        !name.contains('?'),
    ensures
        to_the_api(req),
        api_task(req, pending) == match feature::feature_patch(req, name) {
            Ok(patch) => Ok::<TaskView, Failure>(TaskView::FeaturePatch(patch)),
            Err(e) => Err(e),
        },
{
    reveal_strlit("GET");
    reveal_strlit("PATCH");
    reveal_strlit("/api/");
    reveal_strlit("/api/v1/features/");
    let path = req.path;
    let front = "/api/v1/features/"@;
    assert forall|i: int| 0 <= i < path.len() implies path[i] != '?' by {
        if i >= front.len() {
            assert(name.contains(path[i])) by {
                assert(path[i] == name[i - front.len()]);
            }
        }
    }
    assert(!path.contains('?'));
    lemma_path_of(path, seq![]);
    assert(front.is_prefix_of(path));
    assert(path.skip(front.len() as int) =~= name);
    assert("GET"@.len() == 3 && "PATCH"@.len() == 5);
    assert("/api/"@.is_prefix_of(path));
}

/// Something is done with a module through the path that holds its id and the
/// action.
pub proof fn law_module_is_reached_by_its_id(
    req: RequestView,
    pending: Map<u64, SuRequestView>,
    id: Seq<char>,
    action: Seq<char>,
)
    requires
        req.method == "POST"@,
        req.path == "/api/v1/modules/"@ + id + seq!['/'] + action,
        !id.contains('?'),
        !id.contains('/'),
        !action.contains('?'),
        !action.contains('/'),
    ensures
        to_the_api(req),
        api_task(req, pending) == Ok::<TaskView, Failure>(
            TaskView::ModuleAction(ModuleActionView { id, action }),
        ),
{
    reveal_strlit("GET");
    reveal_strlit("PATCH");
    reveal_strlit("POST");
    reveal_strlit("/api/");
    reveal_strlit("/api/v1/modules/");
    let path = req.path;
    let front = "/api/v1/modules/"@;
    let slash = seq!['/'];
    let rest = id + slash + action;
    assert forall|i: int| 0 <= i < path.len() implies path[i] != '?' by {
        if i < front.len() {
        } else if i < front.len() + id.len() {
            assert(path[i] == id[i - front.len()]);
        } else if i > front.len() + id.len() {
            assert(path[i] == action[i - front.len() - id.len() - 1]);
        }
    }
    assert(!path.contains('?'));
    lemma_path_of(path, seq![]);
    assert(front.is_prefix_of(path));
    assert(path.skip(front.len() as int) =~= rest);
    assert("POST"@.len() == 4 && "GET"@.len() == 3 && "PATCH"@.len() == 5);
    assert("/api/"@.is_prefix_of(path));
    assert forall|j: int| 0 <= j < id.len() implies !#[trigger] text::occurs_at(
        rest,
        slash,
        j,
    ) by {
        if text::occurs_at(rest, slash, j) {
            assert(rest.subrange(j, j + 1)[0] == slash[0]);
            assert(id[j] == '/');
        }
    }
    assert(rest.subrange(id.len() as int, id.len() as int + 1) =~= slash);
    text::lemma_find_is(rest, slash, id.len() as int);
    assert(rest.take(id.len() as int) =~= id);
    assert(rest.skip(id.len() as int + 1) =~= action);
    assert forall|j: int| 0 <= j implies !#[trigger] text::occurs_at(action, slash, j) by {
        if text::occurs_at(action, slash, j) {
            assert(action.subrange(j, j + 1)[0] == slash[0]);
            assert(action[j] == '/');
        }
    }
    text::lemma_find_from(action, slash, 0);
    assert(text::split_on(action, slash) == seq![action]);
    assert(text::split_on(rest, slash) =~= seq![id, action]);
}

/// A request is authorized by exactly one token: the one that follows `Bearer `
/// in its `authorization` field.
pub proof fn law_one_token_authorizes(
    headers: Map<Seq<char>, Seq<char>>,
    token: Seq<char>,
    other: Seq<char>,
)
    ensures
        authorized(headers.insert("authorization"@, "Bearer "@ + token), token),
        authorized(headers.insert("authorization"@, "Bearer "@ + token), other) ==> other == token,
        authorized(headers, token) && authorized(headers, other) ==> token == other,
        authorized(headers, token) ==> headers.contains_key("authorization"@)
            && headers["authorization"@] == "Bearer "@ + token,
        !authorized(headers.remove("authorization"@), token),
{
    let front = "Bearer "@;
    assert((front + token).skip(front.len() as int) =~= token);
    assert((front + other).skip(front.len() as int) =~= other);
}

/// A request may change something if it names no page, or one of the two
/// addresses of the own page, whatever its other fields say.
pub proof fn law_only_the_own_page_is_allowed(
    headers: Map<Seq<char>, Seq<char>>,
    origin: Seq<char>,
)
    ensures
        allowed_origin(headers.remove("origin"@)),
        allowed_origin(headers.insert("origin"@, origin)) <==> (origin == "http://127.0.0.1:9700"@
            || origin == "http://localhost:9700"@),
{
}

/// A body is read as JSON exactly where the request says that it is, and then as
/// what it holds, or refused with the words of the error.
pub proof fn law_json_body_is_what_it_holds(req: RequestView, rest: Seq<char>)
    ensures
        req.headers.contains_key("content-type"@) && req.headers["content-type"@]
            == "application/json"@ + rest ==> match json::json_document(req.body) {
            Ok(value) => json_body(req) == Ok::<Json, Failure>(value),
            Err(e) => json_body(req) == Err::<Json, Failure>(Failure::InvalidJson(e)),
        },
        !req.headers.contains_key("content-type"@) ==> json_body(req) == Err::<Json, Failure>(
            Failure::ExpectedJson,
        ),
        json_body(req) != Err::<Json, Failure>(Failure::ExpectedJson) ==> req.headers.contains_key(
            "content-type"@,
        ) && text::strip_prefix(req.headers["content-type"@], "application/json"@) is Some,
{
    assert("application/json"@.is_prefix_of("application/json"@ + rest));
}

/// The status says what the driver and the daemon say of themselves, each under
/// its name, and nothing else.
pub proof fn law_status_says_what_was_told(
    info: GetInfoCmd,
    version_code: Seq<char>,
    version_name: Seq<char>,
    safe_mode: bool,
    name: Seq<char>,
)
    ensures
        ({
            let status = status_json(info, version_code, version_name, safe_mode);
            &&& json::field(status, "kernel_version"@) == Some(Json::Unsigned(info.version as u64))
            &&& json::field(status, "kernel_flags"@) == Some(Json::Unsigned(info.flags as u64))
            &&& json::field(status, "kernel_features"@) == Some(
                Json::Unsigned(info.features as u64),
            )
            &&& json::field(status, "kernel_uapi_version"@) == Some(
                Json::Unsigned(info.uapi_version as u64),
            )
            &&& json::field(status, "ksud_version_code"@) == Some(
                Json::Str(text::trim(version_code)),
            )
            &&& json::field(status, "ksud_version_name"@) == Some(
                Json::Str(text::trim(version_name)),
            )
            &&& json::field(status, "safe_mode"@) == Some(Json::Bool(safe_mode))
            &&& json::field(status, name) is Some ==> (name == "kernel_version"@ || name
                == "kernel_flags"@ || name == "kernel_features"@ || name == "kernel_uapi_version"@
                || name == "ksud_version_code"@ || name == "ksud_version_name"@ || name
                == "safe_mode"@)
        }),
{
    reveal_strlit("kernel_version");
    reveal_strlit("kernel_flags");
    reveal_strlit("kernel_features");
    reveal_strlit("kernel_uapi_version");
    reveal_strlit("ksud_version_code");
    reveal_strlit("ksud_version_name");
    reveal_strlit("safe_mode");
    let f = seq![
        ("kernel_version"@, Json::Unsigned(info.version as u64)),
        ("kernel_flags"@, Json::Unsigned(info.flags as u64)),
        ("kernel_features"@, Json::Unsigned(info.features as u64)),
        ("kernel_uapi_version"@, Json::Unsigned(info.uapi_version as u64)),
        ("ksud_version_code"@, Json::Str(text::trim(version_code))),
        ("ksud_version_name"@, Json::Str(text::trim(version_name))),
        ("safe_mode"@, Json::Bool(safe_mode)),
    ];
    assert(f[0].0.len() == 14 && f[1].0.len() == 12 && f[2].0.len() == 15 && f[3].0.len() == 19
        && f[4].0.len() == 17 && f[5].0.len() == 17 && f[6].0.len() == 9 && f[4].0[13] == 'c'
        && f[5].0[13] == 'n');
    assert(status_json(info, version_code, version_name, safe_mode) == json::object_of(f));
    json::law_object_has_its_fields(f, name);
}

/// An error is answered with its own words where it has any, and names the
/// package that it is about.
pub proof fn law_errors_are_answered_with_their_words(e: Seq<char>)
    ensures
        Failure::InvalidJson(e).message() == e,
        Failure::Module(e).message() == e,
        Failure::Remember(e).message() == "remember app profile for "@ + e,
{
}

/// The path is what precedes the first `?`, and all of it where there is none.
pub proof fn law_path_ends_at_the_first_question_mark(path: Seq<char>, query: Seq<char>)
    requires
        !path.contains('?'),
    ensures
        path_of(path) == path,
        path_of(path + seq!['?'] + query) == path,
{
    lemma_path_of(path, query);
}

/// The four things that can be read are asked for by `GET` and their paths; no
/// method but `GET`, `PATCH` and `POST` asks for anything.
pub proof fn law_what_can_be_read(req: RequestView, pending: Map<u64, SuRequestView>)
    ensures
        ({
            let path = path_of(req.path);
            let task = api_task(req, pending);
            &&& req.method == "GET"@ && path == "/api/v1/status"@ <==> task == Ok::<
                TaskView,
                Failure,
            >(TaskView::Status)
            &&& req.method == "GET"@ && path == "/api/v1/features"@ <==> task == Ok::<
                TaskView,
                Failure,
            >(TaskView::Features)
            &&& req.method == "GET"@ && path == "/api/v1/modules"@ <==> task == Ok::<
                TaskView,
                Failure,
            >(TaskView::Modules)
            &&& req.method == "GET"@ && path == "/api/v1/su/requests"@ <==> task == Ok::<
                TaskView,
                Failure,
            >(TaskView::SuRequests)
            &&& req.method != "GET"@ && req.method != "PATCH"@ && req.method != "POST"@
                ==> task == Err::<TaskView, Failure>(Failure::NotFound)
        }),
{
    reveal_strlit("/api/v1/status");
    reveal_strlit("/api/v1/features");
    reveal_strlit("/api/v1/modules");
    reveal_strlit("/api/v1/su/requests");
    assert("/api/v1/status"@.len() == 14 && "/api/v1/features"@.len() == 16
        && "/api/v1/modules"@.len() == 15 && "/api/v1/su/requests"@.len() == 19);
}

/// A task that changes something is asked for by its method and by a path that
/// holds the name of the feature, the id and the action of the module, or the id
/// of the request.
pub proof fn law_task_is_what_the_path_says(req: RequestView, pending: Map<u64, SuRequestView>)
    ensures
        ({
            let path = path_of(req.path);
            match api_task(req, pending) {
                Ok(TaskView::FeaturePatch(p)) => {
                    &&& req.method == "PATCH"@
                    &&& path == "/api/v1/features/"@ + p.name
                    &&& feature::feature_patch(req, p.name) == Ok::<FeaturePatchView, Failure>(p)
                },
                Ok(TaskView::ModuleAction(m)) => {
                    &&& req.method == "POST"@
                    &&& !m.id.contains('/')
                    &&& !m.action.contains('/')
                    &&& path == "/api/v1/modules/"@ + m.id + seq!['/'] + m.action || exists|
                        more: Seq<char>,
                    |
                        path == #[trigger] ("/api/v1/modules/"@ + m.id + seq!['/'] + m.action
                            + seq!['/'] + more)
                },
                Ok(TaskView::SuDecision(d)) => {
                    &&& req.method == "POST"@
                    &&& decision::su_decision(req, pending, d.request_id) == Ok::<
                        SuDecisionView,
                        Failure,
                    >(d)
                    &&& exists|id: Seq<char>|
                        path == #[trigger] ("/api/v1/su/requests/"@ + id + "/decision"@)
                            && number::unsigned(id) == Some(d.request_id as nat)
                },
                _ => true,
            }
        }),
{
    let path = path_of(req.path);
    match api_task(req, pending) {
        Ok(TaskView::FeaturePatch(p)) => {
            text::law_stripped_text_is_restored(path, "/api/v1/features/"@, p.name);
        },
        Ok(TaskView::ModuleAction(m)) => {
            let rest = text::strip_prefix(path, "/api/v1/modules/"@)->0;
            let slash = seq!['/'];
            let parts = text::split_on(rest, slash);
            text::law_stripped_text_is_restored(path, "/api/v1/modules/"@, rest);
            text::law_split_parts_join_back(rest, slash);
            if m.id.contains('/') {
                let k = choose|k: int| 0 <= k < m.id.len() && m.id[k] == '/';
                assert(parts[0].subrange(k, k + slash.len()) =~= slash);
            }
            if m.action.contains('/') {
                let k = choose|k: int| 0 <= k < m.action.len() && m.action[k] == '/';
                assert(parts[1].subrange(k, k + slash.len()) =~= slash);
            }
            let tail = parts.drop_first();
            assert(rest == m.id + slash + text::joined(tail, slash));
            if parts.len() == 2 {
                assert(path =~= "/api/v1/modules/"@ + m.id + slash + m.action);
            } else {
                let more = text::joined(tail.drop_first(), slash);
                assert(tail[0] == m.action);
                assert(path =~= "/api/v1/modules/"@ + m.id + seq!['/'] + m.action + seq!['/']
                    + more);
            }
        },
        Ok(TaskView::SuDecision(d)) => {
            let rest = text::strip_prefix(path, "/api/v1/su/requests/"@)->0;
            let id = text::strip_suffix(rest, "/decision"@)->0;
            text::law_stripped_text_is_restored(path, "/api/v1/su/requests/"@, rest);
            text::law_stripped_text_is_restored(rest, "/decision"@, id);
            assert(path =~= "/api/v1/su/requests/"@ + id + "/decision"@);
            decision::law_decision_is_about_its_request(
                req,
                pending,
                number::unsigned(id)->0 as u64,
            );
        },
        _ => {},
    }
}

/// A `POST` under the modules without an action, and one under the requests that
/// is not for a decision or not for a number, is refused as such.
pub proof fn law_incomplete_paths_are_refused(
    req: RequestView,
    pending: Map<u64, SuRequestView>,
    rest: Seq<char>,
)
    requires
        req.method == "POST"@,
    ensures
        path_of(req.path) == "/api/v1/modules/"@ + rest && !rest.contains('/') ==> api_task(
            req,
            pending,
        ) == Err::<TaskView, Failure>(Failure::MissingModuleAction),
        path_of(req.path) == "/api/v1/su/requests/"@ + rest && text::strip_suffix(
            rest,
            "/decision"@,
        ) is None ==> api_task(req, pending) == Err::<TaskView, Failure>(
            Failure::UnknownSuEndpoint,
        ),
        path_of(req.path) == "/api/v1/su/requests/"@ + rest + "/decision"@ && (number::unsigned(
            rest,
        ) matches Some(n) ==> n > 18446744073709551615) ==> api_task(req, pending) == Err::<
            TaskView,
            Failure,
        >(Failure::InvalidRequestId),
{
    reveal_strlit("GET");
    reveal_strlit("PATCH");
    reveal_strlit("POST");
    reveal_strlit("/api/v1/modules/");
    reveal_strlit("/api/v1/su/requests/");
    assert("POST"@.len() == 4 && "GET"@.len() == 3 && "PATCH"@.len() == 5);
    let path = path_of(req.path);
    let slash = seq!['/'];
    if path == "/api/v1/modules/"@ + rest {
        text::law_stripped_text_is_restored(path, "/api/v1/modules/"@, rest);
        if !rest.contains('/') {
            text::law_pattern_stands_where_it_is_found(rest, slash);
            if text::find(rest, slash) is Some {
                let k = text::find(rest, slash)->0;
                assert(rest.subrange(k, k + 1)[0] == '/');
                assert(rest[k] == '/');
            }
        }
    }
    if path == "/api/v1/su/requests/"@ + rest {
        text::law_stripped_text_is_restored(path, "/api/v1/su/requests/"@, rest);
        assert(path[8] == 's' && "/api/v1/modules/"@[8] == 'm');
    }
    if path == "/api/v1/su/requests/"@ + rest + "/decision"@ {
        assert(path =~= "/api/v1/su/requests/"@ + (rest + "/decision"@));
        text::law_stripped_text_is_restored(
            path,
            "/api/v1/su/requests/"@,
            rest + "/decision"@,
        );
        text::law_stripped_text_is_restored(rest + "/decision"@, "/decision"@, rest);
        assert(path[8] == 's' && "/api/v1/modules/"@[8] == 'm');
    }
}

/// A `PATCH` that is not for a feature, and a `POST` that is neither under the
/// modules nor under the requests, finds nothing.
pub proof fn law_other_paths_find_nothing(req: RequestView, pending: Map<u64, SuRequestView>)
    ensures
        req.method == "PATCH"@ && !("/api/v1/features/"@.is_prefix_of(path_of(req.path)))
            ==> api_task(req, pending) == Err::<TaskView, Failure>(Failure::NotFound),
        req.method == "POST"@ && !("/api/v1/modules/"@.is_prefix_of(path_of(req.path)))
            && !("/api/v1/su/requests/"@.is_prefix_of(path_of(req.path))) ==> api_task(
            req,
            pending,
        ) == Err::<TaskView, Failure>(Failure::NotFound),
{
    reveal_strlit("GET");
    reveal_strlit("PATCH");
    reveal_strlit("POST");
    assert("POST"@.len() == 4 && "GET"@.len() == 3 && "PATCH"@.len() == 5);
}

/// The requests to the API are those whose path begins with `/api/`. With the
/// token, and where they are not a `POST`, `PATCH`, `PUT` or `DELETE` from
/// another page, they are carried out, or answered with 400 and the reason.
pub proof fn law_authorized_requests_are_carried_out(
    req: RequestView,
    token: Seq<char>,
    pending: Map<u64, SuRequestView>,
    rest: Seq<char>,
)
    requires
        path_of(req.path) == "/api/"@ + rest,
        req.headers.contains_key("authorization"@),
        req.headers["authorization"@] == "Bearer "@ + token,
    ensures
        to_the_api(req),
        (req.method == "POST"@ || req.method == "PATCH"@ || req.method == "PUT"@ || req.method
            == "DELETE"@) && !allowed_origin(req.headers) ==> reply(req, token, pending)
            == error_reply("403 Forbidden"@, "bad origin"@),
        (req.method != "POST"@ && req.method != "PATCH"@ && req.method != "PUT"@ && req.method
            != "DELETE"@) || allowed_origin(req.headers) ==> match api_task(req, pending) {
            Ok(task) => reply(req, token, pending) == Ok::<ReplyView, Seq<char>>(
                ReplyView::Perform(task),
            ),
            Err(e) => reply(req, token, pending) == error_reply(
                "400 Bad Request"@,
                e.message(),
            ),
        },
{
    assert("/api/"@.is_prefix_of("/api/"@ + rest));
}

/// Outside the API, a `GET` of `/` or `/index.html` is answered with the page,
/// and anything else with 404 and two words.
pub proof fn law_page_or_not_found(
    req: RequestView,
    token: Seq<char>,
    pending: Map<u64, SuRequestView>,
)
    requires
        text::strip_prefix(path_of(req.path), "/api/"@) is None,
    ensures
        reply(req, token, pending) == Ok::<ReplyView, Seq<char>>(
            ReplyView::Send(
                if req.method == "GET"@ && (path_of(req.path) == "/"@ || path_of(req.path)
                    == "/index.html"@) {
                    response::response(
                        "200 OK"@,
                        "text/html; charset=utf-8"@,
                        vstd::utf8::encode_utf8(page::INDEX_HTML@),
                    )
                } else {
                    response::response(
                        "404 Not Found"@,
                        "text/plain; charset=utf-8"@,
                        vstd::utf8::encode_utf8("not found\n"@),
                    )
                },
            ),
        ),
{
}

/// An error is answered as a JSON object that holds its message and nothing
/// else, with the status that goes with it.
pub proof fn law_errors_are_sent_as_json(
    status: Seq<char>,
    message: Seq<char>,
    name: Seq<char>,
    body: Seq<u8>,
)
    ensures
        json::field(error_json(message), "error"@) == Some(Json::Str(message)),
        json::field(error_json(message), name) is Some ==> name == "error"@,
        json::json_bytes(error_json(message)) == Ok::<Seq<u8>, Seq<char>>(body) ==> error_reply(
            status,
            message,
        ) == Ok::<ReplyView, Seq<char>>(
            ReplyView::Send(response::response(status, "application/json"@, body)),
        ),
        error_reply(status, message) is Err <==> json::json_bytes(error_json(message)) is Err,
{
    let f = seq![("error"@, Json::Str(message))];
    json::law_object_has_its_fields(f, name);
    assert(f[0].0 == "error"@);
}

/// What a task comes to is sent with 200, as it is; a failure is sent with 400
/// and its message.
pub proof fn law_answers_are_sent_as_json(value: Json, e: Failure, body: Seq<u8>)
    ensures
        json::json_bytes(value) == Ok::<Seq<u8>, Seq<char>>(body) ==> answer_response(Ok(value))
            == Ok::<Seq<u8>, Seq<char>>(
            response::response("200 OK"@, "application/json"@, body),
        ),
        json::json_bytes(error_json(e.message())) == Ok::<Seq<u8>, Seq<char>>(body)
            ==> answer_response(Err(e)) == Ok::<Seq<u8>, Seq<char>>(
            response::response("400 Bad Request"@, "application/json"@, body),
        ),
        json::json_bytes(value) matches Err(m) ==> answer_response(Ok(value)) == Err::<
            Seq<u8>,
            Seq<char>,
        >(m),
{
}

/// An answer holds what its value holds, or the failure that its error is.
pub proof fn law_answer_is_the_value_or_the_failure(value: Value, e: ApiError)
    ensures
        answer(Ok(value)) == Ok::<Json, Failure>(json::json(value)),
        answer(Err(e)) == Err::<Json, Failure>(e@),
{
}

/// A `POST` under the modules is about the module in the first part of the rest
/// of the path and the action in the second, whatever parts follow.
pub proof fn law_further_parts_are_ignored(
    req: RequestView,
    pending: Map<u64, SuRequestView>,
    id: Seq<char>,
    action: Seq<char>,
    more: Seq<char>,
)
    requires
        req.method == "POST"@,
        path_of(req.path) == "/api/v1/modules/"@ + id + seq!['/'] + action + seq!['/'] + more,
        !id.contains('/'),
        !action.contains('/'),
    ensures
        api_task(req, pending) == Ok::<TaskView, Failure>(
            TaskView::ModuleAction(ModuleActionView { id, action }),
        ),
{
    reveal_strlit("GET");
    reveal_strlit("PATCH");
    reveal_strlit("POST");
    assert("POST"@.len() == 4 && "GET"@.len() == 3 && "PATCH"@.len() == 5);
    let slash = seq!['/'];
    let rest = id + slash + action + slash + more;
    let path = path_of(req.path);
    assert(path =~= "/api/v1/modules/"@ + rest);
    text::law_stripped_text_is_restored(path, "/api/v1/modules/"@, rest);
    lemma_one_part(id);
    lemma_one_part(action);
    assert(rest =~= id + slash + (action + slash + more));
    text::law_split_parts_come_in_turn(id, '/', action + slash + more);
    text::law_split_parts_come_in_turn(action, '/', more);
    let parts = text::split_on(rest, slash);
    text::law_split_parts_join_back(more, slash);
    assert(parts[0] == id && parts[1] == action && parts.len() >= 2);
}

proof fn lemma_one_part(s: Seq<char>)
    requires
        !s.contains('/'),
    ensures
        text::split_on(s, seq!['/']) == seq![s],
{
    text::law_pattern_stands_where_it_is_found(s, seq!['/']);
    if text::find(s, seq!['/']) is Some {
        let k = text::find(s, seq!['/'])->0;
        assert(s.subrange(k, k + 1)[0] == '/');
        assert(s[k] == '/');
    }
}

/// A decision is about the request whose id its path reads as, however the number
/// is written.
pub proof fn law_decision_is_found_by_number(
    req: RequestView,
    pending: Map<u64, SuRequestView>,
    id: Seq<char>,
    request_id: u64,
)
    requires
        req.method == "POST"@,
        path_of(req.path) == "/api/v1/su/requests/"@ + id + "/decision"@,
        number::unsigned(id) == Some(request_id as nat),
    ensures
        api_task(req, pending) == match decision::su_decision(req, pending, request_id) {
            Ok(decision) => Ok::<TaskView, Failure>(TaskView::SuDecision(decision)),
            Err(e) => Err(e),
        },
{
    reveal_strlit("GET");
    reveal_strlit("PATCH");
    reveal_strlit("POST");
    reveal_strlit("/api/v1/modules/");
    reveal_strlit("/api/v1/su/requests/");
    assert("POST"@.len() == 4 && "GET"@.len() == 3 && "PATCH"@.len() == 5);
    let path = path_of(req.path);
    let rest = id + "/decision"@;
    assert(path =~= "/api/v1/su/requests/"@ + rest);
    text::law_stripped_text_is_restored(path, "/api/v1/su/requests/"@, rest);
    text::law_stripped_text_is_restored(rest, "/decision"@, id);
    assert(path[8] == 's' && "/api/v1/modules/"@[8] == 'm');
}

/// A request is authorized by the token that its field holds behind `Bearer `, and
/// its page is allowed where it names none or the own one.
pub proof fn law_requests_are_judged_by_their_fields(req: &HttpRequest, token: &str)
    ensures
        is_authorized(req, token) <==> (req.headers@.contains_key("authorization"@)
            && req.headers@["authorization"@] == "Bearer "@ + token@),
        origin_allowed(req) <==> (!req.headers@.contains_key("origin"@) || req.headers@["origin"@]
            == "http://127.0.0.1:9700"@ || req.headers@["origin"@] == "http://localhost:9700"@),
{
}

} // verus!
