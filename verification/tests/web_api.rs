use ksud::api::{
    handle_connection, handle_status, is_authorized, origin_allowed, parse_json_body, route_api,
    write_answer, ApiError, ApiTask, Reply,
};
use ksud::decision::{handle_su_decision, DecisionEvent, DecisionStep, SuDecision};
use ksud::feature::{
    feature_id_by_name, feature_names, handle_feature_patch, handle_features, FeaturePatch,
    PatchEvent, PatchStep,
};
use ksud::http::{parse_http_request, Headers, HttpRequest, ReadStep, RequestReader};
use ksud::ksucalls::GetInfoCmd;
use ksud::modules::{
    handle_module_action, handle_modules, ModuleAction, ModuleEvent, ModuleOperation, ModuleStep,
};
use ksud::page::INDEX_HTML;
use ksud::response::{write_json, write_response};
use ksud::su::WebState;
use serde_json::Value;
use std::collections::HashMap;

const TOKEN: &str = "secret";

fn request(method: &str, path: &str, headers: &[(&str, &str)], body: &str) -> HttpRequest {
    let mut fields = Headers::new();
    for (name, value) in headers {
        fields.insert(name.to_string(), value.to_string());
    }
    HttpRequest {
        method: method.to_string(),
        path: path.to_string(),
        headers: fields,
        body: body.as_bytes().to_vec(),
    }
}

const JSON: (&str, &str) = ("content-type", "application/json");
const AUTH: (&str, &str) = ("authorization", "Bearer secret");

fn post(path: &str, body: &str) -> HttpRequest {
    request("POST", path, &[AUTH, JSON], body)
}

fn patch(path: &str, body: &str) -> HttpRequest {
    request("PATCH", path, &[AUTH, JSON], body)
}

fn get(path: &str) -> HttpRequest {
    request("GET", path, &[AUTH], "")
}

fn waiting(ids: &[u64]) -> WebState {
    let mut state = WebState::new();
    let mut packages = HashMap::new();
    packages.insert(10001u32, vec!["com.a".to_string(), "com.b".to_string()]);
    for id in ids {
        let mut payload = vec![0u8; 444];
        payload[8..16].copy_from_slice(&id.to_le_bytes());
        let uid: u32 = if *id == 0 { 5 } else { 10001 };
        payload[24..28].copy_from_slice(&uid.to_le_bytes());
        state.record(&payload, &packages);
    }
    state
}

fn task(req: &HttpRequest, state: &WebState) -> ApiTask {
    match route_api(req, state) {
        Ok(task) => task,
        Err(e) => panic!("{}", e.message()),
    }
}

fn refusal(req: &HttpRequest, state: &WebState) -> String {
    match route_api(req, state) {
        Ok(_) => panic!("not refused"),
        Err(e) => e.message(),
    }
}

fn sent(req: &HttpRequest, state: &WebState) -> String {
    match handle_connection(req, TOKEN, state) {
        Ok(Reply::Send(bytes)) => String::from_utf8(bytes).unwrap(),
        _ => panic!("nothing sent"),
    }
}

fn json_of(text: &str) -> Value {
    serde_json::from_str(text).unwrap()
}

#[test]
fn a_response_is_written() {
    let bytes = write_response("200 OK", "text/plain", b"a\r\n\r\nb");
    assert_eq!(
        String::from_utf8(bytes).unwrap(),
        "HTTP/1.1 200 OK\r\nContent-Type: text/plain\r\nContent-Length: 6\r\nCache-Control: \
         no-store\r\nConnection: close\r\n\r\na\r\n\r\nb"
    );
    let empty = write_response("404 Not Found", "x", b"");
    assert!(String::from_utf8(empty).unwrap().contains("\r\nContent-Length: 0\r\n"));
}

#[test]
fn a_json_response_is_written() {
    let bytes = write_json("200 OK", &json_of("{\"b\":[1,-2,1.5,null],\"a\":\"\\u00e4\"}")).unwrap();
    assert_eq!(
        String::from_utf8(bytes).unwrap(),
        "HTTP/1.1 200 OK\r\nContent-Type: application/json\r\nContent-Length: 30\r\nCache-Control: \
         no-store\r\nConnection: close\r\n\r\n{\"a\":\"ä\",\"b\":[1,-2,1.5,null]}"
    );
}

#[test]
fn a_response_reads_as_it_was_written() {
    let bytes = write_response("200 OK", "text/plain", b"body");
    match parse_http_request(RequestReader::new(), &bytes) {
        ReadStep::Done(Ok(read)) => {
            assert_eq!(read.method, "HTTP/1.1");
            assert_eq!(read.headers.get("content-length").cloned(), Some("4".to_string()));
            assert_eq!(read.headers.get("connection").cloned(), Some("close".to_string()));
            assert_eq!(read.body, b"body");
        }
        _ => panic!("not read"),
    }
}

#[test]
fn the_token_is_compared() {
    assert!(is_authorized(&get("/"), TOKEN));
    assert!(!is_authorized(&get("/"), "secre"));
    assert!(!is_authorized(&get("/"), "secret2"));
    assert!(!is_authorized(&request("GET", "/", &[], ""), TOKEN));
    for value in ["secret", "bearer secret", "Bearer  secret", "Bearer secret ", "Basic secret"] {
        assert!(!is_authorized(&request("GET", "/", &[("authorization", value)], ""), TOKEN));
    }
}

#[test]
fn origins_are_local() {
    assert!(origin_allowed(&get("/")));
    for (origin, allowed) in [
        ("http://127.0.0.1:9700", true),
        ("http://localhost:9700", true),
        ("https://localhost:9700", false),
        ("http://localhost", false),
        ("null", false),
        ("", false),
    ] {
        assert_eq!(origin_allowed(&request("POST", "/", &[("origin", origin)], "")), allowed);
    }
}

#[test]
fn a_json_body_is_read() {
    let value = parse_json_body(&post("/", "{\"a\":[1,true]}")).unwrap();
    assert_eq!(value["a"][0].as_u64(), Some(1));
    let with_charset = [("content-type", "application/json; charset=utf-8")];
    assert!(parse_json_body(&request("POST", "/", &with_charset, "1")).is_ok());
    for headers in [&[][..], &[("content-type", "text/plain")][..]] {
        let e = parse_json_body(&request("POST", "/", headers, "1")).unwrap_err();
        assert_eq!(e.message(), "expected application/json");
    }
    let e = parse_json_body(&post("/", "{")).unwrap_err();
    assert_eq!(e.message(), serde_json::from_str::<Value>("{").unwrap_err().to_string());
    assert!(matches!(e, ApiError::InvalidJson(_)));
}

#[test]
fn features_have_names_and_numbers() {
    let names = feature_names();
    for (i, (name, id, _)) in names.iter().enumerate() {
        assert_eq!(*id as usize, i);
        assert_eq!(feature_id_by_name(name), Some(*id));
    }
    assert_eq!(names[0], ("su_compat", 0, "SU compatibility mode"));
    assert_eq!(names[1], ("kernel_umount", 1, "Kernel umount"));
    assert_eq!(names[2], ("sulog", 2, "SU log"));
    assert_eq!(names[3], ("adb_root", 3, "ADB root"));
    assert_eq!(names[4], ("selinux_hide", 4, "SELinux hide"));
    assert_eq!(names[5], ("web_su_prompt", 5, "Local web SU prompt"));
    assert_eq!(feature_id_by_name(""), None);
    assert_eq!(feature_id_by_name("SULOG"), None);
}

#[test]
fn the_status_is_answered() {
    let info = GetInfoCmd { version: 4294967295, flags: 1, features: 2, uapi_version: 3 };
    assert_eq!(
        handle_status(&info, " 123\n", "v1.0 x\r\n", true).to_string(),
        "{\"kernel_features\":2,\"kernel_flags\":1,\"kernel_uapi_version\":3,\
         \"kernel_version\":4294967295,\"ksud_version_code\":\"123\",\
         \"ksud_version_name\":\"v1.0 x\",\"safe_mode\":true}"
    );
}

#[test]
fn the_features_are_answered() {
    let answer = handle_features(&[Some((7, true)), None, Some((0, true))]);
    let features = answer["features"].as_array().unwrap();
    assert_eq!(features.len(), 6);
    assert_eq!(
        features[0].to_string(),
        "{\"description\":\"SU compatibility mode\",\"enabled\":true,\"id\":0,\
         \"name\":\"su_compat\",\"supported\":true,\"value\":7}"
    );
    assert_eq!(
        features[1].to_string(),
        "{\"description\":\"Kernel umount\",\"enabled\":false,\"id\":1,\
         \"name\":\"kernel_umount\",\"supported\":false,\"value\":0}"
    );
    assert_eq!(features[2]["supported"].as_bool(), Some(true));
    assert_eq!(features[2]["enabled"].as_bool(), Some(false));
    assert_eq!(features[5]["id"].as_u64(), Some(5));
    assert_eq!(features[5]["supported"].as_bool(), Some(false));
}

#[test]
fn the_modules_are_answered() {
    assert_eq!(
        handle_modules(json_of("[{\"id\":\"a\"}]")).to_string(),
        "{\"modules\":[{\"id\":\"a\"}]}"
    );
}

#[test]
fn get_routes_are_exact() {
    let state = WebState::new();
    assert!(matches!(task(&get("/api/v1/status"), &state), ApiTask::Status));
    assert!(matches!(task(&get("/api/v1/status?x"), &state), ApiTask::Status));
    assert!(matches!(task(&get("/api/v1/features"), &state), ApiTask::Features));
    assert!(matches!(task(&get("/api/v1/modules"), &state), ApiTask::Modules));
    assert!(matches!(task(&get("/api/v1/su/requests?a?b"), &state), ApiTask::SuRequests));
    for path in ["/api/v1/status/", "/api/v1/features/sulog", "/api/v1/modules/a/enable", "/"] {
        assert_eq!(refusal(&get(path), &state), "not found");
    }
    assert_eq!(refusal(&post("/api/v1/status", ""), &state), "not found");
    assert_eq!(refusal(&request("get", "/api/v1/status", &[AUTH], ""), &state), "not found");
}

fn feature_task(name: &str, body: &str) -> FeaturePatch {
    let path = format!("/api/v1/features/{}", name);
    match task(&patch(&path, body), &WebState::new()) {
        ApiTask::FeaturePatch(patch) => patch,
        _ => panic!("no patch"),
    }
}

#[test]
fn a_feature_patch_is_read() {
    let p = feature_task("sulog?now", "{\"value\":18446744073709551615}");
    assert_eq!((p.name.as_str(), p.id, p.value), ("sulog", 2, u64::MAX));
    let state = WebState::new();
    let refused = |name: &str, body: &str| {
        refusal(&patch(&format!("/api/v1/features/{}", name), body), &state)
    };
    assert_eq!(refused("nope", "{"), "unknown feature");
    for body in ["{}", "[]", "{\"value\":-1}", "{\"value\":1.5}", "{\"value\":\"1\"}", "1"] {
        assert_eq!(refused("sulog", body), "missing numeric value");
    }
    let plain = request("PATCH", "/api/v1/features/sulog", &[AUTH], "{\"value\":1}");
    assert_eq!(refusal(&plain, &state), "expected application/json");
}

#[test]
fn a_feature_is_set_then_stored() {
    let p = feature_task("adb_root", "{\"value\":9}");
    assert!(matches!(
        handle_feature_patch(&p, PatchEvent::Start),
        PatchStep::SetFeature { id: 3, value: 9 }
    ));
    assert!(matches!(
        handle_feature_patch(&p, PatchEvent::FeatureSet(true)),
        PatchStep::LoadConfig
    ));
    let old: HashMap<u32, u64> = HashMap::from([(3, 1), (5, 2)]);
    match handle_feature_patch(&p, PatchEvent::ConfigLoaded(Some(old))) {
        PatchStep::SaveConfig(new) => assert_eq!(new, HashMap::from([(3, 9), (5, 2)])),
        _ => panic!("nothing stored"),
    }
    match handle_feature_patch(&p, PatchEvent::ConfigLoaded(None)) {
        PatchStep::SaveConfig(new) => assert_eq!(new, HashMap::from([(3, 9)])),
        _ => panic!("nothing stored"),
    }
    match handle_feature_patch(&p, PatchEvent::ConfigSaved(true)) {
        PatchStep::Done(Ok(answer)) => {
            assert_eq!(answer.to_string(), "{\"name\":\"adb_root\",\"ok\":true,\"value\":9}");
        }
        _ => panic!("no answer"),
    }
    for (event, text) in [
        (PatchEvent::FeatureSet(false), "set feature"),
        (PatchEvent::ConfigSaved(false), "save feature config"),
    ] {
        match handle_feature_patch(&p, event) {
            PatchStep::Done(Err(e)) => assert_eq!(e.message(), text),
            _ => panic!("no error"),
        }
    }
}

fn decision(id: u64, body: &str, state: &WebState) -> SuDecision {
    let path = format!("/api/v1/su/requests/{}/decision", id);
    match task(&post(&path, body), state) {
        ApiTask::SuDecision(decision) => decision,
        _ => panic!("no decision"),
    }
}

#[test]
fn a_decision_is_read() {
    let state = waiting(&[7, 0, u64::MAX]);
    let d = decision(7, "{\"decision\":\"allow\",\"remember\":true}", &state);
    assert_eq!((d.request_id, d.allow, d.remember, d.uid), (7, true, true, 10001));
    assert_eq!(d.package.as_deref(), Some("com.a"));
    let d = decision(u64::MAX, "{\"decision\":\"deny\",\"remember\":1}", &state);
    assert_eq!((d.request_id, d.allow, d.remember), (u64::MAX, false, false));
    let d = decision(0, "{\"decision\":\"deny\"}", &state);
    assert_eq!((d.package.as_deref(), d.uid), (None, 5));
}

#[test]
fn decisions_are_refused() {
    let state = waiting(&[7]);
    let at = |path: &str, body: &str| refusal(&post(path, body), &state);
    let allow = "{\"decision\":\"allow\"}";
    assert_eq!(at("/api/v1/su/requests/7", allow), "unknown su request endpoint");
    assert_eq!(at("/api/v1/su/requests/7/decision/", allow), "unknown su request endpoint");
    for id in ["", "x", "-7", "18446744073709551616", "7/"] {
        let path = format!("/api/v1/su/requests/{}/decision", id);
        assert_eq!(at(&path, allow), "invalid request id");
    }
    assert_eq!(at("/api/v1/su/requests/8/decision", allow), "request not found");
    let path = "/api/v1/su/requests/7/decision";
    assert_eq!(at(path, "{}"), "missing decision");
    assert_eq!(at(path, "{\"decision\":true}"), "missing decision");
    assert_eq!(at(path, "{\"decision\":\"Allow\"}"), "decision must be allow or deny");
    assert_eq!(at("/api/v1/su/requests/8/decision", "{}"), "missing decision");
}

#[test]
fn a_remembered_decision_is_carried_out() {
    let mut state = waiting(&[7, 8]);
    let d = decision(7, "{\"decision\":\"allow\",\"remember\":true}", &state);
    match handle_su_decision(&d, &mut state, DecisionEvent::Start) {
        DecisionStep::Remember { package, uid } => {
            assert_eq!((package.as_str(), uid), ("com.a", 10001));
        }
        _ => panic!("not remembered"),
    }
    match handle_su_decision(&d, &mut state, DecisionEvent::Remembered(false)) {
        DecisionStep::Done(Err(e)) => {
            assert_eq!(e.message(), "remember app profile for com.a");
        }
        _ => panic!("no error"),
    }
    assert!(state.get(7).is_some());
    assert!(matches!(
        handle_su_decision(&d, &mut state, DecisionEvent::Remembered(true)),
        DecisionStep::Respond { request_id: 7, allow: true }
    ));
    assert!(state.get(7).is_some());
    match handle_su_decision(&d, &mut state, DecisionEvent::Responded(true)) {
        DecisionStep::Done(Ok(answer)) => assert_eq!(
            answer.to_string(),
            "{\"allow\":true,\"ok\":true,\"remember\":true,\"request_id\":7}"
        ),
        _ => panic!("no answer"),
    }
    assert!(state.get(7).is_none());
    assert!(state.get(8).is_some());
    let again = post("/api/v1/su/requests/7/decision", "{\"decision\":\"deny\"}");
    assert_eq!(refusal(&again, &state), "request not found");
}

#[test]
fn other_decisions_are_not_remembered() {
    let mut state = waiting(&[7, 0]);
    for (id, body, allow) in [
        (7, "{\"decision\":\"allow\"}", true),
        (7, "{\"decision\":\"deny\",\"remember\":true}", false),
        (0, "{\"decision\":\"allow\",\"remember\":true}", true),
    ] {
        let d = decision(id, body, &state);
        match handle_su_decision(&d, &mut state, DecisionEvent::Start) {
            DecisionStep::Respond { request_id, allow: told } => {
                assert_eq!((request_id, told), (id, allow));
            }
            _ => panic!("driver not told"),
        }
    }
}

#[test]
fn a_request_no_longer_waits_though_the_driver_refuses() {
    let mut state = waiting(&[7]);
    let d = decision(7, "{\"decision\":\"deny\"}", &state);
    match handle_su_decision(&d, &mut state, DecisionEvent::Responded(false)) {
        DecisionStep::Done(Err(e)) => assert_eq!(e.message(), "respond su request"),
        _ => panic!("no error"),
    }
    assert!(state.get(7).is_none());
}

fn module_task(path: &str) -> ModuleAction {
    match task(&post(path, "{}"), &WebState::new()) {
        ApiTask::ModuleAction(action) => action,
        _ => panic!("no action"),
    }
}

#[test]
fn a_module_action_is_read() {
    let t = module_task("/api/v1/modules/my.mod/enable");
    assert_eq!((t.id.as_str(), t.action.as_str()), ("my.mod", "enable"));
    let t = module_task("/api/v1/modules//x/y?z");
    assert_eq!((t.id.as_str(), t.action.as_str()), ("", "x"));
    let short = post("/api/v1/modules/my.mod", "{}");
    assert_eq!(refusal(&short, &WebState::new()), "missing module action");
}

#[test]
fn a_module_action_is_carried_out() {
    let t = module_task("/api/v1/modules/m/disable");
    assert!(matches!(handle_module_action(&t, ModuleEvent::Start), ModuleStep::Validate));
    assert!(matches!(
        handle_module_action(&t, ModuleEvent::Validated(Ok(()))),
        ModuleStep::SwitchNamespace
    ));
    for (action, op) in [
        ("enable", ModuleOperation::Enable),
        ("disable", ModuleOperation::Disable),
        ("uninstall", ModuleOperation::Uninstall),
    ] {
        let t = module_task(&format!("/api/v1/modules/m/{}", action));
        match handle_module_action(&t, ModuleEvent::NamespaceSwitched(true)) {
            ModuleStep::Perform(asked) => assert_eq!(asked, op),
            _ => panic!("nothing performed"),
        }
    }
    match handle_module_action(&t, ModuleEvent::Performed(Ok(()))) {
        ModuleStep::Done(Ok(answer)) => {
            assert_eq!(answer.to_string(), "{\"action\":\"disable\",\"id\":\"m\",\"ok\":true}");
        }
        _ => panic!("no answer"),
    }
}

#[test]
fn a_module_action_can_fail() {
    let t = module_task("/api/v1/modules/m/explode");
    let fail = |event| match handle_module_action(&t, event) {
        ModuleStep::Done(Err(e)) => e.message(),
        _ => panic!("no error"),
    };
    assert_eq!(fail(ModuleEvent::Validated(Err("bad id".to_string()))), "bad id");
    assert_eq!(fail(ModuleEvent::NamespaceSwitched(false)), "switch to global mount namespace");
    assert_eq!(fail(ModuleEvent::NamespaceSwitched(true)), "unknown module action");
    assert_eq!(fail(ModuleEvent::Performed(Err("broken".to_string()))), "broken");
}

#[test]
fn the_api_needs_the_token() {
    let state = waiting(&[7]);
    for method in ["GET", "POST", "PATCH", "DELETE", "X"] {
        for path in ["/api/v1/status", "/api/", "/api/v1/su/requests/7/decision?x"] {
            let text = sent(&request(method, path, &[JSON], "{\"decision\":\"allow\"}"), &state);
            assert_eq!(
                text,
                "HTTP/1.1 401 Unauthorized\r\nContent-Type: application/json\r\nContent-Length: \
                 24\r\nCache-Control: no-store\r\nConnection: close\r\n\r\n\
                 {\"error\":\"unauthorized\"}"
            );
        }
    }
}

#[test]
fn changes_must_come_from_the_page() {
    let state = WebState::new();
    let foreign = [AUTH, ("origin", "http://evil.example")];
    for method in ["POST", "PATCH", "PUT", "DELETE"] {
        let text = sent(&request(method, "/api/v1/status", &foreign, ""), &state);
        assert!(text.starts_with("HTTP/1.1 403 Forbidden\r\n"));
        assert!(text.ends_with("\r\n\r\n{\"error\":\"bad origin\"}"));
    }
    let reply = handle_connection(&request("GET", "/api/v1/status", &foreign, ""), TOKEN, &state);
    assert!(matches!(reply, Ok(Reply::Perform(ApiTask::Status))));
}

#[test]
fn a_refused_task_is_answered() {
    let text = sent(&get("/api/v1/nothing"), &WebState::new());
    assert!(text.starts_with("HTTP/1.1 400 Bad Request\r\nContent-Type: application/json\r\n"));
    assert!(text.ends_with("\r\n\r\n{\"error\":\"not found\"}"));
}

#[test]
fn the_page_is_sent_without_a_token() {
    let state = WebState::new();
    for path in ["/", "/?q", "/index.html"] {
        let text = sent(&request("GET", path, &[], ""), &state);
        let head = format!(
            "HTTP/1.1 200 OK\r\nContent-Type: text/html; charset=utf-8\r\nContent-Length: {}\r\n\
             Cache-Control: no-store\r\nConnection: close\r\n\r\n",
            INDEX_HTML.len()
        );
        assert_eq!(text, format!("{}{}", head, INDEX_HTML));
    }
    for (method, path) in [("POST", "/"), ("GET", "/x"), ("GET", "/api"), ("GET", "")] {
        let text = sent(&request(method, path, &[], ""), &state);
        assert!(text.starts_with(
            "HTTP/1.1 404 Not Found\r\nContent-Type: text/plain; charset=utf-8\r\n"
        ));
        assert!(text.ends_with("\r\nContent-Length: 10\r\nCache-Control: no-store\r\nConnection: \
                                close\r\n\r\nnot found\n"));
    }
}

#[test]
fn the_page_is_whole() {
    assert!(INDEX_HTML.starts_with("<!doctype html>\n<html lang=\"en\">\n"));
    assert!(INDEX_HTML.ends_with("</script>\n</body>\n</html>\n"));
}

#[test]
fn answers_are_written() {
    let ok = write_answer(&Ok(json_of("{\"ok\":true}"))).unwrap();
    let text = String::from_utf8(ok).unwrap();
    assert!(text.starts_with("HTTP/1.1 200 OK\r\nContent-Type: application/json\r\n"));
    assert!(text.ends_with("\r\n\r\n{\"ok\":true}"));
    let err = write_answer(&Err(ApiError::Remember("com.\"a".to_string()))).unwrap();
    let text = String::from_utf8(err).unwrap();
    assert!(text.starts_with("HTTP/1.1 400 Bad Request\r\n"));
    assert!(text.ends_with("\r\n\r\n{\"error\":\"remember app profile for com.\\\"a\"}"));
}
