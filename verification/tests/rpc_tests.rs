use napp::rpc::{respond, NError, NRequest, NResponse, NServer, NService};
use napp::{lmian, NApp, RunAction, RunEvent, JUDAGE_SERVICE};
use serde_json::Value;

struct Echo;

impl NService for Echo {
    fn call_method(&self, method: &str, args: &[Value]) -> Result<Value, NError> {
        match method {
            "first" => args.first().cloned().ok_or(NError::InvalidParams),
            "boom" => Err(NError::InternalError),
            _ => Err(NError::MethodNotFound),
        }
    }
}

struct Fixed(i64);

impl NService for Fixed {
    fn call_method(&self, _method: &str, _args: &[Value]) -> Result<Value, NError> {
        Ok(Value::from(self.0))
    }
}

fn request(id: &str, service: &str, method: &str, params: Vec<Value>) -> NRequest {
    NRequest { id: id.to_string(), service: service.to_string(), method: method.to_string(), params }
}

fn echo_server() -> NServer<Box<dyn NService>> {
    let mut server: NServer<Box<dyn NService>> = NServer::new("srv");
    server.register_services("echo", Box::new(Echo));
    server
}

#[test]
fn error_response_carries_message_as_result() {
    let r = NResponse::error("1", NError::InvalidParams, "bad");
    assert_eq!(r.id, "1");
    assert_eq!(r.result, Some(Value::String("bad".to_string())));
    assert_eq!(r.error, Some(NError::InvalidParams));
    assert_eq!(r.message, "bad");
}

#[test]
fn success_response_has_no_error() {
    let r = NResponse::success("2", Value::from(3), "ok");
    assert_eq!(r.id, "2");
    assert_eq!(r.result, Some(Value::from(3)));
    assert_eq!(r.error, None);
    assert_eq!(r.message, "ok");
}

#[test]
fn respond_maps_each_outcome() {
    let ok = respond("a", Ok(Value::Bool(true)));
    assert_eq!(ok.result, Some(Value::Bool(true)));
    assert_eq!(ok.error, None);
    assert_eq!(ok.message, "SUCCESS");

    let internal = respond("a", Err(NError::InternalError));
    assert_eq!(internal.error, Some(NError::MethodNotFound));
    assert_eq!(internal.message, "Method not found");
    assert_eq!(internal.result, Some(Value::from("Method not found")));

    let params = respond("a", Err(NError::InvalidParams));
    assert_eq!(params.error, Some(NError::InvalidParams));
    assert_eq!(params.message, "Invalid params");

    let missing = respond("a", Err(NError::MethodNotFound));
    assert_eq!(missing.error, Some(NError::InternalError));
    assert_eq!(missing.message, "Internal error");
    assert_eq!(missing.id, "a");
}

#[test]
fn call_reaches_registered_service() {
    let server = echo_server();
    let resp = server.call(request("7", "echo", "first", vec![Value::from(5)])).unwrap();
    assert_eq!(resp.id, "7");
    assert_eq!(resp.result, Some(Value::from(5)));
    assert_eq!(resp.error, None);
    assert_eq!(resp.message, "SUCCESS");
}

#[test]
fn call_unknown_service_is_invalid_params() {
    let server = echo_server();
    let resp = server.call(request("8", "nope", "first", vec![])).unwrap();
    assert_eq!(resp.id, "8");
    assert_eq!(resp.error, Some(NError::InvalidParams));
    assert_eq!(resp.message, "Service not found");
    assert_eq!(resp.result, Some(Value::from("Service not found")));
}

#[test]
fn call_maps_service_errors() {
    let server = echo_server();
    let boom = server.call(request("9", "echo", "boom", vec![])).unwrap();
    assert_eq!(boom.error, Some(NError::MethodNotFound));
    assert_eq!(boom.message, "Method not found");
    let unknown = server.call(request("9", "echo", "zzz", vec![])).unwrap();
    assert_eq!(unknown.error, Some(NError::InternalError));
    assert_eq!(unknown.message, "Internal error");
    let empty = server.call(request("9", "echo", "first", vec![])).unwrap();
    assert_eq!(empty.error, Some(NError::InvalidParams));
    assert_eq!(empty.message, "Invalid params");
}

#[test]
fn registering_again_replaces_service() {
    let mut server: NServer<Box<dyn NService>> = NServer::new("srv");
    server.register_services("n", Box::new(Fixed(1)));
    server.register_services("m", Box::new(Fixed(2)));
    server.register_services("n", Box::new(Fixed(3)));
    let n = server.call(request("1", "n", "x", vec![])).unwrap();
    assert_eq!(n.result, Some(Value::from(3)));
    let m = server.call(request("1", "m", "x", vec![])).unwrap();
    assert_eq!(m.result, Some(Value::from(2)));
    assert_eq!(server.identify, "srv");
}

#[test]
fn app_server_answers_its_size() {
    let app = lmian();
    let server = app.server();
    assert_eq!(server.identify, "我是谁");
    let h = server.call(request("h", "test", "height", vec![])).unwrap();
    assert_eq!(h.result, Some(Value::from(40)));
    assert_eq!(h.error, None);
    assert_eq!(h.message, "SUCCESS");
    let w = server.call(request("w", "test", "width", vec![Value::Null])).unwrap();
    assert_eq!(w.result, Some(Value::from(30)));
    let j = server.call(request("j", "test", JUDAGE_SERVICE, vec![])).unwrap();
    assert_eq!(j.result, Some(Value::from("")));
    let other = server.call(request("o", "test", "depth", vec![])).unwrap();
    assert_eq!(other.error, Some(NError::InternalError));
    assert_eq!(other.message, "Internal error");
    let none = server.call(request("n", "other", "height", vec![])).unwrap();
    assert_eq!(none.error, Some(NError::InvalidParams));
}

#[test]
fn app_refuses_to_exit() {
    assert_eq!(NApp::on_run_event(RunEvent::ExitRequested), RunAction::PreventExit);
    assert_eq!(NApp::on_run_event(RunEvent::Other), RunAction::Nothing);
    let server = NApp::new().into_server();
    assert_eq!(server.identify, "我是谁");
}
