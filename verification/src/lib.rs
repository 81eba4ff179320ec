//! The logic of a desktop application: a small RPC server that dispatches requests to named
//! services, and the bookkeeping of which window types are registered and which windows are
//! open or hidden.
pub mod command;
pub mod keyed;
pub mod labels;
pub mod plugin;
pub mod rpc;
pub mod text;
pub mod win;

use serde_json::Value;
use vstd::prelude::*;

use crate::rpc::{json_from_i32, json_from_str, json_of_i32, json_of_str, NError, NServer, NService};
use crate::text::same_text;

verus! {

/// The method name that every service of the application answers with an empty string.
pub const JUDAGE_SERVICE: &'static str = "JUDAGE_SERVICE";

/// What the test service of the given size answers to `method`.
pub open spec fn test_rpc_outcome(height: i32, width: i32, method: Seq<char>) -> Result<Value, NError> {
    if method == "height"@ {
        Ok(json_of_i32(height))
    } else if method == "width"@ {
        Ok(json_of_i32(width))
    } else if method == JUDAGE_SERVICE@ {
        Ok(json_of_str(""@))
    } else {
        Err(NError::MethodNotFound)
    }
}

/// A service that reports a fixed size.
pub struct TestRpc {
    height: i32,
    width: i32,
}

impl NService for TestRpc {
    closed spec fn answers(&self, method: Seq<char>, args: Seq<Value>, outcome: Result<Value, NError>) -> bool {
        outcome == test_rpc_outcome(self.height, self.width, method)
    }

    fn call_method(&self, method: &str, args: &[Value]) -> (outcome: Result<Value, NError>) {
        if same_text(method, "height") {
            Ok(json_from_i32(self.height))
        } else if same_text(method, "width") {
            Ok(json_from_i32(self.width))
        } else if same_text(method, JUDAGE_SERVICE) {
            Ok(json_from_str(""))
        } else {
            Err(NError::MethodNotFound)
        }
    }
}

/// The application: the server that answers the front end's requests.
pub struct NApp {
    server: NServer<TestRpc>,
}

/// What happens to the running application.
#[derive(Debug, Clone, Copy, PartialEq, Eq)]
pub enum RunEvent {
    ExitRequested,
    Other,
}

/// What the application does about an event.
#[derive(Debug, Clone, Copy, PartialEq, Eq)]
pub enum RunAction {
    PreventExit,
    Nothing,
}

impl NApp {
    /// The application's server.
    pub closed spec fn server_spec(&self) -> NServer<TestRpc> {
        self.server
    }

    /// The server is named `我是谁` and has one service, `test`, of height 40 and width 30.
    pub open spec fn is_initial(&self) -> bool {
        &&& self.server_spec().name() == "我是谁"@
        &&& self.server_spec().services().dom() == set!["test"@]
        &&& forall|m: Seq<char>, a: Seq<Value>, o: Result<Value, NError>| #[trigger]
            self.server_spec().services()["test"@].answers(m, a, o) <==> o == test_rpc_outcome(40, 30, m)
    }

    pub fn new() -> (app: NApp)
        ensures
            app.is_initial(),
    {
        let mut server = NServer::new("我是谁");
        server.register_services("test", TestRpc { width: 30, height: 40 });
        assert(server.services().dom() =~= set!["test"@]);
        let app = NApp { server };
        app
    }

    pub fn server(&self) -> (s: &NServer<TestRpc>)
        ensures
            *s == self.server_spec(),
    {
        &self.server
    }

    pub fn into_server(self) -> (s: NServer<TestRpc>)
        ensures
            s == self.server_spec(),
    {
        self.server
    }

    /// The application refuses to exit when asked to, and keeps running.
    pub fn on_run_event(event: RunEvent) -> (a: RunAction)
        ensures
            a == (if event == RunEvent::ExitRequested { RunAction::PreventExit } else { RunAction::Nothing }),
    {
        match event {
            RunEvent::ExitRequested => RunAction::PreventExit,
            RunEvent::Other => RunAction::Nothing,
        }
    }
}

/// The application as it starts.
pub fn lmian() -> (app: NApp)
    ensures
        app.is_initial(),
{
    NApp::new()
}

} // verus!
