use serde_json::Value;
use vstd::prelude::*;

use crate::keyed::{keyed, last_named, unnamed, lemma_keyed_absent, lemma_keyed_last, lemma_keyed_push, lemma_keyed_update};

verus! {

/// A JSON value, carried through the server without being looked into.
#[verifier::external_type_specification]
#[verifier::external_body]
pub struct ExJsonValue(Value);

/// The JSON value that `serde_json` builds from a string: `Value::String` holding it.
pub uninterp spec fn json_of_str(s: Seq<char>) -> Value;

/// Calls `<serde_json::Value as From<&str>>::from`, which builds `Value::String` from a copy of
/// the text. Claimed: the result is the value named `json_of_str` of the text, so the same text
/// always gives the same value.
#[verifier::external_body]
pub(crate) fn json_from_str(s: &str) -> (v: Value)
    ensures
        v == json_of_str(s@),
{
    Value::from(s)
}

/// The JSON value that `serde_json` builds from a 32-bit integer: `Value::Number` holding it.
pub uninterp spec fn json_of_i32(n: i32) -> Value;

/// Calls `<serde_json::Value as From<i32>>::from`, which builds `Value::Number` from the integer.
/// Claimed: the result is the value named `json_of_i32` of the integer.
#[verifier::external_body]
pub(crate) fn json_from_i32(n: i32) -> (v: Value)
    ensures
        v == json_of_i32(n),
{
    Value::from(n)
}

/// Errors a service reports, and that a response carries.
#[derive(Clone, Copy, Debug, PartialEq, Eq)]
pub enum NError {
    MethodNotFound,
    InvalidParams,
    InternalError,
}

/// A call of `method` on the service registered under `service`.
#[derive(Clone, Debug, PartialEq)]
pub struct NRequest {
    pub id: String,
    pub service: String,
    pub method: String,
    pub params: Vec<Value>,
}

/// The answer to the request with the same `id`.
#[derive(Clone, Debug, PartialEq)]
pub struct NResponse {
    pub id: String,
    pub result: Option<Value>,
    pub error: Option<NError>,
    pub message: String,
}

impl NResponse {
    /// What `error(id, error, message)` builds: the message is also the result, as a JSON string.
    pub open spec fn is_error_response(self, id: Seq<char>, error: NError, message: Seq<char>) -> bool {
        &&& self.id@ == id
        &&& self.result == Some(json_of_str(message))
        &&& self.error == Some(error)
        &&& self.message@ == message
    }

    /// What `success(id, result, message)` builds.
    pub open spec fn is_success_response(self, id: Seq<char>, result: Value, message: Seq<char>) -> bool {
        &&& self.id@ == id
        &&& self.result == Some(result)
        &&& self.error.is_none()
        &&& self.message@ == message
    }

    pub fn error(id: &str, error: NError, message: &str) -> (r: NResponse)
        ensures
            r.is_error_response(id@, error, message@),
    {
        let result = Some(json_from_str(message));
        let error = Some(error);
        NResponse { id: id.to_owned(), result, error, message: message.to_owned() }
    }

    pub fn success(id: &str, result: Value, message: &str) -> (r: NResponse)
        ensures
            r.is_success_response(id@, result, message@),
    {
        NResponse { id: id.to_owned(), result: Some(result), error: None, message: message.to_owned() }
    }
}


/// What a response to request `id` is, given what the service answered.
/// The service's `InternalError` and `MethodNotFound` come out swapped.
pub open spec fn responds_to(r: NResponse, id: Seq<char>, outcome: Result<Value, NError>) -> bool {
    match outcome {
        Ok(v) => r.is_success_response(id, v, "SUCCESS"@),
        Err(NError::InternalError) => r.is_error_response(id, NError::MethodNotFound, "Method not found"@),
        Err(NError::InvalidParams) => r.is_error_response(id, NError::InvalidParams, "Invalid params"@),
        Err(NError::MethodNotFound) => r.is_error_response(id, NError::InternalError, "Internal error"@),
    }
}

/// Builds the response to request `id` from what the service answered.
pub fn respond(id: &str, outcome: Result<Value, NError>) -> (r: NResponse)
    ensures
        responds_to(r, id@, outcome),
        r.id@ == id@,
        r.error.is_none() == outcome is Ok,
{
    match outcome {
        Ok(result) => NResponse::success(id, result, "SUCCESS"),
        Err(NError::InternalError) => NResponse::error(id, NError::MethodNotFound, "Method not found"),
        Err(NError::InvalidParams) => NResponse::error(id, NError::InvalidParams, "Invalid params"),
        Err(NError::MethodNotFound) => NResponse::error(id, NError::InternalError, "Internal error"),
    }
}

/// A service that a server dispatches requests to, by method name.
pub trait NService {
    /// Holds when `outcome` is an answer that this service may give to `method` called with `args`.
    /// A service that says nothing of its answers may give any.
    open spec fn answers(&self, method: Seq<char>, args: Seq<Value>, outcome: Result<Value, NError>) -> bool {
        true
    }

    fn call_method(&self, method: &str, args: &[Value]) -> (outcome: Result<Value, NError>)
        ensures
            self.answers(method@, args@, outcome),
    ;
}

struct ServiceEntry<S> {
    name: String,
    service: S,
}

spec fn entry_name<S>() -> spec_fn(ServiceEntry<S>) -> Seq<char> {
    |e: ServiceEntry<S>| e.name@
}

spec fn entry_service<S>() -> spec_fn(ServiceEntry<S>) -> S {
    |e: ServiceEntry<S>| e.service
}

/// Dispatches requests to services registered by name.
pub struct NServer<S> {
    pub identify: String,
    services: Vec<ServiceEntry<S>>,
}

impl<S: NService> NServer<S> {
    /// The name the server goes by.
    pub closed spec fn name(&self) -> Seq<char> {
        self.identify@
    }

    /// The registered services, by name.
    pub closed spec fn services(&self) -> Map<Seq<char>, S> {
        keyed(self.services@, entry_name(), entry_service())
    }

    pub fn new(identify: &str) -> (s: Self)
        ensures
            s.name() == identify@,
            s.services() == Map::<Seq<char>, S>::empty(),
    {
        NServer { identify: identify.to_owned(), services: Vec::new() }
    }

    /// The last position that holds a service named `name`.
    fn position_of(&self, name: &str) -> (r: Option<usize>)
        ensures
            match r {
                Some(i) => last_named(self.services@, entry_name(), name@, i as int),
                None => unnamed(self.services@, entry_name(), name@),
            },
    {
        let wanted = name.to_owned();
        let mut i = self.services.len();
        while i > 0
            invariant
                i <= self.services@.len(),
                wanted@ == name@,
                forall|j: int| i <= j < self.services@.len() ==> (entry_name())(#[trigger] self.services@[j]) != name@,
            decreases i,
        {
            i = i - 1;
            if self.services[i].name == wanted {
                return Some(i);
            }
        }
        None
    }

    /// Registers `service` under `service_name`, in place of any service registered under it.
    pub fn register_services(&mut self, service_name: &str, service: S)
        ensures
            final(self).name() == old(self).name(),
            final(self).services() == old(self).services().insert(service_name@, service),
    {
        let entry = ServiceEntry { name: service_name.to_owned(), service };
        match self.position_of(service_name) {
            Some(i) => {
                proof {
                    lemma_keyed_update(self.services@, entry_name(), entry_service(), service_name@, i as int, entry);
                }
                self.services.set(i, entry);
            },
            None => {
                proof {
                    lemma_keyed_push(self.services@, entry_name(), entry_service(), entry);
                }
                self.services.push(entry);
            },
        }
    }

    /// Answers `request`: the service named in it is asked to run the method with the params,
    /// and what it answers is turned into the response.
    pub fn call(&self, request: NRequest) -> (r: Result<NResponse, ()>)
        ensures
            r is Ok,
            r->Ok_0.id@ == request.id@,
            !self.services().contains_key(request.service@) ==> r->Ok_0.is_error_response(
                request.id@,
                NError::InvalidParams,
                "Service not found"@,
            ),
            self.services().contains_key(request.service@) ==> exists|outcome: Result<Value, NError>|
                #[trigger] self.services()[request.service@].answers(request.method@, request.params@, outcome)
                    && responds_to(r->Ok_0, request.id@, outcome),
    {
        match self.position_of(request.service.as_str()) {
            None => {
                proof {
                    lemma_keyed_absent(self.services@, entry_name(), entry_service(), request.service@);
                }
                Ok(NResponse::error(request.id.as_str(), NError::InvalidParams, "Service not found"))
            },
            Some(i) => {
                proof {
                    lemma_keyed_last(self.services@, entry_name(), entry_service(), request.service@, i as int);
                }
                let outcome = self.services[i].service.call_method(request.method.as_str(), request.params.as_slice());
                Ok(respond(request.id.as_str(), outcome))
            },
        }
    }
}

/// A boxed service answers as the service in the box does.
impl<T: NService + ?Sized> NService for Box<T> {
    open spec fn answers(&self, method: Seq<char>, args: Seq<Value>, outcome: Result<Value, NError>) -> bool {
        (**self).answers(method, args, outcome)
    }

    fn call_method(&self, method: &str, args: &[Value]) -> (outcome: Result<Value, NError>) {
        (**self).call_method(method, args)
    }
}

} // verus!
