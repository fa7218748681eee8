use vstd::prelude::*;

use crate::envelope::{call_envelope, login_envelope, Request, Response};
use crate::error::ApiError;
use crate::json::{Json, JsonValue};

verus! {

/// The id of the login call, and so the first id of every session.
pub const FIRST_ID: usize = 1;

/// The method that lists the monitored hosts.
pub open spec fn host_get_method() -> Seq<char> {
    "host.get"@
}

/// An authenticated session with the API.
///
/// The session is opened by a successful login and keeps its URL and token
/// for life. `nonce` is the id of the last request made; each later call
/// takes the next one.
#[derive(Debug)]
pub struct ZabbixApi {
    pub url: String,
    pub auth: String,
    pub nonce: usize,
}

impl ZabbixApi {
    pub open spec fn wf(&self) -> bool {
        self.nonce >= FIRST_ID
    }

    /// The login call that opens a session for `user`.
    pub fn login_request(user: &str, password: &str) -> (r: Request)
        ensures
            r@ == login_envelope(user@, password@, FIRST_ID as nat),
    {
        Request::create_login_request(user, password, FIRST_ID)
    }

    /// The session that the answer to the login call opens, or why it opens
    /// none.
    pub fn new(url: &str, login: &Response) -> (r: Result<ZabbixApi, ApiError>)
        ensures
            match (login@.error, login@.result) {
                (Some(e), _) => r matches Err(ApiError::Authentication(x)) && x@ == e,
                (None, Some(JsonValue::Str(t))) => r matches Ok(api) && api.url@ == url@
                    && api.auth@ == t && api.nonce == FIRST_ID,
                (None, Some(_)) => r is Err && r->Err_0 is TokenNotString,
                (None, None) => r is Err && r->Err_0 is MissingResult,
            },
            r matches Ok(api) ==> api.wf(),
    {
        let auth = match login.auth() {
            Ok(t) => t,
            Err(e) => return Err(e),
        };
        Ok(ZabbixApi { url: url.to_owned(), auth, nonce: FIRST_ID })
    }

    /// The envelope of the next call of `method`, under a fresh id.
    pub fn request(&mut self, method: &str, params: &Json) -> (r: Result<Request, ApiError>)
        ensures
            old(self).nonce < usize::MAX ==> {
                &&& r matches Ok(req) && req@ == call_envelope(
                    method@,
                    params@,
                    old(self).auth@,
                    (old(self).nonce + 1) as nat,
                )
                &&& final(self).nonce == old(self).nonce + 1
                &&& final(self).url == old(self).url
                &&& final(self).auth == old(self).auth
            },
            old(self).nonce == usize::MAX ==> r is Err && r->Err_0 is IdsExhausted && *final(self)
                == *old(self),
            old(self).wf() ==> final(self).wf(),
    {
        if self.nonce == usize::MAX {
            return Err(ApiError::IdsExhausted);
        }
        self.nonce = self.nonce + 1;
        Ok(Request::create_request(method, params, self.auth.as_str(), &self.nonce))
    }

    /// The envelope of the next `host.get` call, which lists the hosts that
    /// `params` selects.
    pub fn host_get(&mut self, params: &Json) -> (r: Result<Request, ApiError>)
        ensures
            old(self).nonce < usize::MAX ==> {
                &&& r matches Ok(req) && req@ == call_envelope(
                    host_get_method(),
                    params@,
                    old(self).auth@,
                    (old(self).nonce + 1) as nat,
                )
                &&& final(self).nonce == old(self).nonce + 1
                &&& final(self).url == old(self).url
                &&& final(self).auth == old(self).auth
            },
            old(self).nonce == usize::MAX ==> r is Err && r->Err_0 is IdsExhausted && *final(self)
                == *old(self),
            old(self).wf() ==> final(self).wf(),
    {
        self.request("host.get", params)
    }
}

} // verus!
