//! The script execution boundary: a per-tenant scripting context that
//! evaluates the tenant's module, invokes a named handler with a
//! marshalled request, and marshals the handler's result back into a
//! response record.

use std::io::Write;

use vstd::prelude::*;

use crate::error::AppError;

verus! {

#[verifier::external_type_specification]
#[verifier::external_body]
pub struct ExRuntime(rquickjs::Runtime);

#[verifier::external_type_specification]
#[verifier::external_body]
pub struct ExContext(rquickjs::Context);

/// The request record handed to a handler: plain strings, string maps
/// as name/value pairs, and an optional body.
#[derive(Debug)]
pub struct Req {
    pub method: String,
    pub url: String,
    pub query: Vec<(String, String)>,
    pub params: Vec<(String, String)>,
    pub headers: Vec<(String, String)>,
    pub body: Option<String>,
}

/// Builds a [`Req`] field by field; unset maps stay empty and an unset
/// body stays absent.
#[derive(Debug)]
pub struct ReqBuilder {
    pub method: String,
    pub url: String,
    pub query: Vec<(String, String)>,
    pub params: Vec<(String, String)>,
    pub headers: Vec<(String, String)>,
    pub body: Option<String>,
}

impl Req {
    /// A builder with empty fields.
    pub fn builder() -> (r: ReqBuilder)
        ensures
            r.method@ == Seq::<char>::empty(),
            r.url@ == Seq::<char>::empty(),
            r.query@ == Seq::<(String, String)>::empty(),
            r.params@ == Seq::<(String, String)>::empty(),
            r.headers@ == Seq::<(String, String)>::empty(),
            r.body is None,
    {
        ReqBuilder {
            method: String::new(),
            url: String::new(),
            query: Vec::new(),
            params: Vec::new(),
            headers: Vec::new(),
            body: None,
        }
    }
}

impl ReqBuilder {
    pub fn method(self, v: &str) -> (r: ReqBuilder)
        ensures
            r.method@ == v@,
            r.url == self.url,
            r.query == self.query,
            r.params == self.params,
            r.headers == self.headers,
            r.body == self.body,
    {
        ReqBuilder { method: String::from_str(v), ..self }
    }

    pub fn url(self, v: &str) -> (r: ReqBuilder)
        ensures
            r.url@ == v@,
            r.method == self.method,
            r.query == self.query,
            r.params == self.params,
            r.headers == self.headers,
            r.body == self.body,
    {
        ReqBuilder { url: String::from_str(v), ..self }
    }

    pub fn query(self, v: Vec<(String, String)>) -> (r: ReqBuilder)
        ensures
            r.query == v,
            r.method == self.method,
            r.url == self.url,
            r.params == self.params,
            r.headers == self.headers,
            r.body == self.body,
    {
        ReqBuilder { query: v, ..self }
    }

    pub fn params(self, v: Vec<(String, String)>) -> (r: ReqBuilder)
        ensures
            r.params == v,
            r.method == self.method,
            r.url == self.url,
            r.query == self.query,
            r.headers == self.headers,
            r.body == self.body,
    {
        ReqBuilder { params: v, ..self }
    }

    pub fn headers(self, v: Vec<(String, String)>) -> (r: ReqBuilder)
        ensures
            r.headers == v,
            r.method == self.method,
            r.url == self.url,
            r.query == self.query,
            r.params == self.params,
            r.body == self.body,
    {
        ReqBuilder { headers: v, ..self }
    }

    pub fn body(self, v: Option<String>) -> (r: ReqBuilder)
        ensures
            r.body == v,
            r.method == self.method,
            r.url == self.url,
            r.query == self.query,
            r.params == self.params,
            r.headers == self.headers,
    {
        ReqBuilder { body: v, ..self }
    }

    /// The finished request.
    pub fn build(self) -> (r: Req)
        ensures
            r.method == self.method,
            r.url == self.url,
            r.query == self.query,
            r.params == self.params,
            r.headers == self.headers,
            r.body == self.body,
    {
        Req {
            method: self.method,
            url: self.url,
            query: self.query,
            params: self.params,
            headers: self.headers,
            body: self.body,
        }
    }
}

/// The response record a handler produced, after marshalling.
#[derive(Debug)]
pub struct Res {
    pub status: u16,
    pub headers: Vec<(String, String)>,
    pub body: Option<String>,
}

/// Every raw header value was a guest string.
pub open spec fn headers_ok(hs: Seq<(String, Option<String>)>) -> bool {
    forall|i: int| 0 <= i < hs.len() ==> (#[trigger] hs[i]).1 is Some
}

/// Form the host response from the raw fields read off the guest value.
/// The record is accepted exactly when the status lies in [100, 599] and
/// every header value was a string; otherwise it is a `Marshal` error.
pub fn build_response(
    status: i64,
    headers: Vec<(String, Option<String>)>,
    body: Option<String>,
) -> (r: Result<Res, AppError>)
    ensures
        r is Ok <==> (100 <= status <= 599 && headers_ok(headers@)),
        r matches Ok(res) ==> res.status == status && res.body == body && res.headers@.len()
            == headers@.len() && (forall|i: int|
            0 <= i < headers@.len() ==> (#[trigger] res.headers@[i]).0 == headers@[i].0 && Some(
                res.headers@[i].1,
            ) == headers@[i].1),
        r matches Err(e) ==> e matches AppError::Marshal(_),
{
    if status < 100 || status > 599 {
        return Err(AppError::Marshal(String::from_str("status out of range")));
    }
    let mut hs: Vec<(String, String)> = Vec::new();
    let mut i: usize = 0;
    while i < headers.len()
        invariant
            0 <= i <= headers@.len(),
            hs@.len() == i,
            forall|j: int|
                0 <= j < i ==> (#[trigger] headers@[j]).1 is Some && hs@[j].0 == headers@[j].0
                    && Some(hs@[j].1) == headers@[j].1,
        decreases headers@.len() - i,
    {
        match &headers[i] {
            (k, Some(v)) => {
                hs.push((k.clone(), v.clone()));
            },
            (_, None) => {
                return Err(AppError::Marshal(String::from_str("header value is not a string")));
            },
        }
        i += 1;
    }
    Ok(Res { status: status as u16, headers: hs, body })
}

/// A tenant's script context: a runtime whose global scope holds the
/// evaluated module's handler table. Single-owner; never shared across
/// threads.
pub struct JsWorker {
    rt: rquickjs::Runtime,
    ctx: rquickjs::Context,
}

/// Relies on writeln to standard output: prints one line. Installed in
/// the guest as the host `print` callable.
#[verifier::external_body]
fn print(msg: String) {
    let _ = writeln!(std::io::stdout(), "{}", msg);
}

/// Relies on rquickjs Runtime::new, Context::full, Ctx::eval and the
/// globals object: evaluates `code` to an object, stores it in the
/// global `handlers` slot and installs `print`; the error string is the
/// failure's message.
#[verifier::external_body]
fn js_new_context(code: &str) -> (r: Result<(rquickjs::Runtime, rquickjs::Context), String>) {
    let rt = rquickjs::Runtime::new().map_err(|e| e.to_string())?;
    let ctx = rquickjs::Context::full(&rt).map_err(|e| e.to_string())?;
    let res = ctx.with(|c| -> Result<(), rquickjs::Error> {
        let g = c.globals();
        let handlers: rquickjs::Object = c.eval(code)?;
        g.set("handlers", handlers)?;
        g.set("print", rquickjs::Function::new(c.clone(), print)?.with_name("print")?)?;
        Ok(())
    });
    match res {
        Ok(()) => Ok((rt, ctx)),
        Err(e) => Err(e.to_string()),
    }
}

/// Relies on rquickjs Object::new and Object::set: starts the guest
/// request object with its scalar fields — an absent body becomes the
/// guest null — and stores it in the global slot the other wrappers use.
#[verifier::external_body]
fn js_store_request(ctx: &rquickjs::Context, method: &str, url: &str, body: &Option<String>) -> (r:
    Result<(), String>) {
    ctx.with(|c| -> Result<(), rquickjs::Error> {
        let o = rquickjs::Object::new(c.clone())?;
        o.set("method", method)?;
        o.set("url", url)?;
        match body {
            Some(b) => o.set("body", b.as_str())?,
            None => o.set("body", rquickjs::Value::new_null(c.clone()))?,
        }
        c.globals().set("__request", o)
    }).map_err(|e| e.to_string())
}

/// Relies on rquickjs Object::new and Object::set: turns one name/value
/// list into a plain guest object and sets it as a field of the stored
/// request object.
#[verifier::external_body]
fn js_set_request_map(ctx: &rquickjs::Context, name: &str, m: &Vec<(String, String)>) -> (r: Result<
    (),
    String,
>) {
    ctx.with(|c| -> Result<(), rquickjs::Error> {
        let o: rquickjs::Object = c.globals().get("__request")?;
        let mo = rquickjs::Object::new(c.clone())?;
        for (k, v) in m.iter() {
            mo.set(k.as_str(), v.as_str())?;
        }
        o.set(name, mo)
    }).map_err(|e| e.to_string())
}

/// Relies on rquickjs Function::call and Promise::finish: calls the
/// named handler with the stored request, drives a promise result to
/// completion, and stores the settled value in the global slot the
/// readers below inspect; the error string carries the guest message.
#[verifier::external_body]
fn js_call_handler(ctx: &rquickjs::Context, name: &str) -> (r: Result<(), String>) {
    ctx.with(|c| {
        let run = || -> Result<(), rquickjs::Error> {
            let handlers: rquickjs::Object = c.globals().get("handlers")?;
            let f: rquickjs::Function = handlers.get(name)?;
            let arg: rquickjs::Value = c.globals().get("__request")?;
            let v: rquickjs::Value = f.call((arg,))?;
            let v = match v.try_into_promise() {
                Ok(p) => p.finish::<rquickjs::Value>()?,
                Err(v) => v,
            };
            c.globals().set("__response", v)
        };
        run().map_err(|e| rquickjs::CaughtError::from_error(&c, e).to_string())
    })
}

/// Relies on rquickjs Object::get: reads the stored response's `status`
/// field as an integer, as JavaScript number conversion gives it.
#[verifier::external_body]
fn js_response_status(ctx: &rquickjs::Context) -> (r: Result<i64, String>) {
    ctx.with(|c| -> Result<i64, rquickjs::Error> {
        let o: rquickjs::Object = c.globals().get("__response")?;
        o.get("status")
    }).map_err(|e| e.to_string())
}

/// Relies on rquickjs Object::props: reads the stored response's
/// `headers` object as name/value pairs; a value that is not a guest
/// string is handed back as `None`.
#[verifier::external_body]
fn js_response_headers(ctx: &rquickjs::Context) -> (r: Result<
    Vec<(String, Option<String>)>,
    String,
>) {
    ctx.with(|c| -> Result<Vec<(String, Option<String>)>, rquickjs::Error> {
        let o: rquickjs::Object = c.globals().get("__response")?;
        let h: rquickjs::Object = o.get("headers")?;
        let mut out: Vec<(String, Option<String>)> = Vec::new();
        for p in h.props::<String, rquickjs::Value>() {
            let (k, v) = p?;
            out.push((k, v.get::<String>().ok()));
        }
        Ok(out)
    }).map_err(|e| e.to_string())
}

/// Relies on rquickjs Object::get: reads the stored response's `body` —
/// a string, or the guest's null/undefined for no body.
#[verifier::external_body]
fn js_response_body(ctx: &rquickjs::Context) -> (r: Result<Option<String>, String>) {
    ctx.with(|c| -> Result<Option<String>, rquickjs::Error> {
        let o: rquickjs::Object = c.globals().get("__response")?;
        let b: rquickjs::Value = o.get("body")?;
        if b.is_null() || b.is_undefined() {
            Ok(None)
        } else {
            Ok(Some(b.get::<String>()?))
        }
    }).map_err(|e| e.to_string())
}

impl JsWorker {
    /// Evaluate `module` in a fresh runtime; its value becomes the
    /// handler table. A failure to evaluate is a `ScriptLoad` error.
    pub fn try_new(module: &str) -> (r: Result<JsWorker, AppError>)
        ensures
            r matches Err(e) ==> e matches AppError::ScriptLoad(_),
    {
        match js_new_context(module) {
            Ok(pair) => Ok(JsWorker { rt: pair.0, ctx: pair.1 }),
            Err(e) => Err(AppError::ScriptLoad(e)),
        }
    }

    /// Invoke the named handler with `req` and marshal its result. A
    /// missing handler, a throw or a rejection is a `ScriptRuntime`
    /// error; a malformed response record is a `Marshal` error; an
    /// accepted record always carries a status in [100, 599].
    pub fn run(&self, name: &str, req: Req) -> (r: Result<Res, AppError>)
        ensures
            r matches Ok(res) ==> 100 <= res.status <= 599,
            r matches Err(e) ==> (e matches AppError::ScriptRuntime(_) || e matches
                AppError::Marshal(_)),
    {
        match js_store_request(&self.ctx, req.method.as_str(), req.url.as_str(), &req.body) {
            Err(e) => {
                return Err(AppError::ScriptRuntime(e));
            },
            Ok(_) => {},
        }
        match js_set_request_map(&self.ctx, "query", &req.query) {
            Err(e) => {
                return Err(AppError::ScriptRuntime(e));
            },
            Ok(_) => {},
        }
        match js_set_request_map(&self.ctx, "params", &req.params) {
            Err(e) => {
                return Err(AppError::ScriptRuntime(e));
            },
            Ok(_) => {},
        }
        match js_set_request_map(&self.ctx, "headers", &req.headers) {
            Err(e) => {
                return Err(AppError::ScriptRuntime(e));
            },
            Ok(_) => {},
        }
        match js_call_handler(&self.ctx, name) {
            Err(e) => {
                return Err(AppError::ScriptRuntime(e));
            },
            Ok(_) => {},
        }
        let status = match js_response_status(&self.ctx) {
            Err(e) => {
                return Err(AppError::Marshal(e));
            },
            Ok(s) => s,
        };
        let headers = match js_response_headers(&self.ctx) {
            Err(e) => {
                return Err(AppError::Marshal(e));
            },
            Ok(h) => h,
        };
        let body = match js_response_body(&self.ctx) {
            Err(e) => {
                return Err(AppError::Marshal(e));
            },
            Ok(b) => b,
        };
        build_response(status, headers, body)
    }
}

} // verus!
