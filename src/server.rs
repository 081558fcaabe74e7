use vstd::prelude::*;
use std::sync::Arc;
use crate::config::Config;
use crate::http::request::Request;
use crate::http::response::HTTPStatus;
use crate::http::response::Response;
use crate::route::Router;
use crate::route::resolve_spec;

verus! {

/// The listening configuration and the dispatch table, shared read-only by
/// every connection.
pub struct Server<H> {
    pub config: Arc<Config>,
    pub router: Arc<Router<H>>,
}

impl<H: Fn(&Request, &Config) -> Response> Server<H> {
    pub fn new(config: Config, router: Router<H>) -> (r: Server<H>)
        ensures
            *r.config == config,
            *r.router == router,
    {
        Server { config: Arc::new(config), router: Arc::new(router) }
    }

    /// Answers one request: the first route that serves it produces the
    /// response, or `404 Not Found` when none does; either way the response
    /// carries the request's HTTP version.
    pub fn handle_request(request: &Request, router: &Arc<Router<H>>, config: &Arc<Config>) -> (r: Response)
        requires
            match resolve_spec(router.table(), request.resource@, request.method) {
                Some(k) => call_requires(router.routes@[k].handler, (request, &**config)),
                None => true,
            },
        ensures
            r.version() == Some(request.http_version@),
            match resolve_spec(router.table(), request.resource@, request.method) {
                Some(k) => exists|h: Response|
                    call_ensures(router.routes@[k].handler, (request, &**config), h) && r.status
                        == h.status && r.headers == h.headers && r.body == h.body,
                None => r.status == HTTPStatus::NotFound && r.headers@.len() == 0 && r.body is None,
            },
    {
        let router: &Router<H> = &**router;
        let config: &Config = &**config;
        let mut response = match router.resolve(request.method, request.resource.as_str()) {
            None => Response::new(HTTPStatus::NotFound),
            Some(k) => {
                let handler = &router.routes[k].handler;
                handler(request, config)
            },
        };
        response.set_http_version(request.http_version.as_str());
        response
    }
}

} // verus!
