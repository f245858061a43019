//! An application: the address it listens on and its routes.
use vstd::prelude::*;

use crate::request::Request;
use crate::response::Response;
use crate::router::{bindings, first_fit, Handler, Router};
use crate::status::reason_text;

verus! {

/// An application listening on the loopback address at a port, with its
/// routes.
pub struct Server<H> {
    address: String,
    router: Router<H>,
}

impl<H: Handler> Server<H> {
    /// Method and pattern of each route, in the order they were added.
    pub closed spec fn routes(&self) -> Seq<(Seq<char>, Seq<char>)> {
        self.router.table()
    }

    /// The address the application listens on.
    pub closed spec fn spec_address(&self) -> Seq<char> {
        self.address@
    }

    /// An application without routes, for `127.0.0.1:<port>`.
    pub fn new(port: &str) -> (r: Server<H>)
        ensures
            r.spec_address() == "127.0.0.1:"@ + port@,
            r.routes() == Seq::<(Seq<char>, Seq<char>)>::empty(),
    {
        let mut address = "127.0.0.1:".to_owned();
        address.append(port);
        Server { address, router: Router::new() }
    }

    /// The address the application listens on.
    pub fn address(&self) -> (r: &str)
        ensures
            r@ == self.spec_address(),
    {
        self.address.as_str()
    }

    /// Adds a route for `method` after the existing ones.
    fn route(&mut self, method: &str, path: &str, handler: H)
        ensures
            final(self).routes() == old(self).routes().push((method@, path@)),
            final(self).spec_address() == old(self).spec_address(),
    {
        self.router.add_route(method, path, handler);
    }

    /// Adds a `GET` route.
    pub fn get(&mut self, path: &str, handler: H)
        ensures
            final(self).routes() == old(self).routes().push(("GET"@, path@)),
            final(self).spec_address() == old(self).spec_address(),
    {
        self.route("GET", path, handler);
    }

    /// Adds a `POST` route.
    pub fn post(&mut self, path: &str, handler: H)
        ensures
            final(self).routes() == old(self).routes().push(("POST"@, path@)),
            final(self).spec_address() == old(self).spec_address(),
    {
        self.route("POST", path, handler);
    }

    /// Adds a `PUT` route.
    pub fn put(&mut self, path: &str, handler: H)
        ensures
            final(self).routes() == old(self).routes().push(("PUT"@, path@)),
            final(self).spec_address() == old(self).spec_address(),
    {
        self.route("PUT", path, handler);
    }

    /// Adds a `DELETE` route.
    pub fn delete(&mut self, path: &str, handler: H)
        ensures
            final(self).routes() == old(self).routes().push(("DELETE"@, path@)),
            final(self).spec_address() == old(self).spec_address(),
    {
        self.route("DELETE", path, handler);
    }

    /// Adds a `PATCH` route.
    pub fn patch(&mut self, path: &str, handler: H)
        ensures
            final(self).routes() == old(self).routes().push(("PATCH"@, path@)),
            final(self).spec_address() == old(self).spec_address(),
    {
        self.route("PATCH", path, handler);
    }

    /// Adds an `OPTIONS` route.
    pub fn options(&mut self, path: &str, handler: H)
        ensures
            final(self).routes() == old(self).routes().push(("OPTIONS"@, path@)),
            final(self).spec_address() == old(self).spec_address(),
    {
        self.route("OPTIONS", path, handler);
    }

    /// Adds a `HEAD` route.
    pub fn head(&mut self, path: &str, handler: H)
        ensures
            final(self).routes() == old(self).routes().push(("HEAD"@, path@)),
            final(self).spec_address() == old(self).spec_address(),
    {
        self.route("HEAD", path, handler);
    }

    /// Dispatches `req` to the first route that matches it, or sends
    /// `404 Not Found`.
    pub fn dispatch(&self, req: &mut Request, res: &mut Response)
        ensures
            final(req).same_but_params(old(req)),
            ({
                let t = self.routes();
                let k = first_fit(t, old(req).method@, old(req).path@);
                if k < t.len() {
                    final(req).params@ == bindings(t[k].1, old(req).path@, old(req).params@)
                } else {
                    &&& final(req).params.pairs() == old(req).params.pairs()
                    &&& final(res)@ == old(res)@.with_status(404, reason_text(404)).finish(
                        "text/plain"@,
                        "404 Not Found"@,
                    )
                }
            }),
    {
        self.router.handle(req, res);
    }
}

} // verus!
