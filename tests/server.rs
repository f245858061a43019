use rxpress::{Handler, Request, Response, Server, StrMap};

struct Reply(&'static str);

impl Handler for Reply {
    fn handle(&self, _req: &Request, res: &mut Response) {
        res.send(self.0);
    }
}

#[test]
fn test_server_new() {
    let server: Server<Reply> = Server::new("3000");
    assert_eq!(server.address(), "127.0.0.1:3000");
}

#[test]
fn each_method_registers_its_own_route() {
    let mut app = Server::new("8080");
    app.get("/", Reply("get"));
    app.post("/", Reply("post"));
    app.put("/", Reply("put"));
    app.delete("/", Reply("delete"));
    app.patch("/", Reply("patch"));
    app.options("/", Reply("options"));
    app.head("/", Reply("head"));
    for (method, expected) in [
        ("GET", "get"),
        ("POST", "post"),
        ("PUT", "put"),
        ("DELETE", "delete"),
        ("PATCH", "patch"),
        ("OPTIONS", "options"),
        ("HEAD", "head"),
    ] {
        let mut req = Request::new(&format!("{} / HTTP/1.1", method), StrMap::new(), String::new());
        let mut res = Response::new();
        app.dispatch(&mut req, &mut res);
        assert_eq!(res.output().unwrap().1, expected);
    }
}
