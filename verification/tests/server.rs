use webdav_handler::DavMethod;
use webdav_server::config::{
    Accounts, Config, Pam, Rootfs, ServerSection, Unix, Users, Webdav,
};
use webdav_server::dav::{DavSetup, FileSystem, LockSystem};
use webdav_server::model::{Goal, Next, PasswordWait, User};
use webdav_server::request::Request;
use webdav_server::response::{Response, BAD_REQUEST, NOT_FOUND, UNAUTHORIZED};
use webdav_server::server::Server;
use webdav_server::webpath::WebPath;

const MIKE: &[u8] = b"Basic bWlrZTpzZWNyZXQ=";

fn config() -> Config {
    Config {
        server: ServerSection {
            listen: vec![],
            uid: None,
            gid: None,
        },
        accounts: Accounts {
            realm: None,
            setuid: true,
        },
        pam: Pam {
            service: "webdav".to_string(),
        },
        unix: Unix {
            min_uid: Some(1000),
        },
        rootfs: Some(Rootfs {
            path: "/".to_string(),
            auth: false,
            directory: "/var/www".to_string(),
            index: None,
        }),
        users: Some(Users {
            path: "/:username".to_string(),
        }),
        webdav: Webdav {
            locksystem: "".to_string(),
        },
    }
}

fn request(method: &str, uri_path: &str) -> Request {
    Request {
        method: method.to_string(),
        uri_path: uri_path.to_string(),
        authorization: Some(MIKE.to_vec()),
        x_real_ip: None,
        loopback: false,
        remote_ip: "192.0.2.1".to_string(),
    }
}

fn user(name: &str, uid: u32) -> User {
    User {
        name: name.to_string(),
        uid,
        gid: 100,
        dir: format!("/home/{}", name),
    }
}

/// What the outside world answers.
struct Answers {
    account: Option<User>,
    right: bool,
    exists: bool,
    namesake: Option<User>,
}

fn mike() -> Answers {
    Answers {
        account: Some(user("mike", 1000)),
        right: true,
        exists: true,
        namesake: None,
    }
}

enum End {
    Reply(Response),
    Serve(DavSetup, Option<String>),
}

/// Runs a request to its end, and notes the questions that it raises.
fn run(server: &Server, req: &Request, answers: Answers) -> (End, Vec<String>) {
    let mut questions = Vec::new();
    let mut account = Some(answers.account);
    let mut namesake = Some(answers.namesake);
    let mut next = server.handle_async(req);
    loop {
        next = match next {
            Next::FindAccount { name, then } => {
                questions.push(format!("account {}", name));
                let login = match then {
                    webdav_server::model::AccountWait::Login { .. } => true,
                    _ => false,
                };
                let found = if login { account.take() } else { namesake.take() };
                server.after_account(then, found.unwrap())
            }
            Next::CheckPassword {
                service,
                user,
                password,
                remote_ip,
                then,
            } => {
                questions.push(format!(
                    "password {} {} {} {:?}",
                    service, user, password, remote_ip
                ));
                server.after_password(then, answers.right)
            }
            Next::FindFile {
                directory,
                path,
                then,
            } => {
                questions.push(format!(
                    "file {} {}",
                    directory,
                    String::from_utf8_lossy(path.as_bytes())
                ));
                server.after_file(then, answers.exists)
            }
            Next::Reply(response) => return (End::Reply(response), questions),
            Next::Serve { setup, rewrite } => return (End::Serve(setup, rewrite), questions),
        }
    }
}

fn reply(end: End) -> Response {
    match end {
        End::Reply(response) => response,
        End::Serve(..) => panic!("served"),
    }
}

fn served(end: End) -> (DavSetup, Option<String>) {
    match end {
        End::Serve(setup, rewrite) => (setup, rewrite),
        End::Reply(response) => panic!("answered {}", response.status),
    }
}

fn header(response: &Response, name: &str) -> Option<String> {
    response
        .headers
        .iter()
        .find(|h| h.0 == name)
        .map(|h| h.1.clone())
}

#[test]
fn new_keeps_the_configuration() {
    let server = Server::new(config());
    assert_eq!(server.config().pam.service, "webdav");
    assert_eq!(server.config().users.as_ref().unwrap().path, "/:username");
}

#[test]
fn the_name_of_the_user_is_put_into_the_path() {
    for template in ["/:username", "/home/:username/dav", "/u", "/:username/:username", "::username", ":usernam", ":username"] {
        for name in ["mike", "", ":username", "é"] {
            let mut c = config();
            c.users = Some(Users {
                path: template.to_string(),
            });
            let server = Server::new(c);
            assert_eq!(server.user_path(name), template.replace(":username", name));
        }
    }
}

#[test]
fn without_users_no_path_is_that_of_a_user() {
    let mut c = config();
    c.users = None;
    c.rootfs = None;
    let server = Server::new(c);
    assert_eq!(server.user_path("mike"), "-");
    for uri_path in ["/", "/-", "/mike", "*", "/%FF"] {
        let (end, questions) = run(&server, &request("PROPFIND", uri_path), mike());
        assert_eq!(reply(end).status, NOT_FOUND);
        assert!(questions.is_empty());
    }
}

#[test]
fn the_lock_system_is_chosen_by_name() {
    let mut c = config();
    assert_eq!(Server::new(c).locksystem(), Some(LockSystem::Fake));
    c = config();
    c.webdav.locksystem = "fakels".to_string();
    assert_eq!(Server::new(c).locksystem(), Some(LockSystem::Fake));
    c = config();
    c.webdav.locksystem = "none".to_string();
    assert_eq!(Server::new(c).locksystem(), None);
}

#[test]
fn files_of_the_server_lie_one_level_deep() {
    let server = Server::new(config());
    assert!(server.is_realroot("/").is_some());
    assert!(!server.is_realroot("/favicon.ico").unwrap().1);
    assert!(server.is_realroot("/dir/").is_none());
    assert!(server.is_realroot("/dir/file").is_none());
    assert!(server.is_realroot("/..").is_none());
    let mut c = config();
    c.rootfs = None;
    assert!(Server::new(c).is_realroot("/").is_none());
    let mut c = config();
    c.rootfs = Some(Rootfs {
        path: "/static".to_string(),
        auth: true,
        directory: "/srv".to_string(),
        index: None,
    });
    let server = Server::new(c);
    assert!(server.is_realroot("/static/logo").unwrap().1);
    assert!(server.is_realroot("/logo").is_none());
}

#[test]
fn errors_carry_the_code_and_the_phrase() {
    let server = Server::new(config());
    for code in 100..=999u16 {
        let status = http::StatusCode::from_u16(code).unwrap();
        let response = server.error(code);
        assert_eq!(response.status, code);
        assert_eq!(
            response.body,
            format!(
                "<error>{} {}</error>\n",
                status.as_u16(),
                status.canonical_reason().unwrap_or("")
            )
        );
        assert_eq!(header(&response, "Content-Type").as_deref(), Some("text/xml"));
        assert_eq!(
            header(&response, "WWW-Authenticate").is_some(),
            status == http::StatusCode::UNAUTHORIZED
        );
    }
    assert_eq!(server.error(BAD_REQUEST).body, "<error>400 Bad Request</error>\n");
    assert_eq!(server.error(UNAUTHORIZED).body, "<error>401 Unauthorized</error>\n");
    assert_eq!(server.error(NOT_FOUND).body, "<error>404 Not Found</error>\n");
}

#[test]
fn an_error_can_be_made_from_any_phrase() {
    let response = Response::error(7, "Odd", &None);
    assert_eq!(response.status, 7);
    assert_eq!(response.body, "<error>7 Odd</error>\n");
}

#[test]
fn the_challenge_names_the_realm() {
    let server = Server::new(config());
    assert_eq!(
        header(&server.error(UNAUTHORIZED), "WWW-Authenticate").as_deref(),
        Some("Basic realm=\"Webdav Server\"")
    );
    let mut c = config();
    c.accounts.realm = Some("Home".to_string());
    assert_eq!(
        header(&Server::new(c).error(UNAUTHORIZED), "WWW-Authenticate").as_deref(),
        Some("Basic realm=\"Home\"")
    );
}

#[test]
fn a_redirect_names_the_path() {
    let response = Server::new(config()).redirect("/mike/".to_string());
    assert_eq!(response.status, 302);
    assert_eq!(header(&response, "content-type").as_deref(), Some("text/plain"));
    assert_eq!(header(&response, "location").as_deref(), Some("/mike/"));
    assert_eq!(response.body, "302 Moved\n");
}

#[test]
fn an_unreadable_path_is_a_bad_request() {
    let server = Server::new(config());
    for method in ["GET", "PROPFIND"] {
        let (end, questions) = run(&server, &request(method, "/.."), mike());
        assert_eq!(reply(end).status, BAD_REQUEST);
        assert!(questions.is_empty());
    }
}

#[test]
fn the_owner_gets_at_the_home_directory() {
    let server = Server::new(config());
    let (end, questions) = run(&server, &request("PUT", "/mike/file"), mike());
    assert_eq!(
        questions,
        vec![
            "account mike",
            "password webdav mike secret Some(\"192.0.2.1\")"
        ]
    );
    let (setup, rewrite) = served(end);
    match setup.fs {
        FileSystem::Home { dir, ugid, public } => {
            assert_eq!(dir, "/home/mike");
            assert_eq!(ugid, Some((1000, 100)));
            assert!(public);
        }
        _ => panic!("another file system"),
    }
    assert_eq!(setup.prefix.as_deref(), Some("/mike"));
    assert_eq!(setup.principal.as_deref(), Some("mike"));
    assert_eq!(setup.locksystem, Some(LockSystem::Fake));
    assert!(setup.allow.is_none());
    assert_eq!(rewrite, None);
}

#[test]
fn without_setuid_files_are_accessed_as_the_server() {
    let mut c = config();
    c.accounts.setuid = false;
    let server = Server::new(c);
    let (setup, _) = served(run(&server, &request("PUT", "/mike/file"), mike()).0);
    match setup.fs {
        FileSystem::Home { ugid, .. } => assert_eq!(ugid, None),
        _ => panic!("another file system"),
    }
}

#[test]
fn the_home_directory_of_another_user_is_refused() {
    let server = Server::new(config());
    let (end, _) = run(&server, &request("PUT", "/anna/file"), mike());
    assert_eq!(reply(end).status, UNAUTHORIZED);
}

#[test]
fn a_name_that_begins_like_that_of_the_user_is_another_name() {
    let server = Server::new(config());
    for path in ["/mikes/file", "/mikes/", "/mikes", "/mike.old/file", "/mike%20/file"] {
        let (end, questions) = run(&server, &request("PROPFIND", path), mike());
        let response = reply(end);
        assert_eq!(response.status, UNAUTHORIZED);
        assert!(header(&response, "WWW-Authenticate").is_some());
        assert_eq!(questions.len(), 2);
    }
    for path in ["/mike", "/mike/", "/mike/file", "/mikes/../mike/file"] {
        let (setup, _) = served(run(&server, &request("PROPFIND", path), mike()).0);
        assert_eq!(setup.prefix, Some("/mike".to_string()));
    }
}

#[test]
fn a_directory_can_follow_the_name_of_the_user() {
    let mut c = config();
    c.users = Some(Users { path: "/home:username/dav/".to_string() });
    let server = Server::new(c);
    let login = |path: &str| {
        let then = PasswordWait { user: user("mike", 1000), goal: Goal::Home(path.to_string()) };
        server.after_password(then, true)
    };
    assert!(matches!(login("/homemike/dav/"), Next::Serve { .. }));
    assert!(matches!(login("/homemike/dav/file"), Next::Serve { .. }));
    assert!(matches!(login("/homemikes/dav/file"), Next::Reply(_)));
    assert!(matches!(login("/homemike/davs/file"), Next::Reply(_)));
}

#[test]
fn the_name_of_the_user_can_stand_twice_in_the_path() {
    let mut c = config();
    c.users = Some(Users { path: "/:username:username".to_string() });
    let server = Server::new(c);
    assert_eq!(server.user_path("mike"), "/mikemike");
    let (setup, _) = served(run(&server, &request("PUT", "/mikemike/file"), mike()).0);
    assert_eq!(setup.prefix, Some("/mikemike".to_string()));
    for path in ["/mikemikemikemike/file", "/mike/file", "/annaanna/file"] {
        let (end, _) = run(&server, &request("PUT", path), mike());
        assert_eq!(reply(end).status, UNAUTHORIZED);
    }
}

#[test]
fn a_file_name_that_is_not_text_needs_no_section() {
    let mut c = config();
    c.rootfs = None;
    let server = Server::new(c);
    let path = WebPath::from_uri("/%ff", "").unwrap();
    match server.handle_realroot(path) {
        Next::Reply(response) => {
            assert_eq!(response.status, NOT_FOUND);
            assert_eq!(response.body, "<error>404 Not Found</error>\n");
        }
        _ => panic!("not a reply"),
    }
}

#[test]
fn a_failed_login_is_refused() {
    let server = Server::new(config());
    let mut none = request("PUT", "/mike/file");
    none.authorization = None;
    let (end, questions) = run(&server, &none, mike());
    let response = reply(end);
    assert_eq!(response.status, UNAUTHORIZED);
    assert!(header(&response, "WWW-Authenticate").is_some());
    assert!(questions.is_empty());

    let req = request("PUT", "/mike/file");
    let mut unknown = mike();
    unknown.account = None;
    let (end, questions) = run(&server, &req, unknown);
    assert_eq!(reply(end).status, UNAUTHORIZED);
    assert_eq!(questions.len(), 1);

    let mut wrong = mike();
    wrong.right = false;
    let (end, questions) = run(&server, &req, wrong);
    assert_eq!(reply(end).status, UNAUTHORIZED);
    assert_eq!(questions.len(), 2);
}

#[test]
fn a_low_uid_is_refused() {
    let server = Server::new(config());
    let req = request("PUT", "/mike/file");
    let mut low = mike();
    low.account = Some(user("mike", 999));
    assert_eq!(reply(run(&server, &req, low).0).status, UNAUTHORIZED);
    let mut c = config();
    c.unix.min_uid = None;
    let mut low = mike();
    low.account = Some(user("mike", 0));
    served(run(&Server::new(c), &req, low).0);
}

#[test]
fn the_virtual_root_can_be_read_and_listed() {
    let server = Server::new(config());
    let (end, _) = run(&server, &request("PROPFIND", "/"), mike());
    let (setup, rewrite) = served(end);
    assert_eq!(rewrite, None);
    match setup.fs {
        FileSystem::VirtualRoot { dir, user, ugid } => {
            assert_eq!(dir, "/home/mike");
            assert_eq!(user, "mike");
            assert_eq!(ugid, Some((1000, 100)));
        }
        _ => panic!("another file system"),
    }
    assert_eq!(setup.prefix.as_deref(), Some("/"));
    assert_eq!(setup.principal.as_deref(), Some("mike"));
    let allow = setup.allow.unwrap();
    for method in [
        DavMethod::Head,
        DavMethod::Get,
        DavMethod::PropFind,
        DavMethod::Options,
    ] {
        assert!(allow.contains(method));
    }
    for method in [
        DavMethod::Put,
        DavMethod::Patch,
        DavMethod::PropPatch,
        DavMethod::MkCol,
        DavMethod::Copy,
        DavMethod::Move,
        DavMethod::Delete,
        DavMethod::Lock,
        DavMethod::Unlock,
    ] {
        assert!(!allow.contains(method));
    }
}

#[test]
fn trailing_slashes_do_not_hide_the_virtual_root() {
    let mut c = config();
    c.users = Some(Users {
        path: "/home/:username".to_string(),
    });
    let server = Server::new(c);
    for uri_path in ["/home", "/home/"] {
        let (setup, _) = served(run(&server, &request("PROPFIND", uri_path), mike()).0);
        match setup.fs {
            FileSystem::VirtualRoot { .. } => {}
            _ => panic!("another file system"),
        }
        assert_eq!(setup.prefix.as_deref(), Some("/home/"));
    }
    let (end, questions) = run(&server, &request("PROPFIND", "/"), mike());
    assert_eq!(reply(end).status, NOT_FOUND);
    assert!(questions.is_empty());
}

#[test]
fn a_path_without_a_name_is_that_of_every_user() {
    let mut c = config();
    c.users = Some(Users {
        path: "/dav".to_string(),
    });
    let server = Server::new(c);
    let (setup, _) = served(run(&server, &request("PROPFIND", "/dav/x"), mike()).0);
    assert_eq!(setup.prefix.as_deref(), Some("/dav"));
    match setup.fs {
        FileSystem::Home { .. } => {}
        _ => panic!("another file system"),
    }
}

#[test]
fn the_root_is_served_as_its_index_file() {
    let server = Server::new(config());
    let (end, questions) = run(&server, &request("GET", "/"), mike());
    assert_eq!(questions, vec!["file /var/www /index.html"]);
    let (setup, rewrite) = served(end);
    assert_eq!(rewrite.as_deref(), Some("/index.html"));
    match setup.fs {
        FileSystem::Local { directory, public } => {
            assert_eq!(directory, "/var/www");
            assert!(public);
        }
        _ => panic!("another file system"),
    }
    assert!(setup.prefix.is_none() && setup.principal.is_none() && setup.allow.is_none());
    assert_eq!(setup.locksystem, None);
}

#[test]
fn the_index_file_can_be_named() {
    let mut c = config();
    c.rootfs = Some(Rootfs {
        path: "/static".to_string(),
        auth: false,
        directory: "/srv".to_string(),
        index: Some("a b.html".to_string()),
    });
    let server = Server::new(c);
    let (end, questions) = run(&server, &request("HEAD", "/static"), mike());
    assert_eq!(questions, vec!["file /srv /a b.html"]);
    assert_eq!(served(end).1.as_deref(), Some("/static/a%20b.html"));
}

#[test]
fn a_file_of_the_server_is_served_under_its_own_path() {
    let server = Server::new(config());
    let (end, questions) = run(&server, &request("GET", "/robots.txt"), mike());
    assert_eq!(questions, vec!["file /var/www /robots.txt"]);
    assert_eq!(served(end).1, None);
}

#[test]
fn a_missing_file_with_the_name_of_a_user_is_redirected() {
    let server = Server::new(config());
    let mut missing = mike();
    missing.exists = false;
    missing.namesake = Some(user("anna", 1001));
    let (end, questions) = run(&server, &request("GET", "/anna"), missing);
    assert_eq!(questions, vec!["file /var/www /anna", "account anna"]);
    let response = reply(end);
    assert_eq!(response.status, 302);
    assert_eq!(header(&response, "location").as_deref(), Some("/anna/"));
}

#[test]
fn a_missing_file_is_not_found() {
    let server = Server::new(config());
    let mut missing = mike();
    missing.exists = false;
    let (end, _) = run(&server, &request("GET", "/nobody"), missing);
    assert_eq!(reply(end).status, NOT_FOUND);
}

#[test]
fn a_file_name_that_is_not_text_is_not_found() {
    let server = Server::new(config());
    let (end, questions) = run(&server, &request("GET", "/%FF"), mike());
    assert_eq!(reply(end).status, NOT_FOUND);
    assert!(questions.is_empty());
}

#[test]
fn files_of_the_server_can_ask_for_a_login() {
    let mut c = config();
    c.rootfs.as_mut().unwrap().auth = true;
    let server = Server::new(c);
    let (end, questions) = run(&server, &request("GET", "/robots.txt"), mike());
    assert_eq!(
        questions,
        vec![
            "account mike",
            "password webdav mike secret Some(\"192.0.2.1\")",
            "file /var/www /robots.txt"
        ]
    );
    served(end);
    let mut none = request("GET", "/robots.txt");
    none.authorization = None;
    assert_eq!(reply(run(&server, &none, mike()).0).status, UNAUTHORIZED);
}

#[test]
fn a_request_raises_at_most_four_questions() {
    let mut c = config();
    c.rootfs.as_mut().unwrap().auth = true;
    let server = Server::new(c);
    let mut missing = mike();
    missing.exists = false;
    missing.namesake = Some(user("anna", 1001));
    let (end, questions) = run(&server, &request("GET", "/anna"), missing);
    assert_eq!(questions.len(), 4);
    assert_eq!(reply(end).status, 302);
}

#[test]
fn only_requests_that_read_go_to_the_files_of_the_server() {
    let server = Server::new(config());
    let (setup, _) = served(run(&server, &request("PUT", "/mike"), mike()).0);
    match setup.fs {
        FileSystem::Home { .. } => {}
        _ => panic!("another file system"),
    }
}
