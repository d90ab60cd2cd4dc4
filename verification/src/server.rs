//! The server: a configuration and the steps that it takes for a request.
use crate::config::Config;
use crate::dav::{DavSetup, FileSystem, LockSystem, Method};
#[allow(unused_imports)]
use crate::model::{
    account_wait_fits, act_as, admitted_step, after_account, after_file, after_password, first,
    first_on, goal_fits, home_step, lock_system, login, next_fits, one_level_deep, real_root,
    real_root_step, route, route_by_path, user_path, users_root, virtual_root_setup,
};
#[allow(unused_imports)]
use crate::model::{opt_user, NextView};
use crate::model::{AccountWait, FileWait, Goal, Next, PasswordWait, User};
#[allow(unused_imports)]
use crate::outside::method_set;
use crate::outside::{add_method, no_methods, path_and_query, utf8_text};
use crate::request::Request;
#[allow(unused_imports)]
use crate::response::{error_response, redirect_response};
use crate::response::{
    make_error, make_redirect, Response, BAD_REQUEST, NOT_FOUND, UNAUTHORIZED,
};
#[allow(unused_imports)]
use crate::text::{occurs, opt_text};
use crate::text::{contains, is_below, replace, same_text, starts_with, trim_end_matches};
#[allow(unused_imports)]
use crate::webpath::{lemma_encode_path_chars, WebPathView};
use crate::webpath::WebPath;
use vstd::prelude::*;
#[allow(unused_imports)]
use vstd::utf8::{decode_utf8, encode_utf8, encode_utf8_decode_utf8, valid_utf8};

verus! {

/// A server.
pub struct Server {
    config: Config,
    users_path: Option<String>,
}

impl View for Server {
    type V = Config;

    closed spec fn view(&self) -> Config {
        self.config
    }
}

/// The model of a file of the server itself, with the mark that a client has to log in for it.
pub open spec fn opt_real_root(found: Option<(WebPath, bool)>) -> Option<(WebPathView, bool)> {
    match found {
        Some((path, auth)) => Some((path@, auth)),
        None => None,
    }
}

/// The model of a user name and a password, if they are there.
pub open spec fn opt_credentials(found: Option<(String, String)>) -> Option<
    (Seq<char>, Seq<char>),
> {
    match found {
        Some((name, password)) => Some((name@, password@)),
        None => None,
    }
}

/// Whether a path is at most one level deep: it is the root, or the name of a file in it.
pub fn is_one_level_deep(path: &WebPath) -> (yes: bool)
    ensures
        yes == one_level_deep(path@),
{
    let n: usize = path.num_segments();
    n == 0 || (n == 1 && !path.is_collection())
}

impl Server {
    /// The path that the home directories have in common is that of the configuration.
    #[verifier::type_invariant]
    spec fn inv(self) -> bool {
        opt_text(self.users_path) == users_root(self.config)
    }

    /// Makes a server from its configuration.
    pub fn new(config: Config) -> (server: Server)
        ensures
            server@ == config,
    {
        proof {
            reveal_strlit(":username");
        }
        let users_path = match &config.users {
            Some(users) => {
                if contains(users.path.as_str(), ":username") {
                    Some(replace(users.path.as_str(), ":username", ""))
                } else {
                    None
                }
            },
            None => None,
        };
        Server { config, users_path }
    }

    /// The configuration of the server.
    pub fn config(&self) -> (config: &Config)
        ensures
            *config == self@,
    {
        &self.config
    }

    /// The lock system to use.
    pub fn locksystem(&self) -> (ls: Option<LockSystem>)
        ensures
            ls == lock_system(self@),
    {
        let name: &str = self.config.webdav.locksystem.as_str();
        if same_text(name, "") || same_text(name, "fakels") {
            Some(LockSystem::Fake)
        } else {
            None
        }
    }

    /// The path of the home directory of a user.
    pub fn user_path(&self, user: &str) -> (path: String)
        ensures
            path@ == user_path(self@, user@),
    {
        proof {
            reveal_strlit(":username");
        }
        match &self.config.users {
            Some(users) => replace(users.path.as_str(), ":username", user),
            None => "-".to_owned(),
        }
    }

    /// The file of the server itself that the path of a URI may name, and whether a client has to
    /// log in for it.
    pub fn is_realroot(&self, uri_path: &str) -> (found: Option<(WebPath, bool)>)
        ensures
            opt_real_root(found) == real_root(self@, uri_path@),
    {
        let rootfs = match &self.config.rootfs {
            Some(rootfs) => rootfs,
            None => return None,
        };
        let path = match WebPath::from_uri(uri_path, rootfs.path.as_str()) {
            Some(path) => path,
            None => return None,
        };
        // only files one level deep.
        if is_one_level_deep(&path) {
            Some((path, rootfs.auth))
        } else {
            None
        }
    }

    /// Starts the login of the client of a request.
    pub fn auth(&self, req: &Request, goal: Goal) -> (next: Next)
        requires
            goal_fits(self@, goal@),
        ensures
            next@ == crate::model::auth(self@, *req, goal@),
            next_fits(self@, next@),
    {
        self.login(req.credentials(), req.client_ip(), goal)
    }

    /// Starts a login with a user name and a password; without them it fails.
    pub fn login(
        &self,
        credentials: Option<(String, String)>,
        remote_ip: Option<String>,
        goal: Goal,
    ) -> (next: Next)
        requires
            goal_fits(self@, goal@),
        ensures
            next@ == login(self@, opt_credentials(credentials), opt_text(remote_ip), goal@),
            next_fits(self@, next@),
    {
        match credentials {
            Some((name, password)) => Next::FindAccount {
                name,
                then: AccountWait::Login { password, remote_ip, goal },
            },
            None => Next::Reply(self.error(UNAUTHORIZED)),
        }
    }

    /// Starts to handle a request.
    pub fn handle_async(&self, req: &Request) -> (next: Next)
        ensures
            next@ == first(self@, *req),
            next_fits(self@, next@),
            self@.users is None ==> !(route(self@, *req) is Home),
    {
        // see if this is a request for the root filesystem.
        if req.is_get_or_head() {
            if let Some((path, auth)) = self.is_realroot(req.uri_path.as_str()) {
                if auth {
                    return self.auth(req, Goal::RealRoot(path));
                }
                return self.handle_realroot(path);
            }
        }
        let path = match WebPath::from_uri(req.uri_path.as_str(), "") {
            Some(path) => path.as_utf8_string_with_prefix(),
            None => return Next::Reply(self.error(BAD_REQUEST)),
        };
        proof {
            reveal_strlit("-");
            assert("-"@.is_prefix_of(path@) ==> path@.take(1)[0] == '-');
        }
        self.handle_path(req, path)
    }

    /// Starts to handle a request that is not for a file of the server itself, by its path.
    pub fn handle_path(&self, req: &Request, path: String) -> (next: Next)
        ensures
            next@ == first_on(self@, *req, route_by_path(self@, path@)),
            next_fits(self@, next@),
    {
        proof {
            use_type_invariant(self);
        }
        // could be a request for the virtual root.
        if let Some(users_path) = &self.users_path {
            let trimmed = trim_end_matches(path.as_str(), '/');
            if same_text(
                trimmed.as_str(),
                trim_end_matches(users_path.as_str(), '/').as_str(),
            ) {
                return self.auth(req, Goal::VirtualRoot);
            }
        }
        // is this the users part of the path?
        let prefix = self.user_path("");
        if !starts_with(path.as_str(), prefix.as_str()) {
            return Next::Reply(self.error(NOT_FOUND));
        }
        self.auth(req, Goal::Home(path))
    }

    /// Goes on with a request once it is known whether the account that it asked for exists.
    pub fn after_account(&self, then: AccountWait, account: Option<User>) -> (next: Next)
        requires
            account_wait_fits(self@, then@),
        ensures
            next@ == after_account(self@, then@, opt_user(account)),
            next_fits(self@, next@),
    {
        match then {
            AccountWait::Login { password, remote_ip, goal } => match account {
                Some(user) => Next::CheckPassword {
                    service: self.config.pam.service.clone(),
                    user: user.name.clone(),
                    password,
                    remote_ip,
                    then: PasswordWait { user, goal },
                },
                None => Next::Reply(self.error(UNAUTHORIZED)),
            },
            AccountWait::FileName { name } => {
                if account.is_some() {
                    let mut location = "/".to_owned();
                    location.append(name.as_str());
                    location.append("/");
                    Next::Reply(self.redirect(location))
                } else {
                    Next::Reply(self.error(NOT_FOUND))
                }
            },
        }
    }

    /// Goes on with a request once it is known whether the password is right.
    pub fn after_password(&self, then: PasswordWait, right: bool) -> (next: Next)
        requires
            goal_fits(self@, then@.goal),
        ensures
            next@ == after_password(self@, then@, right),
            next_fits(self@, next@),
    {
        if !right {
            return Next::Reply(self.error(UNAUTHORIZED));
        }
        // check minimum uid.
        if let Some(min_uid) = self.config.unix.min_uid {
            if then.user.uid < min_uid {
                return Next::Reply(self.error(UNAUTHORIZED));
            }
        }
        let user = then.user;
        match then.goal {
            Goal::RealRoot(path) => self.handle_realroot(path),
            Goal::VirtualRoot => self.handle_virtualroot(user),
            Goal::Home(path) => {
                // check if username matches basedir.
                let prefix = self.user_path(user.name.as_str());
                if !is_below(path.as_str(), prefix.as_str()) {
                    return Next::Reply(self.error(UNAUTHORIZED));
                }
                self.handle_user(prefix, user)
            },
        }
    }

    /// Goes on with a request once it is known whether the file exists. A name that is no file
    /// may be that of a user.
    pub fn after_file(&self, then: FileWait, exists: bool) -> (next: Next)
        requires
            self@.rootfs is Some,
        ensures
            next@ == after_file(self@, then@, exists),
            next_fits(self@, next@),
    {
        if exists {
            let rootfs = self.config.rootfs.as_ref().unwrap();
            let setup = DavSetup {
                fs: FileSystem::Local { directory: rootfs.directory.clone(), public: true },
                locksystem: None,
                prefix: None,
                principal: None,
                allow: None,
            };
            Next::Serve { setup, rewrite: then.rewrite }
        } else {
            Next::FindAccount {
                name: then.name.clone(),
                then: AccountWait::FileName { name: then.name },
            }
        }
    }

    /// An error response.
    pub fn error(&self, code: u16) -> (response: Response)
        ensures
            response@ == error_response(code, opt_text(self@.accounts.realm)),
            code == BAD_REQUEST ==> response@.body == "<error>400 Bad Request</error>\n"@,
            code == UNAUTHORIZED ==> response@.body == "<error>401 Unauthorized</error>\n"@,
            code == NOT_FOUND ==> response@.body == "<error>404 Not Found</error>\n"@,
    {
        make_error(code, &self.config.accounts.realm)
    }

    /// A response that sends the client to another path.
    pub fn redirect(&self, path: String) -> (response: Response)
        ensures
            response@ == redirect_response(path@),
    {
        make_redirect(path)
    }

    /// Serves from the local filesystem. A file name that is not text is that of no file, whether
    /// or not there is a `[rootfs]` section.
    pub fn handle_realroot(&self, path: WebPath) -> (next: Next)
        requires
            self@.rootfs is Some || !valid_utf8(path@.file_name()),
        ensures
            next@ == real_root_step(self@, path@),
            next_fits(self@, next@),
    {
        let name = match utf8_text(path.file_name().as_slice()) {
            Some(name) => name,
            None => return Next::Reply(self.error(NOT_FOUND)),
        };
        proof {
            encode_utf8_decode_utf8(name@);
            assert(name@.len() == 0 ==> path@.file_name() =~= Seq::empty());
            assert(path@.file_name().len() == 0 ==> name@ =~= Seq::empty());
        }
        let rootfs = self.config.rootfs.as_ref().unwrap();
        let directory = rootfs.directory.clone();
        // index.html?
        if name.as_str().is_empty() {
            let index = match &rootfs.index {
                Some(index) => index.clone(),
                None => "index.html".to_owned(),
            };
            let path = path.push_segment(index.as_str().as_bytes());
            let url = path.as_url_string_with_prefix();
            proof {
                lemma_encode_path_chars(path@.full());
            }
            let rewrite = path_and_query(url.as_str());
            Next::FindFile { directory, path, then: FileWait { name: index, rewrite } }
        } else {
            Next::FindFile { directory, path, then: FileWait { name, rewrite: None } }
        }
    }

    /// Serves the virtual root filesystem.
    pub fn handle_virtualroot(&self, user: User) -> (next: Next)
        requires
            users_root(self@) is Some,
        ensures
            next@ == (NextView::Serve {
                setup: virtual_root_setup(self@, user@),
                rewrite: None,
            }),
    {
        proof {
            use_type_invariant(self);
        }
        let ugid = self.act_as(&user);
        let mut methods = no_methods();
        add_method(&mut methods, Method::Head);
        add_method(&mut methods, Method::Get);
        add_method(&mut methods, Method::PropFind);
        add_method(&mut methods, Method::Options);
        let prefix = self.users_path.as_ref().unwrap().clone();
        let setup = DavSetup {
            fs: FileSystem::VirtualRoot { dir: user.dir, user: user.name.clone(), ugid },
            locksystem: self.locksystem(),
            prefix: Some(prefix),
            principal: Some(user.name),
            allow: Some(methods),
        };
        assert(method_set(methods) =~= set![
            Method::Head,
            Method::Get,
            Method::PropFind,
            Method::Options,
        ]);
        Next::Serve { setup, rewrite: None }
    }

    /// Serves the home directory of a user.
    pub fn handle_user(&self, prefix: String, user: User) -> (next: Next)
        ensures
            next@ == home_step(self@, prefix@, user@),
            next_fits(self@, next@),
    {
        // do we have a users section?
        if self.config.users.is_none() {
            return Next::Reply(self.error(NOT_FOUND));
        }
        let ugid = self.act_as(&user);
        let setup = DavSetup {
            fs: FileSystem::Home { dir: user.dir, ugid, public: true },
            locksystem: self.locksystem(),
            prefix: Some(prefix),
            principal: Some(user.name),
            allow: None,
        };
        Next::Serve { setup, rewrite: None }
    }

    /// The user and the group to act as for an account.
    fn act_as(&self, user: &User) -> (ugid: Option<(u32, u32)>)
        ensures
            ugid == act_as(self@, user@),
    {
        if self.config.accounts.setuid {
            Some((user.uid, user.gid))
        } else {
            None
        }
    }
}

} // verus!
