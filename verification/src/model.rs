//! What the server does with a request, step by step.
//!
//! A request is handled in steps. Each step ends with a question that only the outside world can
//! answer (is there such an account, is this its password, does this file exist), or with the
//! outcome. [`Next`] says which; the `then` of a question is handed back with the answer.
use crate::config::{Config, Rootfs};
use crate::dav::{DavSetup, DavSetupView, FileSystemView, LockSystem, Method};
#[allow(unused_imports)]
use crate::outside::lossy_text;
#[allow(unused_imports)]
use crate::request::{client_ip, credentials, is_get_or_head};
use crate::request::Request;
#[allow(unused_imports)]
use crate::response::{error_response, redirect_response};
use crate::response::{Response, ResponseView, BAD_REQUEST, NOT_FOUND, UNAUTHORIZED};
#[allow(unused_imports)]
use crate::text::{lies_in, occurs, opt_text, replace_all, trim_end};
#[allow(unused_imports)]
use crate::webpath::{encode_path, segments, web_path};
use crate::webpath::{WebPath, WebPathView};
use vstd::prelude::*;
#[allow(unused_imports)]
use vstd::utf8::{decode_utf8, encode_utf8, valid_utf8};

verus! {

/// A user account.
pub struct User {
    pub name: String,
    pub uid: u32,
    pub gid: u32,
    /// The home directory.
    pub dir: String,
}

/// The model of an account.
pub struct UserView {
    pub name: Seq<char>,
    pub uid: u32,
    pub gid: u32,
    pub dir: Seq<char>,
}

impl View for User {
    type V = UserView;

    open spec fn view(&self) -> UserView {
        UserView { name: self.name@, uid: self.uid, gid: self.gid, dir: self.dir@ }
    }
}

/// The model of an optional account.
pub open spec fn opt_user(user: Option<User>) -> Option<UserView> {
    match user {
        Some(user) => Some(user@),
        None => None,
    }
}

/// What a client logs in for.
pub enum Goal {
    /// A file of the server itself.
    RealRoot(WebPath),
    /// The root that shows the home directory of the user.
    VirtualRoot,
    /// A path in a home directory.
    Home(String),
}

/// The model of a goal.
pub enum GoalView {
    RealRoot(WebPathView),
    VirtualRoot,
    Home(Seq<char>),
}

impl View for Goal {
    type V = GoalView;

    open spec fn view(&self) -> GoalView {
        match *self {
            Goal::RealRoot(path) => GoalView::RealRoot(path@),
            Goal::VirtualRoot => GoalView::VirtualRoot,
            Goal::Home(path) => GoalView::Home(path@),
        }
    }
}

/// A request that waits to hear whether an account exists.
pub enum AccountWait {
    /// The client logs in with a password.
    Login { password: String, remote_ip: Option<String>, goal: Goal },
    /// The name is that of a file that does not exist.
    FileName { name: String },
}

/// The model of a request that waits for an account.
pub enum AccountWaitView {
    Login { password: Seq<char>, remote_ip: Option<Seq<char>>, goal: GoalView },
    FileName { name: Seq<char> },
}

impl View for AccountWait {
    type V = AccountWaitView;

    open spec fn view(&self) -> AccountWaitView {
        match *self {
            AccountWait::Login { password, remote_ip, goal } => AccountWaitView::Login {
                password: password@,
                remote_ip: opt_text(remote_ip),
                goal: goal@,
            },
            AccountWait::FileName { name } => AccountWaitView::FileName { name: name@ },
        }
    }
}

/// A request that waits to hear whether a password is right.
pub struct PasswordWait {
    /// The account that the client logs in to.
    pub user: User,
    pub goal: Goal,
}

/// The model of a request that waits for the verdict on a password.
pub struct PasswordWaitView {
    pub user: UserView,
    pub goal: GoalView,
}

impl View for PasswordWait {
    type V = PasswordWaitView;

    open spec fn view(&self) -> PasswordWaitView {
        PasswordWaitView { user: self.user@, goal: self.goal@ }
    }
}

/// A request that waits to hear whether a file exists.
pub struct FileWait {
    /// The name of the file.
    pub name: String,
    /// The path that takes the place of the path of the request.
    pub rewrite: Option<String>,
}

/// The model of a request that waits for a file.
pub struct FileWaitView {
    pub name: Seq<char>,
    pub rewrite: Option<Seq<char>>,
}

impl View for FileWait {
    type V = FileWaitView;

    open spec fn view(&self) -> FileWaitView {
        FileWaitView { name: self.name@, rewrite: opt_text(self.rewrite) }
    }
}

/// What is to be done next for a request.
#[allow(inconsistent_fields)]
pub enum Next {
    /// Find the account of that name.
    FindAccount { name: String, then: AccountWait },
    /// Check the password of a user with the named PAM service.
    CheckPassword {
        service: String,
        user: String,
        password: String,
        remote_ip: Option<String>,
        then: PasswordWait,
    },
    /// See whether the path names a file below the directory.
    FindFile { directory: String, path: WebPath, then: FileWait },
    /// Send a response.
    Reply(Response),
    /// Let the WebDAV handler respond, with another path in place of that of the request if
    /// there is one.
    Serve { setup: DavSetup, rewrite: Option<String> },
}

/// The model of what is to be done next.
#[allow(inconsistent_fields)]
pub enum NextView {
    FindAccount { name: Seq<char>, then: AccountWaitView },
    CheckPassword {
        service: Seq<char>,
        user: Seq<char>,
        password: Seq<char>,
        remote_ip: Option<Seq<char>>,
        then: PasswordWaitView,
    },
    FindFile { directory: Seq<char>, path: WebPathView, then: FileWaitView },
    Reply(ResponseView),
    Serve { setup: DavSetupView, rewrite: Option<Seq<char>> },
}

impl View for Next {
    type V = NextView;

    open spec fn view(&self) -> NextView {
        match *self {
            Next::FindAccount { name, then } => NextView::FindAccount { name: name@, then: then@ },
            Next::CheckPassword { service, user, password, remote_ip, then } =>
                NextView::CheckPassword {
                service: service@,
                user: user@,
                password: password@,
                remote_ip: opt_text(remote_ip),
                then: then@,
            },
            Next::FindFile { directory, path, then } => NextView::FindFile {
                directory: directory@,
                path: path@,
                then: then@,
            },
            Next::Reply(response) => NextView::Reply(response@),
            Next::Serve { setup, rewrite } => NextView::Serve {
                setup: setup@,
                rewrite: opt_text(rewrite),
            },
        }
    }
}

/// Whether a client can log in for `goal` at a server with this configuration: files of the
/// server itself need a `[rootfs]` section, and the root above the home directories a path that
/// they have in common.
pub open spec fn goal_fits(c: Config, goal: GoalView) -> bool {
    match goal {
        GoalView::RealRoot(_) => c.rootfs is Some,
        GoalView::VirtualRoot => users_root(c) is Some,
        GoalView::Home(_) => true,
    }
}

/// Whether a wait for an account can arise at a server with this configuration.
pub open spec fn account_wait_fits(c: Config, then: AccountWaitView) -> bool {
    then matches AccountWaitView::Login { goal, .. } ==> goal_fits(c, goal)
}

/// Whether `next` can arise at a server with this configuration.
pub open spec fn next_fits(c: Config, next: NextView) -> bool {
    match next {
        NextView::FindAccount { then, .. } => account_wait_fits(c, then),
        NextView::CheckPassword { then, .. } => goal_fits(c, then.goal),
        NextView::FindFile { .. } => c.rootfs is Some,
        _ => true,
    }
}

/// What stands for the name of the user in the path of the home directories.
pub open spec fn placeholder() -> Seq<char> {
    ":username"@
}

/// The path of the home directory of a user. Without a `[users]` section it is a text that no
/// path begins with.
pub open spec fn user_path(c: Config, user: Seq<char>) -> Seq<char> {
    match c.users {
        Some(users) => replace_all(users.path@, placeholder(), user),
        None => "-"@,
    }
}

/// The path that all home directories have in common, if their path holds the name of the user.
pub open spec fn users_root(c: Config) -> Option<Seq<char>> {
    match c.users {
        Some(users) => if occurs(users.path@, placeholder()) {
            Some(user_path(c, ""@))
        } else {
            None
        },
        None => None,
    }
}

/// The lock system to use.
pub open spec fn lock_system(c: Config) -> Option<LockSystem> {
    if c.webdav.locksystem@ == ""@ || c.webdav.locksystem@ == "fakels"@ {
        Some(LockSystem::Fake)
    } else {
        None
    }
}

/// Whether a path is at most one level deep: it is the root, or the name of a file in it.
pub open spec fn one_level_deep(path: WebPathView) -> bool {
    let n = segments(path.path).len();
    n == 0 || (n == 1 && !path.is_collection())
}

/// The file of the server itself that a path may name, and whether a client has to log in for
/// it: the path lies below that of the `[rootfs]` section, and at most one level deep.
pub open spec fn real_root(c: Config, uri_path: Seq<char>) -> Option<(WebPathView, bool)> {
    match c.rootfs {
        Some(rootfs) => match web_path(uri_path, rootfs.path@) {
            Some(path) => if one_level_deep(path) {
                Some((path, rootfs.auth))
            } else {
                None
            },
            None => None,
        },
        None => None,
    }
}

/// Where a request goes.
#[allow(inconsistent_fields)]
pub enum Route {
    /// Its path cannot be read.
    Invalid,
    /// Its path leads nowhere.
    Nowhere,
    /// A file of the server itself may stand there.
    RealRoot { path: WebPathView, auth: bool },
    /// The root that shows the home directory of the user.
    VirtualRoot,
    /// A path in a home directory.
    Home { path: Seq<char> },
}

/// Whether a path is that of the root above the home directories; slashes at the end do not
/// count.
pub open spec fn is_virtual_root(c: Config, path: Seq<char>) -> bool {
    users_root(c) matches Some(root) && trim_end(path, '/') == trim_end(root, '/')
}

/// The text of the path of a request.
pub open spec fn request_path(uri_path: Seq<char>) -> Option<Seq<char>> {
    match web_path(uri_path, ""@) {
        Some(path) => Some(lossy_text(path.full())),
        None => None,
    }
}

/// Where a request with that path goes, if it is not for a file of the server itself.
pub open spec fn route_by_path(c: Config, path: Seq<char>) -> Route {
    if is_virtual_root(c, path) {
        Route::VirtualRoot
    } else if user_path(c, ""@).is_prefix_of(path) {
        Route::Home { path }
    } else {
        Route::Nowhere
    }
}

/// Where a request goes. Only requests that read a file can go to the files of the server itself.
pub open spec fn route(c: Config, req: Request) -> Route {
    let file = real_root(c, req.uri_path@);
    if is_get_or_head(req.method@) && file is Some {
        Route::RealRoot { path: (file->0).0, auth: (file->0).1 }
    } else {
        match request_path(req.uri_path@) {
            None => Route::Invalid,
            Some(path) => route_by_path(c, path),
        }
    }
}

/// The error response for a code.
pub open spec fn refuse(c: Config, code: u16) -> NextView {
    NextView::Reply(error_response(code, opt_text(c.accounts.realm)))
}

/// Whether an account may log in at all.
pub open spec fn uid_allowed(c: Config, uid: u32) -> bool {
    c.unix.min_uid matches Some(min) ==> min <= uid
}

/// The user and the group to act as for an account.
pub open spec fn act_as(c: Config, user: UserView) -> Option<(u32, u32)> {
    if c.accounts.setuid {
        Some((user.uid, user.gid))
    } else {
        None
    }
}

/// The first step of a login, with a user name and a password; without them it fails.
pub open spec fn login(
    c: Config,
    credentials: Option<(Seq<char>, Seq<char>)>,
    remote_ip: Option<Seq<char>>,
    goal: GoalView,
) -> NextView {
    match credentials {
        Some((name, password)) => NextView::FindAccount {
            name,
            then: AccountWaitView::Login { password, remote_ip, goal },
        },
        None => refuse(c, UNAUTHORIZED),
    }
}

/// The first step of the login of the client of a request.
pub open spec fn auth(c: Config, req: Request, goal: GoalView) -> NextView {
    login(c, credentials(req), client_ip(req), goal)
}

/// The first step for a request.
pub open spec fn first(c: Config, req: Request) -> NextView {
    first_on(c, req, route(c, req))
}

/// The first step for a request that goes that way.
pub open spec fn first_on(c: Config, req: Request, way: Route) -> NextView {
    match way {
        Route::Invalid => refuse(c, BAD_REQUEST),
        Route::Nowhere => refuse(c, NOT_FOUND),
        Route::RealRoot { path, auth } => if auth {
            crate::model::auth(c, req, GoalView::RealRoot(path))
        } else {
            real_root_step(c, path)
        },
        Route::VirtualRoot => auth(c, req, GoalView::VirtualRoot),
        Route::Home { path } => auth(c, req, GoalView::Home(path)),
    }
}

/// The name of the file that stands for the root.
pub open spec fn index_name(rootfs: Rootfs) -> Seq<char> {
    match rootfs.index {
        Some(name) => name@,
        None => "index.html"@,
    }
}

/// The step for a file of the server itself: see whether it exists. In place of the root its
/// index file is taken, and the path of the request becomes that of the file.
pub open spec fn real_root_step(c: Config, path: WebPathView) -> NextView {
    let rootfs = c.rootfs->0;
    if !valid_utf8(path.file_name()) {
        refuse(c, NOT_FOUND)
    } else if path.file_name().len() == 0 {
        let index = path.push_segment(encode_utf8(index_name(rootfs)));
        NextView::FindFile {
            directory: rootfs.directory@,
            path: index,
            then: FileWaitView {
                name: index_name(rootfs),
                rewrite: Some(encode_path(index.full())),
            },
        }
    } else {
        NextView::FindFile {
            directory: rootfs.directory@,
            path,
            then: FileWaitView { name: decode_utf8(path.file_name()), rewrite: None },
        }
    }
}

/// What the handler is told for a file of the server itself.
pub open spec fn real_root_setup(c: Config) -> DavSetupView {
    DavSetupView {
        fs: FileSystemView::Local { directory: (c.rootfs->0).directory@, public: true },
        locksystem: None,
        prefix: None,
        principal: None,
        allow: None,
    }
}

/// What the handler is told for the root above the home directories: it can be read and listed,
/// no more.
pub open spec fn virtual_root_setup(c: Config, user: UserView) -> DavSetupView {
    DavSetupView {
        fs: FileSystemView::VirtualRoot { dir: user.dir, user: user.name, ugid: act_as(c, user) },
        locksystem: lock_system(c),
        prefix: users_root(c),
        principal: Some(user.name),
        allow: Some(set![Method::Head, Method::Get, Method::PropFind, Method::Options]),
    }
}

/// What the handler is told for a home directory.
pub open spec fn home_setup(c: Config, prefix: Seq<char>, user: UserView) -> DavSetupView {
    DavSetupView {
        fs: FileSystemView::Home { dir: user.dir, ugid: act_as(c, user), public: true },
        locksystem: lock_system(c),
        prefix: Some(prefix),
        principal: Some(user.name),
        allow: None,
    }
}

/// The step for a home directory: there is none without a `[users]` section.
pub open spec fn home_step(c: Config, prefix: Seq<char>, user: UserView) -> NextView {
    if c.users is None {
        refuse(c, NOT_FOUND)
    } else {
        NextView::Serve { setup: home_setup(c, prefix, user), rewrite: None }
    }
}

/// The step for a client that has logged in. A path among the home directories has to lie in that
/// of the user.
pub open spec fn admitted_step(c: Config, user: UserView, goal: GoalView) -> NextView {
    match goal {
        GoalView::RealRoot(path) => real_root_step(c, path),
        GoalView::VirtualRoot => NextView::Serve {
            setup: virtual_root_setup(c, user),
            rewrite: None,
        },
        GoalView::Home(path) => if lies_in(path, user_path(c, user.name)) {
            home_step(c, user_path(c, user.name), user)
        } else {
            refuse(c, UNAUTHORIZED)
        },
    }
}

/// The step once it is known whether an account exists.
pub open spec fn after_account(
    c: Config,
    then: AccountWaitView,
    account: Option<UserView>,
) -> NextView {
    match then {
        AccountWaitView::Login { password, remote_ip, goal } => match account {
            Some(user) => NextView::CheckPassword {
                service: c.pam.service@,
                user: user.name,
                password,
                remote_ip,
                then: PasswordWaitView { user, goal },
            },
            None => refuse(c, UNAUTHORIZED),
        },
        AccountWaitView::FileName { name } => if account is Some {
            NextView::Reply(redirect_response("/"@ + name + "/"@))
        } else {
            refuse(c, NOT_FOUND)
        },
    }
}

/// The step once it is known whether a password is right.
pub open spec fn after_password(c: Config, then: PasswordWaitView, right: bool) -> NextView {
    if right && uid_allowed(c, then.user.uid) {
        admitted_step(c, then.user, then.goal)
    } else {
        refuse(c, UNAUTHORIZED)
    }
}

/// The step once it is known whether a file exists.
pub open spec fn after_file(c: Config, then: FileWaitView, exists: bool) -> NextView {
    if exists {
        NextView::Serve { setup: real_root_setup(c), rewrite: then.rewrite }
    } else {
        NextView::FindAccount {
            name: then.name,
            then: AccountWaitView::FileName { name: then.name },
        }
    }
}

} // verus!
