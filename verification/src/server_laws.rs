//! What each step of the server does with what it is handed.
use crate::config::Config;
use crate::dav::{DavSetup, FileSystem, LockSystem, Method};
use crate::message_laws::{is_error_page, is_redirect, lemma_error_page, lemma_redirect};
use crate::model::{AccountWait, FileWait, Goal, Next, PasswordWait, User};
use crate::outside::method_set;
use crate::path_laws::{law_one_level_deep, only_a_name};
use crate::request::Request;
use crate::server::Server;
use crate::text::{lies_in, occurs, opt_text, replace_all};
use crate::text_laws::{law_trimmed_alike, same_but_slashes};
use crate::webpath::{encode_path, WebPath, WebPathView};
use vstd::prelude::*;
use vstd::utf8::{encode_utf8, valid_utf8};

verus! {

/// Whether a request is answered with an error.
pub open spec fn refuses(next: Next, c: Config, code: u16) -> bool {
    next matches Next::Reply(response) && is_error_page(response, code, c.accounts.realm)
}

/// Whether two clients log in for the same.
pub open spec fn same_goal(a: Goal, b: Goal) -> bool {
    match (a, b) {
        (Goal::RealRoot(x), Goal::RealRoot(y)) => x@ == y@,
        (Goal::VirtualRoot, Goal::VirtualRoot) => true,
        (Goal::Home(x), Goal::Home(y)) => x@ == y@,
        _ => false,
    }
}

/// Whether the account of a client is looked for, to log in with the password; without a name and
/// a password the client is refused.
pub open spec fn logs_in(
    next: Next,
    c: Config,
    found: Option<(String, String)>,
    ip: Option<String>,
    goal: Goal,
) -> bool {
    match found {
        None => refuses(next, c, 401),
        Some((user, pass)) => {
            &&& next matches Next::FindAccount { name, then }
            &&& name@ == user@
            &&& then matches AccountWait::Login { password, remote_ip, goal: kept }
            &&& password@ == pass@
            &&& opt_text(remote_ip) == opt_text(ip)
            &&& same_goal(kept, goal)
        },
    }
}

/// Whether the file that a path names is looked for in the directory of the `[rootfs]` section.
/// Where it names none, that is the index file of the section, or `index.html`, and the path of
/// the request becomes that of the file.
pub open spec fn looks_for_file(next: Next, c: Config, path: WebPathView) -> bool {
    if !valid_utf8(path.file_name()) {
        refuses(next, c, 404)
    } else {
        &&& next matches Next::FindFile { directory, path: file, then }
        &&& c.rootfs matches Some(rootfs)
        &&& directory@ == rootfs.directory@
        &&& path.file_name().len() > 0 ==> {
            &&& file@ == path
            &&& encode_utf8(then.name@) == path.file_name()
            &&& then.rewrite is None
        }
        &&& path.file_name().len() == 0 ==> {
            &&& rootfs.index matches Some(index) ==> then.name@ == index@
            &&& rootfs.index is None ==> then.name@ == "index.html"@
            &&& file@.prefix == path.prefix
            &&& path.path.len() > 0 && path.path.last() == 0x2f ==> file@.path == path.path
                + encode_utf8(then.name@)
            &&& path.path.len() == 0 || path.path.last() != 0x2f ==> file@.path == path.path.push(
                0x2f,
            ) + encode_utf8(then.name@)
            &&& then.rewrite matches Some(url)
            &&& url@ == encode_path(file@.prefix + file@.path)
        }
    }
}

/// Whether the lock system of a setup is that which the configuration names.
pub open spec fn locks_as_named(setup: DavSetup, c: Config) -> bool {
    setup.locksystem == (if c.webdav.locksystem@.len() == 0 || c.webdav.locksystem@ == seq![
        'f',
        'a',
        'k',
        'e',
        'l',
        's',
    ] {
        Some(LockSystem::Fake)
    } else {
        None
    })
}

/// Whether the home directory of a user is served, below a prefix, in the name of the user. Files
/// are accessed with the ids of the account where the configuration says so, and no method is
/// withheld.
pub open spec fn serves_home(next: Next, c: Config, prefix: Seq<char>, user: User) -> bool {
    &&& next matches Next::Serve { setup, rewrite }
    &&& setup.fs matches FileSystem::Home { dir, ugid, public }
    &&& dir@ == user.dir@
    &&& c.accounts.setuid ==> ugid == Some((user.uid, user.gid))
    &&& !c.accounts.setuid ==> ugid is None
    &&& public
    &&& locks_as_named(setup, c)
    &&& opt_text(setup.prefix) == Some(prefix)
    &&& opt_text(setup.principal) == Some(user.name@)
    &&& setup.allow is None
    &&& rewrite is None
}

/// Whether the root above the home directories is served to a user. Files are accessed with the
/// ids of the account where the configuration says so; it can be read and listed, no more.
pub open spec fn serves_virtual_root(next: Next, c: Config, prefix: Seq<char>, user: User) -> bool {
    &&& next matches Next::Serve { setup, rewrite }
    &&& setup.fs matches FileSystem::VirtualRoot { dir, user: shown, ugid }
    &&& dir@ == user.dir@
    &&& shown@ == user.name@
    &&& c.accounts.setuid ==> ugid == Some((user.uid, user.gid))
    &&& !c.accounts.setuid ==> ugid is None
    &&& locks_as_named(setup, c)
    &&& opt_text(setup.prefix) == Some(prefix)
    &&& opt_text(setup.principal) == Some(user.name@)
    &&& setup.allow matches Some(methods)
    &&& forall|m: Method| #[trigger]
        method_set(methods).contains(m) <==> (m == Method::Head || m == Method::Get || m
            == Method::PropFind || m == Method::Options)
    &&& rewrite is None
}

/// A server works on the configuration that it was made from.
pub proof fn law_new(config: Config, server: Server, shown: &Config)
    requires
        call_ensures(Server::new, (config,), server),
        call_ensures(Server::config, (&server,), shown),
    ensures
        server@ == config,
        *shown == config,
{
}

/// A server has a lock system exactly where the configuration names none or `fakels`.
pub proof fn law_locksystem(server: &Server, ls: Option<LockSystem>)
    requires
        call_ensures(Server::locksystem, (server,), ls),
    ensures
        ls is Some <==> (server@.webdav.locksystem@.len() == 0 || server@.webdav.locksystem@
            == seq!['f', 'a', 'k', 'e', 'l', 's']),
        ls matches Some(ls) ==> ls == LockSystem::Fake,
{
    lemma_lock_names(server@);
}

/// The names of the lock system, letter by letter.
proof fn lemma_lock_names(c: Config)
    ensures
        crate::model::lock_system(c) == (if c.webdav.locksystem@.len() == 0
            || c.webdav.locksystem@ == seq!['f', 'a', 'k', 'e', 'l', 's'] {
            Some(LockSystem::Fake)
        } else {
            None
        }),
{
    reveal_strlit("");
    reveal_strlit("fakels");
    assert("fakels"@ =~= seq!['f', 'a', 'k', 'e', 'l', 's']);
    if c.webdav.locksystem@.len() == 0 {
        assert(c.webdav.locksystem@ =~= ""@);
    }
}

/// The path of the home directory of a user is that of the configuration with `:username`
/// replaced by the name; without a `[users]` section it is a dash.
pub proof fn law_home_path(server: &Server, user: &str, path: String)
    requires
        call_ensures(Server::user_path, (server, user), path),
    ensures
        server@.users matches Some(users) ==> path@ == replace_all(
            users.path@,
            ":username"@,
            user@,
        ),
        server@.users is None ==> path@ == "-"@,
{
}

/// A path may name a file of the server itself exactly where there is a `[rootfs]` section, the
/// path lies below that of the section, and no slash follows a name there. A client has to log in
/// for it exactly where the section says so.
pub proof fn law_realroot(
    server: &Server,
    uri_path: &str,
    prefix: &str,
    seen: Option<WebPath>,
    found: Option<(WebPath, bool)>,
)
    requires
        call_ensures(Server::is_realroot, (server, uri_path), found),
        call_ensures(WebPath::from_uri, (uri_path, prefix), seen),
        server@.rootfs matches Some(rootfs) ==> rootfs.path@ == prefix@,
    ensures
        found is Some <==> (server@.rootfs is Some && (seen matches Some(path) && only_a_name(
            path@.path,
        ))),
        found matches Some((path, auth)) ==> {
            &&& seen matches Some(p) && p@ == path@
            &&& server@.rootfs matches Some(rootfs) && rootfs.auth == auth
        },
{
    if let Some(path) = seen {
        law_one_level_deep(path@);
    }
}

/// A login asks for the account of the name, and keeps the password, the address of the client and
/// what the client logs in for; without a name and a password it fails.
pub proof fn law_login(
    server: &Server,
    found: Option<(String, String)>,
    ip: Option<String>,
    goal: Goal,
    next: Next,
)
    requires
        call_ensures(Server::login, (server, found, ip, goal), next),
    ensures
        logs_in(next, server@, found, ip, goal),
{
    lemma_refused(next, server@, 401);
    lemma_same_goal(goal);
}

/// A client logs in with the name and the password of the request, from the address on whose
/// behalf the request is made.
pub proof fn law_auth(
    server: &Server,
    req: &Request,
    found: Option<(String, String)>,
    ip: Option<String>,
    goal: Goal,
    next: Next,
)
    requires
        call_ensures(Request::credentials, (req,), found),
        call_ensures(Request::client_ip, (req,), ip),
        call_ensures(Server::auth, (server, req, goal), next),
    ensures
        logs_in(next, server@, found, ip, goal),
{
    lemma_refused(next, server@, 401);
    lemma_same_goal(goal);
}

/// The model of a refusal is that of an error page.
proof fn lemma_refused(next: Next, c: Config, code: u16)
    ensures
        next@ == crate::model::refuse(c, code) ==> refuses(next, c, code),
{
    if next@ == crate::model::refuse(c, code) {
        if let Next::Reply(response) = next {
            lemma_error_page(response, code, c.accounts.realm);
        }
    }
}

/// Goals with the same model are the same.
proof fn lemma_same_goal(goal: Goal)
    ensures
        forall|other: Goal| #[trigger] other@ == goal@ ==> same_goal(other, goal),
{
}

/// By its path, a request goes to the root above the home directories exactly where the path
/// differs from their common path at most in the slashes at the end, among the home directories
/// where it begins with the common path, and otherwise nowhere.
pub proof fn law_handle_path(
    server: &Server,
    req: &Request,
    path: String,
    found: Option<(String, String)>,
    ip: Option<String>,
    next: Next,
)
    requires
        call_ensures(Request::credentials, (req,), found),
        call_ensures(Request::client_ip, (req,), ip),
        call_ensures(Server::handle_path, (server, req, path), next),
    ensures
        server@.users matches Some(users) ==> {
            let root = replace_all(users.path@, ":username"@, Seq::empty());
            if occurs(users.path@, ":username"@) && same_but_slashes(path@, root) {
                logs_in(next, server@, found, ip, Goal::VirtualRoot)
            } else if root.is_prefix_of(path@) {
                logs_in(next, server@, found, ip, Goal::Home(path))
            } else {
                refuses(next, server@, 404)
            }
        },
        server@.users is None && path@.len() > 0 && path@[0] != '-' ==> refuses(next, server@, 404),
{
    let c = server@;
    lemma_refused(next, c, 401);
    lemma_refused(next, c, 404);
    lemma_same_goal(Goal::VirtualRoot);
    lemma_same_goal(Goal::Home(path));
    reveal_strlit("");
    assert(""@ =~= Seq::<char>::empty());
    law_trimmed_alike(path@, crate::model::user_path(c, ""@));
    reveal_strlit("-");
    assert("-"@.is_prefix_of(path@) ==> path@.take(1)[0] == '-');
}

/// A request that reads a file of the server itself looks for the file, after a login where that
/// is asked. Every other request goes by its path, and is invalid where that cannot be read.
pub proof fn law_handle_async(
    server: &Server,
    req: &Request,
    uri_path: &str,
    nothing: &str,
    reads: bool,
    file: Option<(WebPath, bool)>,
    seen: Option<WebPath>,
    text: String,
    found: Option<(String, String)>,
    ip: Option<String>,
    by_path: Next,
    next: Next,
)
    requires
        uri_path@ == req.uri_path@,
        nothing@ == Seq::<char>::empty(),
        call_ensures(Request::is_get_or_head, (req,), reads),
        call_ensures(Request::credentials, (req,), found),
        call_ensures(Request::client_ip, (req,), ip),
        call_ensures(Server::is_realroot, (server, uri_path), file),
        call_ensures(WebPath::from_uri, (uri_path, nothing), seen),
        seen matches Some(path) ==> call_ensures(
            WebPath::as_utf8_string_with_prefix,
            (&path,),
            text,
        ),
        call_ensures(Server::handle_path, (server, req, text), by_path),
        call_ensures(Server::handle_async, (server, req), next),
    ensures
        if reads && file is Some {
            if (file->0).1 {
                logs_in(next, server@, found, ip, Goal::RealRoot((file->0).0))
            } else {
                looks_for_file(next, server@, (file->0).0@)
            }
        } else if seen is None {
            refuses(next, server@, 400)
        } else {
            next@ == by_path@
        },
{
    let c = server@;
    reveal_strlit("");
    assert(nothing@ =~= ""@);
    lemma_refused(next, c, 400);
    lemma_refused(next, c, 401);
    if let Some((path, auth)) = file {
        lemma_same_goal(Goal::RealRoot(path));
        if reads && !auth {
            lemma_file_step(next, c, path@);
        }
    }
}

/// The step for a file of the server itself looks for the file.
proof fn lemma_file_step(next: Next, c: Config, path: WebPathView)
    requires
        c.rootfs is Some || !valid_utf8(path.file_name()),
        next@ == crate::model::real_root_step(c, path),
    ensures
        looks_for_file(next, c, path),
{
    lemma_refused(next, c, 404);
    if valid_utf8(path.file_name()) {
        vstd::utf8::decode_utf8_encode_utf8(path.file_name());
    }
}

/// The file that a path names is looked for, and the index file in place of the root.
pub proof fn law_handle_realroot(server: &Server, path: WebPath, next: Next)
    requires
        call_ensures(Server::handle_realroot, (server, path), next),
        server@.rootfs is Some || !valid_utf8(path@.file_name()),
    ensures
        looks_for_file(next, server@, path@),
{
    lemma_file_step(next, server@, path@);
}

/// The root above the home directories is served to a user with the ids of the account, and can be
/// read and listed, no more.
pub proof fn law_handle_virtualroot(server: &Server, user: User, next: Next)
    requires
        call_ensures(Server::handle_virtualroot, (server, user), next),
        server@.users matches Some(users) && occurs(users.path@, ":username"@),
    ensures
        serves_virtual_root(
            next,
            server@,
            replace_all((server@.users->0).path@, ":username"@, Seq::empty()),
            user,
        ),
{
    lemma_virtual_root(next, server@, user);
}

/// The model of the step for the root above the home directories says how it is served.
proof fn lemma_virtual_root(next: Next, c: Config, user: User)
    requires
        c.users matches Some(users) && occurs(users.path@, ":username"@),
        next@ == crate::model::admitted_step(c, user@, crate::model::GoalView::VirtualRoot),
    ensures
        serves_virtual_root(
            next,
            c,
            replace_all((c.users->0).path@, ":username"@, Seq::empty()),
            user,
        ),
{
    reveal_strlit("");
    assert(""@ =~= Seq::<char>::empty());
    lemma_lock_names(c);
}

/// The home directory of a user is served with the ids of the account, and no method is withheld.
pub proof fn law_handle_user(server: &Server, prefix: String, user: User, next: Next)
    requires
        call_ensures(Server::handle_user, (server, prefix, user), next),
    ensures
        server@.users is Some ==> serves_home(next, server@, prefix@, user),
        server@.users is None ==> refuses(next, server@, 404),
{
    lemma_refused(next, server@, 404);
    lemma_lock_names(server@);
}

/// Once the account of a client is found, its password is checked under the name of the account,
/// with the service of the configuration; without an account the client is refused. A file that is
/// missing and has the name of an account sends the client to the path of that name, and is not
/// found otherwise.
pub proof fn law_after_account(
    server: &Server,
    then: AccountWait,
    account: Option<User>,
    next: Next,
)
    requires
        call_ensures(Server::after_account, (server, then, account), next),
    ensures
        then matches AccountWait::Login { password: pass, remote_ip: ip, goal } ==> match account {
            None => refuses(next, server@, 401),
            Some(user) => {
                &&& next matches Next::CheckPassword {
                    service,
                    user: login,
                    password,
                    remote_ip,
                    then: wait,
                }
                &&& service@ == server@.pam.service@
                &&& login@ == user.name@
                &&& password@ == pass@
                &&& opt_text(remote_ip) == opt_text(ip)
                &&& wait.user.name@ == user.name@
                &&& wait.user.uid == user.uid
                &&& wait.user.gid == user.gid
                &&& wait.user.dir@ == user.dir@
                &&& same_goal(wait.goal, goal)
            },
        },
        then matches AccountWait::FileName { name } ==> match account {
            None => refuses(next, server@, 404),
            Some(_) => next matches Next::Reply(response) && is_redirect(
                response,
                seq!['/'] + name@ + seq!['/'],
            ),
        },
{
    lemma_refused(next, server@, 401);
    lemma_refused(next, server@, 404);
    if let AccountWait::Login { goal, .. } = then {
        lemma_same_goal(goal);
    }
    if let AccountWait::FileName { name } = then {
        reveal_strlit("/");
        assert("/"@ =~= seq!['/']);
        if let Next::Reply(response) = next {
            if account is Some {
                lemma_redirect(response, seq!['/'] + name@ + seq!['/']);
            }
        }
    }
}

/// A client with the wrong password, or with a user id below the lowest that may log in, is
/// refused; every other one gets what it logged in for. A path among the home directories has to
/// lie in that of the user.
pub proof fn law_after_password(server: &Server, then: PasswordWait, right: bool, next: Next)
    requires
        call_ensures(Server::after_password, (server, then, right), next),
        then.goal is RealRoot ==> server@.rootfs is Some,
        then.goal is VirtualRoot ==> (server@.users matches Some(users) && occurs(
            users.path@,
            ":username"@,
        )),
    ensures
        !right ==> refuses(next, server@, 401),
        server@.unix.min_uid matches Some(min) && then.user.uid < min ==> refuses(
            next,
            server@,
            401,
        ),
        right && (server@.unix.min_uid matches Some(min) ==> then.user.uid >= min) ==> {
            let template = (server@.users->0).path@;
            let home = replace_all(template, ":username"@, then.user.name@);
            match then.goal {
                Goal::RealRoot(path) => looks_for_file(next, server@, path@),
                Goal::VirtualRoot => serves_virtual_root(
                    next,
                    server@,
                    replace_all(template, ":username"@, Seq::empty()),
                    then.user,
                ),
                Goal::Home(path) => if server@.users is None {
                    refuses(next, server@, 401) || refuses(next, server@, 404)
                } else if lies_in(path@, home) {
                    serves_home(next, server@, home, then.user)
                } else {
                    refuses(next, server@, 401)
                },
            }
        },
{
    let c = server@;
    lemma_refused(next, c, 401);
    lemma_refused(next, c, 404);
    lemma_lock_names(c);
    if right && (c.unix.min_uid matches Some(min) ==> then.user.uid >= min) {
        match then.goal {
            Goal::RealRoot(path) => {
                lemma_file_step(next, c, path@);
            },
            Goal::VirtualRoot => {
                lemma_virtual_root(next, c, then.user);
            },
            Goal::Home(_) => {},
        }
    }
}

/// A file that exists is served from the directory of the `[rootfs]` section, under the path that
/// takes the place of that of the request if there is one, in the name of nobody and with every
/// method. For one that does not, an account of its name is looked for.
pub proof fn law_after_file(server: &Server, then: FileWait, exists: bool, next: Next)
    requires
        call_ensures(Server::after_file, (server, then, exists), next),
        server@.rootfs is Some,
    ensures
        exists ==> {
            &&& next matches Next::Serve { setup, rewrite }
            &&& setup.fs matches FileSystem::Local { directory, public }
            &&& directory@ == (server@.rootfs->0).directory@
            &&& public
            &&& setup.locksystem is None
            &&& setup.prefix is None
            &&& setup.principal is None
            &&& setup.allow is None
            &&& opt_text(rewrite) == opt_text(then.rewrite)
        },
        !exists ==> {
            &&& next matches Next::FindAccount { name, then: wait }
            &&& name@ == then.name@
            &&& wait matches AccountWait::FileName { name: kept }
            &&& kept@ == then.name@
        },
{
}

} // verus!
