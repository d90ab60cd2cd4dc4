//! What holds of the server as a whole.
use crate::config::Config;
use crate::dav::{FileSystemView, Method};
use crate::model::{
    after_account, after_file, after_password, first, home_setup, is_virtual_root, placeholder,
    real_root, real_root_setup, refuse, request_path, route, user_path, users_root,
    virtual_root_setup, AccountWaitView, NextView, Route, UserView,
};
use crate::outside::{lossy_text, normalized_path, reason_phrase};
use crate::path_laws::{law_file_name, law_one_level_deep, law_web_path, only_a_name};
use crate::request::{client_ip, credentials, is_get_or_head, Request};
use crate::response::{
    decimal, default_realm, error_response, redirect_response, BAD_REQUEST, NOT_FOUND, UNAUTHORIZED,
};
use crate::text::{lies_in, occurs, opt_text, replace_all, trim_end};
use crate::text_laws::{law_replace_nothing, law_trimmed_alike, same_but_slashes};
use crate::webpath::{
    encode_byte, encode_path, hex_digit, is_plain, segments, web_path, WebPathView, SLASH,
};
use vstd::prelude::*;
use vstd::utf8::{decode_utf8, encode_utf8, valid_utf8};

verus! {

/// What the outside world answers to the questions that a request can raise. None of them is
/// raised twice.
pub struct Answers {
    /// The account of the user who logs in.
    pub account: Option<UserView>,
    /// Whether the password is right.
    pub password_right: bool,
    /// Whether the file exists.
    pub file_exists: bool,
    /// The account that has the name of a file that does not exist.
    pub namesake: Option<UserView>,
}

/// How many questions a request can still raise.
pub open spec fn questions_left(next: NextView) -> nat {
    match next {
        NextView::FindAccount { then: AccountWaitView::Login { .. }, .. } => 4,
        NextView::CheckPassword { .. } => 3,
        NextView::FindFile { .. } => 2,
        NextView::FindAccount { then: AccountWaitView::FileName { .. }, .. } => 1,
        NextView::Reply(_) => 0,
        NextView::Serve { .. } => 0,
    }
}

/// The step after `next`, where the outside world answers with `a`.
pub open spec fn step(c: Config, next: NextView, a: Answers) -> NextView {
    match next {
        NextView::FindAccount { then, .. } => after_account(
            c,
            then,
            if then is Login {
                a.account
            } else {
                a.namesake
            },
        ),
        NextView::CheckPassword { then, .. } => after_password(c, then, a.password_right),
        NextView::FindFile { then, .. } => after_file(c, then, a.file_exists),
        _ => next,
    }
}

/// What comes of a request in the end, from `next` on.
pub open spec fn run(c: Config, next: NextView, a: Answers) -> NextView
    decreases questions_left(next),
{
    if questions_left(next) == 0 {
        next
    } else {
        run(c, step(c, next, a), a)
    }
}

/// What comes of a request in the end.
pub open spec fn ending(c: Config, req: Request, a: Answers) -> NextView {
    run(c, first(c, req), a)
}

/// Whether the client of a request proves to be a user who may log in.
pub open spec fn admitted(c: Config, req: Request, a: Answers) -> bool {
    &&& credentials(req) is Some
    &&& a.account is Some
    &&& a.password_right
    &&& c.unix.min_uid matches Some(min) ==> (a.account->0).uid >= min
}

/// Whether a request goes where a client has to log in.
pub open spec fn needs_login(c: Config, req: Request) -> bool {
    match route(c, req) {
        Route::RealRoot { auth, .. } => auth,
        Route::VirtualRoot => true,
        Route::Home { .. } => true,
        _ => false,
    }
}

/// The path of the file that a path stands for: the index file for the root.
pub open spec fn named_file(c: Config, path: WebPathView) -> WebPathView {
    if path.file_name().len() == 0 {
        path.push_segment(encode_utf8(named_text(c, path)))
    } else {
        path
    }
}

/// The name of the file that a path stands for.
pub open spec fn named_text(c: Config, path: WebPathView) -> Seq<char> {
    if path.file_name().len() == 0 {
        match (c.rootfs->0).index {
            Some(name) => name@,
            None => "index.html"@,
        }
    } else {
        decode_utf8(path.file_name())
    }
}

/// What comes of a request for a file of the server itself, once the client may have it.
pub open spec fn file_outcome(c: Config, path: WebPathView, a: Answers) -> NextView {
    if valid_utf8(path.file_name()) && a.file_exists {
        NextView::Serve {
            setup: real_root_setup(c),
            rewrite: if path.file_name().len() == 0 {
                Some(encode_path(named_file(c, path).full()))
            } else {
                None
            },
        }
    } else if valid_utf8(path.file_name()) && a.namesake is Some {
        NextView::Reply(redirect_response("/"@ + named_text(c, path) + "/"@))
    } else {
        refuse(c, NOT_FOUND)
    }
}

/// What comes of a request: it is refused where the client has to log in and does not, and
/// otherwise answered according to where it goes.
pub open spec fn outcome(c: Config, req: Request, a: Answers) -> NextView {
    if needs_login(c, req) && !admitted(c, req, a) {
        refuse(c, UNAUTHORIZED)
    } else {
        match route(c, req) {
            Route::Invalid => refuse(c, BAD_REQUEST),
            Route::Nowhere => refuse(c, NOT_FOUND),
            Route::RealRoot { path, .. } => file_outcome(c, path, a),
            Route::VirtualRoot => NextView::Serve {
                setup: virtual_root_setup(c, a.account->0),
                rewrite: None,
            },
            Route::Home { path } => {
                let user = a.account->0;
                let prefix = user_path(c, user.name);
                if !lies_in(path, prefix) {
                    refuse(c, UNAUTHORIZED)
                } else if c.users is None {
                    refuse(c, NOT_FOUND)
                } else {
                    NextView::Serve { setup: home_setup(c, prefix, user), rewrite: None }
                }
            },
        }
    }
}

/// Every request comes to an end: it raises at most four questions, and each answer, whatever it
/// is, leaves fewer of them.
pub proof fn law_request_ends(c: Config, req: Request, next: NextView, a: Answers)
    ensures
        questions_left(first(c, req)) <= 4,
        questions_left(next) > 0 ==> questions_left(step(c, next, a)) < questions_left(next),
        questions_left(run(c, next, a)) == 0,
    decreases questions_left(next),
{
    if questions_left(next) > 0 {
        law_request_ends(c, req, step(c, next, a), a);
    }
}

/// Taken one after the other, the steps of a request lead to its outcome.
pub proof fn law_steps_lead_to_outcome(c: Config, req: Request, a: Answers)
    ensures
        ending(c, req, a) == outcome(c, req, a),
{
    reveal_with_fuel(run, 6);
}

/// A home directory is served to its owner only: the client has proved to be a user who may log
/// in, it is the home directory of that user, in the name and, where files are accessed as the
/// user, with the ids of that user, and the path of the request lies in the directory. No method
/// is withheld from the owner.
pub proof fn law_home_is_served_to_its_owner(c: Config, req: Request, a: Answers)
    ensures
        ending(c, req, a) matches NextView::Serve { setup, .. } ==> (setup.fs is Home ==> {
            let user = a.account->0;
            &&& admitted(c, req, a)
            &&& setup.fs == (FileSystemView::Home {
                dir: user.dir,
                ugid: if c.accounts.setuid {
                    Some((user.uid, user.gid))
                } else {
                    None
                },
                public: true,
            })
            &&& setup.allow is None
            &&& setup.principal == Some(user.name)
            &&& setup.prefix == Some(user_path(c, user.name))
            &&& request_path(req.uri_path@) matches Some(path) && lies_in(
                path,
                user_path(c, user.name),
            )
        }),
{
    law_steps_lead_to_outcome(c, req, a);
}

/// A user who may log in gets at every path of the own home directory, unless the path is that
/// of a file of the server or of the root above the home directories.
pub proof fn law_owner_is_served(c: Config, req: Request, a: Answers)
    requires
        admitted(c, req, a),
        c.users is Some,
        route(c, req) matches Route::Home { path } && lies_in(
            path,
            user_path(c, (a.account->0).name),
        ),
    ensures
        ending(c, req, a) == (NextView::Serve {
            setup: home_setup(c, user_path(c, (a.account->0).name), a.account->0),
            rewrite: None,
        }),
{
    law_steps_lead_to_outcome(c, req, a);
}

/// A user who asks for a path among the home directories that does not lie in the own one is
/// refused, and told where to log in.
pub proof fn law_other_home_is_refused(c: Config, req: Request, a: Answers)
    requires
        a.account is Some,
        route(c, req) matches Route::Home { path } && !lies_in(
            path,
            user_path(c, (a.account->0).name),
        ),
    ensures
        ending(c, req, a) == refuse(c, UNAUTHORIZED),
{
    law_steps_lead_to_outcome(c, req, a);
}

/// Where the path of the home directories holds the name of the user, the home directories of
/// different users have no path in common. The name of a user is not empty and holds no slash.
pub proof fn law_homes_are_apart(c: Config, one: Seq<char>, other: Seq<char>, path: Seq<char>)
    requires
        c.users is Some,
        occurs((c.users->0).path@, placeholder()),
        one.len() > 0 && !one.contains('/'),
        other.len() > 0 && !other.contains('/'),
        lies_in(path, user_path(c, one)),
        lies_in(path, user_path(c, other)),
    ensures
        one == other,
{
    let template = (c.users->0).path@;
    if one.len() < other.len() {
        lemma_shorter_name_is_apart(template, one, other, path);
    } else if other.len() < one.len() {
        lemma_shorter_name_is_apart(template, other, one, path);
    } else {
        lemma_replaced_length(template, one, other);
        lemma_replaced_name(template, one, other);
    }
}

/// A user who asks for a path in the home directory of another user is refused, and told where to
/// log in, where the path of the home directories holds the name of the user.
pub proof fn law_home_of_another_is_refused(c: Config, req: Request, a: Answers, owner: Seq<char>)
    requires
        c.users is Some,
        occurs((c.users->0).path@, placeholder()),
        owner.len() > 0 && !owner.contains('/'),
        a.account matches Some(user) && user.name.len() > 0 && !user.name.contains('/')
            && user.name != owner,
        route(c, req) matches Route::Home { path } && lies_in(path, user_path(c, owner)),
    ensures
        ending(c, req, a) == refuse(c, UNAUTHORIZED),
{
    let user = a.account->0;
    let path = request_path(req.uri_path@)->0;
    if lies_in(path, user_path(c, user.name)) {
        law_homes_are_apart(c, user.name, owner, path);
    }
    law_other_home_is_refused(c, req, a);
}

/// The root above the home directories is shown to a client who has proved to be a user who may
/// log in; it holds the home directory of that user, and can be read and listed, no more.
pub proof fn law_virtual_root_is_read_only(c: Config, req: Request, a: Answers)
    ensures
        ending(c, req, a) matches NextView::Serve { setup, .. } ==> (setup.fs is VirtualRoot ==> {
            let user = a.account->0;
            &&& admitted(c, req, a)
            &&& setup.fs == (FileSystemView::VirtualRoot {
                dir: user.dir,
                user: user.name,
                ugid: if c.accounts.setuid {
                    Some((user.uid, user.gid))
                } else {
                    None
                },
            })
            &&& setup.principal == Some(user.name)
            &&& setup.prefix == users_root(c)
            &&& setup.prefix is Some
            &&& setup.allow matches Some(methods) && forall|m: Method|
                methods.contains(m) <==> (m == Method::Head || m == Method::Get || m
                    == Method::PropFind || m == Method::Options)
        }),
{
    law_steps_lead_to_outcome(c, req, a);
}

/// A file of the server itself is served only where a request reads it, from the directory of
/// the `[rootfs]` section, if it exists, and to a client who has logged in where that is asked.
pub proof fn law_root_files(c: Config, req: Request, a: Answers)
    ensures
        ending(c, req, a) matches NextView::Serve { setup, .. } ==> (setup.fs is Local ==> {
            &&& is_get_or_head(req.method@)
            &&& real_root(c, req.uri_path@) is Some
            &&& setup.fs == (FileSystemView::Local {
                directory: (c.rootfs->0).directory@,
                public: true,
            })
            &&& setup.locksystem is None
            &&& setup.prefix is None
            &&& setup.principal is None
            &&& setup.allow is None
            &&& a.file_exists
            &&& (c.rootfs->0).auth ==> admitted(c, req, a)
        }),
{
    law_steps_lead_to_outcome(c, req, a);
}

/// A path of a file of the server itself lies below that of the `[rootfs]` section and is at most
/// one level deep: it is the root, or the name of a file in it that is no collection.
pub proof fn law_root_files_are_one_level_deep(c: Config, uri_path: Seq<char>)
    ensures
        real_root(c, uri_path) matches Some((path, auth)) ==> {
            &&& c.rootfs is Some
            &&& web_path(uri_path, (c.rootfs->0).path@) == Some(path)
            &&& auth == (c.rootfs->0).auth
            &&& segments(path.path).len() <= 1
            &&& segments(path.path).len() == 1 ==> !path.is_collection() && path.file_name()
                == segments(path.path)[0]
            &&& segments(path.path).len() == 0 ==> path.file_name().len() == 0
        },
{
}

/// A client who has to log in and does not is refused, and told where to log in.
pub proof fn law_refused_without_login(c: Config, req: Request, a: Answers)
    requires
        needs_login(c, req),
        !admitted(c, req, a),
    ensures
        ending(c, req, a) == refuse(c, UNAUTHORIZED),
{
    law_steps_lead_to_outcome(c, req, a);
}

/// An account with a user id below the lowest that may log in gets at nothing that a client has
/// to log in for, whatever its password.
pub proof fn law_low_uid_is_refused(c: Config, req: Request, a: Answers)
    requires
        needs_login(c, req),
        a.account is Some,
        c.unix.min_uid is Some,
        (a.account->0).uid < c.unix.min_uid->0,
    ensures
        ending(c, req, a) == refuse(c, UNAUTHORIZED),
{
    law_refused_without_login(c, req, a);
}

/// A login asks for the account that the request names, and then for the verdict on the password
/// of the request for that account, on behalf of the address of the client.
pub proof fn law_login_questions(c: Config, req: Request, a: Answers)
    requires
        needs_login(c, req),
        credentials(req) is Some,
    ensures
        first(c, req) matches NextView::FindAccount { name, .. } && name == (credentials(req)->0).0,
        a.account matches Some(user) ==> (step(
            c,
            first(c, req),
            a,
        ) matches NextView::CheckPassword { service, user: login, password, remote_ip, .. }
            && service == c.pam.service@ && login == user.name && password == (credentials(
            req,
        )->0).1 && remote_ip == client_ip(req)),
{
}

/// For a file of the server itself that needs no login, the file that the path stands for is
/// looked for in the directory of the `[rootfs]` section; if there is none, an account of its
/// name.
pub proof fn law_file_questions(c: Config, req: Request, a: Answers)
    requires
        !needs_login(c, req),
        real_root(c, req.uri_path@) matches Some((path, _)) && valid_utf8(path.file_name()),
        is_get_or_head(req.method@),
    ensures
        ({
            let path = (real_root(c, req.uri_path@)->0).0;
            let missing = Answers { file_exists: false, ..a };
            &&& first(c, req) matches NextView::FindFile { directory, path: file, .. } && directory
                == (c.rootfs->0).directory@ && file == named_file(c, path)
            &&& step(c, first(c, req), missing) matches NextView::FindAccount { name, .. } && name
                == named_text(c, path)
        }),
{
}

/// A request is answered as invalid exactly where its path cannot be read: it is not `*` and
/// cannot be normalized. No login is asked for then.
pub proof fn law_bad_request(c: Config, req: Request, a: Answers)
    ensures
        ending(c, req, a) == refuse(c, BAD_REQUEST) <==> req.uri_path@ != "*"@ && normalized_path(
            req.uri_path@,
        ) is None,
        ending(c, req, a) == refuse(c, BAD_REQUEST) ==> first(c, req) == refuse(c, BAD_REQUEST),
{
    law_steps_lead_to_outcome(c, req, a);
    reveal_strlit("");
    assert(encode_utf8(""@) =~= Seq::<u8>::empty());
    if let Some(full) = normalized_path(req.uri_path@) {
        assert(full.take(0) =~= Seq::<u8>::empty());
    }
}

/// A client is challenged to log in exactly by the responses that refuse it for want of
/// authentication, and the challenge names the realm of the configuration.
pub proof fn law_challenge(code: u16, realm: Option<Seq<char>>)
    ensures
        ({
            let response = error_response(code, realm);
            let shown = match realm {
                Some(realm) => realm,
                None => default_realm(),
            };
            &&& response.status == code
            &&& response.headers[0] == ("Content-Type"@, "text/xml"@)
            &&& code == UNAUTHORIZED ==> response.headers.len() == 2 && response.headers[1] == (
                "WWW-Authenticate"@,
                "Basic realm=\""@ + shown + "\""@,
            )
            &&& code != UNAUTHORIZED ==> response.headers.len() == 1
        }),
{
}

/// A client is sent on to another path only where it asked for a file of the server itself that
/// does not exist and has the name of a user; it is sent to the path of that name.
pub proof fn law_redirect(c: Config, req: Request, a: Answers)
    ensures
        ending(c, req, a) matches NextView::Reply(response) ==> (response.status == 302 ==> {
            &&& route(c, req) is RealRoot
            &&& !a.file_exists
            &&& a.namesake is Some
            &&& real_root(c, req.uri_path@) matches Some((path, _)) && response
                == redirect_response("/"@ + named_text(c, path) + "/"@)
        }),
{
    law_steps_lead_to_outcome(c, req, a);
}

/// Slashes at the end of a path make no difference to whether it is that of the root above the
/// home directories.
pub proof fn law_virtual_root_ignores_trailing_slashes(c: Config, path: Seq<char>)
    ensures
        is_virtual_root(c, path.push('/')) == is_virtual_root(c, path),
{
    assert(path.push('/').drop_last() =~= path);
    reveal_with_fuel(trim_end, 2);
}

/// A path that holds the name of the user becomes the path of a user by putting the name there:
/// in the first place where it stands, and likewise in what follows.
pub proof fn law_user_path(c: Config, before: Seq<char>, after: Seq<char>, user: Seq<char>)
    requires
        c.users is Some,
        (c.users->0).path@ == before + placeholder() + after,
        !occurs(before, placeholder()),
    ensures
        user_path(c, user) == before + user + replace_all(after, placeholder(), user),
        !occurs(after, placeholder()) ==> user_path(c, user) == before + user + after,
        users_root(c) == Some(before + replace_all(after, placeholder(), ""@)),
{
    let template = (c.users->0).path@;
    lemma_replace_first(before, after, user);
    lemma_replace_first(before, after, ""@);
    reveal_strlit("");
    assert(before + ""@ =~= before);
    if !occurs(after, placeholder()) {
        lemma_replace_none(after, placeholder(), user);
    }
    assert(template.skip(before.len() as int) =~= placeholder() + after);
    assert(placeholder().is_prefix_of(template.skip(before.len() as int)));
}

/// A path that does not hold the name of the user is the path of every user, and there is no
/// root above the home directories.
pub proof fn law_user_path_without_name(c: Config, user: Seq<char>)
    requires
        c.users is Some,
        !occurs((c.users->0).path@, placeholder()),
    ensures
        user_path(c, user) == (c.users->0).path@,
        users_root(c) is None,
{
    lemma_replace_none((c.users->0).path@, placeholder(), user);
}

/// Where the path of a home directory begins with what all of them have in common, every path
/// that begins with that of the directory goes among them or to the root above them.
pub proof fn law_home_paths_are_found(c: Config, req: Request, user: Seq<char>, path: Seq<char>)
    requires
        c.users is Some,
        user_path(c, ""@).is_prefix_of(user_path(c, user)),
        request_path(req.uri_path@) == Some(path),
        user_path(c, user).is_prefix_of(path),
        !(route(c, req) is RealRoot),
    ensures
        route(c, req) == (Route::Home { path }) || route(c, req) is VirtualRoot,
{
    let root = user_path(c, ""@);
    let home = user_path(c, user);
    assert(path.take(home.len() as int).take(root.len() as int) =~= path.take(root.len() as int));
}

/// Where the path of the home directories ends in the name of the user and holds it nowhere else,
/// the path of every home directory begins with what all of them have in common.
pub proof fn law_homes_begin_alike(c: Config, before: Seq<char>, user: Seq<char>)
    requires
        c.users is Some,
        (c.users->0).path@ == before + placeholder(),
        !occurs(before, placeholder()),
    ensures
        user_path(c, ""@) == before,
        user_path(c, ""@).is_prefix_of(user_path(c, user)),
{
    let none = Seq::<char>::empty();
    reveal_strlit(":username");
    assert(!occurs(none, placeholder()));
    assert(before + placeholder() + none =~= before + placeholder());
    law_user_path(c, before, none, user);
    law_user_path(c, before, none, ""@);
    reveal_strlit("");
    assert(before + ""@ + none =~= before);
    assert((before + user + none).take(before.len() as int) =~= before);
}

/// Where the path of the home directories holds the name of the user, no path that begins with
/// that of a home directory is that of the root above them.
pub proof fn law_homes_are_no_virtual_root(c: Config, user: Seq<char>, path: Seq<char>)
    requires
        c.users is Some,
        occurs((c.users->0).path@, placeholder()),
        user.len() > 0 && !user.contains('/'),
        user_path(c, user).is_prefix_of(path),
    ensures
        !is_virtual_root(c, path),
{
    let template = (c.users->0).path@;
    let home = user_path(c, user);
    let root = user_path(c, ""@);
    let rest = path.skip(home.len() as int);
    reveal_strlit("");
    assert(""@ =~= Seq::<char>::empty());
    lemma_slashes_none(user);
    lemma_replaced_letters(template, user);
    assert(home + rest =~= path) by {
        assert(path.take(home.len() as int) + rest =~= path);
    }
    lemma_slashes_add(home, rest);
    lemma_slashes_fit(rest);
    lemma_trimmed_letters(path);
    lemma_trimmed_letters(root);
}

/// Where the path of a home directory begins with what all of them have in common, every path in
/// it goes to the home directories, unless it is that of a file of the server.
pub proof fn law_home_paths_go_home(c: Config, req: Request, user: Seq<char>, path: Seq<char>)
    requires
        c.users is Some,
        occurs((c.users->0).path@, placeholder()),
        user.len() > 0 && !user.contains('/'),
        user_path(c, ""@).is_prefix_of(user_path(c, user)),
        request_path(req.uri_path@) == Some(path),
        user_path(c, user).is_prefix_of(path),
        !(route(c, req) is RealRoot),
    ensures
        route(c, req) == (Route::Home { path }),
{
    law_homes_are_no_virtual_root(c, user, path);
    law_home_paths_are_found(c, req, user, path);
}

/// A request goes to a file of the server itself exactly where it reads a path at most one level
/// below that of the `[rootfs]` section. Every other request is invalid where its path cannot be
/// read; goes to the root above the home directories exactly where its path is their common path,
/// apart from slashes at the end; among the home directories where it begins with the common path;
/// and otherwise nowhere.
pub proof fn law_route(c: Config, req: Request)
    ensures
        ({
            let reads = req.method@ == seq!['G', 'E', 'T'] || req.method@ == seq![
                'H',
                'E',
                'A',
                'D',
            ];
            let file = match c.rootfs {
                Some(rootfs) => web_path(req.uri_path@, rootfs.path@),
                None => None,
            };
            let way = route(c, req);
            &&& way is RealRoot <==> (reads && (file matches Some(path) && only_a_name(path.path)))
            &&& way matches Route::RealRoot { path, auth } ==> file == Some(path) && auth
                == (c.rootfs->0).auth
            &&& !(way is RealRoot) ==> match web_path(req.uri_path@, Seq::empty()) {
                None => way is Invalid,
                Some(seen) => {
                    let path = lossy_text(seen.prefix + seen.path);
                    let root = match c.users {
                        Some(users) => replace_all(users.path@, ":username"@, Seq::empty()),
                        None => seq!['-'],
                    };
                    &&& way is VirtualRoot <==> (c.users is Some && occurs(
                        (c.users->0).path@,
                        ":username"@,
                    ) && same_but_slashes(path, root))
                    &&& !(way is VirtualRoot) && root.is_prefix_of(path) ==> way == (Route::Home {
                        path,
                    })
                    &&& !(way is VirtualRoot) && !root.is_prefix_of(path) ==> way is Nowhere
                },
            }
        }),
{
    reveal_strlit("");
    reveal_strlit("-");
    reveal_strlit("GET");
    reveal_strlit("HEAD");
    assert(""@ =~= Seq::<char>::empty());
    assert("-"@ =~= seq!['-']);
    assert("GET"@ =~= seq!['G', 'E', 'T']);
    assert("HEAD"@ =~= seq!['H', 'E', 'A', 'D']);
    if let Some(rootfs) = c.rootfs {
        if let Some(path) = web_path(req.uri_path@, rootfs.path@) {
            law_one_level_deep(path);
        }
    }
    if let Some(path) = request_path(req.uri_path@) {
        law_trimmed_alike(path, user_path(c, ""@));
    }
}

/// A client with a name and a password, an account of that name, the right password and a user id
/// that is at least the lowest that may log in is not refused for want of a login, unless the path
/// lies among the home directories and not in the own one; in the own one it is served.
pub proof fn law_login_admits(c: Config, req: Request, a: Answers)
    requires
        credentials(req) is Some,
        a.account is Some,
        a.password_right,
        c.unix.min_uid matches Some(min) ==> (a.account->0).uid >= min,
    ensures
        ending(c, req, a) matches NextView::Reply(response) ==> (response.status == 401 ==> (
        route(c, req) matches Route::Home { path } && !lies_in(
            path,
            user_path(c, (a.account->0).name),
        ))),
        c.users is Some && (route(c, req) matches Route::Home { path } && lies_in(
            path,
            user_path(c, (a.account->0).name),
        )) ==> (ending(c, req, a) matches NextView::Serve { setup, .. } && setup.fs is Home),
        route(c, req) is VirtualRoot ==> (ending(c, req, a) matches NextView::Serve { setup, .. }
            && setup.fs is VirtualRoot),
{
    law_steps_lead_to_outcome(c, req, a);
}

/// A file of the server itself that exists is served to a client who may have it. For a path of
/// slashes that is the index file of the `[rootfs]` section, or `index.html` where it names none:
/// its name is put at the end of the path of the request. For every other path nothing is put in
/// the place of it.
pub proof fn law_index_file(c: Config, req: Request, a: Answers)
    requires
        route(c, req) is RealRoot,
        (c.rootfs->0).auth ==> admitted(c, req, a),
        a.file_exists,
    ensures
        ({
            let path = route(c, req)->RealRoot_path;
            let name = match (c.rootfs->0).index {
                Some(name) => name@,
                None => "index.html"@,
            };
            let is_root = forall|i: int| 0 <= i < path.path.len() ==> path.path[i] == SLASH;
            &&& is_root ==> (ending(c, req, a) matches NextView::Serve { setup, rewrite }
                && setup.fs is Local && rewrite == Some(
                encode_path(path.prefix + path.path + encode_utf8(name)),
            ))
            &&& !is_root && valid_utf8(path.file_name()) ==> (ending(
                c,
                req,
                a,
            ) matches NextView::Serve { setup, rewrite } && setup.fs is Local && rewrite is None)
        }),
{
    law_steps_lead_to_outcome(c, req, a);
    let path = route(c, req)->RealRoot_path;
    let name = match (c.rootfs->0).index {
        Some(name) => name@,
        None => "index.html"@,
    };
    law_file_name(path.prefix, path.path, seq![0x61u8]);
    law_web_path(req.uri_path@, (c.rootfs->0).path@);
    reveal_strlit("");
    assert(""@ =~= Seq::<char>::empty());
    if forall|i: int| 0 <= i < path.path.len() ==> path.path[i] == SLASH {
        assert(path.path.len() > 0 && path.path.last() == SLASH);
        assert(path.file_name() =~= Seq::<u8>::empty());
        assert(encode_utf8(Seq::<char>::empty()) =~= Seq::<u8>::empty());
        assert(valid_utf8(path.file_name())) by {
            vstd::utf8::encode_utf8_valid_utf8(Seq::<char>::empty());
        }
        assert(path.prefix + (path.path + encode_utf8(name)) =~= path.prefix + path.path
            + encode_utf8(name));
    }
}

/// A refusal carries the code and its phrase; where the client has to log in, and only there, it
/// names the realm of the configuration, or `Webdav Server`.
pub proof fn law_refusal(c: Config, code: u16)
    ensures
        refuse(c, code) matches NextView::Reply(response) && {
            let shown = match c.accounts.realm {
                Some(realm) => realm@,
                None => "Webdav Server"@,
            };
            let phrase = match reason_phrase(code) {
                Some(phrase) => phrase,
                None => Seq::empty(),
            };
            let kind = ("Content-Type"@, "text/xml"@);
            &&& response.status == code
            &&& response.body == "<error>"@ + decimal(code as nat) + " "@ + phrase + "</error>\n"@
            &&& code == 401 ==> response.headers == seq![
                kind,
                ("WWW-Authenticate"@, "Basic realm=\""@ + shown + "\""@),
            ]
            &&& code != 401 ==> response.headers == seq![kind]
        },
{
    reveal_strlit("");
    assert(""@ =~= Seq::<char>::empty());
    let response = error_response(code, opt_text(c.accounts.realm));
    assert(code == 401 ==> response.headers =~= seq![response.headers[0], response.headers[1]]);
}

/// The lock system that the configuration names serves the home directories and the root above
/// them, and no other files: there is one exactly where the name is empty or `fakels`.
pub proof fn law_lock_system(c: Config, req: Request, a: Answers)
    ensures
        ending(c, req, a) matches NextView::Serve { setup, .. } ==> (setup.locksystem is Some <==> {
            &&& !(setup.fs is Local)
            &&& c.webdav.locksystem@ == Seq::<char>::empty() || c.webdav.locksystem@ == seq![
                'f',
                'a',
                'k',
                'e',
                'l',
                's',
            ]
        }),
{
    law_steps_lead_to_outcome(c, req, a);
    reveal_strlit("");
    reveal_strlit("fakels");
    assert(""@ =~= Seq::<char>::empty());
    assert("fakels"@ =~= seq!['f', 'a', 'k', 'e', 'l', 's']);
}

/// The segments of a path are not empty and hold no slash.
pub proof fn law_segments(path: Seq<u8>, i: int)
    requires
        0 <= i < segments(path).len(),
    ensures
        segments(path)[i].len() > 0,
        !segments(path)[i].contains(SLASH),
    decreases path.len(),
{
    let before = segments(path.drop_last());
    if path.last() == SLASH {
        law_segments(path.drop_last(), i);
    } else if path.len() == 1 || path[path.len() - 2] == SLASH {
        if i < before.len() {
            law_segments(path.drop_last(), i);
        }
    } else {
        lemma_segment_open(path.drop_last());
        law_segments(path.drop_last(), i);
        if i == before.len() - 1 {
            let grown = segments(path)[i];
            assert(grown =~= before[i].push(path.last()));
            if grown.contains(SLASH) {
                let k = grown.index_of(SLASH);
                assert(before[i].contains(before[i][k]));
            }
        }
    }
}

/// The value of a hexadecimal digit in upper case.
pub open spec fn hex_value(c: char) -> int {
    if '0' <= c <= '9' {
        c as int - 0x30
    } else {
        c as int - 0x37
    }
}

/// The bytes that a percent-encoded path stands for.
pub open spec fn percent_decode(url: Seq<char>) -> Seq<u8>
    decreases url.len(),
{
    if url.len() == 0 {
        Seq::empty()
    } else if url[0] == '%' && url.len() >= 3 {
        seq![(16 * hex_value(url[1]) + hex_value(url[2])) as u8] + percent_decode(url.skip(3))
    } else {
        seq![url[0] as u8] + percent_decode(url.skip(1))
    }
}

/// A path can be read back from its percent-encoded form, so different paths differ there too.
pub proof fn law_encoded_path_decodes(path: Seq<u8>)
    ensures
        percent_decode(encode_path(path)) == path,
    decreases path.len(),
{
    if path.len() > 0 {
        let byte = path[0];
        let rest = path.skip(1);
        let tail = encode_path(rest);
        lemma_encode_first(path);
        law_encoded_path_decodes(rest);
        let url = encode_byte(byte) + tail;
        if is_plain(byte) {
            assert(url.skip(1) =~= tail);
            assert(url[0] != '%');
        } else {
            assert(url.skip(3) =~= tail);
            assert(hex_value(hex_digit(byte / 16)) == byte / 16);
            assert(hex_value(hex_digit(byte % 16)) == byte % 16);
            assert(16 * (byte / 16) + byte % 16 == byte);
        }
        assert(seq![byte] + rest =~= path);
    }
}

/// A path is encoded from its first byte on as well as from its last.
proof fn lemma_encode_first(path: Seq<u8>)
    requires
        path.len() > 0,
    ensures
        encode_path(path) == encode_byte(path[0]) + encode_path(path.skip(1)),
    decreases path.len(),
{
    if path.len() == 1 {
        assert(path.drop_last() =~= Seq::empty());
        assert(path.skip(1) =~= Seq::empty());
        assert(encode_path(path) =~= encode_byte(path[0]) + encode_path(path.skip(1)));
    } else {
        lemma_encode_first(path.drop_last());
        assert(path.drop_last().skip(1) =~= path.skip(1).drop_last());
        assert(encode_path(path) =~= encode_byte(path[0]) + encode_path(path.skip(1)));
    }
}

/// A path that does not end in a slash has a segment.
proof fn lemma_segment_open(path: Seq<u8>)
    requires
        path.len() > 0,
        path.last() != SLASH,
    ensures
        segments(path).len() > 0,
    decreases path.len(),
{
    if path.len() > 1 && path[path.len() - 2] != SLASH {
        lemma_segment_open(path.drop_last());
    }
}

/// How many slashes a text holds.
spec fn slashes(s: Seq<char>) -> nat
    decreases s.len(),
{
    if s.len() == 0 {
        0
    } else {
        slashes(s.drop_last()) + if s.last() == '/' {
            1nat
        } else {
            0nat
        }
    }
}

/// The slashes of two texts add up.
proof fn lemma_slashes_add(a: Seq<char>, b: Seq<char>)
    ensures
        slashes(a + b) == slashes(a) + slashes(b),
    decreases b.len(),
{
    if b.len() == 0 {
        assert(a + b =~= a);
    } else {
        assert((a + b).drop_last() =~= a + b.drop_last());
        lemma_slashes_add(a, b.drop_last());
    }
}

/// A text has no slashes to count exactly where it holds none.
proof fn lemma_slashes_none(s: Seq<char>)
    ensures
        slashes(s) == 0 <==> !s.contains('/'),
    decreases s.len(),
{
    if s.len() > 0 {
        lemma_slashes_none(s.drop_last());
        assert(s.contains(s.last()));
        if s.drop_last().contains('/') {
            assert(s.contains(s[s.drop_last().index_of('/')]));
        }
        if s.contains('/') && s.last() != '/' {
            assert(s.drop_last().contains(s.drop_last()[s.index_of('/')]));
        }
    }
}

/// A text has no more slashes than characters.
proof fn lemma_slashes_fit(s: Seq<char>)
    ensures
        slashes(s) <= s.len(),
    decreases s.len(),
{
    if s.len() > 0 {
        lemma_slashes_fit(s.drop_last());
    }
}

/// Slashes that are taken off the end leave as many other characters as before.
proof fn lemma_trimmed_letters(s: Seq<char>)
    ensures
        s.len() - slashes(s) == trim_end(s, '/').len() - slashes(trim_end(s, '/')),
    decreases s.len(),
{
    if s.len() > 0 && s.last() == '/' {
        lemma_trimmed_letters(s.drop_last());
    }
}

/// A name without a slash that is put in place of the placeholder adds other characters.
proof fn lemma_replaced_letters(template: Seq<char>, user: Seq<char>)
    requires
        user.len() > 0 && !user.contains('/'),
    ensures
        ({
            let root = replace_all(template, placeholder(), Seq::empty());
            let home = replace_all(template, placeholder(), user);
            &&& root.len() - slashes(root) <= home.len() - slashes(home)
            &&& occurs(template, placeholder()) ==> root.len() - slashes(root) < home.len()
                - slashes(home)
        }),
    decreases template.len(),
{
    let pattern = placeholder();
    reveal_strlit(":username");
    if template.len() > 0 {
        let none = Seq::<char>::empty();
        if pattern.is_prefix_of(template) {
            let rest = template.skip(pattern.len() as int);
            lemma_replaced_letters(rest, user);
            lemma_slashes_add(none, replace_all(rest, pattern, none));
            lemma_slashes_add(user, replace_all(rest, pattern, user));
            lemma_slashes_none(user);
        } else {
            let rest = template.skip(1);
            lemma_replaced_letters(rest, user);
            lemma_slashes_add(seq![template[0]], replace_all(rest, pattern, none));
            lemma_slashes_add(seq![template[0]], replace_all(rest, pattern, user));
            if occurs(template, pattern) {
                lemma_occurs_later(template, pattern);
            }
        }
    }
}

/// A pattern that does not stand at the beginning of a text, but stands in it, stands further on.
proof fn lemma_occurs_later(s: Seq<char>, pattern: Seq<char>)
    requires
        occurs(s, pattern),
        !pattern.is_prefix_of(s),
    ensures
        s.len() > 0,
        occurs(s.skip(1), pattern),
{
    let i = choose|i: int| 0 <= i <= s.len() && #[trigger] pattern.is_prefix_of(s.skip(i));
    assert(s.skip(0) =~= s);
    assert(s.skip(1).skip(i - 1) =~= s.skip(i));
}

/// The longer the text that is put in place of the placeholder, the longer the whole.
proof fn lemma_replaced_length(template: Seq<char>, short: Seq<char>, long: Seq<char>)
    requires
        short.len() <= long.len(),
    ensures
        ({
            let near = replace_all(template, placeholder(), short);
            let far = replace_all(template, placeholder(), long);
            &&& near.len() <= far.len()
            &&& short.len() == long.len() ==> near.len() == far.len()
            &&& short.len() < long.len() && occurs(template, placeholder()) ==> near.len()
                < far.len()
        }),
    decreases template.len(),
{
    let pattern = placeholder();
    reveal_strlit(":username");
    if template.len() > 0 {
        if pattern.is_prefix_of(template) {
            lemma_replaced_length(template.skip(pattern.len() as int), short, long);
        } else {
            lemma_replaced_length(template.skip(1), short, long);
            if occurs(template, pattern) {
                lemma_occurs_later(template, pattern);
            }
        }
    }
}

/// Names without a slash leave the number of slashes as it is, and the slash at the end.
proof fn lemma_replaced_slashes(template: Seq<char>, one: Seq<char>, other: Seq<char>)
    requires
        one.len() > 0 && !one.contains('/'),
        other.len() > 0 && !other.contains('/'),
    ensures
        ({
            let x = replace_all(template, placeholder(), one);
            let y = replace_all(template, placeholder(), other);
            &&& slashes(x) == slashes(y)
            &&& x.len() == 0 <==> template.len() == 0
            &&& y.len() == 0 <==> template.len() == 0
            &&& x.len() > 0 && x.last() == '/' ==> y.last() == '/'
        }),
    decreases template.len(),
{
    let pattern = placeholder();
    reveal_strlit(":username");
    if template.len() > 0 {
        if pattern.is_prefix_of(template) {
            let rest = template.skip(pattern.len() as int);
            lemma_replaced_slashes(rest, one, other);
            lemma_slashes_add(one, replace_all(rest, pattern, one));
            lemma_slashes_add(other, replace_all(rest, pattern, other));
            lemma_slashes_none(one);
            lemma_slashes_none(other);
            assert(one.contains(one.last()));
        } else {
            let rest = template.skip(1);
            lemma_replaced_slashes(rest, one, other);
            lemma_slashes_add(seq![template[0]], replace_all(rest, pattern, one));
            lemma_slashes_add(seq![template[0]], replace_all(rest, pattern, other));
        }
    }
}

/// A name can be read off the path that it was put into, if its length is known.
proof fn lemma_replaced_name(template: Seq<char>, one: Seq<char>, other: Seq<char>)
    requires
        occurs(template, placeholder()),
        one.len() == other.len(),
        replace_all(template, placeholder(), one) == replace_all(template, placeholder(), other),
    ensures
        one == other,
    decreases template.len(),
{
    let pattern = placeholder();
    let x = replace_all(template, pattern, one);
    let y = replace_all(template, pattern, other);
    reveal_strlit(":username");
    if pattern.is_prefix_of(template) {
        assert(x.take(one.len() as int) =~= one);
        assert(y.take(one.len() as int) =~= other);
    } else {
        lemma_occurs_later(template, pattern);
        assert(x.skip(1) =~= replace_all(template.skip(1), pattern, one));
        assert(y.skip(1) =~= replace_all(template.skip(1), pattern, other));
        lemma_replaced_name(template.skip(1), one, other);
    }
}

/// A path in the directory of a name does not lie in that of a shorter name: both directories have
/// equally many slashes, and the path would need one more between their ends.
proof fn lemma_shorter_name_is_apart(
    template: Seq<char>,
    short: Seq<char>,
    long: Seq<char>,
    path: Seq<char>,
)
    requires
        occurs(template, placeholder()),
        0 < short.len() < long.len(),
        !short.contains('/'),
        !long.contains('/'),
        lies_in(path, replace_all(template, placeholder(), long)),
    ensures
        !lies_in(path, replace_all(template, placeholder(), short)),
{
    let near = replace_all(template, placeholder(), short);
    let far = replace_all(template, placeholder(), long);
    lemma_replaced_length(template, short, long);
    lemma_replaced_slashes(template, short, long);
    if lies_in(path, near) {
        let between = far.skip(near.len() as int);
        assert(far.take(near.len() as int) =~= near) by {
            assert(path.take(far.len() as int).take(near.len() as int) =~= path.take(
                near.len() as int,
            ));
        }
        assert(near + between =~= far);
        lemma_slashes_add(near, between);
        lemma_slashes_none(between);
        assert(between.contains(between[0]));
        assert(between.contains(between.last()));
        assert(path.take(far.len() as int)[near.len() as int] == between[0]);
    }
}

/// Nothing is replaced where the pattern does not occur.
proof fn lemma_replace_none(s: Seq<char>, pattern: Seq<char>, to: Seq<char>)
    requires
        !occurs(s, pattern),
    ensures
        replace_all(s, pattern, to) == s,
{
    law_replace_nothing(s, pattern, to);
}

/// The first placeholder is replaced where it stands, and nothing before it.
proof fn lemma_replace_first(before: Seq<char>, after: Seq<char>, to: Seq<char>)
    requires
        !occurs(before, placeholder()),
    ensures
        replace_all(before + placeholder() + after, placeholder(), to) == before + to + replace_all(
            after,
            placeholder(),
            to,
        ),
    decreases before.len(),
{
    let pattern = placeholder();
    let s = before + pattern + after;
    let tail = replace_all(after, pattern, to);
    reveal_strlit(":username");
    if before.len() == 0 {
        assert(s.take(pattern.len() as int) =~= pattern);
        assert(s.skip(pattern.len() as int) =~= after);
        assert(before + to + tail =~= to + tail);
    } else {
        if pattern.is_prefix_of(s) {
            let n = before.len() as int;
            if n >= pattern.len() {
                assert(before.skip(0) =~= before);
                assert(before.take(pattern.len() as int) =~= s.take(pattern.len() as int));
                assert(pattern.is_prefix_of(before.skip(0)));
            } else {
                assert(s[n] == ':');
                assert(s.take(pattern.len() as int)[n] == pattern[n]);
            }
            assert(false);
        }
        let rest = before.skip(1);
        assert forall|i: int| 0 <= i <= rest.len() implies !#[trigger] pattern.is_prefix_of(
            rest.skip(i),
        ) by {
            assert(rest.skip(i) =~= before.skip(i + 1));
        }
        lemma_replace_first(rest, after, to);
        assert(s.skip(1) =~= rest + pattern + after);
        assert(seq![s[0]] + (rest + to + tail) =~= before + to + tail);
    }
}

} // verus!
