//! The part of the configuration that decisions are taken on, and what the command line changes
//! in it.
use vstd::prelude::*;

verus! {

/// The `[server]` section.
pub struct ServerSection {
    /// The addresses to listen on.
    pub listen: Vec<String>,
    /// The user to run as once the addresses are bound.
    pub uid: Option<u32>,
    /// The group to run as once the addresses are bound.
    pub gid: Option<u32>,
}

/// The `[accounts]` section.
pub struct Accounts {
    /// The realm to show to a client that has to log in.
    pub realm: Option<String>,
    /// Whether files are accessed as the user who logged in.
    pub setuid: bool,
}

/// The `[pam]` section.
pub struct Pam {
    /// The name of the PAM service.
    pub service: String,
}

/// The `[unix]` section.
pub struct Unix {
    /// The lowest user id that may log in.
    pub min_uid: Option<u32>,
}

/// The `[rootfs]` section: files of the server itself.
pub struct Rootfs {
    /// The path below which the files are shown.
    pub path: String,
    /// Whether a client has to log in for them.
    pub auth: bool,
    /// The directory that holds them.
    pub directory: String,
    /// The file that stands for the root.
    pub index: Option<String>,
}

/// The `[users]` section.
pub struct Users {
    /// The path of the home directory of a user, with `:username` in place of the name.
    pub path: String,
}

/// The `[webdav]` section.
pub struct Webdav {
    /// The name of the lock system.
    pub locksystem: String,
}

/// The configuration.
pub struct Config {
    pub server: ServerSection,
    pub accounts: Accounts,
    pub pam: Pam,
    pub unix: Unix,
    pub rootfs: Option<Rootfs>,
    pub users: Option<Users>,
    pub webdav: Webdav,
}

/// Why the command line does not fit the configuration.
#[derive(Clone, Copy, Debug, PartialEq, Eq, Structural)]
pub enum OptionError {
    /// A directory to serve was given, and there is no `[rootfs]` section.
    MissingRootfs,
}

/// The configuration file that is read where the command line names none.
pub open spec fn default_config_file() -> Seq<char> {
    "/etc/webdav-server.toml"@
}

/// The configuration file to read.
pub fn config_file(option: Option<String>) -> (file: String)
    ensures
        file@ == (match option {
            Some(name) => name@,
            None => default_config_file(),
        }),
{
    match option {
        Some(name) => name,
        None => "/etc/webdav-server.toml".to_owned(),
    }
}

/// Whether a list names a port of the local host, once for each address family, and nothing else.
pub open spec fn is_localhost(listen: Seq<String>, port: Seq<char>) -> bool {
    &&& listen.len() == 2
    &&& listen[0]@ == "127.0.0.1:"@ + port
    &&& listen[1]@ == "[::1]:"@ + port
}

/// The addresses to listen on, for a port on the local host only.
pub fn localhost_listen(port: &str) -> (listen: Vec<String>)
    ensures
        is_localhost(listen@, port@),
{
    let mut listen: Vec<String> = Vec::new();
    listen.push("127.0.0.1:".to_owned().concat(port));
    listen.push("[::1]:".to_owned().concat(port));
    listen
}

/// The `[rootfs]` section, with its directory replaced where the command line names one.
pub open spec fn rootfs_with_dir(rootfs: Option<Rootfs>, dir: Option<String>) -> Option<Rootfs> {
    match (rootfs, dir) {
        (Some(rootfs), Some(dir)) => Some(Rootfs { directory: dir, ..rootfs }),
        _ => rootfs,
    }
}

impl Config {
    /// Overrides parts of the configuration with options of the command line: the directory to
    /// serve, and a port to listen to on the local host only.
    ///
    /// Fails exactly where a directory is given and there is no `[rootfs]` section.
    pub fn with_options(self, dir: Option<String>, port: Option<String>) -> (res: Result<
        Config,
        OptionError,
    >)
        ensures
            res is Err <==> dir is Some && self.rootfs is None,
            res matches Ok(config) ==> {
                &&& config.rootfs == rootfs_with_dir(self.rootfs, dir)
                &&& port matches Some(port) ==> is_localhost(config.server.listen@, port@)
                &&& port is None ==> config.server.listen == self.server.listen
                &&& config.server.uid == self.server.uid
                &&& config.server.gid == self.server.gid
                &&& config.accounts == self.accounts
                &&& config.pam == self.pam
                &&& config.unix == self.unix
                &&& config.users == self.users
                &&& config.webdav == self.webdav
            },
    {
        let rootfs = match (self.rootfs, dir) {
            (None, Some(_)) => return Err(OptionError::MissingRootfs),
            (Some(rootfs), Some(dir)) => Some(
                Rootfs {
                    path: rootfs.path,
                    auth: rootfs.auth,
                    directory: dir,
                    index: rootfs.index,
                },
            ),
            (rootfs, None) => rootfs,
        };
        let listen = match port {
            Some(port) => localhost_listen(port.as_str()),
            None => self.server.listen,
        };
        Ok(
            Config {
                server: ServerSection { listen, uid: self.server.uid, gid: self.server.gid },
                accounts: self.accounts,
                pam: self.pam,
                unix: self.unix,
                rootfs,
                users: self.users,
                webdav: self.webdav,
            },
        )
    }

    /// The user and the group to run as once the addresses are bound: only where the
    /// configuration names both.
    pub fn privileges(&self) -> (ids: Option<(u32, u32)>)
        ensures
            ids == (match (self.server.uid, self.server.gid) {
                (Some(uid), Some(gid)) => Some((uid, gid)),
                _ => None,
            }),
    {
        match (self.server.uid, self.server.gid) {
            (Some(uid), Some(gid)) => Some((uid, gid)),
            _ => None,
        }
    }
}

/// How a listening socket is set up.
#[derive(Clone, Copy, Debug, PartialEq, Eq, Structural)]
pub struct ListenerOptions {
    /// Whether it is a socket of the IPv6 family.
    pub ipv6: bool,
    /// Whether it refuses IPv4 clients.
    pub only_v6: bool,
    /// Whether its address may be taken again at once.
    pub reuse_address: bool,
    /// How many clients can wait to be accepted.
    pub backlog: i32,
}

/// How the socket for an address of the given family is set up: a socket for an IPv6 address
/// takes no IPv4 clients.
pub fn listener_options(ipv6: bool) -> (options: ListenerOptions)
    ensures
        options == (ListenerOptions { ipv6, only_v6: ipv6, reuse_address: true, backlog: 128 }),
{
    ListenerOptions { ipv6, only_v6: ipv6, reuse_address: true, backlog: 128 }
}

} // verus!
