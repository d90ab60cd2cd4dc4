//! What the command line and the configuration decide.
use crate::config::{
    config_file, listener_options, localhost_listen, Config, ListenerOptions, OptionError,
};
use vstd::prelude::*;

verus! {

/// The file that the command line names is read, and `/etc/webdav-server.toml` without one.
pub proof fn law_config_file(option: Option<String>, file: String)
    requires
        call_ensures(config_file, (option,), file),
    ensures
        option matches Some(name) ==> file@ == name@,
        option is None ==> file@ == "/etc/webdav-server.toml"@,
{
}

/// A port is listened to on the loopback address of each family, and nowhere else.
pub proof fn law_localhost(port: &str, listen: Vec<String>)
    requires
        call_ensures(localhost_listen, (port,), listen),
    ensures
        listen@.len() == 2,
        listen@[0]@ == "127.0.0.1:"@ + port@,
        listen@[1]@ == "[::1]:"@ + port@,
{
}

/// A directory can be named exactly where there is a `[rootfs]` section; it takes the place of the
/// directory there, and nothing else of the section changes.
pub proof fn law_directory_option(
    config: Config,
    dir: Option<String>,
    port: Option<String>,
    res: Result<Config, OptionError>,
)
    requires
        call_ensures(Config::with_options, (config, dir, port), res),
    ensures
        res is Err <==> (dir is Some && config.rootfs is None),
        res matches Err(e) ==> e == OptionError::MissingRootfs,
        res matches Ok(new) ==> (new.rootfs is Some <==> config.rootfs is Some),
        res matches Ok(new) ==> (new.rootfs matches Some(rootfs) ==> {
            let before = config.rootfs->0;
            &&& rootfs.path@ == before.path@
            &&& rootfs.auth == before.auth
            &&& rootfs.index == before.index
            &&& dir matches Some(dir) ==> rootfs.directory@ == dir@
            &&& dir is None ==> rootfs.directory@ == before.directory@
        }),
{
}

/// A port takes the place of all addresses to listen on, by the loopback addresses; without one
/// they stay. No other part of the configuration depends on it.
pub proof fn law_port_option(
    config: Config,
    dir: Option<String>,
    port: Option<String>,
    res: Result<Config, OptionError>,
)
    requires
        call_ensures(Config::with_options, (config, dir, port), res),
    ensures
        res matches Ok(new) ==> {
            &&& port is None ==> new.server.listen@ == config.server.listen@
            &&& port matches Some(port) ==> {
                &&& new.server.listen@.len() == 2
                &&& new.server.listen@[0]@ == "127.0.0.1:"@ + port@
                &&& new.server.listen@[1]@ == "[::1]:"@ + port@
            }
            &&& new.server.uid == config.server.uid
            &&& new.server.gid == config.server.gid
            &&& new.accounts == config.accounts
            &&& new.pam == config.pam
            &&& new.unix == config.unix
            &&& new.users == config.users
            &&& new.webdav == config.webdav
        },
{
}

/// Privileges are dropped exactly where the configuration names a user and a group, and then to
/// these.
pub proof fn law_privileges(config: &Config, ids: Option<(u32, u32)>)
    requires
        call_ensures(Config::privileges, (config,), ids),
    ensures
        ids is Some <==> (config.server.uid is Some && config.server.gid is Some),
        ids matches Some((uid, gid)) ==> config.server.uid == Some(uid) && config.server.gid == Some(
            gid,
        ),
{
}

/// A socket has the family of its address, and one of the newer family leaves the clients of the
/// older to another socket; the address can be taken again at once, and 128 clients can wait.
pub proof fn law_listener(ipv6: bool, options: ListenerOptions)
    requires
        call_ensures(listener_options, (ipv6,), options),
    ensures
        options.ipv6 == ipv6,
        options.only_v6 == options.ipv6,
        options.reuse_address,
        options.backlog == 128,
{
}

} // verus!
