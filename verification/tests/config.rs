use webdav_server::config::{
    config_file, listener_options, localhost_listen, Accounts, Config, OptionError, Pam, Rootfs,
    ServerSection, Unix, Webdav,
};

fn config(rootfs: bool) -> Config {
    Config {
        server: ServerSection {
            listen: vec!["0.0.0.0:80".to_string()],
            uid: Some(33),
            gid: None,
        },
        accounts: Accounts {
            realm: None,
            setuid: false,
        },
        pam: Pam {
            service: "other".to_string(),
        },
        unix: Unix { min_uid: None },
        rootfs: if rootfs {
            Some(Rootfs {
                path: "/".to_string(),
                auth: true,
                directory: "/var/www".to_string(),
                index: None,
            })
        } else {
            None
        },
        users: None,
        webdav: Webdav {
            locksystem: "".to_string(),
        },
    }
}

#[test]
fn the_configuration_file_has_a_default() {
    assert_eq!(config_file(None), "/etc/webdav-server.toml");
    assert_eq!(config_file(Some("x.toml".to_string())), "x.toml");
}

#[test]
fn a_directory_takes_the_place_of_that_of_the_rootfs() {
    let c = config(true).with_options(Some("/srv".to_string()), None).unwrap();
    let rootfs = c.rootfs.unwrap();
    assert_eq!(rootfs.directory, "/srv");
    assert_eq!(rootfs.path, "/");
    assert!(rootfs.auth);
    assert_eq!(c.server.listen, vec!["0.0.0.0:80".to_string()]);
}

#[test]
fn a_directory_needs_a_rootfs_section() {
    let res = config(false).with_options(Some("/srv".to_string()), Some("80".to_string()));
    assert_eq!(res.err(), Some(OptionError::MissingRootfs));
    assert!(config(false).with_options(None, None).is_ok());
}

#[test]
fn a_port_is_served_on_localhost_only() {
    let c = config(true).with_options(None, Some("4918".to_string())).unwrap();
    assert_eq!(c.server.listen, vec!["127.0.0.1:4918", "[::1]:4918"]);
    assert_eq!(c.rootfs.unwrap().directory, "/var/www");
    assert_eq!(localhost_listen("0"), vec!["127.0.0.1:0", "[::1]:0"]);
}

#[test]
fn privileges_are_dropped_only_with_both_ids() {
    let mut c = config(true);
    assert_eq!(c.privileges(), None);
    c.server.gid = Some(44);
    assert_eq!(c.privileges(), Some((33, 44)));
    c.server.uid = None;
    assert_eq!(c.privileges(), None);
}

#[test]
fn only_sockets_of_the_newer_family_refuse_the_older() {
    let v6 = listener_options(true);
    assert!(v6.ipv6 && v6.only_v6 && v6.reuse_address);
    assert_eq!(v6.backlog, 128);
    let v4 = listener_options(false);
    assert!(!v4.ipv6 && !v4.only_v6 && v4.reuse_address);
}
