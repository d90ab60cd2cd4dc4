//! How a request that is let through is handed to the WebDAV handler.
#[allow(unused_imports)]
use crate::outside::method_set;
#[allow(unused_imports)]
use crate::text::opt_text;
use vstd::prelude::*;
use webdav_handler::DavMethodSet;

verus! {

/// The methods of HTTP and WebDAV.
#[derive(Clone, Copy, Debug, PartialEq, Eq, Structural)]
pub enum Method {
    Head,
    Get,
    Put,
    Patch,
    Options,
    PropFind,
    PropPatch,
    MkCol,
    Copy,
    Move,
    Delete,
    Lock,
    Unlock,
}

/// The lock systems that a configuration can choose.
#[derive(Clone, Copy, Debug, PartialEq, Eq, Structural)]
pub enum LockSystem {
    /// Just enough locking for clients that insist on it.
    Fake,
}

/// The file system to serve from. `ugid` is the user and group to act as.
pub enum FileSystem {
    /// A directory of the server.
    Local { directory: String, public: bool },
    /// A root that shows the home directory of one user.
    VirtualRoot { dir: String, user: String, ugid: Option<(u32, u32)> },
    /// The home directory of a user.
    Home { dir: String, ugid: Option<(u32, u32)>, public: bool },
}

/// The model of a file system.
pub enum FileSystemView {
    Local { directory: Seq<char>, public: bool },
    VirtualRoot { dir: Seq<char>, user: Seq<char>, ugid: Option<(u32, u32)> },
    Home { dir: Seq<char>, ugid: Option<(u32, u32)>, public: bool },
}

impl View for FileSystem {
    type V = FileSystemView;

    open spec fn view(&self) -> FileSystemView {
        match *self {
            FileSystem::Local { directory, public } => FileSystemView::Local {
                directory: directory@,
                public,
            },
            FileSystem::VirtualRoot { dir, user, ugid } => FileSystemView::VirtualRoot {
                dir: dir@,
                user: user@,
                ugid,
            },
            FileSystem::Home { dir, ugid, public } => FileSystemView::Home {
                dir: dir@,
                ugid,
                public,
            },
        }
    }
}

/// What the WebDAV handler is told about one request.
pub struct DavSetup {
    /// Where to serve from.
    pub fs: FileSystem,
    /// The lock system, if there is one.
    pub locksystem: Option<LockSystem>,
    /// The part of the path to take off before looking in the file system.
    pub prefix: Option<String>,
    /// The user on whose behalf the request is handled.
    pub principal: Option<String>,
    /// The methods that are allowed; all of them if there is no set.
    pub allow: Option<DavMethodSet>,
}

/// The model of a setup.
pub struct DavSetupView {
    pub fs: FileSystemView,
    pub locksystem: Option<LockSystem>,
    pub prefix: Option<Seq<char>>,
    pub principal: Option<Seq<char>>,
    pub allow: Option<Set<Method>>,
}

impl View for DavSetup {
    type V = DavSetupView;

    open spec fn view(&self) -> DavSetupView {
        DavSetupView {
            fs: self.fs@,
            locksystem: self.locksystem,
            prefix: opt_text(self.prefix),
            principal: opt_text(self.principal),
            allow: match self.allow {
                Some(set) => Some(method_set(set)),
                None => None,
            },
        }
    }
}

} // verus!
