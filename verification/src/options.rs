//! The request model: the aggregate of one storage path, optional
//! credentials and region, the filters, and at most one action, handed as a
//! finished value to the matching and execution engine.

use vstd::prelude::*;

use crate::path::S3path;
use crate::pattern::InameGlob;
use crate::pattern::NameGlob;
use crate::size::FindSize;
use crate::tag::FindTag;
use crate::time::FindTime;

verus! {

/// The terminal operation to run on every matched key.
///
/// The set is closed: at most one action rides in a request, and its
/// arguments are validated at parse time, not at execution time.
#[derive(Debug, Clone, PartialEq)]
pub enum Cmd {
    /// Run a shell utility with every matched key.
    Exec { utility: String },
    /// Extended print with detail information.
    Print,
    /// Delete the matched keys.
    Delete,
    /// Download the matched keys, overwriting only when forced.
    Download { force: bool, destination: String },
    /// Print the list of matched keys.
    Ls,
    /// Print the list of matched keys with their tags.
    LsTags,
    /// Overwrite the tags of the matched keys.
    Tags { tags: Vec<FindTag> },
    /// Make the matched keys publicly readable.
    Public,
}

impl Cmd {
    /// Whether the action carries the arguments it requires: setting tags
    /// needs at least one tag.
    pub open spec fn wf(&self) -> bool {
        self matches Cmd::Tags { tags } ==> tags@.len() >= 1
    }
}

/// A fully parsed request: where to walk, how to authenticate, which
/// objects match, and what to do with them.
///
/// Repeated filters keep the order they were given in; their logical
/// combination (an AND) is the engine's contract, not this layer's.
#[derive(Debug, Clone)]
pub struct FindOpt {
    /// The bucket and prefix to walk through.
    pub path: S3path,
    /// AWS access key; comes only together with the secret key.
    pub aws_access_key: Option<String>,
    /// AWS secret key; comes only together with the access key.
    pub aws_secret_key: Option<String>,
    /// Region identifier; the hosting runtime resolves it, and its absence
    /// means the runtime's default.
    pub aws_region: Option<String>,
    /// Case-sensitive glob filters over object keys.
    pub name: Vec<NameGlob>,
    /// Case-insensitive glob filters over object keys.
    pub iname: Vec<InameGlob>,
    /// Regex filters over object keys.
    pub regex: Vec<regex::Regex>,
    /// Modification-time filters.
    pub mtime: Vec<FindTime>,
    /// Size filters.
    pub size: Vec<FindSize>,
    /// The action to run, or the engine's default when absent.
    pub cmd: Option<Cmd>,
}

impl FindOpt {
    /// Whether the request is fit to hand to the engine: credentials come
    /// both or neither, and the action, if any, carries its arguments.
    pub open spec fn wf(&self) -> bool {
        &&& self.aws_access_key is Some <==> self.aws_secret_key is Some
        &&& self.cmd matches Some(c) ==> c.wf()
    }

    /// The request over `path` with no credentials, no filters and no
    /// action: it matches everything and leaves the action to the engine's
    /// default, and it is well-formed.
    pub fn new(path: S3path) -> (r: FindOpt)
        ensures
            r.wf(),
            r.path == path,
            r.aws_access_key is None,
            r.aws_secret_key is None,
            r.aws_region is None,
            r.name@.len() == 0,
            r.iname@.len() == 0,
            r.regex@.len() == 0,
            r.mtime@.len() == 0,
            r.size@.len() == 0,
            r.cmd is None,
    {
        FindOpt {
            path,
            aws_access_key: None,
            aws_secret_key: None,
            aws_region: None,
            name: Vec::new(),
            iname: Vec::new(),
            regex: Vec::new(),
            mtime: Vec::new(),
            size: Vec::new(),
            cmd: None,
        }
    }

    /// Decides well-formedness of an assembled request, so an unverified
    /// caller can check before handing it to the engine.
    pub fn validate(&self) -> (r: bool)
        ensures
            r == self.wf(),
    {
        let creds_ok = self.aws_access_key.is_some() == self.aws_secret_key.is_some();
        let cmd_ok = match &self.cmd {
            Some(Cmd::Tags { tags }) => tags.len() >= 1,
            _ => true,
        };
        creds_ok && cmd_ok
    }
}

} // verus!
