//! The data of the metadata service: one JSON tree under a size cap.

use vstd::prelude::*;
use vstd::string::*;
use vstd::utf8::*;

use crate::mmds::json::{
    self, json_clone, json_empty_object, json_pointer, json_read,
    json_to_string, merge_patch,
};
use crate::text::{self, push_decimal};

verus! {

/// The version of the service that the guest speaks.
#[derive(Clone, Copy, Debug, PartialEq, Eq, Structural)]
pub enum MmdsVersion {
    /// No token needed.
    V1,
    /// Every read needs a token.
    V2,
}

impl Default for MmdsVersion {
    fn default() -> (v: Self)
        ensures
            v == MmdsVersion::V1,
    {
        MmdsVersion::V1
    }
}

/// Why the data was not changed or read.
#[derive(Debug)]
#[non_exhaustive]
pub enum MmdsError {
    /// More bytes than the cap.
    SizeLimitExceeded { cap: usize, got: usize },
    /// Nothing at that path.
    PathNotFound(String),
    /// Not a JSON pointer.
    InvalidPointer(String),
    /// Not JSON.
    InvalidJson(String),
}

/// The text of a data error.
pub open spec fn mmds_error_text(e: MmdsError) -> Seq<char> {
    match e {
        MmdsError::SizeLimitExceeded { cap, got } => "MMDS body exceeds size cap of "@
            + text::decimal(cap as nat) + " bytes (got "@ + text::decimal(got as nat) + ")"@,
        MmdsError::PathNotFound(p) => "MMDS path not found: "@ + p@,
        MmdsError::InvalidPointer(p) => "invalid JSON pointer: "@ + p@,
        MmdsError::InvalidJson(why) => "invalid JSON body: "@ + why@,
    }
}

impl MmdsError {
    /// The text of the error.
    pub fn message(&self) -> (s: String)
        ensures
            s@ == mmds_error_text(*self),
    {
        let mut s = String::new();
        match self {
            MmdsError::SizeLimitExceeded { cap, got } => {
                s.append("MMDS body exceeds size cap of ");
                push_decimal(&mut s, *cap as u64);
                s.append(" bytes (got ");
                push_decimal(&mut s, *got as u64);
                s.append(")");
            },
            MmdsError::PathNotFound(p) => {
                s.append("MMDS path not found: ");
                s.append(p.as_str());
            },
            MmdsError::InvalidPointer(p) => {
                s.append("invalid JSON pointer: ");
                s.append(p.as_str());
            },
            MmdsError::InvalidJson(why) => {
                s.append("invalid JSON body: ");
                s.append(why.as_str());
            },
        }
        assert(s@ =~= mmds_error_text(*self));
        s
    }
}

/// The state of the data.
pub struct MmdsView {
    pub version: MmdsVersion,
    pub tree: json::JsonTree,
    pub size_cap: usize,
}

/// The data of the metadata service.
#[derive(Debug)]
pub struct Mmds {
    version: MmdsVersion,
    data: serde_json::Value,
    size_cap: usize,
}

impl View for Mmds {
    type V = MmdsView;

    closed spec fn view(&self) -> MmdsView {
        MmdsView {
            version: self.version,
            tree: json::json_tree(self.data),
            size_cap: self.size_cap,
        }
    }
}

/// How many bytes a value takes up when it is written out.
pub open spec fn written_len(t: json::JsonTree) -> nat {
    encode_utf8(json::json_text(t)).len()
}

impl MmdsView {
    /// Whether the tree is no longer than the cap when it is written out.
    pub open spec fn fits(self) -> bool {
        written_len(self.tree) <= self.size_cap
    }
}

/// What a pointer leads to in a tree; an empty pointer and a lone slash lead to the
/// root.
pub open spec fn tree_at(t: json::JsonTree, pointer: Seq<char>) -> Option<json::JsonTree> {
    if pointer.len() == 0 || pointer == "/"@ {
        Some(t)
    } else {
        json::json_at(t, pointer)
    }
}

impl Mmds {
    /// An empty object under a cap, in version one.
    pub fn new(size_cap: usize) -> (m: Self)
        ensures
            m@ == (MmdsView {
                version: MmdsVersion::V1,
                tree: json::JsonTree::Object(Map::empty()),
                size_cap,
            }),
    {
        Mmds { version: MmdsVersion::V1, data: json_empty_object(), size_cap }
    }

    /// The version that the guest speaks.
    pub fn version(&self) -> (v: MmdsVersion)
        ensures
            v == self@.version,
    {
        self.version
    }

    /// Changes the version that the guest speaks.
    pub fn set_version(&mut self, version: MmdsVersion)
        ensures
            final(self)@ == (MmdsView { version, ..old(self)@ }),
    {
        self.version = version;
    }

    /// The cap, in bytes.
    pub fn size_cap(&self) -> (n: usize)
        ensures
            n == self@.size_cap,
    {
        self.size_cap
    }

    /// Replaces the tree with a value, unless that is over the cap when it is written out.
    pub fn replace(&mut self, value: serde_json::Value) -> (r: Result<(), MmdsError>)
        ensures
            ({
                let t = json::json_tree(value);
                match r {
                    Ok(()) => {
                        &&& written_len(t) <= old(self)@.size_cap
                        &&& final(self)@ == (MmdsView { tree: t, ..old(self)@ })
                        &&& final(self)@.fits()
                    },
                    Err(MmdsError::SizeLimitExceeded { cap, got }) => {
                        &&& written_len(t) > old(self)@.size_cap
                        &&& cap == old(self)@.size_cap
                        &&& got == written_len(t)
                        &&& final(self)@ == old(self)@
                    },
                    Err(_) => false,
                }
            }),
    {
        let serialized: String = json_to_string(&value);
        let got: usize = serialized.as_str().as_bytes().len();
        if got > self.size_cap {
            return Err(MmdsError::SizeLimitExceeded { cap: self.size_cap, got });
        }
        self.data = value;
        Ok(())
    }

    /// Replaces the tree with what `body` holds. A body over the cap is refused unread, and
    /// so is, once it was read, a value that is over the cap when it is written out.
    pub fn put_json(&mut self, body: &str) -> (r: Result<(), MmdsError>)
        ensures
            ({
                let sent = body.spec_bytes().len();
                let t = json::json_parsed(body@);
                match r {
                    Ok(()) => {
                        &&& sent <= old(self)@.size_cap
                        &&& t is Some
                        &&& written_len(t->0) <= old(self)@.size_cap
                        &&& final(self)@ == (MmdsView { tree: t->0, ..old(self)@ })
                        &&& final(self)@.fits()
                    },
                    Err(MmdsError::SizeLimitExceeded { cap, got }) => {
                        &&& cap == old(self)@.size_cap
                        &&& got > cap
                        &&& if sent > cap {
                            got == sent
                        } else {
                            t is Some && got == written_len(t->0)
                        }
                        &&& final(self)@ == old(self)@
                    },
                    Err(MmdsError::InvalidJson(why)) => {
                        &&& sent <= old(self)@.size_cap
                        &&& t is None
                        &&& why@ == json::json_fault(body@)
                        &&& final(self)@ == old(self)@
                    },
                    Err(_) => false,
                }
            }),
    {
        let sent: usize = body.as_bytes().len();
        if sent > self.size_cap {
            return Err(MmdsError::SizeLimitExceeded { cap: self.size_cap, got: sent });
        }
        match json_read(body) {
            Ok(value) => self.replace(value),
            Err(why) => Err(MmdsError::InvalidJson(why)),
        }
    }

    /// Merges a patch into the tree, unless the outcome would be over the cap.
    pub fn apply_patch(&mut self, patch: &serde_json::Value) -> (r: Result<(), MmdsError>)
        ensures
            ({
                let t = json::merged(old(self)@.tree, json::json_tree(*patch));
                match r {
                    Ok(()) => {
                        &&& written_len(t) <= old(self)@.size_cap
                        &&& final(self)@ == (MmdsView { tree: t, ..old(self)@ })
                        &&& final(self)@.fits()
                    },
                    Err(MmdsError::SizeLimitExceeded { cap, got }) => {
                        &&& written_len(t) > old(self)@.size_cap
                        &&& cap == old(self)@.size_cap
                        &&& got == written_len(t)
                        &&& final(self)@ == old(self)@
                    },
                    Err(_) => false,
                }
            }),
    {
        let merged = merge_patch(Some(json_clone(&self.data)), patch);
        self.replace(merged)
    }

    /// Merges the patch that `body` holds into the tree, unless the outcome would be over
    /// the cap.
    pub fn patch_json(&mut self, body: &str) -> (r: Result<(), MmdsError>)
        ensures
            ({
                let patch = json::json_parsed(body@);
                let t = json::merged(old(self)@.tree, patch->0);
                match r {
                    Ok(()) => {
                        &&& patch is Some
                        &&& written_len(t) <= old(self)@.size_cap
                        &&& final(self)@ == (MmdsView { tree: t, ..old(self)@ })
                        &&& final(self)@.fits()
                    },
                    Err(MmdsError::SizeLimitExceeded { cap, got }) => {
                        &&& patch is Some
                        &&& written_len(t) > old(self)@.size_cap
                        &&& cap == old(self)@.size_cap
                        &&& got == written_len(t)
                        &&& final(self)@ == old(self)@
                    },
                    Err(MmdsError::InvalidJson(why)) => {
                        &&& patch is None
                        &&& why@ == json::json_fault(body@)
                        &&& final(self)@ == old(self)@
                    },
                    Err(_) => false,
                }
            }),
    {
        match json_read(body) {
            Ok(patch) => self.apply_patch(&patch),
            Err(why) => Err(MmdsError::InvalidJson(why)),
        }
    }

    /// The whole tree.
    pub fn get_root(&self) -> (v: serde_json::Value)
        ensures
            json::json_tree(v) == self@.tree,
    {
        json_clone(&self.data)
    }

    /// The part of the tree that a JSON pointer leads to. One by plain names leads through
    /// objects from member to member.
    pub fn get_at_pointer(&self, pointer: &str) -> (r: Result<serde_json::Value, MmdsError>)
        ensures
            pointer@ != "/"@ ==> forall|names: Seq<Seq<char>>|
                (forall|i: int| 0 <= i < names.len() ==> json::plain_name(#[trigger] names[i]))
                    && pointer@ == #[trigger] json::pointer_by(names) ==> json::leads_to(
                    self@.tree,
                    names,
                    match r {
                        Ok(v) => Some(json::json_tree(v)),
                        Err(_) => None,
                    },
                ),
            match r {
                Ok(v) => tree_at(self@.tree, pointer@) == Some(json::json_tree(v)),
                Err(MmdsError::PathNotFound(p)) => tree_at(self@.tree, pointer@) is None && p@
                    == pointer@,
                Err(_) => false,
            },
    {
        let wanted: String = String::from_str(pointer);
        if pointer.is_empty() || wanted == String::from_str("/") {
            return Ok(json_clone(&self.data));
        }
        match json_pointer(&self.data, pointer) {
            Some(v) => Ok(json_clone(v)),
            None => Err(MmdsError::PathNotFound(wanted)),
        }
    }
}

} // verus!
