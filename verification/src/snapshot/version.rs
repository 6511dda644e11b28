//! Version numbers of snapshot files.

use vstd::prelude::*;
use vstd::string::*;

use crate::text::{self, push_decimal};

verus! {

/// A version `major.minor.patch`, with an optional pre-release and build label
/// (empty when absent).
#[derive(Clone, Debug, PartialEq, Eq)]
pub struct Version {
    pub major: u64,
    pub minor: u64,
    pub patch: u64,
    pub pre: String,
    pub build: String,
}

/// The contents of a version.
#[verifier::ext_equal]
pub struct VersionView {
    pub major: u64,
    pub minor: u64,
    pub patch: u64,
    pub pre: Seq<char>,
    pub build: Seq<char>,
}

impl View for Version {
    type V = VersionView;

    open spec fn view(&self) -> VersionView {
        VersionView {
            major: self.major,
            minor: self.minor,
            patch: self.patch,
            pre: self.pre@,
            build: self.build@,
        }
    }
}

/// A version without labels.
pub open spec fn plain_version(major: u64, minor: u64, patch: u64) -> VersionView {
    VersionView { major, minor, patch, pre: Seq::empty(), build: Seq::empty() }
}

/// The text of a version.
pub open spec fn version_text(v: VersionView) -> Seq<char> {
    let numbers = text::decimal(v.major as nat) + "."@ + text::decimal(v.minor as nat) + "."@
        + text::decimal(v.patch as nat);
    let pre = if v.pre.len() == 0 {
        Seq::empty()
    } else {
        "-"@ + v.pre
    };
    let build = if v.build.len() == 0 {
        Seq::empty()
    } else {
        "+"@ + v.build
    };
    numbers + pre + build
}

impl Version {
    /// A version without labels.
    pub fn new(major: u64, minor: u64, patch: u64) -> (v: Self)
        ensures
            v@ == plain_version(major, minor, patch),
    {
        Version { major, minor, patch, pre: String::new(), build: String::new() }
    }

    /// An equal version.
    pub fn duplicate(&self) -> (v: Self)
        ensures
            v@ == self@,
    {
        Version {
            major: self.major,
            minor: self.minor,
            patch: self.patch,
            pre: self.pre.clone(),
            build: self.build.clone(),
        }
    }

    /// Whether two versions agree in every part.
    pub fn same(&self, other: &Version) -> (b: bool)
        ensures
            b == (self@ == other@),
    {
        self.major == other.major && self.minor == other.minor && self.patch == other.patch
            && self.pre == other.pre && self.build == other.build
    }

    /// Appends the text of the version.
    pub fn push_text(&self, out: &mut String)
        ensures
            final(out)@ == old(out)@ + version_text(self@),
    {
        push_decimal(out, self.major);
        out.append(".");
        push_decimal(out, self.minor);
        out.append(".");
        push_decimal(out, self.patch);
        if !self.pre.as_str().is_empty() {
            out.append("-");
            out.append(self.pre.as_str());
        }
        if !self.build.as_str().is_empty() {
            out.append("+");
            out.append(self.build.as_str());
        }
        assert(out@ =~= old(out)@ + version_text(self@));
    }
}

/// A version is written as its three numbers between dots; a pre-release label follows
/// behind a minus sign and a build label behind a plus sign, where there are such.
pub proof fn labels_follow_the_numbers(v: VersionView)
    ensures
        ({
            let numbers = version_text(plain_version(v.major, v.minor, v.patch));
            &&& numbers == text::decimal(v.major as nat) + seq!['.'] + text::decimal(v.minor as nat)
                + seq!['.'] + text::decimal(v.patch as nat)
            &&& v.pre.len() == 0 && v.build.len() == 0 ==> version_text(v) == numbers
            &&& v.pre.len() > 0 && v.build.len() == 0 ==> version_text(v) == numbers + (seq!['-']
                + v.pre)
            &&& v.pre.len() == 0 && v.build.len() > 0 ==> version_text(v) == numbers + (seq!['+']
                + v.build)
            &&& v.pre.len() > 0 && v.build.len() > 0 ==> version_text(v) == numbers + (seq!['-']
                + v.pre) + (seq!['+'] + v.build)
        }),
{
    reveal_strlit(".");
    reveal_strlit("-");
    reveal_strlit("+");
    assert("."@ =~= seq!['.']);
    assert("-"@ =~= seq!['-']);
    assert("+"@ =~= seq!['+']);
    let numbers = text::decimal(v.major as nat) + seq!['.'] + text::decimal(v.minor as nat) + seq![
        '.',
    ] + text::decimal(v.patch as nat);
    assert(version_text(plain_version(v.major, v.minor, v.patch)) =~= numbers);
    assert(v.pre.len() == 0 && v.build.len() == 0 ==> version_text(v) =~= numbers);
    assert(v.pre.len() > 0 && v.build.len() == 0 ==> version_text(v) =~= numbers + (seq!['-']
        + v.pre));
    assert(v.pre.len() == 0 && v.build.len() > 0 ==> version_text(v) =~= numbers + (seq!['+']
        + v.build));
}

} // verus!
