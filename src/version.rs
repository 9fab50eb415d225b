//! The server's name, version strings and user agents.
//!
//! The build metadata (the semantic version and what the build environment
//! adds to it) is read at build time by the caller and handed in.
use vstd::prelude::*;
use vstd::string::{StrSliceExecFns, StringExecFns};

verus! {

/// The name of the server software.
pub open spec fn branding() -> Seq<char> {
    "continuwuity"@
}

/// The project's website.
pub open spec fn website() -> Seq<char> {
    "https://continuwuity.org"@
}

/// What the build knows of itself.
#[derive(Debug)]
pub struct BuildInfo {
    /// The semantic version of the package.
    pub semantic: String,
    /// An extra version label set by the build environment, if any.
    pub version_extra: Option<String>,
    /// The short hash of the commit built, if known.
    pub git_commit_hash_short: Option<String>,
    /// The web address of the commit built, if known.
    pub git_remote_commit_url: Option<String>,
}

/// The label after the semantic version: the extra label where it is set and
/// not empty, else the short commit hash.
pub open spec fn tag_of(info: BuildInfo) -> Option<String> {
    match info.version_extra {
        Some(e) => if e@.len() > 0 {
            Some(e)
        } else {
            info.git_commit_hash_short
        },
        None => info.git_commit_hash_short,
    }
}

fn copy_opt(s: &Option<String>) -> (r: Option<String>)
    ensures
        r == *s,
{
    match s {
        Some(x) => Some(x.clone()),
        None => None,
    }
}

/// The label after the semantic version, if any.
pub fn version_tag(info: &BuildInfo) -> (r: Option<String>)
    ensures
        r == tag_of(*info),
{
    match &info.version_extra {
        Some(e) => if e.as_str().unicode_len() > 0 {
            Some(e.clone())
        } else {
            copy_opt(&info.git_commit_hash_short)
        },
        None => copy_opt(&info.git_commit_hash_short),
    }
}

/// The name of the server software.
pub fn name() -> (r: &'static str)
    ensures
        r@ == branding(),
{
    "continuwuity"
}

/// The version shown to people: `1.2.3 (tag)`, or the semantic version alone.
pub open spec fn version_spec(info: BuildInfo) -> Seq<char> {
    match tag_of(info) {
        Some(t) => info.semantic@ + " ("@ + t@ + ")"@,
        None => info.semantic@,
    }
}

/// The version shown to people.
pub fn version(info: &BuildInfo) -> (r: String)
    ensures
        r@ == version_spec(*info),
{
    let mut r = info.semantic.clone();
    match version_tag(info) {
        Some(t) => {
            r.append(" (");
            r.append(t.as_str());
            r.append(")");
        },
        None => {},
    }
    r
}

/// The version in user agents: `1.2.3+tag`, without the `+` where the tag
/// starts with `+` or `-`.
pub open spec fn version_ua_spec(info: BuildInfo) -> Seq<char> {
    match tag_of(info) {
        Some(t) => if t@.len() > 0 && (t@[0] == '+' || t@[0] == '-') {
            info.semantic@ + t@
        } else {
            info.semantic@ + "+"@ + t@
        },
        None => info.semantic@,
    }
}

/// The version in user agents.
pub fn version_ua(info: &BuildInfo) -> (r: String)
    ensures
        r@ == version_ua_spec(*info),
{
    let mut r = info.semantic.clone();
    match version_tag(info) {
        Some(t) => {
            let s = t.as_str();
            let joined = s.unicode_len() > 0 && (s.get_char(0) == '+' || s.get_char(0) == '-');
            if !joined {
                r.append("+");
            }
            r.append(s);
        },
        None => {},
    }
    r
}

/// The web address of the commit built, else the project's website.
pub fn git_remote_commit_url(info: &BuildInfo) -> (r: String)
    ensures
        r@ == match info.git_remote_commit_url {
            Some(u) => u@,
            None => website(),
        },
{
    match &info.git_remote_commit_url {
        Some(u) => u.clone(),
        None => String::from_str("https://continuwuity.org"),
    }
}

/// The user agent of requests to other servers.
pub open spec fn user_agent_spec(info: BuildInfo) -> Seq<char> {
    branding() + "/"@ + version_ua_spec(info) + " (bot; +"@ + website() + ")"@
}

/// The user agent of requests to other servers.
pub fn user_agent(info: &BuildInfo) -> (r: String)
    ensures
        r@ == user_agent_spec(*info),
{
    let mut r = String::from_str(name());
    r.append("/");
    r.append(version_ua(info).as_str());
    r.append(" (bot; +");
    r.append("https://continuwuity.org");
    r.append(")");
    r
}

/// The user agent of requests that fetch media and link previews.
pub open spec fn user_agent_media_spec(info: BuildInfo) -> Seq<char> {
    branding() + "/"@ + version_ua_spec(info) + " (embedbot; +"@ + website() + ")"@
}

/// The user agent of requests that fetch media and link previews.
pub fn user_agent_media(info: &BuildInfo) -> (r: String)
    ensures
        r@ == user_agent_media_spec(*info),
{
    let mut r = String::from_str(name());
    r.append("/");
    r.append(version_ua(info).as_str());
    r.append(" (embedbot; +");
    r.append("https://continuwuity.org");
    r.append(")");
    r
}

} // verus!
