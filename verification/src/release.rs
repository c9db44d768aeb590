//! Keeping the program and a local server up to date: release versions,
//! release archives, and where the server binary is downloaded from.
use vstd::prelude::*;

use crate::text::{str_eq, texts, trim, trimmed};

verus! {

/// A version tag without its leading `v`.
pub open spec fn bare_version(tag: Seq<char>) -> Seq<char> {
    if tag.len() > 0 && tag[0] == 'v' {
        tag.drop_first()
    } else {
        tag
    }
}

/// A version tag without its leading `v`.
pub fn parse_version(v: &str) -> (r: String)
    ensures
        r@ == bare_version(v@),
{
    let n = v.unicode_len();
    if n > 0 && v.get_char(0) == 'v' {
        let r = crate::text::substring(v, 1, n);
        assert(r@ =~= v@.drop_first());
        r
    } else {
        String::from_str(v)
    }
}

/// The newer release, if `tag` is not the version running (`current`).
pub fn newer_release(tag: &str, current: &str) -> (r: Option<String>)
    ensures
        r is Some <==> bare_version(tag@) != current@,
        r matches Some(t) ==> t@ == tag@,
{
    let latest = parse_version(tag);
    if !str_eq(latest.as_str(), current) {
        Some(String::from_str(tag))
    } else {
        None
    }
}

/// Whether to install release `tag`: when it is not the version running, or
/// when asked to anyway.
pub fn should_install(tag: &str, current: &str, force: bool) -> (r: bool)
    ensures
        r == (bare_version(tag@) != current@ || force),
{
    let latest = parse_version(tag);
    !str_eq(latest.as_str(), current) || force
}

/// The name of the release archive for a target.
pub open spec fn archive_text(tag: Seq<char>, target: Seq<char>) -> Seq<char> {
    "msc-"@ + tag + "-"@ + target + ".tar.gz"@
}

/// The name of the release archive for a target.
pub fn archive_name(tag: &str, target: &str) -> (r: String)
    ensures
        r@ == archive_text(tag@, target@),
{
    let mut r = String::from_str("msc-");
    r.append(tag);
    r.append("-");
    r.append(target);
    r.append(".tar.gz");
    r
}

/// The first asset with this name.
pub fn find_asset(names: &Vec<String>, name: &str) -> (r: Option<usize>)
    ensures
        match r {
            Some(i) => i < names@.len() && names@[i as int]@ == name@ && forall|j: int|
                0 <= j < i ==> #[trigger] names@[j]@ != name@,
            None => forall|j: int| 0 <= j < names@.len() ==> #[trigger] names@[j]@ != name@,
        },
{
    let mut i: usize = 0;
    while i < names.len()
        invariant
            i <= names@.len(),
            forall|j: int| 0 <= j < i ==> #[trigger] names@[j]@ != name@,
        decreases names@.len() - i,
    {
        if str_eq(names[i].as_str(), name) {
            return Some(i);
        }
        i = i + 1;
    }
    None
}

/// Whether an archive entry is the program itself.
pub fn is_program_entry(file_name: Option<&str>) -> (r: bool)
    ensures
        r == (file_name matches Some(n) && n@ == "msc"@),
{
    match file_name {
        Some(n) => str_eq(n, "msc"),
        None => false,
    }
}

/// Why no server binary can be downloaded for a machine.
pub open spec fn platform_error(os: Seq<char>, arch: Seq<char>) -> Option<Seq<char>> {
    if os != "macos"@ && os != "linux"@ {
        Some("Unsupported platform for binary download"@)
    } else if arch != "x86_64"@ && arch != "aarch64"@ {
        Some("Unsupported architecture for binary download"@)
    } else {
        None
    }
}

/// Where the latest server binary for a machine is downloaded from.
pub open spec fn binary_url_text(os: Seq<char>, arch: Seq<char>) -> Seq<char> {
    "https://github.com/meilisearch/meilisearch/releases/latest/download/meilisearch-"@ + os + "-"@
        + if arch == "x86_64"@ {
        "amd64"@
    } else {
        "arm64"@
    }
}

/// Where the latest server binary is downloaded from, for a machine with
/// this operating system and architecture (as Rust names them), or why
/// there is none.
pub fn binary_download_url(os: &str, arch: &str) -> (r: Result<String, String>)
    ensures
        match platform_error(os@, arch@) {
            Some(e) => (r matches Err(m) && m@ == e),
            None => (r matches Ok(u) && u@ == binary_url_text(os@, arch@)),
        },
{
    if !str_eq(os, "macos") && !str_eq(os, "linux") {
        return Err(String::from_str("Unsupported platform for binary download"));
    }
    let a = if str_eq(arch, "x86_64") {
        "amd64"
    } else if str_eq(arch, "aarch64") {
        "arm64"
    } else {
        return Err(String::from_str("Unsupported architecture for binary download"));
    };
    let mut r = String::from_str(
        "https://github.com/meilisearch/meilisearch/releases/latest/download/meilisearch-",
    );
    r.append(os);
    r.append("-");
    r.append(a);
    Ok(r)
}

/// Whether `docker inspect` printed that the container runs.
pub fn reports_running(output: &str) -> (r: bool)
    ensures
        r == (trimmed(output@) == "true"@),
{
    let t = trim(output);
    str_eq(t.as_str(), "true")
}

/// The target triple release archives are named after, for a machine with
/// this operating system and architecture (as Rust names them); none for an
/// operating system no release is built for.
pub open spec fn target_text(os: Seq<char>, arch: Seq<char>) -> Option<Seq<char>> {
    if os == "linux"@ {
        Some(arch + "-unknown-linux-gnu"@)
    } else if os == "macos"@ {
        Some(arch + "-apple-darwin"@)
    } else if os == "windows"@ {
        Some(arch + "-pc-windows-msvc"@)
    } else {
        None
    }
}

/// The target triple release archives are named after, as `target_text` says.
pub fn current_target(os: &str, arch: &str) -> (r: Option<String>)
    ensures
        match target_text(os@, arch@) {
            Some(t) => r matches Some(x) && x@ == t,
            None => r is None,
        },
{
    let suffix = if str_eq(os, "linux") {
        "-unknown-linux-gnu"
    } else if str_eq(os, "macos") {
        "-apple-darwin"
    } else if str_eq(os, "windows") {
        "-pc-windows-msvc"
    } else {
        return None;
    };
    let mut t = String::from_str(arch);
    t.append(suffix);
    Some(t)
}

} // verus!
