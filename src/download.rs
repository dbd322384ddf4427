use vstd::prelude::*;

use crate::structs::{arch_of, Arch, Args, Version, VersionDiff};

verus! {

/// The version of the updater's web interface that the queries ask for.
pub const API_VERSION: &'static str = "2";

/// Where full releases are downloaded from.
pub const DOWNLOAD_BASE_URL: &'static str = "https://factorio.com/get-download";

/// The path, below a version, of a channel's full release.
pub open spec fn download_path(arch: Arch) -> &'static str {
    match arch {
        Arch::CoreLinux64 => "alpha/linux64",
        Arch::CoreLinuxHeadless64 => "headless/linux64",
        Arch::CoreExpansionLinux64 => "expansion/linux64",
        Arch::CoreMac => "alpha/osx",
        Arch::CoreExpansionMac => "expansion/osx",
        Arch::CoreWin64 => "alpha/win64-manual",
        Arch::CoreExpansionWin64 => "expansion/win64-manual",
        Arch::Other => "",
    }
}

fn download_path_of(arch: &Arch) -> (r: &'static str)
    ensures
        r@ == download_path(*arch)@,
{
    match arch {
        Arch::CoreLinux64 => "alpha/linux64",
        Arch::CoreLinuxHeadless64 => "headless/linux64",
        Arch::CoreExpansionLinux64 => "expansion/linux64",
        Arch::CoreMac => "alpha/osx",
        Arch::CoreExpansionMac => "expansion/osx",
        Arch::CoreWin64 => "alpha/win64-manual",
        Arch::CoreExpansionWin64 => "expansion/win64-manual",
        Arch::Other => "",
    }
}

/// The link to a channel's full release at `version`.
pub fn get_download_links(arch: &Arch, version: &str) -> (r: String)
    requires
        *arch != Arch::Other,
    ensures
        r@ == DOWNLOAD_BASE_URL@ + "/"@ + version@ + "/"@ + download_path(*arch)@,
{
    let mut link = String::from_str(DOWNLOAD_BASE_URL);
    link.append("/");
    link.append(version);
    link.append("/");
    link.append(download_path_of(arch));
    link
}

/// One artifact to fetch: a full release or a single patch.
#[derive(Debug, Clone, PartialEq, Eq)]
pub enum UpdateInfo {
    FullGame { url: String, version: Version, number: String },
    Patch { url: String, version: Version, from: String, to: String },
}

impl UpdateInfo {
    pub open spec fn spec_url(self) -> Seq<char> {
        match self {
            UpdateInfo::FullGame { url, .. } => url@,
            UpdateInfo::Patch { url, .. } => url@,
        }
    }

    /// The line that names the download while it runs.
    pub open spec fn spec_label(self) -> Seq<char> {
        match self {
            UpdateInfo::FullGame { version, number, .. } => "Downloading Factorio "@
                + version.spec_name()@ + " v"@ + number@ + "..."@,
            UpdateInfo::Patch { version, from, to, .. } => "Downloading Factorio "@
                + version.spec_name()@ + " patch v"@ + from@ + " to v"@ + to@ + "..."@,
        }
    }

    /// The name of the file that the download is written to.
    pub open spec fn spec_file_name(self) -> Seq<char> {
        match self {
            UpdateInfo::FullGame { version, number, .. } => "factorio_"@ + version.spec_name()@
                + "_v"@ + number@ + ".zip"@,
            UpdateInfo::Patch { version, from, to, .. } => "factorio_"@ + version.spec_name()@
                + "_patch_v"@ + from@ + "_to_v"@ + to@ + ".zip"@,
        }
    }

    pub fn url(&self) -> (r: &str)
        ensures
            r@ == self.spec_url(),
    {
        match self {
            UpdateInfo::FullGame { url, .. } => url.as_str(),
            UpdateInfo::Patch { url, .. } => url.as_str(),
        }
    }

    pub fn label(&self) -> (r: String)
        ensures
            r@ == self.spec_label(),
    {
        match self {
            UpdateInfo::FullGame { version, number, .. } => {
                let mut s = String::from_str("Downloading Factorio ");
                s.append(version.name());
                s.append(" v");
                s.append(number.as_str());
                s.append("...");
                s
            },
            UpdateInfo::Patch { version, from, to, .. } => {
                let mut s = String::from_str("Downloading Factorio ");
                s.append(version.name());
                s.append(" patch v");
                s.append(from.as_str());
                s.append(" to v");
                s.append(to.as_str());
                s.append("...");
                s
            },
        }
    }

    pub fn file_name(&self) -> (r: String)
        ensures
            r@ == self.spec_file_name(),
    {
        match self {
            UpdateInfo::FullGame { version, number, .. } => {
                let mut s = String::from_str("factorio_");
                s.append(version.name());
                s.append("_v");
                s.append(number.as_str());
                s.append(".zip");
                s
            },
            UpdateInfo::Patch { version, from, to, .. } => {
                let mut s = String::from_str("factorio_");
                s.append(version.name());
                s.append("_patch_v");
                s.append(from.as_str());
                s.append("_to_v");
                s.append(to.as_str());
                s.append(".zip");
                s
            },
        }
    }
}

/// The full release at `number` for the channel of `args`.
pub fn full_game_update(args: &Args, number: &str) -> (r: UpdateInfo)
    ensures
        (r matches UpdateInfo::FullGame { url, version, number: n } && url@ == DOWNLOAD_BASE_URL@
            + "/"@ + number@ + "/"@ + download_path(arch_of(args.version, args.platform))@
            && version == args.version && n@ == number@),
{
    let arch = Arch::from((args.version, args.platform));
    let url = get_download_links(&arch, number);
    UpdateInfo::FullGame { url, version: args.version, number: String::from_str(number) }
}

/// The patch downloads of a chain, each at the link found for it.
pub fn patch_updates(version: Version, diffs: &Vec<VersionDiff>, links: Vec<String>) -> (r: Vec<
    UpdateInfo,
>)
    requires
        diffs@.len() == links@.len(),
    ensures
        r@.len() == diffs@.len(),
        forall|i: int|
            0 <= i < r@.len() ==> (#[trigger] r@[i] matches UpdateInfo::Patch { url, version: v, from, to }
                && url@ == links@[i]@ && v == version && from@ == diffs@[i].from@ && to@
                == diffs@[i].to@),
{
    let mut out: Vec<UpdateInfo> = Vec::new();
    let mut links = links;
    let ghost all_links = links@;
    let mut i: usize = 0;
    while i < diffs.len()
        invariant
            0 <= i <= diffs@.len(),
            diffs@.len() == all_links.len(),
            links@ == all_links.subrange(i as int, all_links.len() as int),
            out@.len() == i,
            forall|k: int|
                0 <= k < i ==> (#[trigger] out@[k] matches UpdateInfo::Patch {
                    url,
                    version: v,
                    from,
                    to,
                } && url@ == all_links[k]@ && v == version && from@ == diffs@[k].from@ && to@
                    == diffs@[k].to@),
        decreases diffs.len() - i,
    {
        let url = links.remove(0);
        let d = &diffs[i];
        out.push(UpdateInfo::Patch { url, version, from: d.from.clone(), to: d.to.clone() });
        i = i + 1;
    }
    out
}

/// Why the link of a patch could not be had.
#[derive(Debug, Clone, Copy, PartialEq, Eq, Structural)]
pub enum LookupError {
    /// The request did not get through.
    Request,
    /// The answer was not a list of links.
    Decode,
    /// The answer held this many links instead of exactly one.
    UnexpectedResultCount(usize),
    /// The answer came with this status instead of success.
    Status(u16),
}

/// An HTTP status of success.
pub open spec fn is_success(status: u16) -> bool {
    200 <= status < 300
}

/// A lookup answered with `status` may be read only on success.
pub fn check_lookup_status(status: u16) -> (r: Result<(), LookupError>)
    ensures
        is_success(status) ==> r is Ok,
        !is_success(status) ==> r == Err::<(), LookupError>(LookupError::Status(status)),
{
    if 200 <= status && status < 300 {
        Ok(())
    } else {
        Err(LookupError::Status(status))
    }
}

/// The one link of a lookup's answer; any other number of links breaks the
/// lookup's contract.
pub fn single_download_link(data: Vec<String>) -> (r: Result<String, LookupError>)
    ensures
        data@.len() == 1 ==> (r matches Ok(link) && link@ == data@[0]@),
        data@.len() != 1 ==> r == Err::<String, LookupError>(
            LookupError::UnexpectedResultCount(data@.len() as usize),
        ),
{
    if data.len() != 1 {
        return Err(LookupError::UnexpectedResultCount(data.len()));
    }
    let mut data = data;
    Ok(data.remove(0))
}

/// Why a download failed.
#[derive(Debug, Clone, Copy, PartialEq, Eq, Structural)]
pub enum DownloadError {
    /// The request did not get through.
    Request,
    /// The destination file exists already.
    AlreadyExists,
    /// The stream broke off.
    Transfer,
    /// The file could not be written or flushed.
    Write,
    /// The answer came with this status instead of success.
    Status(u16),
}

/// A download answered with `status` may be streamed only on success.
pub fn check_download_status(status: u16) -> (r: Result<(), DownloadError>)
    ensures
        is_success(status) ==> r is Ok,
        !is_success(status) ==> r == Err::<(), DownloadError>(DownloadError::Status(status)),
{
    if 200 <= status && status < 300 {
        Ok(())
    } else {
        Err(DownloadError::Status(status))
    }
}

/// The values of a list of results, or the first error among them.
pub fn first_failure<T, E>(results: Vec<Result<T, E>>) -> (r: Result<Vec<T>, E>)
    ensures
        match r {
            Ok(values) => values@.len() == results@.len() && forall|i: int|
                0 <= i < results@.len() ==> results@[i] == Ok::<T, E>(#[trigger] values@[i]),
            Err(e) => exists|i: int|
                #![trigger results@[i]]
                0 <= i < results@.len() && results@[i] == Err::<T, E>(e) && forall|j: int|
                    0 <= j < i ==> (#[trigger] results@[j]) is Ok,
        },
{
    let ghost all = results@;
    let mut rest = results;
    let mut values: Vec<T> = Vec::new();
    while rest.len() > 0
        invariant
            all == results@,
            values@.len() + rest@.len() == all.len(),
            rest@ == all.subrange(values@.len() as int, all.len() as int),
            forall|i: int| 0 <= i < values@.len() ==> all[i] == Ok::<T, E>(#[trigger] values@[i]),
        decreases rest@.len(),
    {
        let k = values.len();
        match rest.remove(0) {
            Ok(v) => {
                values.push(v);
            },
            Err(e) => {
                assert(all[k as int] == Err::<T, E>(e));
                assert forall|j: int| 0 <= j < k implies (#[trigger] all[j]) is Ok by {
                    assert(all[j] == Ok::<T, E>(values@[j]));
                }
                return Err(e);
            },
        }
    }
    Ok(values)
}

} // verus!
