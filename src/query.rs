use vstd::prelude::*;

use crate::download::API_VERSION;
use crate::structs::{arch_of, Arch, Args, VersionDiff};

verus! {

/// Where the release feed is listed.
pub const AVAILABLE_VERSIONS_URL: &'static str = "https://updater.factorio.com/get-available-versions";

/// Where the link of a patch is looked up.
pub const DOWNLOAD_LINK_URL: &'static str = "https://updater.factorio.com/get-download-link";

/// Query parameters as pairs of plain strings.
pub open spec fn pairs_view(pairs: Seq<(String, String)>) -> Seq<(Seq<char>, Seq<char>)> {
    pairs.map_values(|p: (String, String)| (p.0@, p.1@))
}

/// The parameters that every query to the updater carries: the user's
/// credentials and the interface version.
pub open spec fn base_query(args: Args) -> Seq<(Seq<char>, Seq<char>)> {
    seq![("username"@, args.username@), ("token"@, args.token@), ("version"@, API_VERSION@)]
}

fn param(name: &str, value: &str) -> (r: (String, String))
    ensures
        r.0@ == name@,
        r.1@ == value@,
{
    (String::from_str(name), String::from_str(value))
}

/// The parameters that every query to the updater carries.
pub fn get_base_query_params(args: &Args) -> (r: Vec<(String, String)>)
    ensures
        pairs_view(r@) == base_query(*args),
{
    let mut params: Vec<(String, String)> = Vec::new();
    params.push(param("username", args.username.as_str()));
    params.push(param("token", args.token.as_str()));
    params.push(param("version", API_VERSION));
    assert(pairs_view(params@) =~= base_query(*args));
    params
}

/// The parameters of the lookup of a patch's download link: the base
/// parameters, then the channel's key and the two versions.
pub fn patch_link_query(args: &Args, diff: &VersionDiff) -> (r: Vec<(String, String)>)
    ensures
        pairs_view(r@) == base_query(*args) + seq![
            ("package"@, arch_of(args.version, args.platform).spec_key()@),
            ("from"@, diff.from@),
            ("to"@, diff.to@),
        ],
{
    let mut params = get_base_query_params(args);
    let ghost base = params@;
    let arch = Arch::from((args.version, args.platform));
    params.push(param("package", arch.key()));
    params.push(param("from", diff.from.as_str()));
    params.push(param("to", diff.to.as_str()));
    assert(pairs_view(params@) =~= pairs_view(base) + seq![
        ("package"@, arch_of(args.version, args.platform).spec_key()@),
        ("from"@, diff.from@),
        ("to"@, diff.to@),
    ]);
    params
}

} // verus!
