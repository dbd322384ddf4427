use vstd::prelude::*;

use crate::structs::{arch_of, Arch, Args, Config, Item, Updates, VersionDiff};
use crate::version::{normalized, semver_of, SemanticVersion};

verus! {

/// How an installation is brought up to date.
#[derive(Debug, Clone, PartialEq, Eq)]
pub enum UpdateType {
    /// Download the full game at this version.
    FullGame(String),
    /// Apply these patches, in this order.
    Patch(Vec<VersionDiff>),
    /// The installation is already at the stable version.
    NoUpdate,
}

/// Why no plan could be made, with the channel or the text at fault.
#[derive(Debug, Clone, PartialEq, Eq)]
pub enum ResolveError {
    /// The feed has no entries for the channel.
    NoDataForChannel(Arch),
    /// The channel's entries name no stable version.
    NoStableVersion(Arch),
    /// The installed version is not a semantic version.
    InvalidInstalledVersion(String),
    /// The stable version is not a semantic version.
    InvalidStableVersion(String),
}

/// A `ResolveError` as plain values.
pub enum Failure {
    NoDataForChannel(Arch),
    NoStableVersion(Arch),
    InvalidInstalledVersion(Seq<char>),
    InvalidStableVersion(Seq<char>),
}

impl ResolveError {
    pub open spec fn failure(self) -> Failure {
        match self {
            ResolveError::NoDataForChannel(a) => Failure::NoDataForChannel(a),
            ResolveError::NoStableVersion(a) => Failure::NoStableVersion(a),
            ResolveError::InvalidInstalledVersion(v) => Failure::InvalidInstalledVersion(v@),
            ResolveError::InvalidStableVersion(v) => Failure::InvalidStableVersion(v@),
        }
    }
}

/// A plan as plain values: patches are (from, to) pairs.
pub enum Plan {
    NoUpdate,
    FullDownload(Seq<char>),
    PatchChain(Seq<(Seq<char>, Seq<char>)>),
}

impl UpdateType {
    pub open spec fn plan(self) -> Plan {
        match self {
            UpdateType::FullGame(v) => Plan::FullDownload(v@),
            UpdateType::Patch(diffs) => Plan::PatchChain(diffs@.map_values(|d: VersionDiff| d.pair())),
            UpdateType::NoUpdate => Plan::NoUpdate,
        }
    }
}

/// `item` leads on from version `v` on the way to `stable`: a patch from
/// `v`, or, when `v` is the stable version, a stable marker that names it.
pub open spec fn item_matches(item: Item, v: Seq<char>, stable: Seq<char>) -> bool {
    match item {
        Item::VersionDiff(d) => d.from@ == v,
        Item::Stable(s) => s.stable@ == v && v == stable,
    }
}

/// `i` is the first entry that leads on from `v`.
pub open spec fn is_first_match(items: Seq<Item>, stable: Seq<char>, v: Seq<char>, i: int) -> bool {
    &&& 0 <= i < items.len()
    &&& item_matches(items[i], v, stable)
    &&& forall|j: int| 0 <= j < i ==> !item_matches(#[trigger] items[j], v, stable)
}

/// The first entry that leads on from `v`, if any.
pub open spec fn first_match(items: Seq<Item>, stable: Seq<char>, v: Seq<char>) -> Option<int> {
    if exists|i: int| is_first_match(items, stable, v, i) {
        Some(choose|i: int| is_first_match(items, stable, v, i))
    } else {
        None
    }
}

/// `i` is the first stable marker.
pub open spec fn is_first_stable(items: Seq<Item>, i: int) -> bool {
    &&& 0 <= i < items.len()
    &&& items[i] is Stable
    &&& forall|j: int| 0 <= j < i ==> !(#[trigger] items[j] is Stable)
}

/// The version named by the first stable marker, if any.
pub open spec fn first_stable(items: Seq<Item>) -> Option<Seq<char>> {
    if exists|i: int| is_first_stable(items, i) {
        let i = choose|i: int| is_first_stable(items, i);
        Some(items[i]->Stable_0.stable@)
    } else {
        None
    }
}

/// `chain` put in front of the patches of `rest`, if there are any.
pub open spec fn prepend(
    chain: Seq<(Seq<char>, Seq<char>)>,
    rest: Option<Seq<(Seq<char>, Seq<char>)>>,
) -> Option<Seq<(Seq<char>, Seq<char>)>> {
    match rest {
        Some(r) => Some(chain + r),
        None => None,
    }
}

/// The patches that lead from `v` to a stable marker, following at each
/// version the first entry that leads on from it. `None` where the walk
/// finds no entry, comes back to a version in `visited`, or would take
/// more than `fuel` patches.
pub open spec fn walk(
    items: Seq<Item>,
    stable: Seq<char>,
    v: Seq<char>,
    visited: Seq<Seq<char>>,
    fuel: nat,
) -> Option<Seq<(Seq<char>, Seq<char>)>>
    decreases fuel,
{
    if visited.contains(v) {
        None
    } else {
        match first_match(items, stable, v) {
            None => None,
            Some(i) => match items[i] {
                Item::Stable(_) => Some(Seq::empty()),
                Item::VersionDiff(d) => if fuel == 0 {
                    None
                } else {
                    prepend(seq![d.pair()], walk(items, stable, d.to@, visited.push(v), (fuel - 1) as nat))
                },
            },
        }
    }
}

/// The patch chain from `installed`: no chain can use more patches than
/// the channel lists.
pub open spec fn patch_chain(items: Seq<Item>, stable: Seq<char>, installed: Seq<char>) -> Option<
    Seq<(Seq<char>, Seq<char>)>,
> {
    walk(items, stable, installed, Seq::empty(), items.len())
}

/// Whether two version texts are the same semantic version once their
/// numeric cores are written in full.
pub open spec fn same_version(a: Seq<char>, b: Seq<char>) -> bool {
    semver_of(normalized(a)) == semver_of(normalized(b))
}

/// The plan for an installation at `installed` (`None`: nothing installed)
/// on channel `arch`, given its entries (`None`: the feed lacks the channel).
pub open spec fn plan_for(installed: Option<Seq<char>>, items: Option<Seq<Item>>, arch: Arch) -> Result<
    Plan,
    Failure,
> {
    match items {
        None => Err(Failure::NoDataForChannel(arch)),
        Some(items) => match first_stable(items) {
            None => Err(Failure::NoStableVersion(arch)),
            Some(stable) => match installed {
                None => Ok(Plan::FullDownload(stable)),
                Some(current) => if semver_of(normalized(current)) is None {
                    Err(Failure::InvalidInstalledVersion(current))
                } else if semver_of(normalized(stable)) is None {
                    Err(Failure::InvalidStableVersion(stable))
                } else if same_version(current, stable) {
                    Ok(Plan::NoUpdate)
                } else {
                    match patch_chain(items, stable, current) {
                        Some(chain) => Ok(Plan::PatchChain(chain)),
                        None => Ok(Plan::FullDownload(stable)),
                    }
                },
            },
        },
    }
}

proof fn lemma_first_match_unique(items: Seq<Item>, stable: Seq<char>, v: Seq<char>, k: int)
    requires
        is_first_match(items, stable, v, k),
    ensures
        first_match(items, stable, v) == Some(k),
{
    let c = choose|i: int| is_first_match(items, stable, v, i);
    assert(is_first_match(items, stable, v, c));
    if c < k {
        assert(item_matches(items[c], v, stable));
    } else if k < c {
        assert(item_matches(items[k], v, stable));
    }
}

proof fn lemma_first_stable_unique(items: Seq<Item>, k: int)
    requires
        is_first_stable(items, k),
    ensures
        first_stable(items) == Some(items[k]->Stable_0.stable@),
{
    let c = choose|i: int| is_first_stable(items, i);
    assert(is_first_stable(items, c));
    if c < k {
        assert(items[c] is Stable);
    } else if k < c {
        assert(items[k] is Stable);
    }
}

/// Index of the first entry that leads on from `v`.
fn find_match(items: &Vec<Item>, stable: &String, v: &String) -> (r: Option<usize>)
    ensures
        match r {
            Some(i) => first_match(items@, stable@, v@) == Some(i as int),
            None => first_match(items@, stable@, v@) is None,
        },
{
    let mut i: usize = 0;
    while i < items.len()
        invariant
            0 <= i <= items@.len(),
            forall|j: int| 0 <= j < i ==> !item_matches(#[trigger] items@[j], v@, stable@),
        decreases items.len() - i,
    {
        let hit = match &items[i] {
            Item::VersionDiff(d) => d.from == *v,
            Item::Stable(s) => s.stable == *v && *v == *stable,
        };
        if hit {
            proof {
                lemma_first_match_unique(items@, stable@, v@, i as int);
            }
            return Some(i);
        }
        i = i + 1;
    }
    None
}

/// The version named by the first stable marker.
fn find_stable(items: &Vec<Item>) -> (r: Option<String>)
    ensures
        match r {
            Some(s) => first_stable(items@) == Some(s@),
            None => first_stable(items@) is None,
        },
{
    let mut i: usize = 0;
    while i < items.len()
        invariant
            0 <= i <= items@.len(),
            forall|j: int| 0 <= j < i ==> !(#[trigger] items@[j] is Stable),
        decreases items.len() - i,
    {
        if let Item::Stable(s) = &items[i] {
            proof {
                lemma_first_stable_unique(items@, i as int);
            }
            return Some(s.stable.clone());
        }
        i = i + 1;
    }
    None
}

/// Whether `v` is among `visited`.
fn contains_version(visited: &Vec<String>, v: &String) -> (r: bool)
    ensures
        r == visited@.map_values(|s: String| s@).contains(v@),
{
    let mut i: usize = 0;
    while i < visited.len()
        invariant
            0 <= i <= visited@.len(),
            forall|j: int| 0 <= j < i ==> visited@[j]@ != v@,
        decreases visited.len() - i,
    {
        if visited[i] == *v {
            assert(visited@.map_values(|s: String| s@)[i as int] == v@);
            return true;
        }
        i = i + 1;
    }
    proof {
        let views = visited@.map_values(|s: String| s@);
        if views.contains(v@) {
            let k = choose|k: int| 0 <= k < views.len() && views[k] == v@;
            assert(visited@[k]@ == v@);
        }
    }
    false
}

/// The patch chain from `installed` to the stable version, or `None` where
/// the walk meets a gap or a cycle.
fn walk_patches(items: &Vec<Item>, stable: &String, installed: &String) -> (r: Option<Vec<VersionDiff>>)
    ensures
        match r {
            Some(chain) => patch_chain(items@, stable@, installed@) == Some(
                chain@.map_values(|d: VersionDiff| d.pair()),
            ),
            None => patch_chain(items@, stable@, installed@) is None,
        },
{
    let mut chain: Vec<VersionDiff> = Vec::new();
    let mut visited: Vec<String> = Vec::new();
    let mut current: String = installed.clone();
    let mut fuel: usize = items.len();
    assert(chain@.map_values(|d: VersionDiff| d.pair()) =~= Seq::empty());
    assert(visited@.map_values(|s: String| s@) =~= Seq::empty());
    loop
        invariant
            fuel <= items@.len(),
            patch_chain(items@, stable@, installed@) == prepend(
                chain@.map_values(|d: VersionDiff| d.pair()),
                walk(items@, stable@, current@, visited@.map_values(|s: String| s@), fuel as nat),
            ),
        decreases fuel,
    {
        let ghost chain_view = chain@.map_values(|d: VersionDiff| d.pair());
        let ghost visited_view = visited@.map_values(|s: String| s@);
        if contains_version(&visited, &current) {
            return None;
        }
        let i = match find_match(items, stable, &current) {
            Some(i) => i,
            None => {
                return None;
            },
        };
        match &items[i] {
            Item::Stable(_) => {
                assert(chain_view + Seq::<(Seq<char>, Seq<char>)>::empty() =~= chain_view);
                return Some(chain);
            },
            Item::VersionDiff(d) => {
                if fuel == 0 {
                    return None;
                }
                let next = VersionDiff { from: d.from.clone(), to: d.to.clone() };
                let ghost rest = walk(items@, stable@, d.to@, visited_view.push(current@), (fuel - 1) as nat);
                chain.push(next);
                visited.push(current);
                current = d.to.clone();
                fuel = fuel - 1;
                proof {
                    assert(chain@.map_values(|d: VersionDiff| d.pair()) =~= chain_view.push(
                        d.pair(),
                    ));
                    assert(visited@.map_values(|s: String| s@) =~= visited_view.push(
                        visited@.last()@,
                    ));
                    match rest {
                        Some(r) => {
                            assert(chain_view + (seq![d.pair()] + r) =~= chain_view.push(d.pair())
                                + r);
                        },
                        None => {},
                    }
                }
            },
        }
    }
}

/// The installed version that `config` records, if any.
pub open spec fn installed_version(config: Option<Config>) -> Option<Seq<char>> {
    match config {
        Some(c) => Some(c.current_version@),
        None => None,
    }
}

/// Decides how to bring the installation up to date from `updates`.
///
/// A recorded installation fixes the channel: its track and platform
/// replace those of `args`. The stable version is the channel's first
/// stable marker. With nothing installed the full game is downloaded; at
/// the stable version (as semantic versions, leading zeros and missing
/// minor or patch numbers aside) nothing is; otherwise the
/// patches from the installed version are followed to the stable marker,
/// and any gap or cycle on the way falls back to the full game.
pub fn resolve_updates(args: &mut Args, config: &Option<Config>, updates: &Updates) -> (r: Result<
    UpdateType,
    ResolveError,
>)
    ensures
        final(args).version == (match config {
            Some(c) => c.version,
            None => old(args).version,
        }),
        final(args).platform == (match config {
            Some(c) => c.platform,
            None => old(args).platform,
        }),
        final(args).username == old(args).username,
        final(args).token == old(args).token,
        final(args).custom_folder == old(args).custom_folder,
        ({
            let arch = arch_of(final(args).version, final(args).platform);
            let plan = plan_for(installed_version(*config), updates.items_for(arch), arch);
            match r {
                Ok(u) => plan == Ok::<Plan, Failure>(u.plan()),
                Err(e) => plan == Err::<Plan, Failure>(e.failure()),
            }
        }),
{
    if let Some(c) = config {
        args.version = c.version;
        args.platform = c.platform;
    }
    let arch = Arch::from((args.version, args.platform));
    let items = match updates.get(&arch) {
        Some(items) => items,
        None => {
            return Err(ResolveError::NoDataForChannel(arch));
        },
    };
    let stable = match find_stable(items) {
        Some(s) => s,
        None => {
            return Err(ResolveError::NoStableVersion(arch));
        },
    };
    let c = match config {
        Some(c) => c,
        None => {
            return Ok(UpdateType::FullGame(stable));
        },
    };
    let current = match SemanticVersion::parse_normalized(c.current_version.as_str()) {
        Some(v) => v,
        None => {
            return Err(ResolveError::InvalidInstalledVersion(c.current_version.clone()));
        },
    };
    let target = match SemanticVersion::parse_normalized(stable.as_str()) {
        Some(v) => v,
        None => {
            return Err(ResolveError::InvalidStableVersion(stable));
        },
    };
    Ok(plan_update(items, &c.current_version, stable, current.same_as(&target)))
}

/// The plan for an installation at `installed` once the versions are
/// compared: nothing when it is `up_to_date`, else the patch chain to the
/// stable marker, or the full game at `stable` where the chain breaks.
pub fn plan_update(items: &Vec<Item>, installed: &String, stable: String, up_to_date: bool) -> (r:
    UpdateType)
    ensures
        r.plan() == (if up_to_date {
            Plan::NoUpdate
        } else {
            match patch_chain(items@, stable@, installed@) {
                Some(chain) => Plan::PatchChain(chain),
                None => Plan::FullDownload(stable@),
            }
        }),
{
    if up_to_date {
        return UpdateType::NoUpdate;
    }
    match walk_patches(items, &stable, installed) {
        Some(chain) => UpdateType::Patch(chain),
        None => UpdateType::FullGame(stable),
    }
}

pub open spec fn arch_folder(arch: Arch) -> &'static str {
    match arch {
        Arch::CoreLinux64 => "linux64",
        Arch::CoreMac => "mac",
        Arch::CoreWin64 => "win64",
        Arch::CoreExpansionLinux64 => "spaceage-linux64",
        Arch::CoreExpansionMac => "spaceage-mac",
        Arch::CoreExpansionWin64 => "spaceage-win64",
        Arch::CoreLinuxHeadless64 => "linux-server",
        Arch::Other => "",
    }
}

/// The folder that holds a channel's installation.
pub fn get_arch_folder(arch: &Arch) -> (r: &'static str)
    requires
        *arch != Arch::Other,
    ensures
        r@ == arch_folder(*arch)@,
{
    match arch {
        Arch::CoreLinux64 => "linux64",
        Arch::CoreMac => "mac",
        Arch::CoreWin64 => "win64",
        Arch::CoreExpansionLinux64 => "spaceage-linux64",
        Arch::CoreExpansionMac => "spaceage-mac",
        Arch::CoreExpansionWin64 => "spaceage-win64",
        Arch::CoreLinuxHeadless64 => "linux-server",
        Arch::Other => "",
    }
}

/// An installation whose version is the same semantic version as the
/// channel's stable one, however the two are written, needs no update.
pub proof fn law_same_version_needs_no_update(installed: Seq<char>, items: Seq<Item>, arch: Arch)
    requires
        first_stable(items) is Some,
        semver_of(normalized(installed)) is Some,
        same_version(installed, first_stable(items)->Some_0),
    ensures
        plan_for(Some(installed), Some(items), arch) == Ok::<Plan, Failure>(Plan::NoUpdate),
{
}

/// Where the channel has no patch from the installed version, an
/// installation that is not at the stable version gets the full game at
/// the stable version.
pub proof fn law_no_patch_means_full_download(installed: Seq<char>, items: Seq<Item>, arch: Arch)
    requires
        first_stable(items) is Some,
        semver_of(normalized(installed)) is Some,
        semver_of(normalized(first_stable(items)->Some_0)) is Some,
        !same_version(installed, first_stable(items)->Some_0),
        forall|i: int|
            0 <= i < items.len() && #[trigger] items[i] is VersionDiff ==> items[i]->VersionDiff_0.from@
                != installed,
    ensures
        plan_for(Some(installed), Some(items), arch) == Ok::<Plan, Failure>(
            Plan::FullDownload(first_stable(items)->Some_0),
        ),
{
    let stable = first_stable(items)->Some_0;
    assert(installed != stable);
    assert forall|i: int| !is_first_match(items, stable, installed, i) by {
        if 0 <= i < items.len() {
            match items[i] {
                Item::VersionDiff(_) => {},
                Item::Stable(_) => {},
            }
        }
    }
    assert(!Seq::<Seq<char>>::empty().contains(installed));
    assert(first_match(items, stable, installed) is None);
    assert(patch_chain(items, stable, installed) is None);
}

/// `chain` is a path of published patches from `v` to `stable`: it starts
/// at `v`, each patch starts where the one before it ends, each is an entry
/// of `items`, it ends at `stable`, and a stable marker names `stable`.
pub open spec fn is_path_to_stable(
    items: Seq<Item>,
    v: Seq<char>,
    chain: Seq<(Seq<char>, Seq<char>)>,
    stable: Seq<char>,
) -> bool {
    let end = if chain.len() == 0 {
        v
    } else {
        chain.last().1
    };
    &&& chain.len() > 0 ==> chain[0].0 == v
    &&& forall|k: int| 0 <= k < chain.len() - 1 ==> (#[trigger] chain[k]).1 == chain[k + 1].0
    &&& forall|k: int|
        0 <= k < chain.len() ==> exists|i: int|
            0 <= i < items.len() && items[i] is VersionDiff && items[i]->VersionDiff_0.pair()
                == #[trigger] chain[k]
    &&& end == stable
    &&& exists|i: int| 0 <= i < items.len() && items[i] is Stable && items[i]->Stable_0.stable@ == stable
}

proof fn lemma_walk_is_path(
    items: Seq<Item>,
    stable: Seq<char>,
    v: Seq<char>,
    visited: Seq<Seq<char>>,
    fuel: nat,
)
    ensures
        walk(items, stable, v, visited, fuel) matches Some(chain) ==> is_path_to_stable(
            items,
            v,
            chain,
            stable,
        ),
    decreases fuel,
{
    if visited.contains(v) {
        return;
    }
    if let Some(i) = first_match(items, stable, v) {
        let c = choose|i: int| is_first_match(items, stable, v, i);
        assert(is_first_match(items, stable, v, c));
        match items[i] {
            Item::Stable(_) => {
                assert(0 <= i < items.len() && items[i] is Stable && items[i]->Stable_0.stable@
                    == stable);
            },
            Item::VersionDiff(d) => {
                if fuel > 0 {
                    let next = (fuel - 1) as nat;
                    lemma_walk_is_path(items, stable, d.to@, visited.push(v), next);
                    if let Some(rest) = walk(items, stable, d.to@, visited.push(v), next) {
                        let chain = seq![d.pair()] + rest;
                        assert(chain[0] == d.pair());
                        assert forall|k: int| 0 <= k < chain.len() - 1 implies (
                        #[trigger] chain[k]).1 == chain[k + 1].0 by {
                            if k > 0 {
                                assert(chain[k] == rest[k - 1]);
                                assert(chain[k + 1] == rest[k]);
                            } else {
                                assert(chain[1] == rest[0]);
                            }
                        }
                        assert forall|k: int| 0 <= k < chain.len() implies exists|j: int|
                            0 <= j < items.len() && items[j] is VersionDiff
                                && items[j]->VersionDiff_0.pair() == #[trigger] chain[k] by {
                            if k == 0 {
                                assert(items[i]->VersionDiff_0.pair() == chain[0]);
                            } else {
                                assert(chain[k] == rest[k - 1]);
                            }
                        }
                        if rest.len() > 0 {
                            assert(chain.last() == rest.last());
                        }
                    }
                }
            },
        }
    }
}

/// A plan of patches is a path of published patches that starts at the
/// installed version, applies them in order, and ends at the channel's
/// stable version; it holds at least one patch.
pub proof fn law_patch_plan_is_a_path(
    installed: Seq<char>,
    items: Seq<Item>,
    arch: Arch,
    chain: Seq<(Seq<char>, Seq<char>)>,
)
    requires
        plan_for(Some(installed), Some(items), arch) == Ok::<Plan, Failure>(
            Plan::PatchChain(chain),
        ),
    ensures
        is_path_to_stable(items, installed, chain, first_stable(items)->Some_0),
        chain.len() > 0,
{
    lemma_walk_is_path(items, first_stable(items)->Some_0, installed, Seq::empty(), items.len());
}

/// No two patches of `chain` start at the same version, and none starts at
/// a version in `visited`.
pub open spec fn starts_fresh(chain: Seq<(Seq<char>, Seq<char>)>, visited: Seq<Seq<char>>) -> bool {
    &&& forall|k: int| 0 <= k < chain.len() ==> !visited.contains(#[trigger] chain[k].0)
    &&& forall|k1: int, k2: int|
        0 <= k1 < k2 < chain.len() ==> (#[trigger] chain[k1]).0 != (#[trigger] chain[k2]).0
}

proof fn lemma_walk_fresh(
    items: Seq<Item>,
    stable: Seq<char>,
    v: Seq<char>,
    visited: Seq<Seq<char>>,
    fuel: nat,
)
    ensures
        walk(items, stable, v, visited, fuel) matches Some(chain) ==> starts_fresh(chain, visited),
    decreases fuel,
{
    if visited.contains(v) {
        return;
    }
    if let Some(i) = first_match(items, stable, v) {
        let c = choose|i: int| is_first_match(items, stable, v, i);
        assert(is_first_match(items, stable, v, c));
        if let Item::VersionDiff(d) = items[i] {
            if fuel > 0 {
                let next = (fuel - 1) as nat;
                let seen = visited.push(v);
                lemma_walk_fresh(items, stable, d.to@, seen, next);
                if let Some(rest) = walk(items, stable, d.to@, seen, next) {
                    let chain = seq![d.pair()] + rest;
                    assert(seen[visited.len() as int] == v);
                    assert(seen.contains(v));
                    assert forall|k: int| 0 <= k < chain.len() implies !visited.contains(
                        #[trigger] chain[k].0,
                    ) by {
                        if k > 0 {
                            assert(chain[k] == rest[k - 1]);
                            if visited.contains(chain[k].0) {
                                let j = choose|j: int|
                                    0 <= j < visited.len() && visited[j] == chain[k].0;
                                assert(seen[j] == chain[k].0);
                            }
                        }
                    }
                    assert forall|k1: int, k2: int| 0 <= k1 < k2 < chain.len() implies (
                    #[trigger] chain[k1]).0 != (#[trigger] chain[k2]).0 by {
                        assert(chain[k2] == rest[k2 - 1]);
                        if k1 > 0 {
                            assert(chain[k1] == rest[k1 - 1]);
                        } else {
                            assert(seen[visited.len() as int] == v);
                            assert(!seen.contains(rest[k2 - 1].0));
                        }
                    }
                }
            }
        }
    }
}

/// A plan of patches never comes back to a version: no two of its patches
/// start at the same version.
pub proof fn law_patch_plan_visits_each_version_once(
    installed: Seq<char>,
    items: Seq<Item>,
    arch: Arch,
    chain: Seq<(Seq<char>, Seq<char>)>,
)
    requires
        plan_for(Some(installed), Some(items), arch) == Ok::<Plan, Failure>(
            Plan::PatchChain(chain),
        ),
    ensures
        forall|k1: int, k2: int|
            0 <= k1 < k2 < chain.len() ==> (#[trigger] chain[k1]).0 != (#[trigger] chain[k2]).0,
{
    lemma_walk_fresh(items, first_stable(items)->Some_0, installed, Seq::empty(), items.len());
}

/// Entry `i` of `items` is the patch from `from` to `to`.
pub open spec fn is_edge(items: Seq<Item>, i: int, from: Seq<char>, to: Seq<char>) -> bool {
    &&& 0 <= i < items.len()
    &&& items[i] is VersionDiff
    &&& items[i]->VersionDiff_0.from@ == from
    &&& items[i]->VersionDiff_0.to@ == to
}

/// The entry that the walk towards `stable` follows from `from` is the
/// patch to `to`.
pub open spec fn leads_to(items: Seq<Item>, stable: Seq<char>, from: Seq<char>, to: Seq<char>) -> bool {
    &&& first_match(items, stable, from) is Some
    &&& is_edge(items, first_match(items, stable, from)->Some_0, from, to)
}

proof fn lemma_first_match_exists(items: Seq<Item>, stable: Seq<char>, v: Seq<char>, k: int)
    requires
        0 <= k < items.len(),
        item_matches(items[k], v, stable),
    ensures
        first_match(items, stable, v) is Some,
    decreases k,
{
    if exists|j: int| 0 <= j < k && item_matches(#[trigger] items[j], v, stable) {
        let j = choose|j: int| 0 <= j < k && item_matches(#[trigger] items[j], v, stable);
        lemma_first_match_exists(items, stable, v, j);
    } else {
        assert(is_first_match(items, stable, v, k));
    }
}

/// A channel whose patches lead from the installed version `v1` through
/// `v2` and `v3` to the stable version, with no patch from the stable
/// version, gets exactly those three patches, in that order.
pub proof fn law_linear_chain(
    items: Seq<Item>,
    arch: Arch,
    v1: Seq<char>,
    v2: Seq<char>,
    v3: Seq<char>,
)
    requires
        first_stable(items) is Some,
        leads_to(items, first_stable(items)->Some_0, v1, v2),
        leads_to(items, first_stable(items)->Some_0, v2, v3),
        leads_to(items, first_stable(items)->Some_0, v3, first_stable(items)->Some_0),
        forall|i: int|
            0 <= i < items.len() && #[trigger] items[i] is VersionDiff ==> items[i]->VersionDiff_0.from@
                != first_stable(items)->Some_0,
        semver_of(normalized(v1)) is Some,
        semver_of(normalized(first_stable(items)->Some_0)) is Some,
        !same_version(v1, first_stable(items)->Some_0),
        v1 != v2,
        v1 != v3,
        v2 != v3,
    ensures
        plan_for(Some(v1), Some(items), arch) == Ok::<Plan, Failure>(
            Plan::PatchChain(seq![(v1, v2), (v2, v3), (v3, first_stable(items)->Some_0)]),
        ),
{
    let stable = first_stable(items)->Some_0;
    let k = choose|i: int| is_first_stable(items, i);
    assert(is_first_stable(items, k));
    assert(item_matches(items[k], stable, stable));
    lemma_first_match_exists(items, stable, stable, k);
    let ks = first_match(items, stable, stable)->Some_0;
    let w = choose|i: int| is_first_match(items, stable, stable, i);
    assert(is_first_match(items, stable, stable, w));
    assert(items[ks] is Stable) by {
        if items[ks] is VersionDiff {
            assert(items[ks]->VersionDiff_0.from@ == stable);
        }
    }
    let a = first_match(items, stable, v1)->Some_0;
    let b = first_match(items, stable, v2)->Some_0;
    let c = first_match(items, stable, v3)->Some_0;
    assert(items.len() >= 3);
    let n = items.len();
    let s0: Seq<Seq<char>> = Seq::empty();
    let s1 = s0.push(v1);
    let s2 = s1.push(v2);
    let s3 = s2.push(v3);
    assert(stable != v1);
    assert(stable != v2) by {
        if stable == v2 {
            assert(first_match(items, stable, stable) == first_match(items, stable, v2));
        }
    }
    assert(stable != v3) by {
        if stable == v3 {
            assert(first_match(items, stable, stable) == first_match(items, stable, v3));
        }
    }
    assert(!s3.contains(stable)) by {
        if s3.contains(stable) {
            let j = choose|j: int| 0 <= j < s3.len() && s3[j] == stable;
        }
    }
    assert(walk(items, stable, stable, s3, (n - 3) as nat) == Some(
        Seq::<(Seq<char>, Seq<char>)>::empty(),
    ));
    assert(!s2.contains(v3)) by {
        if s2.contains(v3) {
            let j = choose|j: int| 0 <= j < s2.len() && s2[j] == v3;
        }
    }
    assert(walk(items, stable, v3, s2, (n - 2) as nat) == Some(seq![(v3, stable)])) by {
        assert(seq![(v3, stable)] + Seq::<(Seq<char>, Seq<char>)>::empty() =~= seq![(v3, stable)]);
    }
    assert(!s1.contains(v2)) by {
        if s1.contains(v2) {
            let j = choose|j: int| 0 <= j < s1.len() && s1[j] == v2;
        }
    }
    assert(walk(items, stable, v2, s1, (n - 1) as nat) == Some(seq![(v2, v3), (v3, stable)])) by {
        assert(seq![(v2, v3)] + seq![(v3, stable)] =~= seq![(v2, v3), (v3, stable)]);
    }
    assert(!s0.contains(v1));
    assert(walk(items, stable, v1, s0, n) == Some(seq![(v1, v2), (v2, v3), (v3, stable)])) by {
        assert(seq![(v1, v2)] + seq![(v2, v3), (v3, stable)] =~= seq![
            (v1, v2),
            (v2, v3),
            (v3, stable),
        ]);
    }
}

/// A channel whose patches go round from the installed version `v1` to
/// `v2` and back, never reaching the stable version, gets the full game.
pub proof fn law_cycle_falls_back(items: Seq<Item>, arch: Arch, v1: Seq<char>, v2: Seq<char>)
    requires
        first_stable(items) is Some,
        leads_to(items, first_stable(items)->Some_0, v1, v2),
        leads_to(items, first_stable(items)->Some_0, v2, v1),
        semver_of(normalized(v1)) is Some,
        semver_of(normalized(first_stable(items)->Some_0)) is Some,
        !same_version(v1, first_stable(items)->Some_0),
    ensures
        plan_for(Some(v1), Some(items), arch) == Ok::<Plan, Failure>(
            Plan::FullDownload(first_stable(items)->Some_0),
        ),
{
    let stable = first_stable(items)->Some_0;
    let n = items.len();
    let s0: Seq<Seq<char>> = Seq::empty();
    let s1 = s0.push(v1);
    let s2 = s1.push(v2);
    assert(s2[0] == v1);
    assert(s2.contains(v1));
    assert(walk(items, stable, v1, s2, (n - 2) as nat) is None);
    assert(s1[0] == v1);
    if v1 == v2 {
        assert(s1.contains(v2));
    }
    assert(walk(items, stable, v2, s1, (n - 1) as nat) is None);
    assert(!s0.contains(v1));
    assert(walk(items, stable, v1, s0, n) is None);
}

} // verus!
