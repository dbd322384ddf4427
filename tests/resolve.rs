use factorio_updater::resolve::{get_arch_folder, plan_update, resolve_updates, ResolveError, UpdateType};
use factorio_updater::structs::{Arch, Args, Config, Item, Platform, Stable, Updates, Version, VersionDiff};

fn diff(from: &str, to: &str) -> Item {
    Item::VersionDiff(VersionDiff { from: from.to_string(), to: to.to_string() })
}

fn stable(v: &str) -> Item {
    Item::Stable(Stable { stable: v.to_string() })
}

fn args() -> Args {
    Args {
        version: Version::Vanilla,
        platform: Platform::Win64,
        username: "user".to_string(),
        token: "tok".to_string(),
        custom_folder: None,
    }
}

fn installed(v: &str) -> Option<Config> {
    Some(Config { version: Version::Vanilla, platform: Platform::Win64, current_version: v.to_string() })
}

fn feed(items: Vec<Item>) -> Updates {
    let mut u = Updates::new();
    u.insert(Arch::CoreWin64, items);
    u
}

fn vd(from: &str, to: &str) -> VersionDiff {
    VersionDiff { from: from.to_string(), to: to.to_string() }
}

#[test]
fn same_version_needs_no_update() {
    let u = feed(vec![diff("1.1.0", "1.1.1"), stable("1.1.0")]);
    let mut a = args();
    assert_eq!(resolve_updates(&mut a, &installed("1.1.0"), &u), Ok(UpdateType::NoUpdate));
}

#[test]
fn no_patch_from_installed_gives_full_download() {
    let u = feed(vec![diff("1.0.5", "1.1.0"), stable("1.1.0")]);
    let mut a = args();
    assert_eq!(
        resolve_updates(&mut a, &installed("1.0.0"), &u),
        Ok(UpdateType::FullGame("1.1.0".to_string()))
    );
}

#[test]
fn linear_chain_gives_patches_in_order() {
    let u = feed(vec![diff("1.0.2", "1.1.0"), stable("1.1.0"), diff("1.0.0", "1.0.1"), diff("1.0.1", "1.0.2")]);
    let mut a = args();
    assert_eq!(
        resolve_updates(&mut a, &installed("1.0.0"), &u),
        Ok(UpdateType::Patch(vec![vd("1.0.0", "1.0.1"), vd("1.0.1", "1.0.2"), vd("1.0.2", "1.1.0")]))
    );
}

#[test]
fn cycle_falls_back_to_full_download() {
    let u = feed(vec![diff("1.0.0", "1.0.1"), diff("1.0.1", "1.0.0"), stable("1.1.0")]);
    let mut a = args();
    assert_eq!(
        resolve_updates(&mut a, &installed("1.0.0"), &u),
        Ok(UpdateType::FullGame("1.1.0".to_string()))
    );
}

#[test]
fn gap_in_chain_falls_back_to_full_download() {
    let u = feed(vec![diff("1.0.0", "1.0.1"), diff("1.0.2", "1.1.0"), stable("1.1.0")]);
    let mut a = args();
    assert_eq!(
        resolve_updates(&mut a, &installed("1.0.0"), &u),
        Ok(UpdateType::FullGame("1.1.0".to_string()))
    );
}

#[test]
fn first_patch_from_a_version_is_taken() {
    let u = feed(vec![diff("1.0.0", "1.1.0"), diff("1.0.0", "1.0.9"), stable("1.1.0")]);
    let mut a = args();
    assert_eq!(
        resolve_updates(&mut a, &installed("1.0.0"), &u),
        Ok(UpdateType::Patch(vec![vd("1.0.0", "1.1.0")]))
    );
}

#[test]
fn first_install_downloads_full_game() {
    let u = feed(vec![diff("1.0.0", "1.1.0"), stable("1.1.0")]);
    let mut a = args();
    assert_eq!(resolve_updates(&mut a, &None, &u), Ok(UpdateType::FullGame("1.1.0".to_string())));
    assert_eq!(a, args());
}

#[test]
fn missing_channel_is_an_error() {
    let mut u = Updates::new();
    u.insert(Arch::CoreLinux64, vec![stable("1.1.0")]);
    let mut a = args();
    assert_eq!(resolve_updates(&mut a, &None, &u), Err(ResolveError::NoDataForChannel(Arch::CoreWin64)));
}

#[test]
fn missing_stable_marker_is_an_error() {
    let u = feed(vec![diff("1.0.0", "1.1.0")]);
    let mut a = args();
    assert_eq!(
        resolve_updates(&mut a, &installed("1.0.0"), &u),
        Err(ResolveError::NoStableVersion(Arch::CoreWin64))
    );
}

#[test]
fn malformed_installed_version_is_an_error() {
    let u = feed(vec![stable("1.1.0")]);
    let mut a = args();
    assert_eq!(
        resolve_updates(&mut a, &installed("1.x"), &u),
        Err(ResolveError::InvalidInstalledVersion("1.x".to_string()))
    );
}

#[test]
fn malformed_stable_version_is_an_error() {
    let u = feed(vec![stable("latest")]);
    let mut a = args();
    assert_eq!(
        resolve_updates(&mut a, &installed("1.0.0"), &u),
        Err(ResolveError::InvalidStableVersion("latest".to_string()))
    );
}

#[test]
fn recorded_channel_replaces_requested_one() {
    let mut u = Updates::new();
    u.insert(Arch::CoreExpansionLinux64, vec![stable("2.0.1")]);
    let mut a = args();
    let c = Some(Config {
        version: Version::SpaceAge,
        platform: Platform::Linux64,
        current_version: "2.0.1".to_string(),
    });
    assert_eq!(resolve_updates(&mut a, &c, &u), Ok(UpdateType::NoUpdate));
    assert_eq!(a.version, Version::SpaceAge);
    assert_eq!(a.platform, Platform::Linux64);
    assert_eq!(a.username, "user");
}

#[test]
fn insert_replaces_a_channel() {
    let mut u = Updates::new();
    u.insert(Arch::CoreMac, vec![stable("1.0.0")]);
    u.insert(Arch::CoreMac, vec![stable("2.0.0")]);
    assert_eq!(u.get(&Arch::CoreMac), Some(&vec![stable("2.0.0")]));
    assert_eq!(u.get(&Arch::CoreWin64), None);
}

#[test]
fn arch_folders() {
    assert_eq!(get_arch_folder(&Arch::CoreLinux64), "linux64");
    assert_eq!(get_arch_folder(&Arch::CoreExpansionWin64), "spaceage-win64");
    assert_eq!(get_arch_folder(&Arch::CoreLinuxHeadless64), "linux-server");
}

#[test]
fn channel_of_track_and_platform() {
    assert_eq!(Arch::from((Version::Vanilla, Platform::Linux64)), Arch::CoreLinux64);
    assert_eq!(Arch::from((Version::Vanilla, Platform::Mac)), Arch::CoreMac);
    assert_eq!(Arch::from((Version::Vanilla, Platform::Win64)), Arch::CoreWin64);
    assert_eq!(Arch::from((Version::SpaceAge, Platform::Linux64)), Arch::CoreExpansionLinux64);
    assert_eq!(Arch::from((Version::SpaceAge, Platform::Mac)), Arch::CoreExpansionMac);
    assert_eq!(Arch::from((Version::SpaceAge, Platform::Win64)), Arch::CoreExpansionWin64);
    assert_eq!(Arch::CoreExpansionMac.key(), "core_expansion-mac");
    assert_eq!(Version::SpaceAge.name(), "space-age");
}

#[test]
fn plan_after_comparing_versions() {
    let items = vec![diff("1.0.0", "1.1.0"), stable("1.1.0")];
    let installed = "1.0.0".to_string();
    assert_eq!(plan_update(&items, &installed, "1.1.0".to_string(), true), UpdateType::NoUpdate);
    assert_eq!(
        plan_update(&items, &installed, "1.1.0".to_string(), false),
        UpdateType::Patch(vec![vd("1.0.0", "1.1.0")])
    );
    assert_eq!(
        plan_update(&items, &"0.9.0".to_string(), "1.1.0".to_string(), false),
        UpdateType::FullGame("1.1.0".to_string())
    );
}

#[test]
fn missing_patch_component_is_tolerated() {
    let u = feed(vec![stable("2.0.0")]);
    let mut a = args();
    assert_eq!(resolve_updates(&mut a, &installed("2.0"), &u), Ok(UpdateType::NoUpdate));
}

#[test]
fn leading_zeros_are_tolerated() {
    let u = feed(vec![stable("2.0.1")]);
    let mut a = args();
    assert_eq!(resolve_updates(&mut a, &installed("02.0.01"), &u), Ok(UpdateType::NoUpdate));
}

#[test]
fn short_installed_version_still_gets_a_plan() {
    let u = feed(vec![stable("1.1.0")]);
    let mut a = args();
    assert_eq!(
        resolve_updates(&mut a, &installed("1.0"), &u),
        Ok(UpdateType::FullGame("1.1.0".to_string()))
    );
}

#[test]
fn other_stable_marker_is_no_terminus() {
    let u = feed(vec![stable("1.1.0"), stable("1.0.0")]);
    let mut a = args();
    assert_eq!(
        resolve_updates(&mut a, &installed("1.0.0"), &u),
        Ok(UpdateType::FullGame("1.1.0".to_string()))
    );
}

#[test]
fn chain_ends_at_the_stable_version() {
    let u = feed(vec![stable("1.2.0"), diff("1.0.0", "1.1.0"), stable("1.1.0"), diff("1.1.0", "1.2.0")]);
    let mut a = args();
    assert_eq!(
        resolve_updates(&mut a, &installed("1.0.0"), &u),
        Ok(UpdateType::Patch(vec![vd("1.0.0", "1.1.0"), vd("1.1.0", "1.2.0")]))
    );
}
