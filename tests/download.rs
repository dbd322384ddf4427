use factorio_updater::download::{
    check_download_status, check_lookup_status, first_failure, full_game_update, get_download_links, patch_updates, single_download_link,
    DownloadError, LookupError, UpdateInfo,
};
use factorio_updater::progress::{DownloadProgress, ProgressReport};
use factorio_updater::structs::{Arch, Args, Platform, Version, VersionDiff};

#[test]
fn full_release_links() {
    assert_eq!(
        get_download_links(&Arch::CoreWin64, "2.0.10"),
        "https://factorio.com/get-download/2.0.10/alpha/win64-manual"
    );
    assert_eq!(
        get_download_links(&Arch::CoreLinuxHeadless64, "1.1.0"),
        "https://factorio.com/get-download/1.1.0/headless/linux64"
    );
    assert_eq!(
        get_download_links(&Arch::CoreExpansionMac, "2.0.0"),
        "https://factorio.com/get-download/2.0.0/expansion/osx"
    );
}

#[test]
fn full_game_names() {
    let args = Args {
        version: Version::SpaceAge,
        platform: Platform::Linux64,
        username: "u".to_string(),
        token: "t".to_string(),
        custom_folder: None,
    };
    let info = full_game_update(&args, "2.0.10");
    assert_eq!(info.url(), "https://factorio.com/get-download/2.0.10/expansion/linux64");
    assert_eq!(info.label(), "Downloading Factorio space-age v2.0.10...");
    assert_eq!(info.file_name(), "factorio_space-age_v2.0.10.zip");
}

#[test]
fn patch_names() {
    let diffs = vec![
        VersionDiff { from: "1.0.0".to_string(), to: "1.0.1".to_string() },
        VersionDiff { from: "1.0.1".to_string(), to: "1.1.0".to_string() },
    ];
    let infos = patch_updates(Version::Vanilla, &diffs, vec!["https://a".to_string(), "https://b".to_string()]);
    assert_eq!(infos.len(), 2);
    assert_eq!(infos[1].url(), "https://b");
    assert_eq!(infos[0].label(), "Downloading Factorio vanilla patch v1.0.0 to v1.0.1...");
    assert_eq!(infos[1].file_name(), "factorio_vanilla_patch_v1.0.1_to_v1.1.0.zip");
    assert_eq!(
        infos[0],
        UpdateInfo::Patch {
            url: "https://a".to_string(),
            version: Version::Vanilla,
            from: "1.0.0".to_string(),
            to: "1.0.1".to_string(),
        }
    );
}

#[test]
fn lookup_with_one_link_succeeds() {
    assert_eq!(single_download_link(vec!["https://x".to_string()]), Ok("https://x".to_string()));
}

#[test]
fn lookup_with_no_or_two_links_fails() {
    assert_eq!(single_download_link(vec![]), Err(LookupError::UnexpectedResultCount(0)));
    assert_eq!(
        single_download_link(vec!["a".to_string(), "b".to_string()]),
        Err(LookupError::UnexpectedResultCount(2))
    );
}

#[test]
fn failed_lookup_leaves_siblings_alone() {
    let answers = vec![vec!["a".to_string()], vec![], vec!["c".to_string()]];
    let results: Vec<Result<String, LookupError>> = answers.into_iter().map(single_download_link).collect();
    assert_eq!(results[0], Ok("a".to_string()));
    assert_eq!(results[1], Err(LookupError::UnexpectedResultCount(0)));
    assert_eq!(results[2], Ok("c".to_string()));
    assert_eq!(first_failure(results), Err(LookupError::UnexpectedResultCount(0)));
}

#[test]
fn first_failure_keeps_values_or_first_error() {
    let ok: Vec<Result<u32, DownloadError>> = vec![Ok(1), Ok(2)];
    assert_eq!(first_failure(ok), Ok(vec![1, 2]));
    let bad: Vec<Result<u32, DownloadError>> =
        vec![Ok(1), Err(DownloadError::AlreadyExists), Err(DownloadError::Transfer)];
    assert_eq!(first_failure(bad), Err(DownloadError::AlreadyExists));
    let none: Vec<Result<u32, DownloadError>> = vec![];
    assert_eq!(first_failure(none), Ok(vec![]));
}

#[test]
fn progress_in_four_chunks() {
    let mut p = DownloadProgress::new(Some(1000));
    let mut seen = Vec::new();
    for (i, ms) in [100u64, 300, 600, 900].iter().enumerate() {
        let r = p.on_chunk(250, *ms);
        assert_eq!(r.bytes_so_far, 250 * (i as u64 + 1));
        assert_eq!(r.eta_secs, None);
        seen.push(r.bytes_so_far);
    }
    assert_eq!(seen, vec![250, 500, 750, 1000]);
    assert_eq!(p.report(900).percent, Some(100));
}

#[test]
fn eta_after_first_second() {
    let mut p = DownloadProgress::new(Some(1000));
    let r = p.on_chunk(250, 2000);
    assert_eq!(
        r,
        ProgressReport { bytes_so_far: 250, total: Some(1000), percent: Some(25), eta_secs: Some(6) }
    );
    let r = p.on_chunk(750, 2500);
    assert_eq!(r.eta_secs, Some(0));
    assert_eq!(r.percent, Some(100));
}

#[test]
fn unknown_length_reports_bytes_only() {
    let mut p = DownloadProgress::new(None);
    let r = p.on_chunk(4096, 5000);
    assert_eq!(r, ProgressReport { bytes_so_far: 4096, total: None, percent: None, eta_secs: None });
}

#[test]
fn huge_estimate_saturates() {
    let mut p = DownloadProgress::new(Some(u64::MAX));
    let r = p.on_chunk(1, u64::MAX);
    assert_eq!(r.eta_secs, Some(u64::MAX));
    assert_eq!(r.percent, Some(0));
}

#[test]
fn empty_body_is_complete() {
    let p = DownloadProgress::new(Some(0));
    assert_eq!(p.report(0).percent, Some(100));
}

#[test]
fn only_success_statuses_pass() {
    assert_eq!(check_download_status(200), Ok(()));
    assert_eq!(check_download_status(206), Ok(()));
    assert_eq!(check_download_status(403), Err(DownloadError::Status(403)));
    assert_eq!(check_download_status(302), Err(DownloadError::Status(302)));
    assert_eq!(check_lookup_status(204), Ok(()));
    assert_eq!(check_lookup_status(500), Err(LookupError::Status(500)));
}
