use osu_lazer_manager::errors::Error;
use osu_lazer_manager::launch::launch_report;
use osu_lazer_manager::paths::{
    appimage_path, desktop_cache_path, desktop_path, icon_cache_path, icon_path, repository_dir,
};
use osu_lazer_manager::store::effective_default;

#[test]
fn paths_are_deterministic_and_rooted_at_the_base() {
    let base = "/home/user/.local/share/osu-lazer-manager";
    assert_eq!(
        repository_dir(base),
        "/home/user/.local/share/osu-lazer-manager/repository"
    );
    assert_eq!(
        appimage_path(base, "2023.2"),
        "/home/user/.local/share/osu-lazer-manager/repository/2023.2"
    );
    assert_eq!(
        icon_path(base),
        "/home/user/.local/share/osu-lazer-manager/osu-lazer.png"
    );
    assert_eq!(
        icon_cache_path(base),
        "/home/user/.local/share/osu-lazer-manager/cache/osu-lazer.png"
    );
    assert_eq!(
        desktop_path(base),
        "/home/user/.local/share/osu-lazer-manager/osu-lazer.desktop"
    );
    assert_eq!(
        desktop_cache_path(base),
        "/home/user/.local/share/osu-lazer-manager/cache/osu-lazer.desktop"
    );
}

#[test]
fn distinct_versions_get_distinct_artifact_paths() {
    let base = "/data";
    assert_ne!(appimage_path(base, "2023.1"), appimage_path(base, "2023.2"));
    assert_eq!(appimage_path(base, "2023.1"), appimage_path(base, "2023.1"));
}

#[test]
fn persisted_default_wins_over_latest() {
    let persisted = Some("2023.1".to_string());
    let latest = "2024.5".to_string();
    assert_eq!(effective_default(&persisted, &latest), "2023.1");
}

#[test]
fn unset_default_falls_back_to_latest() {
    let latest = "2024.5".to_string();
    assert_eq!(effective_default(&None, &latest), "2024.5");
}

#[test]
fn launch_reports_spawn_failure_first() {
    assert_eq!(launch_report(true, true), Err(Error::Launch));
    assert_eq!(launch_report(false, true), Err(Error::Launch));
    assert_eq!(launch_report(true, false), Err(Error::ConfigWrite));
    assert_eq!(launch_report(false, false), Ok(()));
}
