use osu_lazer_manager::disk::{Disk, Entry};
use osu_lazer_manager::errors::{FetchError, InstallError};

fn fresh_disk() -> Disk {
    Disk::new()
}

fn installed_disk(version: &str, data: &[u8]) -> Disk {
    let mut disk = Disk::new();
    disk.repository.push(Entry {
        name: version.to_string(),
        data: data.to_vec(),
    });
    disk
}

const ICON_PATH: &str = "/data/osu-lazer.png";
const EXE_PATH: &str = "/data/repository/2023.2";

#[test]
fn install_populates_every_artifact_and_the_default() {
    let mut disk = fresh_disk();
    let r = disk.install(
        &"2023.2".to_string(),
        Some(Ok(vec![7, 7, 7])),
        Ok(vec![1, 2]),
        Ok("Icon={icon} Exec={executable}".to_string()),
        ICON_PATH,
        EXE_PATH,
    );
    assert_eq!(r, Ok(()));
    assert_eq!(disk.repository.len(), 1);
    assert_eq!(disk.repository[0].name, "2023.2");
    assert_eq!(disk.repository[0].data, vec![7, 7, 7]);
    assert_eq!(disk.icon, Some(vec![1, 2]));
    assert_eq!(disk.icon_cache, Some(vec![1, 2]));
    assert_eq!(
        disk.desktop,
        Some(format!("Icon={} Exec={}", ICON_PATH, EXE_PATH))
    );
    assert_eq!(
        disk.desktop_cache,
        Some("Icon={icon} Exec={executable}".to_string())
    );
    assert_eq!(disk.default_version, Some("2023.2".to_string()));
    assert!(disk.is_installed(&"2023.2".to_string()));
    assert_eq!(disk.installed_names(), vec!["2023.2".to_string()]);
}

#[test]
fn repeated_install_is_byte_identical() {
    let mut disk = fresh_disk();
    let version = "2023.2".to_string();
    let template = "Icon={icon} Exec={executable}".to_string();
    let first = disk.install(
        &version,
        Some(Ok(vec![7, 7, 7])),
        Ok(vec![1, 2]),
        Ok(template.clone()),
        ICON_PATH,
        EXE_PATH,
    );
    let after_first = disk.clone();
    let second = disk.install(
        &version,
        Some(Ok(vec![7, 7, 7])),
        Ok(vec![1, 2]),
        Ok(template.clone()),
        ICON_PATH,
        EXE_PATH,
    );
    assert_eq!(first, Ok(()));
    assert_eq!(second, Ok(()));
    assert_eq!(disk, after_first);
}

#[test]
fn installed_version_is_not_fetched_again() {
    let mut disk = installed_disk("2023.2", &[7, 7, 7]);
    let r = disk.install(
        &"2023.2".to_string(),
        None,
        Ok(vec![1, 2]),
        Ok("x".to_string()),
        ICON_PATH,
        EXE_PATH,
    );
    assert_eq!(r, Ok(()));
    assert_eq!(disk.repository.len(), 1);
    assert_eq!(disk.repository[0].data, vec![7, 7, 7]);
    assert_eq!(disk.default_version, Some("2023.2".to_string()));
}

#[test]
fn failed_executable_fetch_changes_nothing() {
    let mut disk = fresh_disk();
    let r = disk.install(
        &"2023.2".to_string(),
        Some(Err(FetchError::Interrupted)),
        Ok(vec![1, 2]),
        Ok("x".to_string()),
        ICON_PATH,
        EXE_PATH,
    );
    assert_eq!(
        r,
        Err(InstallError::Executable(FetchError::Interrupted))
    );
    assert_eq!(disk, fresh_disk());
}

#[test]
fn icon_fetch_failure_falls_back_to_cache() {
    let mut disk = fresh_disk();
    disk.icon_cache = Some(vec![5, 5]);
    let r = disk.install(
        &"2023.2".to_string(),
        Some(Ok(vec![7])),
        Err(FetchError::Connectivity),
        Ok("Icon={icon}".to_string()),
        ICON_PATH,
        EXE_PATH,
    );
    assert_eq!(r, Ok(()));
    assert_eq!(disk.icon, Some(vec![5, 5]));
    assert_eq!(disk.desktop, Some(format!("Icon={}", ICON_PATH)));
}

#[test]
fn icon_fetch_failure_keeps_installed_icon() {
    let mut disk = fresh_disk();
    disk.icon = Some(vec![3, 3]);
    let r = disk.install(
        &"2023.2".to_string(),
        Some(Ok(vec![7])),
        Err(FetchError::NonSuccess),
        Ok("x".to_string()),
        ICON_PATH,
        EXE_PATH,
    );
    assert_eq!(r, Ok(()));
    assert_eq!(disk.icon, Some(vec![3, 3]));
}

#[test]
fn icon_fetch_failure_without_any_copy_fails_the_install() {
    let mut disk = fresh_disk();
    let r = disk.install(
        &"2023.2".to_string(),
        Some(Ok(vec![7])),
        Err(FetchError::Connectivity),
        Ok("x".to_string()),
        ICON_PATH,
        EXE_PATH,
    );
    assert_eq!(r, Err(InstallError::IconUnavailable));
    // the executable stage had already succeeded and stays in place
    assert_eq!(disk.repository.len(), 1);
    assert_eq!(disk.icon, None);
}

#[test]
fn desktop_fetch_failure_renders_the_cached_template() {
    let mut disk = fresh_disk();
    disk.desktop_cache = Some("Icon={icon};Exec={executable}".to_string());
    let r = disk.install(
        &"2023.2".to_string(),
        Some(Ok(vec![7])),
        Ok(vec![1]),
        Err(FetchError::Interrupted),
        ICON_PATH,
        EXE_PATH,
    );
    assert_eq!(r, Ok(()));
    assert_eq!(
        disk.desktop,
        Some(format!("Icon={};Exec={}", ICON_PATH, EXE_PATH))
    );
    // the cached template itself is kept for the next fallback
    assert_eq!(
        disk.desktop_cache,
        Some("Icon={icon};Exec={executable}".to_string())
    );
}

#[test]
fn desktop_fetch_failure_without_template_fails_the_install() {
    let mut disk = fresh_disk();
    let r = disk.install(
        &"2023.2".to_string(),
        Some(Ok(vec![7])),
        Ok(vec![1]),
        Err(FetchError::WriteFault),
        ICON_PATH,
        EXE_PATH,
    );
    assert_eq!(r, Err(InstallError::TemplateUnavailable));
}

#[test]
fn membership_queries_on_disk_state() {
    let disk = installed_disk("2023.1", &[1]);
    assert!(disk.is_installed(&"2023.1".to_string()));
    assert!(!disk.is_installed(&"2023.2".to_string()));
    assert!(!fresh_disk().is_installed(&"2023.1".to_string()));
}

#[test]
fn disk_listing_matches_the_exposed_operation() {
    let disk = installed_disk("2023.2", &[7]);
    let versions = disk.list_versions(&"2023.1".to_string());
    assert_eq!(versions, vec!["2023.1".to_string(), "2023.2".to_string()]);
}

#[test]
fn set_default_moves_only_the_pointer() {
    let mut disk = installed_disk("2023.1", &[1]);
    disk.set_default(&"2023.1".to_string());
    assert_eq!(disk.default_version, Some("2023.1".to_string()));
    assert_eq!(disk.repository.len(), 1);
}
