use std::io::{Cursor, Write};

use gocode::updater::archive::{
    extract_linux_archive, extract_windows_archive, judge_tar_path, EntryUse, StagedFile,
};
use gocode::updater::checksum::{check_digest, checksum_for, verify_sha256};
use gocode::updater::install::{
    advance_replacement, after_attempt, backup_path, download_path, failure_text, partial_path,
    replace_with_rollback, restart_error, AfterAttempt, Download, ReplaceStep,
};
use gocode::updater::release::{
    available_update, current_platform_archive_suffix, official_download_url, stable_releases,
    try_from_published, GitHubReleaseSource, PublishedRelease, ReleaseAsset, ReleaseInfo,
};
use gocode::updater::version::Version;
use gocode::updater::{
    UpdateError, CHECKSUM_ASSET, LINUX_ARCHIVE_SUFFIX, RELEASES_URL, WINDOWS_ARCHIVE_SUFFIX,
};

fn asset(name: &str) -> ReleaseAsset {
    ReleaseAsset {
        name: name.to_string(),
        download_url: format!("https://example.test/{name}"),
    }
}

fn release(version: &str) -> ReleaseInfo {
    ReleaseInfo {
        version: Version::parse(version).unwrap(),
        notes: "notes".to_string(),
        assets: vec![
            asset(&format!("gocode-{version}-{WINDOWS_ARCHIVE_SUFFIX}")),
            asset(CHECKSUM_ASSET),
        ],
    }
}

#[test]
fn a_newer_stable_release_is_offered() {
    assert_eq!(
        available_update(
            &Version::parse("0.1.0").unwrap(),
            &vec![release("0.2.0")],
            WINDOWS_ARCHIVE_SUFFIX
        )
        .unwrap()
        .version,
        Version::parse("0.2.0").unwrap()
    );
}

#[test]
fn same_or_older_release_is_not_offered() {
    assert!(available_update(
        &Version::parse("0.2.0").unwrap(),
        &vec![release("0.2.0"), release("0.1.9")],
        WINDOWS_ARCHIVE_SUFFIX
    )
    .is_none());
}

#[test]
fn missing_release_assets_are_not_offered() {
    let mut release = release("0.2.0");
    release.assets.pop();
    assert!(available_update(
        &Version::parse("0.1.0").unwrap(),
        &vec![release],
        WINDOWS_ARCHIVE_SUFFIX
    )
    .is_none());
}

#[test]
fn a_release_without_a_linux_archive_is_not_offered_on_linux() {
    let release = release("0.2.0");
    assert!(available_update(
        &Version::parse("0.1.0").unwrap(),
        &vec![release],
        LINUX_ARCHIVE_SUFFIX
    )
    .is_none());
}

#[test]
fn a_release_with_a_linux_archive_is_offered_on_linux() {
    let version = "0.2.0";
    let release = ReleaseInfo {
        version: Version::parse(version).unwrap(),
        notes: "notes".to_string(),
        assets: vec![
            asset(&format!("gocode-{version}-{LINUX_ARCHIVE_SUFFIX}")),
            asset(CHECKSUM_ASSET),
        ],
    };
    assert_eq!(
        available_update(
            &Version::parse("0.1.0").unwrap(),
            &vec![release],
            LINUX_ARCHIVE_SUFFIX
        )
        .unwrap()
        .version,
        Version::parse(version).unwrap()
    );
}

#[test]
fn the_newest_release_is_offered() {
    let update = available_update(
        &Version::parse("0.1.0").unwrap(),
        &vec![release("0.10.0"), release("0.9.0"), release("0.10.0-rc.1")],
        WINDOWS_ARCHIVE_SUFFIX,
    )
    .unwrap();
    assert_eq!(update.version.as_str(), "0.10.0");
    assert_eq!(update.notes, "notes");
    assert_eq!(update.archive.name, "gocode-0.10.0-windows-x86_64.zip");
    assert_eq!(update.checksums.name, "SHA256SUMS");
    // The newest one decides, even where an older one has what is needed.
    let mut bare = release("0.11.0");
    bare.assets.clear();
    assert!(available_update(
        &Version::parse("0.1.0").unwrap(),
        &vec![release("0.10.0"), bare],
        WINDOWS_ARCHIVE_SUFFIX
    )
    .is_none());
}

#[test]
fn versions_follow_semantic_versioning() {
    let older = Version::parse("1.2.3-alpha.9").unwrap();
    let newer = Version::parse("1.2.3-alpha.10").unwrap();
    assert!(newer.newer_than(&older));
    assert!(!older.newer_than(&newer));
    assert!(!older.newer_than(&older));
    assert!(Version::parse("1.2").is_err());
    assert!(Version::parse("01.2.3").is_err());
    assert_eq!(newer.copy(), newer);
}

#[test]
fn only_https_urls_are_accepted() {
    assert!(official_download_url("http://example.test/a").is_err());
    assert!(official_download_url("https://example.test/a").is_ok());
}

#[test]
fn urls_are_written_as_they_are_parsed() {
    assert_eq!(
        official_download_url("HTTPS://Example.test").unwrap(),
        "https://example.test/"
    );
    assert_eq!(
        official_download_url("http://example.test/").unwrap_err(),
        UpdateError::Network("official updates require HTTPS".to_string())
    );
    assert!(matches!(
        official_download_url("not a url").unwrap_err(),
        UpdateError::Network(_)
    ));
}

#[test]
fn release_source_requires_an_https_endpoint() {
    assert!(GitHubReleaseSource::with_endpoint("http://example.test/releases").is_err());
    assert!(GitHubReleaseSource::with_endpoint("https://example.test/releases").is_ok());
    assert_eq!(GitHubReleaseSource::new().unwrap().endpoint, RELEASES_URL);
}

#[test]
fn checksum_parser_requires_a_valid_matching_hash() {
    assert_eq!(
        checksum_for(&format!("{}  release.zip", "a".repeat(64)), "release.zip").unwrap(),
        "a".repeat(64)
    );
    assert!(checksum_for("bad release.zip", "release.zip").is_err());
}

#[test]
fn checksums_are_found_by_name() {
    let list = format!(
        "{}  other.zip\n\nonly-one-word\n{} *release.zip\n",
        "b".repeat(64),
        "A".repeat(64)
    );
    assert_eq!(checksum_for(&list, "release.zip").unwrap(), "a".repeat(64));
    assert_eq!(
        checksum_for(&list, "missing.zip").unwrap_err(),
        UpdateError::ChecksumMissing
    );
    assert!(checksum_for(&format!("{} release.zip", "g".repeat(64)), "release.zip").is_err());
}

#[test]
fn checksum_mismatch_leaves_the_source_untouched() {
    let content = b"untrusted".to_vec();
    assert_eq!(
        verify_sha256(&content, &"0".repeat(64)),
        Err(UpdateError::ChecksumMismatch)
    );
    assert_eq!(content, b"untrusted");
}

#[test]
fn a_matching_checksum_is_accepted_in_any_case() {
    let abc = "ba7816bf8f01cfea414140de5dae2223b00361a396177a9cb410ff61f20015ad";
    assert_eq!(verify_sha256(&b"abc".to_vec(), abc), Ok(()));
    assert_eq!(
        verify_sha256(&b"abc".to_vec(), &abc.to_ascii_uppercase()),
        Ok(())
    );
    assert_eq!(
        verify_sha256(&b"abd".to_vec(), abc),
        Err(UpdateError::ChecksumMismatch)
    );
    assert_eq!(check_digest(&vec![0x00, 0xaf, 0x10], "00AF10"), Ok(()));
}

/// Replaces an executable among three places, with the given outcomes of the renames.
fn replace(renames: &[bool]) -> (Result<(), UpdateError>, Option<&'static str>, Option<&'static str>) {
    let (mut staged, mut installed, mut backup) = (Some("new"), Some("old"), None);
    let mut renames = renames.iter();
    let mut step = replace_with_rollback(true);
    loop {
        let rename = matches!(
            step,
            ReplaceStep::MoveAway | ReplaceStep::Place | ReplaceStep::Restore(_)
        );
        let ok = !rename || *renames.next().unwrap();
        if ok {
            match &step {
                ReplaceStep::ClearBackup | ReplaceStep::Cleanup => backup = None,
                ReplaceStep::MoveAway => backup = installed.take(),
                ReplaceStep::Place => installed = staged.take(),
                ReplaceStep::Restore(_) => installed = backup.take(),
                ReplaceStep::Done(_) => {}
            }
        }
        if let ReplaceStep::Done(result) = step {
            return (result, installed, backup);
        }
        let outcome = if ok {
            Ok(())
        } else {
            Err("rename failed".to_string())
        };
        step = advance_replacement(step, outcome);
    }
}

#[test]
fn replacement_swaps_the_binary_and_removes_the_backup() {
    assert_eq!(backup_path("/bin/gocode.exe"), "/bin/gocode.previous");
    assert_eq!(replace(&[true, true]), (Ok(()), Some("new"), None));
}

#[test]
fn replacement_works_on_an_extensionless_linux_binary_name() {
    assert_eq!(backup_path("/bin/gocode"), "/bin/gocode.previous");
    assert_eq!(replace(&[true, true]), (Ok(()), Some("new"), None));
}

#[test]
fn a_failed_replacement_puts_the_old_binary_back() {
    let failed = Err(UpdateError::Replace("rename failed".to_string()));
    assert_eq!(replace(&[false]), (failed, Some("old"), None));
    let failed = Err(UpdateError::Replace("rename failed".to_string()));
    assert_eq!(replace(&[true, false, true]), (failed, Some("old"), None));
    let lost = Err(UpdateError::Rollback("rename failed".to_string()));
    assert_eq!(replace(&[true, false, false]), (lost, None, Some("old")));
    assert_eq!(
        replace_with_rollback(false),
        ReplaceStep::Done(Err(UpdateError::Replace(
            "invalid update source or target".to_string()
        )))
    );
}

fn zip_of(files: &[(&str, &[u8])]) -> Vec<u8> {
    let mut writer = zip::ZipWriter::new(Cursor::new(Vec::new()));
    for (name, contents) in files {
        writer
            .start_file(*name, zip::write::SimpleFileOptions::default())
            .unwrap();
        writer.write_all(contents).unwrap();
    }
    writer.finish().unwrap().into_inner()
}

#[test]
fn archive_rejects_path_traversal() {
    let archive = zip_of(&[("../gocode.exe", b"bad")]);
    let mut files = Vec::new();
    assert!(matches!(
        extract_windows_archive(&archive, "/staging", &mut files),
        Err(UpdateError::UnsafeArchive(_))
    ));
    assert!(files.is_empty());
}

#[test]
fn windows_archive_skips_non_essential_root_level_files() {
    let archive = zip_of(&[
        ("gocode.exe", "app".as_bytes()),
        ("gocode-updater.exe", "updater".as_bytes()),
        ("LICENSE", "license".as_bytes()),
        ("INSTALL.md", "install".as_bytes()),
        ("install-windows.ps1", "script".as_bytes()),
    ]);
    let mut files = Vec::new();
    let (app, updater) = extract_windows_archive(&archive, "/staging", &mut files).unwrap();
    assert_eq!(app, "/staging/gocode.exe");
    assert_eq!(updater, "/staging/gocode-updater.exe");
    assert_eq!(
        files,
        vec![
            StagedFile {
                path: app,
                content: b"app".to_vec()
            },
            StagedFile {
                path: updater,
                content: b"updater".to_vec()
            },
        ]
    );
}

#[test]
fn an_incomplete_windows_archive_is_rejected() {
    let mut files = Vec::new();
    assert_eq!(
        extract_windows_archive(&zip_of(&[("gocode.exe", b"app")]), "/s", &mut files),
        Err(UpdateError::UnsafeArchive(
            "archive must contain gocode.exe and gocode-updater.exe".to_string()
        ))
    );
    assert_eq!(files.len(), 1);
    assert!(matches!(
        extract_windows_archive(&b"no archive".to_vec(), "/s", &mut files),
        Err(UpdateError::UnsafeArchive(_))
    ));
    assert_eq!(
        extract_windows_archive(&zip_of(&[("sub/gocode.exe", b"app")]), "/s", &mut files),
        Err(UpdateError::UnsafeArchive(
            "unexpected archive entry: sub/gocode.exe".to_string()
        ))
    );
}

fn tar_of(files: &[(&str, &str)]) -> Vec<u8> {
    let encoder = flate2::write::GzEncoder::new(Vec::new(), flate2::Compression::fast());
    let mut builder = tar::Builder::new(encoder);
    for (name, contents) in files {
        let mut header = tar::Header::new_gnu();
        header.set_size(contents.len() as u64);
        header.set_mode(0o755);
        header.set_cksum();
        builder
            .append_data(&mut header, name, contents.as_bytes())
            .unwrap();
    }
    builder.into_inner().unwrap().finish().unwrap()
}

#[test]
fn linux_archive_extracts_only_the_gocode_binary() {
    let archive = tar_of(&[
        ("gocode-0.2.0-linux-x86_64/gocode", "new binary!"),
        ("gocode-0.2.0-linux-x86_64/LICENSE", "license"),
    ]);
    let mut unpack = Vec::new();
    let extracted = extract_linux_archive(&archive, "/staging", &mut unpack).unwrap();
    assert_eq!(extracted, "/staging/gocode");
    assert_eq!(unpack, [0]);
}

#[test]
fn linux_archive_rejects_entries_outside_a_single_top_level_directory() {
    // No wrapping top-level directory, unlike every real release archive.
    let archive = tar_of(&[("gocode", "bad")]);
    assert!(matches!(
        extract_linux_archive(&archive, "/staging", &mut Vec::new()),
        Err(UpdateError::UnsafeArchive(_))
    ));
}

#[test]
fn an_incomplete_linux_archive_is_rejected() {
    assert_eq!(
        extract_linux_archive(&tar_of(&[("top/README", "x")]), "/s", &mut Vec::new()),
        Err(UpdateError::UnsafeArchive(
            "archive must contain a gocode executable".to_string()
        ))
    );
    assert!(matches!(
        extract_linux_archive(&b"no archive".to_vec(), "/s", &mut Vec::new()),
        Err(UpdateError::UnsafeArchive(_))
    ));
    assert_eq!(judge_tar_path("top/gocode", &None).0, EntryUse::App);
    assert_eq!(judge_tar_path("top/./LICENSE", &None).0, EntryUse::Skip);
    for path in ["./top/gocode", "/top/gocode", "../gocode", "a/b/gocode", "a/.."] {
        assert_eq!(judge_tar_path(path, &None).0, EntryUse::Unsafe);
    }
}

fn published(tag: &str, draft: bool, prerelease: bool) -> PublishedRelease {
    PublishedRelease {
        tag_name: tag.to_string(),
        body: None,
        draft,
        prerelease,
        assets: vec![asset("x")],
    }
}

#[test]
fn drafts_and_prereleases_are_left_out() {
    let releases = stable_releases(vec![
        published("not a version", true, false),
        published("v1.0.0", false, false),
        published("v2.0.0-rc.1", false, true),
        published("1.1.0", false, false),
    ])
    .unwrap();
    let versions: Vec<_> = releases.iter().map(|r| r.version.as_str()).collect();
    assert_eq!(versions, ["1.0.0", "1.1.0"]);
    assert_eq!(releases[0].notes, "");
    assert_eq!(releases[0].assets, vec![asset("x")]);
    let error = try_from_published(published("vnext", false, false)).unwrap_err();
    assert!(error.message().starts_with("invalid release tag vnext: "));
    assert!(stable_releases(vec![published("oops", false, false)]).is_err());
}

#[test]
fn only_two_platforms_are_supported() {
    assert_eq!(
        current_platform_archive_suffix("windows"),
        Ok(WINDOWS_ARCHIVE_SUFFIX)
    );
    assert_eq!(
        current_platform_archive_suffix("linux"),
        Ok(LINUX_ARCHIVE_SUFFIX)
    );
    assert_eq!(
        current_platform_archive_suffix("macos"),
        Err(UpdateError::UnsupportedPlatform)
    );
}

#[test]
fn a_download_reports_its_progress() {
    let mut download = Download::start(Some(10));
    assert_eq!(download.advance(4), (4, Some(10)));
    assert_eq!(download.advance(6), (10, Some(10)));
    assert_eq!(partial_path("/s"), "/s/download.partial");
    assert_eq!(download_path("/s"), "/s/release.download");
}

#[test]
fn replacing_is_tried_a_hundred_times() {
    assert_eq!(after_attempt(1, &Ok(())), AfterAttempt::Restart);
    let failed = Err(UpdateError::ChecksumMismatch);
    assert_eq!(
        after_attempt(99, &failed),
        AfterAttempt::TryAgain { wait_ms: 100 }
    );
    assert_eq!(
        after_attempt(100, &failed),
        AfterAttempt::GiveUp {
            wait_ms: 100,
            message: "Gocode could not verify the downloaded update.".to_string()
        }
    );
    assert_eq!(failure_text("x"), "Gocode update failed: x");
    assert_eq!(
        restart_error("x"),
        UpdateError::Replace("could not restart Gocode: x".to_string())
    );
}

#[test]
fn update_errors_are_shown_in_words() {
    for (error, expected) in [
        (UpdateError::Network("x".to_string()), "x"),
        (UpdateError::InvalidRelease("x".to_string()), "x"),
        (UpdateError::UnsafeArchive("x".to_string()), "x"),
        (UpdateError::Io("x".to_string()), "x"),
        (UpdateError::Replace("x".to_string()), "x"),
        (UpdateError::Rollback("x".to_string()), "x"),
        (
            UpdateError::AssetNotFound,
            "The release does not contain the required update files.",
        ),
        (
            UpdateError::ChecksumMissing,
            "The release does not provide a checksum for the update archive.",
        ),
        (
            UpdateError::ChecksumMismatch,
            "Gocode could not verify the downloaded update.",
        ),
        (
            UpdateError::UnsupportedPlatform,
            "Automatic updates are currently available only on Windows and Linux.",
        ),
    ] {
        assert_eq!(error.message(), expected);
    }
}

#[test]
fn linux_archive_rejects_files_under_two_top_level_directories() {
    let archive = tar_of(&[("one/gocode", "app"), ("two/LICENSE", "license")]);
    let mut unpack = Vec::new();
    assert_eq!(
        extract_linux_archive(&archive, "/staging", &mut unpack),
        Err(UpdateError::UnsafeArchive(
            "unexpected archive entry: two/LICENSE".to_string()
        ))
    );
    assert_eq!(unpack, [0]);
    assert_eq!(
        judge_tar_path("one/gocode", &None),
        (EntryUse::App, Some("one".to_string()))
    );
    assert_eq!(
        judge_tar_path("two/gocode", &Some("one".to_string())),
        (EntryUse::Unsafe, None)
    );
}
