use rebuild_dispatch::artifact::{artifact_filename, locate_artifact, ParsedUrl, UrlError};
use rebuild_dispatch::rebuild::{rebuild, script_candidate, Action, Distro, Event, Rebuild, RebuildError, Stage};

fn started() -> Rebuild {
    let (state, _) = rebuild(&Distro::Debian, "https://example.com/pool/hello_1.0.deb").unwrap();
    state
}

fn running() -> Rebuild {
    let (s, _) = started().step(Event::Downloaded { input: Some("/tmp/w/hello_1.0.deb".to_string()) });
    let (s, _) = s.step(Event::Probed { exists: true });
    s
}

#[test]
fn locate_takes_last_segment_and_normalizes() {
    let a = locate_artifact("HTTPS://Example.COM/pool/../main/hello_1.0.deb").ok().unwrap();
    assert_eq!(a.url, "https://example.com/main/hello_1.0.deb");
    assert_eq!(a.filename, "hello_1.0.deb");
}

#[test]
fn locate_refuses_text_that_is_no_url() {
    assert!(matches!(locate_artifact("not a url"), Err(UrlError::Invalid)));
    assert!(matches!(locate_artifact(""), Err(UrlError::Invalid)));
}

#[test]
fn locate_refuses_url_without_path_segments() {
    assert!(matches!(locate_artifact("data:text/plain,HelloWorld"), Err(UrlError::NoPath)));
    assert!(matches!(locate_artifact("mailto:someone@example.com"), Err(UrlError::NoPath)));
}

#[test]
fn locate_refuses_empty_filename() {
    assert!(matches!(locate_artifact("https://example.com"), Err(UrlError::EmptyFilename)));
    assert!(matches!(locate_artifact("https://example.com/pool/"), Err(UrlError::EmptyFilename)));
}

#[test]
fn filename_of_parsed_values() {
    let none = ParsedUrl { text: "x:".to_string(), segments: None };
    assert!(matches!(artifact_filename(&none), Err(UrlError::NoPath)));
    let empty = ParsedUrl { text: "x:".to_string(), segments: Some(vec![]) };
    assert!(matches!(artifact_filename(&empty), Err(UrlError::NoFilename)));
    let blank = ParsedUrl { text: "x:".to_string(), segments: Some(vec!["a".to_string(), "".to_string()]) };
    assert!(matches!(artifact_filename(&blank), Err(UrlError::EmptyFilename)));
    let good = ParsedUrl { text: "x:".to_string(), segments: Some(vec!["a".to_string(), "b".to_string()]) };
    assert_eq!(artifact_filename(&good).ok().unwrap(), "b");
}

#[test]
fn rebuild_without_path_segments_fails_before_any_action() {
    let r = rebuild(&Distro::Archlinux, "data:text/plain,HelloWorld");
    assert!(matches!(r, Err(RebuildError::Url(UrlError::NoPath))));
    let r = rebuild(&Distro::Archlinux, "https://example.com/");
    assert!(matches!(r, Err(RebuildError::Url(UrlError::EmptyFilename))));
    let r = rebuild(&Distro::Archlinux, "::");
    assert!(matches!(r, Err(RebuildError::Url(UrlError::Invalid))));
}

#[test]
fn rebuild_starts_with_download() {
    let (state, action) = rebuild(&Distro::Debian, "https://example.com/pool/hello_1.0.deb").unwrap();
    assert_eq!(state.stage, Stage::Fetching);
    assert_eq!(state.filename, "hello_1.0.deb");
    match action {
        Action::Download { url, filename } => {
            assert_eq!(url, "https://example.com/pool/hello_1.0.deb");
            assert_eq!(filename, "hello_1.0.deb");
        }
        _ => panic!("expected a download"),
    }
}

#[test]
fn script_candidates_in_order() {
    assert_eq!(script_candidate(Distro::Archlinux, 0), "./rebuilder-archlinux.sh");
    assert_eq!(script_candidate(Distro::Archlinux, 1), "/usr/libexec/rebuilderd/rebuilder-archlinux.sh");
    assert_eq!(script_candidate(Distro::Debian, 2), "/usr/local/libexec/rebuilderd/rebuilder-debian.sh");
}

#[test]
fn download_failure_ends_rebuild() {
    let (s, a) = started().step(Event::DownloadFailed);
    assert_eq!(s.stage, Stage::Finished);
    assert!(matches!(a, Action::Finish(Err(RebuildError::Download))));
    let (_, a) = started().step(Event::Downloaded { input: None });
    assert!(matches!(a, Action::Finish(Err(RebuildError::InputPath))));
}

#[test]
fn probes_every_prefix_then_gives_up() {
    let (s, a) = started().step(Event::Downloaded { input: Some("/tmp/w/hello_1.0.deb".to_string()) });
    assert_eq!(s.stage, Stage::Probing(0));
    assert!(matches!(a, Action::Probe { ref path } if path == "./rebuilder-debian.sh"));
    let (s, a) = s.step(Event::Probed { exists: false });
    assert_eq!(s.stage, Stage::Probing(1));
    assert!(matches!(a, Action::Probe { ref path } if path == "/usr/libexec/rebuilderd/rebuilder-debian.sh"));
    let (s, a) = s.step(Event::Probed { exists: false });
    assert!(matches!(a, Action::Probe { ref path } if path == "/usr/local/libexec/rebuilderd/rebuilder-debian.sh"));
    let (s, a) = s.step(Event::Probed { exists: false });
    assert_eq!(s.stage, Stage::Finished);
    assert!(matches!(a, Action::Finish(Err(RebuildError::ScriptNotFound))));
}

#[test]
fn first_existing_script_is_run_with_url_and_input() {
    let (s, _) = started().step(Event::Downloaded { input: Some("/tmp/w/hello_1.0.deb".to_string()) });
    let (s, _) = s.step(Event::Probed { exists: false });
    let (s, a) = s.step(Event::Probed { exists: true });
    assert_eq!(s.stage, Stage::Running);
    match a {
        Action::Run { script, url, input } => {
            assert_eq!(script, "/usr/libexec/rebuilderd/rebuilder-debian.sh");
            assert_eq!(url, "https://example.com/pool/hello_1.0.deb");
            assert_eq!(input, "/tmp/w/hello_1.0.deb");
        }
        _ => panic!("expected a run"),
    }
}

#[test]
fn failed_script_is_a_mismatch_without_output_check() {
    let (s, a) = running().step(Event::Exited { success: false });
    assert_eq!(s.stage, Stage::Finished);
    assert!(matches!(a, Action::Finish(Ok(false))));
}

#[test]
fn script_that_cannot_start_is_an_error() {
    let (_, a) = running().step(Event::SpawnFailed);
    assert!(matches!(a, Action::Finish(Err(RebuildError::Spawn))));
}

#[test]
fn successful_script_with_output_is_good() {
    let (s, a) = running().step(Event::Exited { success: true });
    assert_eq!(s.stage, Stage::Checking);
    assert!(matches!(a, Action::CheckOutput { ref path } if path == "./build/hello_1.0.deb"));
    let (s, a) = s.step(Event::OutputChecked { exists: true });
    assert_eq!(s.stage, Stage::Finished);
    assert!(matches!(a, Action::Finish(Ok(true))));
}

#[test]
fn successful_script_without_output_is_an_error_not_a_mismatch() {
    let (s, _) = running().step(Event::Exited { success: true });
    let (s, a) = s.step(Event::OutputChecked { exists: false });
    assert_eq!(s.stage, Stage::Finished);
    assert!(matches!(a, Action::Finish(Err(RebuildError::OutputMissing))));
    assert!(!matches!(a, Action::Finish(Ok(false))));
}

#[test]
fn event_out_of_turn_ends_rebuild() {
    let (s, a) = started().step(Event::Exited { success: true });
    assert_eq!(s.stage, Stage::Finished);
    assert!(matches!(a, Action::Finish(Err(RebuildError::Unexpected))));
    let (_, a) = s.step(Event::Probed { exists: true });
    assert!(matches!(a, Action::Finish(Err(RebuildError::Unexpected))));
}

#[test]
fn distro_names() {
    assert_eq!(Distro::parse("archlinux"), Some(Distro::Archlinux));
    assert_eq!(Distro::parse("debian"), Some(Distro::Debian));
    assert_eq!(Distro::parse("Debian"), None);
    assert_eq!(Distro::parse(""), None);
}
