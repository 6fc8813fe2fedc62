use moon_actions::runner::{hydrate_from_flow, HydrateFrom};
use moon_actions::cache::CacheMode;
use moon_actions::emitter::EventFlow;
use moon_actions::remote_cache::{ArtifactLookup, MoonbaseCacheSubscriber, RemoteCacheAction, RemoteCacheEvent};

#[test]
fn new_subscriber_knows_no_archive() {
    let s = MoonbaseCacheSubscriber::new();
    assert!(s.hash_urls.is_empty());
}

#[test]
fn nothing_without_a_session() {
    let s = MoonbaseCacheSubscriber::new();
    let e = RemoteCacheEvent::TargetOutputCacheCheck("h".into());
    assert!(matches!(s.on_emit(&e, false, CacheMode::ReadWrite), RemoteCacheAction::Nothing));
    assert!(matches!(s.on_emit(&RemoteCacheEvent::Other(true), false, CacheMode::ReadWrite), RemoteCacheAction::Nothing));
}

#[test]
fn cache_check_looks_up_when_readable() {
    let s = MoonbaseCacheSubscriber::new();
    let e = RemoteCacheEvent::TargetOutputCacheCheck("h1".into());
    match s.on_emit(&e, true, CacheMode::Read) {
        RemoteCacheAction::LookupArtifact(h) => assert_eq!(h, "h1"),
        _ => panic!("expected a lookup"),
    }
    assert!(matches!(s.on_emit(&e, true, CacheMode::Write), RemoteCacheAction::Nothing));
}

#[test]
fn found_archive_is_remembered_and_downloaded() {
    let mut s = MoonbaseCacheSubscriber::new();
    let flow = s.on_artifact_lookup(ArtifactLookup::Found("h1".into(), Some("https://cache/h1".into())));
    match flow {
        EventFlow::Return(v) => assert_eq!(v, "remote-cache"),
        EventFlow::Continue => panic!("expected an answer"),
    }
    assert_eq!(s.hash_urls.get("h1"), Some(&Some("https://cache/h1".to_string())));
    match s.on_emit(&RemoteCacheEvent::TargetOutputHydrating("h1".into()), true, CacheMode::ReadWrite) {
        RemoteCacheAction::DownloadArtifact { hash, url } => {
            assert_eq!(hash, "h1");
            assert_eq!(url.as_deref(), Some("https://cache/h1"));
        }
        _ => panic!("expected a download"),
    }
    assert!(matches!(
        s.on_emit(&RemoteCacheEvent::TargetOutputHydrating("h2".into()), true, CacheMode::ReadWrite),
        RemoteCacheAction::Nothing
    ));
    assert!(matches!(
        s.on_emit(&RemoteCacheEvent::TargetOutputHydrating("h1".into()), true, CacheMode::Write),
        RemoteCacheAction::Nothing
    ));
}

#[test]
fn missing_or_failed_lookup_continues() {
    let mut s = MoonbaseCacheSubscriber::new();
    assert!(matches!(s.on_artifact_lookup(ArtifactLookup::Missing), EventFlow::Continue));
    assert!(matches!(s.on_artifact_lookup(ArtifactLookup::Failed), EventFlow::Continue));
    assert!(s.hash_urls.is_empty());
}

#[test]
fn archives_are_uploaded_when_writable_and_present() {
    let s = MoonbaseCacheSubscriber::new();
    let e = RemoteCacheEvent::TargetOutputArchived { hash: "h".into(), target: "app:build".into(), archive_exists: true };
    match s.on_emit(&e, true, CacheMode::Write) {
        RemoteCacheAction::UploadArtifact { hash, target } => {
            assert_eq!(hash, "h");
            assert_eq!(target, "app:build");
        }
        _ => panic!("expected an upload"),
    }
    assert!(matches!(s.on_emit(&e, true, CacheMode::Read), RemoteCacheAction::Nothing));
    let missing = RemoteCacheEvent::TargetOutputArchived { hash: "h".into(), target: "t".into(), archive_exists: false };
    assert!(matches!(s.on_emit(&missing, true, CacheMode::ReadWrite), RemoteCacheAction::Nothing));
}

#[test]
fn last_event_waits_for_uploads() {
    let s = MoonbaseCacheSubscriber::new();
    assert!(matches!(s.on_emit(&RemoteCacheEvent::Other(true), true, CacheMode::Off), RemoteCacheAction::AwaitUploads));
    assert!(matches!(s.on_emit(&RemoteCacheEvent::Other(false), true, CacheMode::Off), RemoteCacheAction::Nothing));
}

#[test]
fn cache_modes() {
    assert!(CacheMode::Read.is_readable() && !CacheMode::Read.is_writable());
    assert!(CacheMode::ReadWrite.is_readable() && CacheMode::ReadWrite.is_writable());
    assert!(!CacheMode::Write.is_readable() && CacheMode::Write.is_writable() && CacheMode::Write.is_write_only());
    assert!(!CacheMode::Off.is_readable() && !CacheMode::Off.is_writable() && !CacheMode::ReadWrite.is_write_only());
}

#[test]
fn remote_answer_is_read_as_remote_hit() {
    let mut s = MoonbaseCacheSubscriber::new();
    let flow = s.on_artifact_lookup(ArtifactLookup::Found("h".into(), None));
    assert_eq!(hydrate_from_flow(&flow), Some(HydrateFrom::RemoteCache));
}

#[test]
fn off_cache_sends_nothing() {
    let mut s = MoonbaseCacheSubscriber::new();
    s.on_artifact_lookup(ArtifactLookup::Found("h".into(), Some("u".into())));
    let check = RemoteCacheEvent::TargetOutputCacheCheck("h".into());
    let archived = RemoteCacheEvent::TargetOutputArchived { hash: "h".into(), target: "t".into(), archive_exists: true };
    let hydrating = RemoteCacheEvent::TargetOutputHydrating("h".into());
    for e in [check, archived, hydrating] {
        assert!(matches!(s.on_emit(&e, true, CacheMode::Off), RemoteCacheAction::Nothing));
    }
}

#[test]
fn download_goes_on_to_the_local_cache_either_way() {
    let s = MoonbaseCacheSubscriber::new();
    let done = s.on_artifact_download(true);
    assert!(matches!(done.flow, EventFlow::Continue));
    assert!(!done.warn);
    let failed = s.on_artifact_download(false);
    assert!(matches!(failed.flow, EventFlow::Continue));
    assert!(failed.warn);
}
