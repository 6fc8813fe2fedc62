//! The remote cache subscriber: it asks the remote whether an archive exists, uploads new
//! archives, and downloads archives before they are hydrated.
use vstd::prelude::*;
use crate::cache::CacheMode;
use crate::emitter::EventFlow;
use crate::fxcollections::{url_table, url_table_contains, url_table_get, url_table_insert, url_table_new, UrlTable};
use crate::text::opt_view;

verus! {

/// The events the remote cache answers.
pub enum RemoteCacheEvent {
    /// Is the archive with this hash cached?
    TargetOutputCacheCheck(String),
    /// An archive was made: its hash, its target, and whether its file exists.
    TargetOutputArchived { hash: String, target: String, archive_exists: bool },
    /// The outputs with this hash are about to be hydrated.
    TargetOutputHydrating(String),
    /// Any other event; whether it is the last one.
    Other(bool),
}

/// What the subscriber does for an event.
pub enum RemoteCacheAction {
    /// Nothing.
    Nothing,
    /// Ask the remote for the archive with this hash.
    LookupArtifact(String),
    /// Upload the archive in the background.
    UploadArtifact { hash: String, target: String },
    /// Download the archive from the address, before the local cache hydrates it.
    DownloadArtifact { hash: String, url: Option<String> },
    /// Wait for the background uploads to end.
    AwaitUploads,
}

/// An action by the characters of its strings.
pub enum RemoteCacheActionView {
    Nothing,
    LookupArtifact(Seq<char>),
    UploadArtifact { hash: Seq<char>, target: Seq<char> },
    DownloadArtifact { hash: Seq<char>, url: Option<Seq<char>> },
    AwaitUploads,
}

impl View for RemoteCacheAction {
    type V = RemoteCacheActionView;

    open spec fn view(&self) -> RemoteCacheActionView {
        match self {
            RemoteCacheAction::Nothing => RemoteCacheActionView::Nothing,
            RemoteCacheAction::LookupArtifact(h) => RemoteCacheActionView::LookupArtifact(h@),
            RemoteCacheAction::UploadArtifact { hash, target } =>
                RemoteCacheActionView::UploadArtifact { hash: hash@, target: target@ },
            RemoteCacheAction::DownloadArtifact { hash, url } =>
                RemoteCacheActionView::DownloadArtifact { hash: hash@, url: opt_view(*url) },
            RemoteCacheAction::AwaitUploads => RemoteCacheActionView::AwaitUploads,
        }
    }
}

/// What the remote answered to a lookup.
pub enum ArtifactLookup {
    /// The archive exists: its hash and where it can be downloaded from.
    Found(String, Option<String>),
    /// The archive does not exist.
    Missing,
    /// The request failed; the failure is reported and the local cache is tried.
    Failed,
}

/// What the subscriber does for an event, given the addresses it learned, whether the
/// workspace is signed in to the remote, and the cache mode.
pub open spec fn remote_action(
    table: Map<Seq<char>, Option<Seq<char>>>,
    event: RemoteCacheEvent,
    signed_in: bool,
    mode: CacheMode,
) -> RemoteCacheActionView {
    let readable = mode == CacheMode::Read || mode == CacheMode::ReadWrite;
    let writable = mode == CacheMode::ReadWrite || mode == CacheMode::Write;
    if !signed_in {
        RemoteCacheActionView::Nothing
    } else {
        match event {
            RemoteCacheEvent::TargetOutputCacheCheck(hash) => if readable {
                RemoteCacheActionView::LookupArtifact(hash@)
            } else {
                RemoteCacheActionView::Nothing
            },
            RemoteCacheEvent::TargetOutputArchived { hash, target, archive_exists } => if writable && archive_exists {
                RemoteCacheActionView::UploadArtifact { hash: hash@, target: target@ }
            } else {
                RemoteCacheActionView::Nothing
            },
            RemoteCacheEvent::TargetOutputHydrating(hash) => if readable && table.contains_key(hash@) {
                RemoteCacheActionView::DownloadArtifact { hash: hash@, url: table[hash@] }
            } else {
                RemoteCacheActionView::Nothing
            },
            RemoteCacheEvent::Other(is_end) => if is_end {
                RemoteCacheActionView::AwaitUploads
            } else {
                RemoteCacheActionView::Nothing
            },
        }
    }
}

/// Downloads artifacts from, and uploads them to, the remote cache.
pub struct MoonbaseCacheSubscriber {
    /// Where each archive found on the remote can be downloaded from.
    pub hash_urls: UrlTable,
}

impl MoonbaseCacheSubscriber {
    /// A subscriber that has found no archive yet.
    pub fn new() -> (s: MoonbaseCacheSubscriber)
        ensures
            url_table(s.hash_urls).dom() == Set::<Seq<char>>::empty(),
    {
        MoonbaseCacheSubscriber { hash_urls: url_table_new() }
    }

    /// Decides what the subscriber does for an event: nothing unless signed in; a lookup
    /// for a cache check when the cache is readable; an upload of a made archive when it is
    /// writable and the archive exists; a download of an archive found earlier before its
    /// outputs are hydrated, when readable; and a wait for the uploads on the last event.
    pub fn on_emit(&self, event: &RemoteCacheEvent, signed_in: bool, mode: CacheMode) -> (r: RemoteCacheAction)
        ensures
            r@ == remote_action(url_table(self.hash_urls), *event, signed_in, mode),
            signed_in && (mode == CacheMode::Read || mode == CacheMode::ReadWrite) ==> match *event {
                RemoteCacheEvent::TargetOutputCacheCheck(h) => r@ == RemoteCacheActionView::LookupArtifact(h@),
                _ => true,
            },
            signed_in && (mode == CacheMode::Write || mode == CacheMode::ReadWrite) ==> match *event {
                RemoteCacheEvent::TargetOutputArchived { hash, target, archive_exists } => archive_exists ==>
                    r@ == (RemoteCacheActionView::UploadArtifact { hash: hash@, target: target@ }),
                _ => true,
            },
            signed_in && (*event matches RemoteCacheEvent::Other(is_end) && is_end) ==> r is AwaitUploads,
            !signed_in ==> r is Nothing,
    {
        if !signed_in {
            return RemoteCacheAction::Nothing;
        }
        match event {
            RemoteCacheEvent::TargetOutputCacheCheck(hash) => {
                if mode.is_readable() {
                    RemoteCacheAction::LookupArtifact(hash.clone())
                } else {
                    RemoteCacheAction::Nothing
                }
            },
            RemoteCacheEvent::TargetOutputArchived { hash, target, archive_exists } => {
                if mode.is_writable() && *archive_exists {
                    RemoteCacheAction::UploadArtifact { hash: hash.clone(), target: target.clone() }
                } else {
                    RemoteCacheAction::Nothing
                }
            },
            RemoteCacheEvent::TargetOutputHydrating(hash) => {
                if mode.is_readable() && url_table_contains(&self.hash_urls, hash.as_str()) {
                    match url_table_get(&self.hash_urls, hash.as_str()) {
                        Some(url) => RemoteCacheAction::DownloadArtifact { hash: hash.clone(), url: url.clone() },
                        None => RemoteCacheAction::Nothing,
                    }
                } else {
                    RemoteCacheAction::Nothing
                }
            },
            RemoteCacheEvent::Other(is_end) => {
                if *is_end {
                    RemoteCacheAction::AwaitUploads
                } else {
                    RemoteCacheAction::Nothing
                }
            },
        }
    }

    /// Takes in the remote's answer to a lookup: a found archive's address is kept and the
    /// cache check is answered `remote-cache`; otherwise the check goes on to the local cache.
    pub fn on_artifact_lookup(&mut self, lookup: ArtifactLookup) -> (r: EventFlow)
        ensures
            match lookup {
                ArtifactLookup::Found(hash, url) => {
                    &&& url_table(final(self).hash_urls) == url_table(old(self).hash_urls).insert(hash@, opt_view(url))
                    &&& r matches EventFlow::Return(v) && v@ == "remote-cache"@
                },
                _ => url_table(final(self).hash_urls) == url_table(old(self).hash_urls) && r is Continue,
            },
    {
        match lookup {
            ArtifactLookup::Found(hash, url) => {
                url_table_insert(&mut self.hash_urls, hash, url);
                EventFlow::Return(String::from_str("remote-cache"))
            },
            _ => EventFlow::Continue,
        }
    }
}

/// What follows the download of an archive before its outputs are hydrated.
pub struct DownloadFollowUp {
    /// How the hydrating event goes on.
    pub flow: EventFlow,
    /// Whether the download's failure is reported as a warning.
    pub warn: bool,
}

impl MoonbaseCacheSubscriber {
    /// Takes in how the download of an archive ended. Either way the hydrating event goes on
    /// to the local cache, which unpacks the outputs from the archive the download put in
    /// place, or from its own archive when the download failed; a failure is reported as a
    /// warning and does not stop the run.
    pub fn on_artifact_download(&self, downloaded: bool) -> (r: DownloadFollowUp)
        ensures
            r.flow is Continue,
            r.warn == !downloaded,
    {
        DownloadFollowUp { flow: EventFlow::Continue, warn: !downloaded }
    }
}

/// An archive that a lookup found is the one downloaded when its outputs are hydrated:
/// after the remote answers a lookup with an address, hydrating the same hash downloads
/// from that address.
pub proof fn law_found_archive_is_downloaded(
    table: Map<Seq<char>, Option<Seq<char>>>,
    hash: String,
    url: Option<String>,
    mode: CacheMode,
)
    requires
        mode == CacheMode::Read || mode == CacheMode::ReadWrite,
    ensures
        remote_action(table.insert(hash@, opt_view(url)), RemoteCacheEvent::TargetOutputHydrating(hash), true, mode)
            == (RemoteCacheActionView::DownloadArtifact { hash: hash@, url: opt_view(url) }),
{
}

/// Signed in with a readable cache (read-only or read-write), every cache check asks the
/// remote for the archive with the checked hash; with a cache that cannot be read
/// (write-only or off), the remote is never asked.
pub proof fn law_readable_cache_checks_ask_the_remote(
    table: Map<Seq<char>, Option<Seq<char>>>,
    hash: String,
    mode: CacheMode,
)
    ensures
        mode == CacheMode::Read || mode == CacheMode::ReadWrite ==>
            remote_action(table, RemoteCacheEvent::TargetOutputCacheCheck(hash), true, mode)
                == RemoteCacheActionView::LookupArtifact(hash@),
        mode == CacheMode::Write || mode == CacheMode::Off ==>
            remote_action(table, RemoteCacheEvent::TargetOutputCacheCheck(hash), true, mode)
                == RemoteCacheActionView::Nothing,
{
}

/// Signed in with a writable cache (write-only or read-write), every archive that exists is
/// uploaded under its hash and target.
pub proof fn law_writable_cache_uploads_archives(
    table: Map<Seq<char>, Option<Seq<char>>>,
    hash: String,
    target: String,
    mode: CacheMode,
)
    requires
        mode == CacheMode::Write || mode == CacheMode::ReadWrite,
    ensures
        remote_action(table, RemoteCacheEvent::TargetOutputArchived { hash, target, archive_exists: true }, true, mode)
            == (RemoteCacheActionView::UploadArtifact { hash: hash@, target: target@ }),
{
}

/// Signed in, the last event waits for the uploads still running, whatever the cache mode.
pub proof fn law_last_event_awaits_uploads(table: Map<Seq<char>, Option<Seq<char>>>, mode: CacheMode)
    ensures
        remote_action(table, RemoteCacheEvent::Other(true), true, mode) == RemoteCacheActionView::AwaitUploads,
        remote_action(table, RemoteCacheEvent::Other(false), true, mode) == RemoteCacheActionView::Nothing,
{
}

/// Without a session the subscriber does nothing, whatever the event.
pub proof fn law_no_session_no_action(
    table: Map<Seq<char>, Option<Seq<char>>>,
    event: RemoteCacheEvent,
    mode: CacheMode,
)
    ensures
        remote_action(table, event, false, mode) == RemoteCacheActionView::Nothing,
{
}

/// Nothing is sent to the remote when the cache is off.
pub proof fn law_off_cache_stays_local(
    table: Map<Seq<char>, Option<Seq<char>>>,
    event: RemoteCacheEvent,
    signed_in: bool,
)
    ensures
        remote_action(table, event, signed_in, CacheMode::Off) is Nothing
            || remote_action(table, event, signed_in, CacheMode::Off) is AwaitUploads,
{
}

}
