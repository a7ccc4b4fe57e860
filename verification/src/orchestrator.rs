//! The acquisition state machine.
//!
//! One acquisition runs as a detached task: create the storage directory,
//! connect, create the destination file, consume the byte stream chunk by
//! chunk, then optionally extract. The decisions of that task live here as a
//! step function from state and event to next state and emissions; the
//! process boundary performs the network and filesystem work and feeds the
//! outcomes back as events. Every failure is terminal and is reported as a
//! single error emission scoped to the asset's name; nothing is retried.

use vstd::prelude::*;
use vstd::string::StringExecFns;

use crate::paths::spec_join;
use crate::paths::spec_resolve;
use crate::paths::join_path;
use crate::paths::resolve;
use crate::progress::DownloadState;
use crate::progress::spec_progress;
use crate::text::spec_download_filename;
use crate::text::filename_from_url;

verus! {

/// One request to acquire an asset. Immutable once accepted.
pub struct AcquisitionRequest {
    /// The asset's category, pluralized into the storage layout.
    pub asset_category: String,
    /// The asset's name; every emission is scoped to it.
    pub asset_name: String,
    /// Where the archive is downloaded from.
    pub source_url: String,
    /// When set, the downloaded file is left as is.
    pub skip_extraction: bool,
}

/// The kind of a lifecycle emission.
#[derive(Clone, Copy, PartialEq, Eq, Structural, Debug)]
pub enum EventKind {
    DownloadProgress,
    DownloadError,
    DownloadComplete,
    ExtractError,
    ExtractComplete,
}

/// The channel prefix of each emission kind.
pub open spec fn kind_prefix(k: EventKind) -> Seq<char> {
    match k {
        EventKind::DownloadProgress => "download_progress"@,
        EventKind::DownloadError => "download_error"@,
        EventKind::DownloadComplete => "download_complete"@,
        EventKind::ExtractError => "extract_error"@,
        EventKind::ExtractComplete => "extract_complete"@,
    }
}

/// The full channel name of an emission: its kind's prefix, a colon, and the
/// asset name it is scoped to.
pub open spec fn spec_channel(k: EventKind, asset: Seq<char>) -> Seq<char> {
    kind_prefix(k) + seq![':'] + asset
}

/// Build the channel name for an emission kind, scoped to an asset.
pub fn event_channel(k: EventKind, asset: &str) -> (r: String)
    ensures
        r@ == spec_channel(k, asset@),
{
    proof {
        reveal_strlit(":");
        assert(":"@ =~= seq![':']);
    }
    let mut s = match k {
        EventKind::DownloadProgress => "download_progress".to_owned(),
        EventKind::DownloadError => "download_error".to_owned(),
        EventKind::DownloadComplete => "download_complete".to_owned(),
        EventKind::ExtractError => "extract_error".to_owned(),
        EventKind::ExtractComplete => "extract_complete".to_owned(),
    };
    s.append(":");
    s.append(asset);
    s
}

/// The payload carried by an emission: a progress value in hundredths of a
/// percent, or a text (a path on completion, a message on error).
pub enum Payload {
    Percent(u64),
    Text(String),
}

/// One emission pushed through the notification surface.
pub struct Emission {
    /// The channel the emission is delivered on.
    pub channel: String,
    /// What it carries.
    pub payload: Payload,
}

/// The mathematical form of a payload.
pub enum PayloadModel {
    Percent(int),
    Text(Seq<char>),
}

/// The mathematical form of an emission.
pub struct EmissionModel {
    pub channel: Seq<char>,
    pub payload: PayloadModel,
}

impl View for Payload {
    type V = PayloadModel;

    open spec fn view(&self) -> PayloadModel {
        match self {
            Payload::Percent(p) => PayloadModel::Percent(*p as int),
            Payload::Text(t) => PayloadModel::Text(t@),
        }
    }
}

impl View for Emission {
    type V = EmissionModel;

    open spec fn view(&self) -> EmissionModel {
        EmissionModel { channel: self.channel@, payload: self.payload@ }
    }
}

/// The views of a sequence of emissions.
pub open spec fn emission_views(s: Seq<Emission>) -> Seq<EmissionModel> {
    s.map_values(|e: Emission| e@)
}

/// Where an acquisition stands.
#[derive(Clone, Copy)]
pub enum Phase {
    /// Ensuring the storage directory exists; nothing has happened yet.
    CreatingDir,
    /// The directory exists; the request is being sent.
    Connecting,
    /// The response arrived with the given content length; the destination
    /// file is being created.
    CreatingFile(Option<u64>),
    /// Chunks are being written.
    Downloading(DownloadState),
    /// The download completed and the archive is being extracted.
    Extracting,
    /// Terminal: the acquisition finished.
    Done,
    /// Terminal: the acquisition failed; the error was emitted.
    Failed,
}

/// One in-flight acquisition: its request, its derived paths, and its phase.
pub struct Acquisition {
    /// The request being served.
    pub request: AcquisitionRequest,
    /// The storage directory resolved for the asset.
    pub base_dir: String,
    /// The destination file inside the storage directory.
    pub file_path: String,
    /// Where the acquisition stands.
    pub phase: Phase,
}

/// The outcome of one piece of outside work, fed back to the machine.
pub enum FetchEvent {
    /// The storage directory now exists.
    DirCreated,
    /// The storage directory could not be created.
    DirCreateFailed(String),
    /// The response arrived, with the content length the server announced.
    Connected(Option<u64>),
    /// The request failed in transport.
    ConnectFailed(String),
    /// The destination file was created.
    FileCreated,
    /// The destination file could not be created.
    FileCreateFailed(String),
    /// One chunk of this many bytes was appended to the destination file.
    ChunkWritten(u64),
    /// A chunk could not be written.
    ChunkWriteFailed(String),
    /// The byte stream failed mid-download.
    StreamFailed(String),
    /// The byte stream ended.
    StreamEnded,
    /// Extraction finished.
    ExtractFinished,
    /// Extraction failed.
    ExtractFailed(String),
}

/// The phase an acquisition moves to on an event. Events that do not belong
/// to the current phase change nothing.
pub open spec fn spec_step_phase(phase: Phase, ev: FetchEvent, skip_extraction: bool) -> Phase {
    match (phase, ev) {
        (Phase::CreatingDir, FetchEvent::DirCreated) => Phase::Connecting,
        (Phase::CreatingDir, FetchEvent::DirCreateFailed(_)) => Phase::Failed,
        (Phase::Connecting, FetchEvent::Connected(total)) => Phase::CreatingFile(total),
        (Phase::Connecting, FetchEvent::ConnectFailed(_)) => Phase::Failed,
        (Phase::CreatingFile(total), FetchEvent::FileCreated) => Phase::Downloading(
            DownloadState { bytes_downloaded: 0, total_bytes: total },
        ),
        (Phase::CreatingFile(_), FetchEvent::FileCreateFailed(_)) => Phase::Failed,
        (Phase::Downloading(ds), FetchEvent::ChunkWritten(len)) => Phase::Downloading(
            DownloadState {
                bytes_downloaded: (ds.bytes_downloaded + len) as u64,
                total_bytes: ds.total_bytes,
            },
        ),
        (Phase::Downloading(_), FetchEvent::ChunkWriteFailed(_)) => Phase::Failed,
        (Phase::Downloading(_), FetchEvent::StreamFailed(_)) => Phase::Failed,
        (Phase::Downloading(_), FetchEvent::StreamEnded) => if skip_extraction {
            Phase::Done
        } else {
            Phase::Extracting
        },
        (Phase::Extracting, FetchEvent::ExtractFinished) => Phase::Done,
        (Phase::Extracting, FetchEvent::ExtractFailed(_)) => Phase::Failed,
        _ => phase,
    }
}

/// One error emission on the given kind's channel, carrying the given
/// prefix followed by the underlying message.
pub open spec fn error_emission(
    k: EventKind,
    asset: Seq<char>,
    prefix: Seq<char>,
    msg: Seq<char>,
) -> Seq<EmissionModel> {
    seq![
        EmissionModel {
            channel: spec_channel(k, asset),
            payload: PayloadModel::Text(prefix + msg),
        },
    ]
}

/// The emissions an acquisition makes on an event: a progress report for
/// every chunk, a completion carrying the relevant path for each finished
/// stage, and exactly one error for a failure. Events that do not belong to
/// the current phase emit nothing.
pub open spec fn spec_step_emissions(
    phase: Phase,
    ev: FetchEvent,
    asset: Seq<char>,
    base_dir: Seq<char>,
    file_path: Seq<char>,
    skip_extraction: bool,
) -> Seq<EmissionModel> {
    match (phase, ev) {
        (Phase::CreatingDir, FetchEvent::DirCreateFailed(m)) => error_emission(
            EventKind::DownloadError,
            asset,
            "Failed to create directory: "@,
            m@,
        ),
        (Phase::Connecting, FetchEvent::ConnectFailed(m)) => error_emission(
            EventKind::DownloadError,
            asset,
            "Download failed: "@,
            m@,
        ),
        (Phase::CreatingFile(_), FetchEvent::FileCreateFailed(m)) => error_emission(
            EventKind::DownloadError,
            asset,
            "Failed to create file: "@,
            m@,
        ),
        (Phase::Downloading(ds), FetchEvent::ChunkWritten(len)) => seq![
            EmissionModel {
                channel: spec_channel(EventKind::DownloadProgress, asset),
                payload: PayloadModel::Percent(
                    spec_progress(ds.bytes_downloaded + len, ds.total_bytes),
                ),
            },
        ],
        (Phase::Downloading(_), FetchEvent::ChunkWriteFailed(m)) => error_emission(
            EventKind::DownloadError,
            asset,
            "Failed writing file: "@,
            m@,
        ),
        (Phase::Downloading(_), FetchEvent::StreamFailed(m)) => error_emission(
            EventKind::DownloadError,
            asset,
            "Download stream error: "@,
            m@,
        ),
        (Phase::Downloading(_), FetchEvent::StreamEnded) => seq![
            EmissionModel {
                channel: spec_channel(EventKind::DownloadComplete, asset),
                payload: PayloadModel::Text(file_path),
            },
        ],
        (Phase::Extracting, FetchEvent::ExtractFinished) => seq![
            EmissionModel {
                channel: spec_channel(EventKind::ExtractComplete, asset),
                payload: PayloadModel::Text(base_dir),
            },
        ],
        (Phase::Extracting, FetchEvent::ExtractFailed(m)) => error_emission(
            EventKind::ExtractError,
            asset,
            "Extraction failed: "@,
            m@,
        ),
        _ => Seq::empty(),
    }
}

impl Acquisition {
    /// Accept a request under the given root data directory: resolve the
    /// storage directory and derive the destination filename from the
    /// trailing segment of the source URL.
    pub fn new(request: AcquisitionRequest, root: &str) -> (r: Acquisition)
        ensures
            r.request == request,
            r.base_dir@ == spec_resolve(root@, request.asset_category@, request.asset_name@),
            r.file_path@ == spec_join(
                spec_resolve(root@, request.asset_category@, request.asset_name@),
                spec_download_filename(request.source_url@),
            ),
            r.phase == Phase::CreatingDir,
    {
        let base_dir = resolve(root, request.asset_category.as_str(), request.asset_name.as_str());
        let filename = filename_from_url(request.source_url.as_str());
        let file_path = join_path(base_dir.as_str(), filename.as_str());
        Acquisition { request, base_dir, file_path, phase: Phase::CreatingDir }
    }

    /// Advance the acquisition on one event and return the emissions to
    /// deliver for it, in order.
    pub fn step(&mut self, ev: FetchEvent) -> (out: Vec<Emission>)
        requires
            match (old(self).phase, ev) {
                (Phase::Downloading(ds), FetchEvent::ChunkWritten(len)) => ds.bytes_downloaded
                    + len <= u64::MAX,
                _ => true,
            },
        ensures
            final(self).request == old(self).request,
            final(self).base_dir == old(self).base_dir,
            final(self).file_path == old(self).file_path,
            final(self).phase == spec_step_phase(
                old(self).phase,
                ev,
                old(self).request.skip_extraction,
            ),
            emission_views(out@) == spec_step_emissions(
                old(self).phase,
                ev,
                old(self).request.asset_name@,
                old(self).base_dir@,
                old(self).file_path@,
                old(self).request.skip_extraction,
            ),
    {
        let ghost ev0 = ev;
        let mut out: Vec<Emission> = Vec::new();
        proof {
            assert(emission_views(out@) =~= Seq::<EmissionModel>::empty());
        }
        let phase = self.phase;
        match (phase, ev) {
            (Phase::CreatingDir, FetchEvent::DirCreated) => {
                self.phase = Phase::Connecting;
            },
            (Phase::CreatingDir, FetchEvent::DirCreateFailed(m)) => {
                self.phase = Phase::Failed;
                self.emit_error(
                    &mut out,
                    EventKind::DownloadError,
                    "Failed to create directory: ",
                    m,
                );
            },
            (Phase::Connecting, FetchEvent::Connected(total)) => {
                self.phase = Phase::CreatingFile(total);
            },
            (Phase::Connecting, FetchEvent::ConnectFailed(m)) => {
                self.phase = Phase::Failed;
                self.emit_error(&mut out, EventKind::DownloadError, "Download failed: ", m);
            },
            (Phase::CreatingFile(total), FetchEvent::FileCreated) => {
                self.phase = Phase::Downloading(DownloadState::new(total));
            },
            (Phase::CreatingFile(_), FetchEvent::FileCreateFailed(m)) => {
                self.phase = Phase::Failed;
                self.emit_error(&mut out, EventKind::DownloadError, "Failed to create file: ", m);
            },
            (Phase::Downloading(ds), FetchEvent::ChunkWritten(len)) => {
                let mut ds = ds;
                let p = ds.record_chunk(len);
                self.phase = Phase::Downloading(ds);
                let channel = event_channel(
                    EventKind::DownloadProgress,
                    self.request.asset_name.as_str(),
                );
                out.push(Emission { channel, payload: Payload::Percent(p) });
            },
            (Phase::Downloading(_), FetchEvent::ChunkWriteFailed(m)) => {
                self.phase = Phase::Failed;
                self.emit_error(&mut out, EventKind::DownloadError, "Failed writing file: ", m);
            },
            (Phase::Downloading(_), FetchEvent::StreamFailed(m)) => {
                self.phase = Phase::Failed;
                self.emit_error(&mut out, EventKind::DownloadError, "Download stream error: ", m);
            },
            (Phase::Downloading(_), FetchEvent::StreamEnded) => {
                let channel = event_channel(
                    EventKind::DownloadComplete,
                    self.request.asset_name.as_str(),
                );
                let path = self.file_path.clone();
                out.push(Emission { channel, payload: Payload::Text(path) });
                if self.request.skip_extraction {
                    self.phase = Phase::Done;
                } else {
                    self.phase = Phase::Extracting;
                }
            },
            (Phase::Extracting, FetchEvent::ExtractFinished) => {
                self.phase = Phase::Done;
                let channel = event_channel(
                    EventKind::ExtractComplete,
                    self.request.asset_name.as_str(),
                );
                let dir = self.base_dir.clone();
                out.push(Emission { channel, payload: Payload::Text(dir) });
            },
            (Phase::Extracting, FetchEvent::ExtractFailed(m)) => {
                self.phase = Phase::Failed;
                self.emit_error(&mut out, EventKind::ExtractError, "Extraction failed: ", m);
            },
            _ => {},
        }
        assert(emission_views(out@) =~= spec_step_emissions(
            old(self).phase,
            ev0,
            old(self).request.asset_name@,
            old(self).base_dir@,
            old(self).file_path@,
            old(self).request.skip_extraction,
        ));
        out
    }

    /// Push one error emission with the given prefix and message.
    fn emit_error(&self, out: &mut Vec<Emission>, k: EventKind, prefix: &str, m: String)
        ensures
            final(out)@.len() == old(out)@.len() + 1,
            emission_views(final(out)@) == emission_views(old(out)@) + error_emission(
                k,
                self.request.asset_name@,
                prefix@,
                m@,
            ),
    {
        let channel = event_channel(k, self.request.asset_name.as_str());
        let mut text = prefix.to_owned();
        text.append(m.as_str());
        out.push(Emission { channel, payload: Payload::Text(text) });
        assert(emission_views(out@) =~= emission_views(old(out)@) + error_emission(
            k,
            self.request.asset_name@,
            prefix@,
            m@,
        ));
    }
}

} // verus!
