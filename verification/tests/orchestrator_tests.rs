use std::io::Cursor;
use std::io::Write;

use resuma_core::archive::plan_extraction;
use resuma_core::fsmodel::FsState;
use resuma_core::orchestrator::Acquisition;
use resuma_core::orchestrator::AcquisitionRequest;
use resuma_core::orchestrator::Emission;
use resuma_core::orchestrator::EventKind;
use resuma_core::orchestrator::FetchEvent;
use resuma_core::orchestrator::Payload;
use resuma_core::orchestrator::Phase;
use resuma_core::orchestrator::event_channel;
use resuma_core::progress::PROGRESS_COMPLETE;

fn request(skip_extraction: bool) -> AcquisitionRequest {
    AcquisitionRequest {
        asset_category: "model".to_string(),
        asset_name: "tiny-7b".to_string(),
        source_url: "https://example.test/tiny-7b.zip".to_string(),
        skip_extraction,
    }
}

fn percent_of(e: &Emission) -> u64 {
    match &e.payload {
        Payload::Percent(p) => *p,
        Payload::Text(_) => panic!("expected a progress payload"),
    }
}

fn text_of(e: &Emission) -> &str {
    match &e.payload {
        Payload::Text(t) => t.as_str(),
        Payload::Percent(_) => panic!("expected a text payload"),
    }
}

#[test]
fn event_channels_are_scoped_to_the_asset() {
    assert_eq!(event_channel(EventKind::DownloadProgress, "tiny-7b"), "download_progress:tiny-7b");
    assert_eq!(event_channel(EventKind::DownloadError, "tiny-7b"), "download_error:tiny-7b");
    assert_eq!(event_channel(EventKind::DownloadComplete, "x"), "download_complete:x");
    assert_eq!(event_channel(EventKind::ExtractError, "x"), "extract_error:x");
    assert_eq!(event_channel(EventKind::ExtractComplete, "x"), "extract_complete:x");
}

#[test]
fn acquisition_derives_its_paths() {
    let acq = Acquisition::new(request(false), "/data");
    assert_eq!(acq.base_dir, "/data/com.resuma.app/models/tiny-7b");
    assert_eq!(acq.file_path, "/data/com.resuma.app/models/tiny-7b/tiny-7b.zip");
    assert!(matches!(acq.phase, Phase::CreatingDir));
}

#[test]
fn directory_failure_short_circuits_before_any_network_work() {
    let mut acq = Acquisition::new(request(false), "/data");
    let out = acq.step(FetchEvent::DirCreateFailed("disk full".to_string()));
    assert_eq!(out.len(), 1);
    assert_eq!(out[0].channel, "download_error:tiny-7b");
    assert_eq!(text_of(&out[0]), "Failed to create directory: disk full");
    assert!(matches!(acq.phase, Phase::Failed));
    // a later event is out of protocol and does nothing
    let out = acq.step(FetchEvent::Connected(Some(10)));
    assert!(out.is_empty());
    assert!(matches!(acq.phase, Phase::Failed));
}

#[test]
fn connect_failure_is_reported_on_the_download_channel() {
    let mut acq = Acquisition::new(request(false), "/data");
    assert!(acq.step(FetchEvent::DirCreated).is_empty());
    let out = acq.step(FetchEvent::ConnectFailed("refused".to_string()));
    assert_eq!(out.len(), 1);
    assert_eq!(out[0].channel, "download_error:tiny-7b");
    assert_eq!(text_of(&out[0]), "Download failed: refused");
}

#[test]
fn file_creation_failure_is_reported() {
    let mut acq = Acquisition::new(request(false), "/data");
    acq.step(FetchEvent::DirCreated);
    acq.step(FetchEvent::Connected(Some(100)));
    let out = acq.step(FetchEvent::FileCreateFailed("permission denied".to_string()));
    assert_eq!(out.len(), 1);
    assert_eq!(text_of(&out[0]), "Failed to create file: permission denied");
    assert!(matches!(acq.phase, Phase::Failed));
}

#[test]
fn chunk_write_failure_is_reported() {
    let mut acq = Acquisition::new(request(false), "/data");
    acq.step(FetchEvent::DirCreated);
    acq.step(FetchEvent::Connected(Some(100)));
    acq.step(FetchEvent::FileCreated);
    let out = acq.step(FetchEvent::ChunkWriteFailed("device gone".to_string()));
    assert_eq!(out.len(), 1);
    assert_eq!(text_of(&out[0]), "Failed writing file: device gone");
}

#[test]
fn progress_is_emitted_after_every_chunk() {
    let mut acq = Acquisition::new(request(true), "/data");
    acq.step(FetchEvent::DirCreated);
    acq.step(FetchEvent::Connected(Some(200)));
    acq.step(FetchEvent::FileCreated);
    let out = acq.step(FetchEvent::ChunkWritten(50));
    assert_eq!(out.len(), 1);
    assert_eq!(out[0].channel, "download_progress:tiny-7b");
    assert_eq!(percent_of(&out[0]), 2500);
    let out = acq.step(FetchEvent::ChunkWritten(150));
    assert_eq!(percent_of(&out[0]), PROGRESS_COMPLETE);
}

#[test]
fn unknown_content_length_reports_the_placeholder() {
    let mut acq = Acquisition::new(request(true), "/data");
    acq.step(FetchEvent::DirCreated);
    acq.step(FetchEvent::Connected(None));
    acq.step(FetchEvent::FileCreated);
    assert_eq!(percent_of(&acq.step(FetchEvent::ChunkWritten(1000))[0]), 0);
    assert_eq!(percent_of(&acq.step(FetchEvent::ChunkWritten(123456))[0]), 0);
}

#[test]
fn skipping_extraction_finishes_at_download_complete() {
    let mut acq = Acquisition::new(request(true), "/data");
    acq.step(FetchEvent::DirCreated);
    acq.step(FetchEvent::Connected(Some(10)));
    acq.step(FetchEvent::FileCreated);
    acq.step(FetchEvent::ChunkWritten(10));
    let out = acq.step(FetchEvent::StreamEnded);
    assert_eq!(out.len(), 1);
    assert_eq!(out[0].channel, "download_complete:tiny-7b");
    assert_eq!(text_of(&out[0]), "/data/com.resuma.app/models/tiny-7b/tiny-7b.zip");
    assert!(matches!(acq.phase, Phase::Done));
}

/// Build a zip with ten file entries named `f0.txt` through `f9.txt`.
fn ten_entry_zip() -> Vec<u8> {
    let options = zip::write::SimpleFileOptions::default();
    let mut writer = zip::ZipWriter::new(Cursor::new(Vec::new()));
    for i in 0..10u8 {
        writer.start_file(format!("f{}.txt", i), options).unwrap();
        writer.write_all(format!("contents {}", i).as_bytes()).unwrap();
    }
    writer.finish().unwrap().into_inner()
}

#[test]
fn end_to_end_download_and_extraction() {
    let bytes = ten_entry_zip();
    let total = bytes.len() as u64;
    let mut fs = FsState::new();
    let mut acq = Acquisition::new(request(false), "/data");
    let base_dir = acq.base_dir.clone();
    let file_path = acq.file_path.clone();

    fs.create_dir_all(base_dir.as_str());
    acq.step(FetchEvent::DirCreated);
    acq.step(FetchEvent::Connected(Some(total)));
    fs.write_file(file_path.as_str(), Vec::new());
    acq.step(FetchEvent::FileCreated);
    fs.write_file(file_path.as_str(), bytes.clone());
    let out = acq.step(FetchEvent::ChunkWritten(total));
    assert_eq!(percent_of(&out[0]), PROGRESS_COMPLETE);
    let out = acq.step(FetchEvent::StreamEnded);
    assert_eq!(out[0].channel, "download_complete:tiny-7b");
    assert!(fs.file_exists(file_path.as_str()));

    let plan = plan_extraction(bytes, base_dir.as_str(), file_path.as_str()).unwrap();
    fs.apply_all(plan);
    let out = acq.step(FetchEvent::ExtractFinished);
    assert_eq!(out.len(), 1);
    assert_eq!(out[0].channel, "extract_complete:tiny-7b");
    assert_eq!(text_of(&out[0]), "/data/com.resuma.app/models/tiny-7b");
    assert!(matches!(acq.phase, Phase::Done));

    assert!(!fs.file_exists(file_path.as_str()));
    for i in 0..10u8 {
        let path = format!("/data/com.resuma.app/models/tiny-7b/f{}.txt", i);
        let expected = format!("contents {}", i);
        assert_eq!(fs.read_file(path.as_str()).unwrap().as_slice(), expected.as_bytes());
    }
}

#[test]
fn dropped_connection_leaves_the_partial_file_and_no_completion() {
    let bytes = ten_entry_zip();
    let total = bytes.len() as u64;
    let partial = (total * 2 / 5) as usize;
    let mut fs = FsState::new();
    let mut acq = Acquisition::new(request(false), "/data");
    let base_dir = acq.base_dir.clone();
    let file_path = acq.file_path.clone();

    fs.create_dir_all(base_dir.as_str());
    acq.step(FetchEvent::DirCreated);
    acq.step(FetchEvent::Connected(Some(total)));
    fs.write_file(file_path.as_str(), Vec::new());
    acq.step(FetchEvent::FileCreated);
    fs.write_file(file_path.as_str(), bytes[..partial].to_vec());
    let out = acq.step(FetchEvent::ChunkWritten(partial as u64));
    assert!(percent_of(&out[0]) < PROGRESS_COMPLETE);

    let out = acq.step(FetchEvent::StreamFailed("connection reset".to_string()));
    assert_eq!(out.len(), 1);
    assert_eq!(out[0].channel, "download_error:tiny-7b");
    assert_eq!(text_of(&out[0]), "Download stream error: connection reset");
    assert!(matches!(acq.phase, Phase::Failed));

    // the partial file stays on disk; no completion event can follow
    assert!(fs.file_exists(file_path.as_str()));
    assert_eq!(fs.read_file(file_path.as_str()).unwrap().len(), partial);
    assert!(acq.step(FetchEvent::StreamEnded).is_empty());
    assert!(acq.step(FetchEvent::ExtractFinished).is_empty());
}

#[test]
fn extraction_failure_is_reported_on_the_extract_channel() {
    let mut acq = Acquisition::new(request(false), "/data");
    acq.step(FetchEvent::DirCreated);
    acq.step(FetchEvent::Connected(Some(4)));
    acq.step(FetchEvent::FileCreated);
    acq.step(FetchEvent::ChunkWritten(4));
    acq.step(FetchEvent::StreamEnded);
    assert!(matches!(acq.phase, Phase::Extracting));
    let out = acq.step(FetchEvent::ExtractFailed("invalid Zip archive".to_string()));
    assert_eq!(out.len(), 1);
    assert_eq!(out[0].channel, "extract_error:tiny-7b");
    assert_eq!(text_of(&out[0]), "Extraction failed: invalid Zip archive");
    assert!(matches!(acq.phase, Phase::Failed));
}
