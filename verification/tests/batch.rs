use spotify_dl::batch::{Batch, BatchAction};
use spotify_dl::bridge::SinkEvent;
use spotify_dl::error::{DownloadError, ErrorKind};
use spotify_dl::index::LinkState;
use spotify_dl::metadata::{AlbumMetadata, ArtistMetadata, TrackMetadata};
use spotify_dl::options::{DownloadOptions, FolderStructure, Format};
use spotify_dl::pipeline::{Command, Event, Pipeline};

fn failure(text: &str) -> DownloadError {
    DownloadError::new(ErrorKind::MetadataFetch, text.to_string())
}

#[test]
fn an_empty_batch_is_done_at_once() {
    let mut batch = Batch::new(0, 3);
    assert_eq!(batch.next(), BatchAction::Done);
    assert_eq!(batch.result(), Some(Ok(())));
}

#[test]
fn tracks_start_in_order_up_to_the_bound() {
    let mut batch = Batch::new(5, 2);
    assert_eq!(batch.result(), None);
    assert_eq!(batch.next(), BatchAction::Start(0));
    assert_eq!(batch.next(), BatchAction::Start(1));
    assert_eq!(batch.next(), BatchAction::Wait);
    assert_eq!(batch.next(), BatchAction::Wait);
    assert_eq!(batch.in_flight(), 2);
    assert!(batch.complete(Ok(())));
    assert_eq!(batch.in_flight(), 1);
    assert_eq!(batch.next(), BatchAction::Start(2));
    assert_eq!(batch.next(), BatchAction::Wait);
    assert_eq!((batch.started(), batch.finished()), (3, 1));
}

#[test]
fn the_bound_holds_throughout_a_batch() {
    for parallel in 1..=4usize {
        let total = 9usize;
        let mut batch = Batch::new(total, parallel);
        let mut started = Vec::new();
        let mut peak = 0;
        loop {
            match batch.next() {
                BatchAction::Start(position) => started.push(position),
                BatchAction::Wait => assert!(batch.complete(Ok(()))),
                BatchAction::Done => break,
            }
            assert!(batch.in_flight() <= parallel);
            peak = peak.max(batch.in_flight());
        }
        assert_eq!(peak, parallel);
        assert_eq!(started, (0..total).collect::<Vec<_>>());
        assert_eq!(batch.finished(), total);
        assert_eq!(batch.result(), Some(Ok(())));
    }
}

#[test]
fn a_bound_above_the_batch_starts_every_track() {
    let mut batch = Batch::new(2, 10);
    assert_eq!(batch.next(), BatchAction::Start(0));
    assert_eq!(batch.next(), BatchAction::Start(1));
    assert_eq!(batch.next(), BatchAction::Wait);
    assert!(batch.complete(Ok(())));
    assert!(batch.complete(Ok(())));
    assert_eq!(batch.next(), BatchAction::Done);
}

#[test]
fn a_completion_without_a_track_in_flight_is_refused() {
    let mut batch = Batch::new(2, 1);
    assert!(!batch.complete(Err(failure("stray"))));
    assert_eq!(batch.finished(), 0);
    assert_eq!(batch.next(), BatchAction::Start(0));
    assert!(batch.complete(Ok(())));
    assert!(!batch.complete(Ok(())));
    assert_eq!(batch.next(), BatchAction::Start(1));
    assert!(batch.complete(Ok(())));
    assert_eq!(batch.result(), Some(Ok(())));
}

#[test]
fn the_batch_reports_the_first_failure() {
    let mut batch = Batch::new(3, 3);
    for position in 0..3 {
        assert_eq!(batch.next(), BatchAction::Start(position));
    }
    assert!(batch.complete(Ok(())));
    assert!(batch.complete(Err(failure("first"))));
    assert_eq!(batch.result(), None);
    assert!(batch.complete(Err(failure("second"))));
    assert_eq!(batch.next(), BatchAction::Done);
    assert_eq!(batch.result(), Some(Err(failure("first"))));
}

#[test]
fn a_failed_track_stops_no_other() {
    let mut batch = Batch::new(4, 1);
    assert_eq!(batch.next(), BatchAction::Start(0));
    assert!(batch.complete(Err(failure("zero"))));
    assert_eq!(batch.next(), BatchAction::Start(1));
    assert!(batch.complete(Ok(())));
    assert_eq!(batch.next(), BatchAction::Start(2));
    assert!(batch.complete(Ok(())));
    assert_eq!(batch.next(), BatchAction::Start(3));
    assert_eq!(batch.result(), None);
    assert!(batch.complete(Ok(())));
    assert_eq!(batch.result(), Some(Err(failure("zero"))));
}

fn run_track(id: u128, options: &DownloadOptions, metadata_fails: bool, committed: &mut Vec<(String, String)>) -> Result<(), DownloadError> {
    let mut pipeline = Pipeline::new(id, options, "/", false, true);
    loop {
        let event = match pipeline.command() {
            Command::Probe { .. } => Event::Probed(LinkState::Missing),
            Command::RemoveEntry { .. } => Event::Removed,
            Command::FetchMetadata => if metadata_fails {
                Event::Failed(failure("metadata unavailable"))
            } else {
                Event::Metadata(TrackMetadata {
                    artists: vec![ArtistMetadata { name: "Artist".to_string() }],
                    track_name: format!("Track {}", id),
                    album: AlbumMetadata { name: "Album".to_string(), num_discs: 1, cover: Some(vec![0]) },
                    disc_number: 1,
                    number: id as u32,
                })
            },
            Command::FetchCoverArt { .. } => Event::CoverArt,
            Command::StartStream => Event::Started,
            Command::Receive => Event::Sink(SinkEvent::Finished),
            Command::Encode => Event::Encoded,
            Command::Write { .. } => Event::Written,
            Command::Commit { path, link } => {
                committed.push((link, path));
                Event::Committed
            }
            Command::Finish { outcome } => return outcome,
        };
        pipeline = pipeline.advance(event);
    }
}

#[test]
fn a_batch_with_one_failed_track_commits_the_others_and_fails() {
    let options = DownloadOptions::new(Some("/out".to_string()), "/".to_string(), None, 2, Format::Mp3, FolderStructure::ALBUM);
    let mut batch = Batch::new(3, options.parallel);
    let mut committed = Vec::new();
    let mut pending = Vec::new();
    loop {
        match batch.next() {
            BatchAction::Start(position) => pending.push(position),
            BatchAction::Wait => {
                let position = pending.remove(0);
                let outcome = run_track(position as u128 + 1, &options, position == 1, &mut committed);
                assert!(batch.complete(outcome));
            }
            BatchAction::Done => break,
        }
    }
    assert_eq!(committed, vec![
        ("/out/.index/1".to_string(), "/out/Artist/Album/01 Track 1.mp3".to_string()),
        ("/out/.index/3".to_string(), "/out/Artist/Album/03 Track 3.mp3".to_string()),
    ]);
    assert_eq!(batch.result(), Some(Err(failure("metadata unavailable"))));
}
