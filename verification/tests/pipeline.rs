use spotify_dl::bridge::SinkEvent;
use spotify_dl::error::{DownloadError, ErrorKind};
use spotify_dl::index::LinkState;
use spotify_dl::metadata::{AlbumMetadata, ArtistMetadata, TrackMetadata};
use spotify_dl::options::{DownloadOptions, FolderStructure, Format};
use spotify_dl::pipeline::{Command, Event, Pipeline, Progress, Stage};

fn options(structure: FolderStructure) -> DownloadOptions {
    DownloadOptions::new(Some("/music".to_string()), "/home/user".to_string(), None, 2, Format::Flac, structure)
}

fn metadata(cover: Option<Vec<u8>>) -> TrackMetadata {
    TrackMetadata {
        artists: vec![
            ArtistMetadata { name: "Queen".to_string() },
            ArtistMetadata { name: "David Bowie".to_string() },
        ],
        track_name: "Under Pressure".to_string(),
        album: AlbumMetadata { name: "Hot Space".to_string(), num_discs: 1, cover },
        disc_number: 1,
        number: 11,
    }
}

fn io_error(text: &str) -> DownloadError {
    DownloadError::new(ErrorKind::Io, text.to_string())
}

fn streaming(structure: FolderStructure) -> Pipeline {
    Pipeline::new(77, &options(structure), "/home/user", false, true)
        .advance(Event::Probed(LinkState::Missing))
        .advance(Event::Metadata(metadata(Some(vec![9, 9]))))
        .advance(Event::CoverArt)
        .advance(Event::Started)
}

#[test]
fn a_new_pipeline_consults_the_index() {
    let pipeline = Pipeline::new(77, &options(FolderStructure::ALBUM), "/home/user", false, true);
    assert_eq!(pipeline.stage(), Stage::CheckCache);
    assert_eq!(pipeline.command(), Command::Probe { link: "/music/.index/77".to_string() });
    assert_eq!(pipeline.link(), "/music/.index/77");
    assert_eq!(pipeline.progress(), Progress::Idle);
    assert!(!pipeline.is_finished());
    assert_eq!(pipeline.file_name(), "");
    assert_eq!(pipeline.path(), "");
}

#[test]
fn a_track_is_downloaded_stage_by_stage() {
    let p = Pipeline::new(77, &options(FolderStructure::ALBUM), "/home/user", false, true);
    let p = p.advance(Event::Probed(LinkState::Missing));
    assert_eq!(p.command(), Command::FetchMetadata);
    let p = p.advance(Event::Metadata(metadata(Some(vec![1, 2, 3]))));
    assert_eq!(p.command(), Command::FetchCoverArt { cover: vec![1, 2, 3] });
    assert_eq!(p.file_name(), "Queen/Hot Space/11 Under Pressure");
    assert_eq!(p.path(), "/music/Queen/Hot Space/11 Under Pressure.flac");
    assert_eq!(p.progress(), Progress::Message("Queen/Hot Space/11 Under Pressure".to_string()));
    let p = p.advance(Event::CoverArt);
    assert_eq!(p.command(), Command::StartStream);
    let p = p.advance(Event::Started);
    assert_eq!(p.command(), Command::Receive);
    let p = p.advance(Event::Sink(SinkEvent::Write { bytes: 8, total: 64, content: vec![1, 2] }));
    assert_eq!(p.command(), Command::Receive);
    assert_eq!(p.progress(), Progress::Position { bytes: 8, total: 64 });
    let p = p.advance(Event::Sink(SinkEvent::Write { bytes: 16, total: 64, content: vec![3, 4] }));
    assert_eq!(p.progress(), Progress::Position { bytes: 16, total: 64 });
    let mut p = p.advance(Event::Sink(SinkEvent::Finished));
    assert_eq!(p.command(), Command::Encode);
    assert_eq!(p.progress(), Progress::Message("Encoding Queen/Hot Space/11 Under Pressure".to_string()));
    let buffer = p.take_samples();
    assert_eq!(buffer.samples, vec![1, 2, 3, 4]);
    assert_eq!((buffer.sample_rate, buffer.channels, buffer.bits_per_sample), (44100, 2, 16));
    let p = p.advance(Event::Encoded);
    assert_eq!(p.command(), Command::Write { path: "/music/Queen/Hot Space/11 Under Pressure.flac".to_string() });
    assert_eq!(p.progress(), Progress::Message("Writing Queen/Hot Space/11 Under Pressure".to_string()));
    let p = p.advance(Event::Written);
    assert_eq!(p.command(), Command::Commit {
        path: "/music/Queen/Hot Space/11 Under Pressure.flac".to_string(),
        link: "/music/.index/77".to_string(),
    });
    assert!(!p.is_finished());
    let p = p.advance(Event::Committed);
    assert_eq!(p.stage(), Stage::Done);
    assert!(p.is_finished());
    assert_eq!(p.command(), Command::Finish { outcome: Ok(()) });
    assert_eq!(p.progress(), Progress::Finished("Downloaded Queen/Hot Space/11 Under Pressure".to_string()));
}

#[test]
fn the_folder_structure_of_the_run_names_the_file() {
    let p = Pipeline::new(5, &options(FolderStructure::FLAT), "/home/user", false, true)
        .advance(Event::Probed(LinkState::Missing))
        .advance(Event::Metadata(metadata(Some(vec![]))));
    assert_eq!(p.file_name(), "Queen, David Bowie - Under Pressure");
    assert_eq!(p.path(), "/music/Queen, David Bowie - Under Pressure.flac");
    assert_eq!(p.link(), "/music/.index/5");
}

#[test]
fn a_valid_entry_skips_the_track() {
    let found = LinkState::Present { target: "/music/old/file.flac".to_string(), target_exists: true };
    let p = Pipeline::new(77, &options(FolderStructure::ALBUM), "/home/user", false, true).advance(Event::Probed(found));
    assert_eq!(p.stage(), Stage::Skip { target: "/music/old/file.flac".to_string() });
    assert_eq!(p.command(), Command::Finish { outcome: Ok(()) });
    assert_eq!(p.progress(), Progress::Message("/music/old/file.flac".to_string()));
    assert!(p.is_finished());
}

#[test]
fn a_skipped_track_never_starts_the_audio_source() {
    let found = LinkState::Present { target: "/music/old/file.flac".to_string(), target_exists: true };
    let mut p = Pipeline::new(77, &options(FolderStructure::ALBUM), "/home/user", false, true).advance(Event::Probed(found));
    let later = vec![
        Event::Probed(LinkState::Missing),
        Event::Removed,
        Event::Metadata(metadata(Some(vec![1]))),
        Event::CoverArt,
        Event::Started,
        Event::Sink(SinkEvent::Write { bytes: 1, total: 2, content: vec![1] }),
        Event::Sink(SinkEvent::Finished),
        Event::ChannelClosed,
        Event::Encoded,
        Event::Written,
        Event::Committed,
        Event::Failed(io_error("late")),
    ];
    for event in later {
        p = p.advance(event);
        assert_eq!(p.command(), Command::Finish { outcome: Ok(()) });
        assert_eq!(p.stage(), Stage::Skip { target: "/music/old/file.flac".to_string() });
    }
    assert_eq!(p.take_samples().samples, Vec::<i32>::new());
}

#[test]
fn a_stale_entry_is_removed_and_the_track_downloaded() {
    let found = LinkState::Present { target: "/music/gone.flac".to_string(), target_exists: false };
    let p = Pipeline::new(77, &options(FolderStructure::ALBUM), "/home/user", false, true).advance(Event::Probed(found));
    assert_eq!(p.stage(), Stage::Invalidate);
    assert_eq!(p.command(), Command::RemoveEntry { link: "/music/.index/77".to_string() });
    let p = p.advance(Event::Removed);
    assert_eq!(p.stage(), Stage::FetchMetadata);
    assert_eq!(p.command(), Command::FetchMetadata);
}

#[test]
fn a_stale_entry_that_cannot_be_removed_fails_the_track() {
    let found = LinkState::Present { target: "/music/gone.flac".to_string(), target_exists: false };
    let p = Pipeline::new(77, &options(FolderStructure::ALBUM), "/home/user", false, true)
        .advance(Event::Probed(found))
        .advance(Event::Failed(io_error("permission denied")));
    assert_eq!(p.command(), Command::Finish { outcome: Err(io_error("permission denied")) });
}

#[test]
fn a_track_without_cover_fails() {
    let p = Pipeline::new(77, &options(FolderStructure::ALBUM), "/home/user", false, true)
        .advance(Event::Probed(LinkState::Missing))
        .advance(Event::Metadata(metadata(None)));
    let expected = DownloadError::new(ErrorKind::MissingCoverArt, "No cover art!".to_string());
    assert_eq!(p.stage(), Stage::Fail(expected.clone()));
    assert_eq!(p.command(), Command::Finish { outcome: Err(expected) });
    assert_eq!(DownloadError::missing_cover_art().kind, ErrorKind::MissingCoverArt);
}

#[test]
fn a_failed_metadata_fetch_fails_the_track() {
    let error = DownloadError::new(ErrorKind::MetadataFetch, "not found".to_string());
    let p = Pipeline::new(77, &options(FolderStructure::ALBUM), "/home/user", false, true)
        .advance(Event::Probed(LinkState::Missing))
        .advance(Event::Failed(error.clone()));
    assert_eq!(p.stage(), Stage::Fail(error.clone()));
    assert_eq!(p.command(), Command::Finish { outcome: Err(error) });
    assert_eq!(p.progress(), Progress::Idle);
}

#[test]
fn a_channel_that_closes_early_fails_the_track() {
    let p = streaming(FolderStructure::ALBUM)
        .advance(Event::Sink(SinkEvent::Write { bytes: 8, total: 64, content: vec![1, 2] }))
        .advance(Event::ChannelClosed);
    match p.command() {
        Command::Finish { outcome: Err(error) } => {
            assert_eq!(error.kind, ErrorKind::Streaming);
            assert_eq!(error, DownloadError::closed_before_finished());
        }
        other => panic!("unexpected command {:?}", other),
    }
}

#[test]
fn a_failed_write_is_never_committed() {
    let mut p = streaming(FolderStructure::ALBUM)
        .advance(Event::Sink(SinkEvent::Finished))
        .advance(Event::Encoded)
        .advance(Event::Failed(io_error("disk full")));
    assert_eq!(p.command(), Command::Finish { outcome: Err(io_error("disk full")) });
    for event in [Event::Written, Event::Committed, Event::Encoded] {
        p = p.advance(event);
        assert_eq!(p.command(), Command::Finish { outcome: Err(io_error("disk full")) });
    }
}

#[test]
fn a_failure_ends_the_track_from_every_stage() {
    let events = vec![
        Event::Probed(LinkState::Missing),
        Event::Metadata(metadata(Some(vec![1]))),
        Event::CoverArt,
        Event::Started,
        Event::Sink(SinkEvent::Finished),
        Event::Encoded,
        Event::Written,
    ];
    for reached in 0..=events.len() {
        let mut p = Pipeline::new(1, &options(FolderStructure::ALBUM), "/home/user", false, true);
        for event in events.iter().take(reached) {
            p = p.advance(event.clone());
        }
        assert!(!p.is_finished());
        let p = p.advance(Event::Failed(io_error("boom")));
        assert!(p.is_finished());
        assert_eq!(p.command(), Command::Finish { outcome: Err(io_error("boom")) });
    }
}

#[test]
fn a_finished_track_ignores_a_late_failure() {
    let p = streaming(FolderStructure::ALBUM)
        .advance(Event::Sink(SinkEvent::Finished))
        .advance(Event::Encoded)
        .advance(Event::Written)
        .advance(Event::Committed)
        .advance(Event::Failed(io_error("late")));
    assert_eq!(p.stage(), Stage::Done);
    assert_eq!(p.command(), Command::Finish { outcome: Ok(()) });
}

#[test]
fn an_event_out_of_turn_changes_nothing() {
    let p = Pipeline::new(77, &options(FolderStructure::ALBUM), "/home/user", false, true);
    let p = p.advance(Event::Written).advance(Event::Committed).advance(Event::Started);
    assert_eq!(p.stage(), Stage::CheckCache);
    let p = p.advance(Event::Probed(LinkState::Missing)).advance(Event::Sink(SinkEvent::Finished));
    assert_eq!(p.stage(), Stage::FetchMetadata);
    let p = streaming(FolderStructure::ALBUM).advance(Event::Committed).advance(Event::Encoded);
    assert_eq!(p.stage(), Stage::Stream);
    assert_eq!(p.command(), Command::Receive);
}

#[test]
fn the_stream_is_consumed_in_order() {
    let mut p = streaming(FolderStructure::FLAT);
    for (i, chunk) in [vec![1, 2, 3], vec![], vec![4], vec![5, 6]].into_iter().enumerate() {
        p = p.advance(Event::Sink(SinkEvent::Write { bytes: (i + 1) * 10, total: 40, content: chunk }));
        assert_eq!(p.stage(), Stage::Stream);
    }
    assert_eq!(p.progress(), Progress::Position { bytes: 40, total: 40 });
    p = p.advance(Event::Sink(SinkEvent::Finished));
    assert_eq!(p.stage(), Stage::Encode);
    p = p.advance(Event::Sink(SinkEvent::Write { bytes: 50, total: 40, content: vec![7] }));
    assert_eq!(p.take_samples().samples, vec![1, 2, 3, 4, 5, 6]);
}

#[test]
fn stages_know_whether_they_end_the_track() {
    assert!(Stage::Done.is_terminal());
    assert!(Stage::Skip { target: String::new() }.is_terminal());
    assert!(Stage::Fail(io_error("x")).is_terminal());
    for stage in [Stage::CheckCache, Stage::Invalidate, Stage::FetchMetadata,
        Stage::FetchCoverArt { cover: vec![] }, Stage::StartStream, Stage::Stream, Stage::Encode,
        Stage::Write, Stage::Commit] {
        assert!(!stage.is_terminal());
        assert_eq!(stage.duplicate(), stage);
    }
}

#[test]
fn samples_are_handed_out_only_while_the_encoding_is_due() {
    let mut p = streaming(FolderStructure::ALBUM)
        .advance(Event::Sink(SinkEvent::Write { bytes: 8, total: 8, content: vec![1, 2] }));
    assert_eq!(p.take_samples().samples, Vec::<i32>::new());
    let mut p = p
        .advance(Event::Sink(SinkEvent::Write { bytes: 16, total: 16, content: vec![3] }))
        .advance(Event::Sink(SinkEvent::Finished));
    assert_eq!(p.take_samples().samples, vec![1, 2, 3]);
    assert_eq!(p.take_samples().samples, Vec::<i32>::new());
    assert_eq!(p.command(), Command::Encode);
}

#[test]
fn a_failed_encoding_fails_the_track() {
    let error = DownloadError::new(ErrorKind::Encoding, "bad samples".to_string());
    let p = streaming(FolderStructure::ALBUM)
        .advance(Event::Sink(SinkEvent::Finished))
        .advance(Event::Failed(error.clone()));
    assert_eq!(p.stage(), Stage::Fail(error.clone()));
    assert_eq!(p.command(), Command::Finish { outcome: Err(error) });
}

#[test]
fn a_failed_commit_fails_the_track() {
    let p = streaming(FolderStructure::ALBUM)
        .advance(Event::Sink(SinkEvent::Finished))
        .advance(Event::Encoded)
        .advance(Event::Written)
        .advance(Event::Failed(io_error("link exists")));
    assert_eq!(p.command(), Command::Finish { outcome: Err(io_error("link exists")) });
}

fn relative_options(destination: Option<&str>) -> DownloadOptions {
    DownloadOptions::new(
        destination.map(|d| d.to_string()),
        "/home/user".to_string(),
        None,
        1,
        Format::Mp3,
        FolderStructure::FLAT,
    )
}

fn committed(pipeline: Pipeline) -> Command {
    pipeline
        .advance(Event::Probed(LinkState::Missing))
        .advance(Event::Metadata(metadata(Some(vec![1]))))
        .advance(Event::CoverArt)
        .advance(Event::Started)
        .advance(Event::Sink(SinkEvent::Finished))
        .advance(Event::Encoded)
        .advance(Event::Written)
        .command()
}

#[test]
fn a_relative_destination_is_taken_from_the_working_directory() {
    let p = Pipeline::new(9, &relative_options(Some("music")), "/home/user", false, true);
    assert_eq!(p.command(), Command::Probe { link: "/home/user/music/.index/9".to_string() });
    assert_eq!(committed(p), Command::Commit {
        path: "/home/user/music/Queen, David Bowie - Under Pressure.mp3".to_string(),
        link: "/home/user/music/.index/9".to_string(),
    });
}

#[test]
fn a_missing_destination_downloads_into_the_working_directory() {
    let p = Pipeline::new(9, &relative_options(None), "/home/user", false, true);
    assert_eq!(committed(p), Command::Commit {
        path: "/home/user/Queen, David Bowie - Under Pressure.mp3".to_string(),
        link: "/home/user/.index/9".to_string(),
    });
}

#[test]
fn an_absolute_destination_ignores_the_working_directory() {
    for working_directory in ["/home/user", "elsewhere", ""] {
        let p = Pipeline::new(9, &options(FolderStructure::FLAT), working_directory, false, true);
        assert_eq!(committed(p), Command::Commit {
            path: "/music/Queen, David Bowie - Under Pressure.flac".to_string(),
            link: "/music/.index/9".to_string(),
        });
    }
}

#[test]
fn a_drive_is_an_absolute_destination() {
    let options = DownloadOptions::new(Some("C:\\Music".to_string()), "D:/work".to_string(), None, 1, Format::Mp3, FolderStructure::FLAT);
    let p = Pipeline::new(9, &options, "D:/work", false, true);
    assert_eq!(p.command(), Command::Probe { link: "C:\\Music/.index/9".to_string() });
    let p = Pipeline::new(9, &relative_options(Some("music")), "D:/work", false, true);
    assert_eq!(p.command(), Command::Probe { link: "D:/work/music/.index/9".to_string() });
}

#[test]
fn a_destination_that_cannot_be_made_absolute_fails_the_track() {
    for working_directory in ["work", "", "./here", "~"] {
        let mut p = Pipeline::new(9, &relative_options(Some("music")), working_directory, false, true);
        let expected = DownloadError::new(ErrorKind::Configuration, "Could not set the output path".to_string());
        assert_eq!(expected, DownloadError::relative_destination());
        assert!(p.is_finished());
        assert_eq!(p.command(), Command::Finish { outcome: Err(expected.clone()) });
        for event in [Event::Probed(LinkState::Missing), Event::Metadata(metadata(None)), Event::Written] {
            p = p.advance(event);
            assert_eq!(p.command(), Command::Finish { outcome: Err(expected.clone()) });
        }
    }
}

#[test]
fn a_track_without_cover_is_downloaded_where_none_is_required() {
    let p = Pipeline::new(77, &options(FolderStructure::ALBUM), "/home/user", false, false)
        .advance(Event::Probed(LinkState::Missing))
        .advance(Event::Metadata(metadata(None)));
    assert_eq!(p.stage(), Stage::StartStream);
    assert_eq!(p.command(), Command::StartStream);
    assert_eq!(p.path(), "/music/Queen/Hot Space/11 Under Pressure.flac");
    let mut p = p
        .advance(Event::Started)
        .advance(Event::Sink(SinkEvent::Write { bytes: 4, total: 4, content: vec![5, 6] }))
        .advance(Event::Sink(SinkEvent::Finished));
    assert_eq!(p.take_samples().samples, vec![5, 6]);
    let p = p.advance(Event::Encoded).advance(Event::Written);
    assert_eq!(p.command(), Command::Commit {
        path: "/music/Queen/Hot Space/11 Under Pressure.flac".to_string(),
        link: "/music/.index/77".to_string(),
    });
    let p = p.advance(Event::Committed);
    assert_eq!(p.command(), Command::Finish { outcome: Ok(()) });
}

#[test]
fn a_cover_that_exists_is_fetched_even_where_none_is_required() {
    let p = Pipeline::new(77, &options(FolderStructure::ALBUM), "/home/user", false, false)
        .advance(Event::Probed(LinkState::Missing))
        .advance(Event::Metadata(metadata(Some(vec![4, 2]))));
    assert_eq!(p.command(), Command::FetchCoverArt { cover: vec![4, 2] });
}
