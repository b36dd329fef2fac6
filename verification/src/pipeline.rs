//! The pipeline of one track: cache check, metadata, cover art, stream,
//! encode, write, commit.
//!
//! The pipeline performs no work itself. It says which command is due, and
//! is told what came of it; whoever drives it performs the command and
//! reports the event. Within one track the stages follow each other in one
//! order, and a failure ends the track from any stage.

use vstd::prelude::*;
use vstd::string::*;
use crate::bridge::{all_writes, contents, lemma_writes_accumulate, Bridge, BridgeView,
    SampleBuffer, SinkEvent, SinkEventView, BITS_PER_SAMPLE, CHANNELS, SAMPLE_RATE};
use crate::error::{closed_before_finished, missing_cover_art, outcome_view, relative_destination,
    DownloadError, DownloadErrorView};
use crate::index::{cache_decision, check_cache, link_path, link_path_text, CacheDecision, LinkState,
    LinkStateView, StoreView};
use crate::metadata::{TrackMetadata, TrackMetadataView};
use crate::naming::{add_extension, file_name, get_file_name, relative_path};
use crate::options::{DownloadOptions, FolderStructure, Format};
use crate::text::{absolute_path, decimal, is_absolute, join_path, joined_path,
    lemma_joined_path_absolute, make_absolute, path_is_absolute};

verus! {

/// Where a track stands.
#[derive(Debug, Clone, PartialEq, Eq)]
pub enum Stage {
    /// The index is consulted.
    CheckCache,
    /// A stale index entry is removed.
    Invalidate,
    /// The metadata is retrieved.
    FetchMetadata,
    /// The cover image behind `cover` is retrieved.
    FetchCoverArt { cover: Vec<u8> },
    /// The audio source is started.
    StartStream,
    /// The messages of the audio source are received.
    Stream,
    /// The samples are encoded.
    Encode,
    /// The encoded stream is written to the output file.
    Write,
    /// The output file is recorded in the index.
    Commit,
    /// The track was downloaded and recorded.
    Done,
    /// The track was downloaded before, to `target`.
    Skip { target: String },
    /// The track failed.
    Fail(DownloadError),
}

/// Mathematical model of [`Stage`].
pub enum StageView {
    CheckCache,
    Invalidate,
    FetchMetadata,
    FetchCoverArt { cover: Seq<u8> },
    StartStream,
    Stream,
    Encode,
    Write,
    Commit,
    Done,
    Skip { target: Seq<char> },
    Fail(DownloadErrorView),
}

impl View for Stage {
    type V = StageView;

    open spec fn view(&self) -> StageView {
        match self {
            Stage::CheckCache => StageView::CheckCache,
            Stage::Invalidate => StageView::Invalidate,
            Stage::FetchMetadata => StageView::FetchMetadata,
            Stage::FetchCoverArt { cover } => StageView::FetchCoverArt { cover: cover@ },
            Stage::StartStream => StageView::StartStream,
            Stage::Stream => StageView::Stream,
            Stage::Encode => StageView::Encode,
            Stage::Write => StageView::Write,
            Stage::Commit => StageView::Commit,
            Stage::Done => StageView::Done,
            Stage::Skip { target } => StageView::Skip { target: target@ },
            Stage::Fail(error) => StageView::Fail(error@),
        }
    }
}

impl StageView {
    /// Whether the track has come to its end, for better or worse.
    pub open spec fn is_terminal(self) -> bool {
        self is Done || self is Skip || self is Fail
    }

    /// Position of the stage in the order of the pipeline.
    pub open spec fn rank(self) -> nat {
        match self {
            StageView::CheckCache => 0,
            StageView::Invalidate => 1,
            StageView::FetchMetadata => 2,
            StageView::FetchCoverArt { cover } => 3,
            StageView::StartStream => 4,
            StageView::Stream => 5,
            StageView::Encode => 6,
            StageView::Write => 7,
            StageView::Commit => 8,
            StageView::Done => 9,
            StageView::Skip { target } => 9,
            StageView::Fail(error) => 9,
        }
    }

    /// Whether `next` may directly follow this stage on the way to success.
    pub open spec fn precedes(self, next: StageView) -> bool {
        match self {
            StageView::CheckCache => next is Skip || next is Invalidate || next is FetchMetadata,
            StageView::Invalidate => next is FetchMetadata,
            StageView::FetchMetadata => next is FetchCoverArt || next is StartStream,
            StageView::FetchCoverArt { cover } => next is StartStream,
            StageView::StartStream => next is Stream,
            StageView::Stream => next is Encode,
            StageView::Encode => next is Write,
            StageView::Write => next is Commit,
            StageView::Commit => next is Done,
            StageView::Done => false,
            StageView::Skip { target } => false,
            StageView::Fail(error) => false,
        }
    }
}

/// What came of the command that was due.
#[derive(Debug, Clone, PartialEq, Eq)]
pub enum Event {
    /// The index was consulted.
    Probed(LinkState),
    /// The stale entry is gone.
    Removed,
    /// The metadata arrived.
    Metadata(TrackMetadata),
    /// The cover image arrived.
    CoverArt,
    /// The audio source is running.
    Started,
    /// The audio source sent a message.
    Sink(SinkEvent),
    /// The channel of the audio source closed.
    ChannelClosed,
    /// The samples are encoded.
    Encoded,
    /// The output file is written in full.
    Written,
    /// The index entry exists.
    Committed,
    /// The command failed.
    Failed(DownloadError),
}

/// Mathematical model of [`Event`].
pub enum EventView {
    Probed(LinkStateView),
    Removed,
    Metadata(TrackMetadataView),
    CoverArt,
    Started,
    Sink(SinkEventView),
    ChannelClosed,
    Encoded,
    Written,
    Committed,
    Failed(DownloadErrorView),
}

impl View for Event {
    type V = EventView;

    open spec fn view(&self) -> EventView {
        match self {
            Event::Probed(found) => EventView::Probed(found@),
            Event::Removed => EventView::Removed,
            Event::Metadata(metadata) => EventView::Metadata(metadata@),
            Event::CoverArt => EventView::CoverArt,
            Event::Started => EventView::Started,
            Event::Sink(message) => EventView::Sink(message@),
            Event::ChannelClosed => EventView::ChannelClosed,
            Event::Encoded => EventView::Encoded,
            Event::Written => EventView::Written,
            Event::Committed => EventView::Committed,
            Event::Failed(error) => EventView::Failed(error@),
        }
    }
}

/// What is to be done next for a track.
#[derive(Debug, PartialEq, Eq)]
pub enum Command {
    /// Create the directory of the index with its ancestors where it is
    /// absent, then look up the entry `link`.
    Probe { link: String },
    /// Remove the entry `link`.
    RemoveEntry { link: String },
    /// Retrieve the metadata of the track.
    FetchMetadata,
    /// Retrieve the cover image behind `cover`.
    FetchCoverArt { cover: Vec<u8> },
    /// Start the audio source.
    StartStream,
    /// Wait for the next message of the audio source.
    Receive,
    /// Take the samples and encode them.
    Encode,
    /// Write the encoded stream to `path`.
    Write { path: String },
    /// Record in the entry `link` that the track is at `path`.
    Commit { path: String, link: String },
    /// Nothing is left to do: the track ended with `outcome`.
    Finish { outcome: Result<(), DownloadError> },
}

/// Mathematical model of [`Command`].
pub enum CommandView {
    Probe { link: Seq<char> },
    RemoveEntry { link: Seq<char> },
    FetchMetadata,
    FetchCoverArt { cover: Seq<u8> },
    StartStream,
    Receive,
    Encode,
    Write { path: Seq<char> },
    Commit { path: Seq<char>, link: Seq<char> },
    Finish { outcome: Result<(), DownloadErrorView> },
}

impl View for Command {
    type V = CommandView;

    open spec fn view(&self) -> CommandView {
        match self {
            Command::Probe { link } => CommandView::Probe { link: link@ },
            Command::RemoveEntry { link } => CommandView::RemoveEntry { link: link@ },
            Command::FetchMetadata => CommandView::FetchMetadata,
            Command::FetchCoverArt { cover } => CommandView::FetchCoverArt { cover: cover@ },
            Command::StartStream => CommandView::StartStream,
            Command::Receive => CommandView::Receive,
            Command::Encode => CommandView::Encode,
            Command::Write { path } => CommandView::Write { path: path@ },
            Command::Commit { path, link } => CommandView::Commit { path: path@, link: link@ },
            Command::Finish { outcome } => CommandView::Finish { outcome: outcome_view(*outcome) },
        }
    }
}

/// What the progress display of a track should show. It has no effect on
/// the pipeline.
#[derive(Debug, Clone, PartialEq, Eq)]
pub enum Progress {
    /// Leave the display as it is.
    Idle,
    /// Show this text.
    Message(String),
    /// Show `bytes` out of `total`.
    Position { bytes: u64, total: u64 },
    /// Close the display with this text.
    Finished(String),
}

/// Mathematical model of [`Progress`].
pub enum ProgressView {
    Idle,
    Message(Seq<char>),
    Position { bytes: nat, total: nat },
    Finished(Seq<char>),
}

impl View for Progress {
    type V = ProgressView;

    open spec fn view(&self) -> ProgressView {
        match self {
            Progress::Idle => ProgressView::Idle,
            Progress::Message(text) => ProgressView::Message(text@),
            Progress::Position { bytes, total } => ProgressView::Position {
                bytes: *bytes as nat,
                total: *total as nat,
            },
            Progress::Finished(text) => ProgressView::Finished(text@),
        }
    }
}

/// Mathematical model of [`Pipeline`].
pub struct PipelineView {
    pub stage: StageView,
    /// The index entry of the track.
    pub link: Seq<char>,
    pub destination: Seq<char>,
    pub format: Format,
    pub structure: FolderStructure,
    pub ascii_only: bool,
    /// Whether the output cannot be produced without cover art.
    pub cover_required: bool,
    /// The relative name of the track, without extension; empty until the
    /// metadata is known.
    pub file_name: Seq<char>,
    /// The output file; empty until the metadata is known.
    pub path: Seq<char>,
    pub bridge: BridgeView,
}

impl PipelineView {
    /// The pipeline of track `id` before anything was done. The track
    /// fails at once where `destination` is not absolute: its output could
    /// not be recorded under an absolute path.
    pub open spec fn start(
        id: nat,
        destination: Seq<char>,
        format: Format,
        structure: FolderStructure,
        ascii_only: bool,
        cover_required: bool,
    ) -> PipelineView {
        PipelineView {
            stage: if is_absolute(destination) {
                StageView::CheckCache
            } else {
                StageView::Fail(relative_destination())
            },
            link: link_path_text(destination, id),
            destination,
            format,
            structure,
            ascii_only,
            cover_required,
            file_name: Seq::empty(),
            path: Seq::empty(),
            bridge: BridgeView::start(),
        }
    }

    /// What holds of a pipeline throughout: unless the track failed, its
    /// destination is absolute, and so is its output file from the moment
    /// at which the file is named.
    pub open spec fn rooted(self) -> bool {
        &&& self.stage is Fail || is_absolute(self.destination)
        &&& self.stage.rank() >= 3 && !(self.stage is Fail) && !(self.stage is Skip)
            ==> is_absolute(self.path)
    }

    /// This pipeline at another stage.
    pub open spec fn at(self, stage: StageView) -> PipelineView {
        PipelineView { stage, ..self }
    }

    /// This pipeline once the metadata `m` is known: the file is named.
    pub open spec fn named(self, m: TrackMetadataView) -> PipelineView {
        PipelineView {
            file_name: file_name(m, self.structure, self.ascii_only),
            path: joined_path(
                self.destination,
                relative_path(m, self.structure, self.format, self.ascii_only),
            ),
            ..self
        }
    }

    /// The pipeline after `event`. An ended pipeline stays as it is, a
    /// failure ends it from any other stage, and an event that the stage
    /// does not wait for changes nothing.
    pub open spec fn advance(self, event: EventView) -> PipelineView {
        if self.stage.is_terminal() {
            self
        } else {
            match event {
                EventView::Failed(error) => self.at(StageView::Fail(error)),
                EventView::Probed(found) => if self.stage is CheckCache {
                    match cache_decision(found) {
                        CacheDecision::Download => self.at(StageView::FetchMetadata),
                        CacheDecision::Invalidate => self.at(StageView::Invalidate),
                        CacheDecision::Skip => self.at(StageView::Skip { target: found->target }),
                    }
                } else {
                    self
                },
                EventView::Removed => if self.stage is Invalidate {
                    self.at(StageView::FetchMetadata)
                } else {
                    self
                },
                EventView::Metadata(m) => if self.stage is FetchMetadata {
                    match m.cover {
                        Some(cover) => self.named(m).at(StageView::FetchCoverArt { cover }),
                        None => if self.cover_required {
                            self.named(m).at(StageView::Fail(missing_cover_art()))
                        } else {
                            self.named(m).at(StageView::StartStream)
                        },
                    }
                } else {
                    self
                },
                EventView::CoverArt => if self.stage is FetchCoverArt {
                    self.at(StageView::StartStream)
                } else {
                    self
                },
                EventView::Started => if self.stage is StartStream {
                    self.at(StageView::Stream)
                } else {
                    self
                },
                EventView::Sink(message) => if self.stage is Stream {
                    let bridge = self.bridge.receive(message);
                    PipelineView {
                        stage: if bridge.finished {
                            StageView::Encode
                        } else {
                            StageView::Stream
                        },
                        bridge,
                        ..self
                    }
                } else {
                    self
                },
                EventView::ChannelClosed => if self.stage is Stream {
                    self.at(StageView::Fail(closed_before_finished()))
                } else {
                    self
                },
                EventView::Encoded => if self.stage is Encode {
                    self.at(StageView::Write)
                } else {
                    self
                },
                EventView::Written => if self.stage is Write {
                    self.at(StageView::Commit)
                } else {
                    self
                },
                EventView::Committed => if self.stage is Commit {
                    self.at(StageView::Done)
                } else {
                    self
                },
            }
        }
    }

    /// The pipeline after a sequence of events, taken in order.
    pub open spec fn run(self, events: Seq<EventView>) -> PipelineView
        decreases events.len(),
    {
        if events.len() == 0 {
            self
        } else {
            self.run(events.drop_last()).advance(events.last())
        }
    }

    /// The command that is due.
    pub open spec fn command(self) -> CommandView {
        match self.stage {
            StageView::CheckCache => CommandView::Probe { link: self.link },
            StageView::Invalidate => CommandView::RemoveEntry { link: self.link },
            StageView::FetchMetadata => CommandView::FetchMetadata,
            StageView::FetchCoverArt { cover } => CommandView::FetchCoverArt { cover },
            StageView::StartStream => CommandView::StartStream,
            StageView::Stream => CommandView::Receive,
            StageView::Encode => CommandView::Encode,
            StageView::Write => CommandView::Write { path: self.path },
            StageView::Commit => CommandView::Commit { path: self.path, link: self.link },
            StageView::Done => CommandView::Finish { outcome: Ok(()) },
            StageView::Skip { target } => CommandView::Finish { outcome: Ok(()) },
            StageView::Fail(error) => CommandView::Finish { outcome: Err(error) },
        }
    }

    /// The samples that the encoder is to take: those of the bridge while
    /// the encoding is due, none at any other stage.
    pub open spec fn samples_due(self) -> Seq<i32> {
        if self.stage is Encode {
            self.bridge.samples
        } else {
            Seq::empty()
        }
    }

    /// The pipeline once the encoder has taken its samples.
    pub open spec fn without_samples(self) -> PipelineView {
        if self.stage is Encode {
            PipelineView { bridge: BridgeView { samples: Seq::empty(), ..self.bridge }, ..self }
        } else {
            self
        }
    }

    /// What performing the due command does to durable storage, where the
    /// command succeeds. Only three commands touch it: the removal of a
    /// stale entry, the write of the output file, and the commit.
    pub open spec fn effect(self, store: StoreView) -> StoreView {
        match self.stage {
            StageView::Invalidate => store.invalidate(self.link),
            StageView::Write => store.write(self.path),
            StageView::Commit => store.commit(self.link, self.path),
            _ => store,
        }
    }

    /// What the progress display should show.
    pub open spec fn progress(self) -> ProgressView {
        match self.stage {
            StageView::FetchCoverArt { cover } => ProgressView::Message(self.file_name),
            StageView::StartStream => ProgressView::Message(self.file_name),
            StageView::Stream => ProgressView::Position {
                bytes: self.bridge.position,
                total: self.bridge.total,
            },
            StageView::Encode => ProgressView::Message("Encoding "@ + self.file_name),
            StageView::Write => ProgressView::Message("Writing "@ + self.file_name),
            StageView::Done => ProgressView::Finished("Downloaded "@ + self.file_name),
            StageView::Skip { target } => ProgressView::Message(target),
            _ => ProgressView::Idle,
        }
    }
}

/// The messages of the audio source as the events that report them.
pub open spec fn sink_events(messages: Seq<SinkEventView>) -> Seq<EventView> {
    messages.map_values(|m: SinkEventView| EventView::Sink(m))
}

/// A copy of a byte string.
fn copy_bytes(bytes: &Vec<u8>) -> (copy: Vec<u8>)
    ensures
        copy@ == bytes@,
{
    let mut copy: Vec<u8> = Vec::new();
    let mut i: usize = 0;
    while i < bytes.len()
        invariant
            i <= bytes.len(),
            copy@ == bytes@.take(i as int),
        decreases bytes.len() - i,
    {
        copy.push(bytes[i]);
        assert(bytes@.take(i + 1) =~= bytes@.take(i as int).push(bytes@[i as int]));
        i += 1;
    }
    assert(bytes@.take(bytes.len() as int) =~= bytes@);
    copy
}

/// The pipeline of one track. It is owned by the task that processes the
/// track and shares nothing with the pipelines of other tracks.
#[derive(Debug)]
pub struct Pipeline {
    stage: Stage,
    link: String,
    destination: String,
    format: Format,
    structure: FolderStructure,
    ascii_only: bool,
    cover_required: bool,
    file_name: String,
    path: String,
    bridge: Bridge,
}

impl View for Pipeline {
    type V = PipelineView;

    closed spec fn view(&self) -> PipelineView {
        PipelineView {
            stage: self.stage@,
            link: self.link@,
            destination: self.destination@,
            format: self.format,
            structure: self.structure,
            ascii_only: self.ascii_only,
            cover_required: self.cover_required,
            file_name: self.file_name@,
            path: self.path@,
            bridge: self.bridge@,
        }
    }
}

impl Stage {
    /// Whether the track has come to its end, for better or worse.
    pub fn is_terminal(&self) -> (ended: bool)
        ensures
            ended == self@.is_terminal(),
    {
        match self {
            Stage::Done => true,
            Stage::Skip { target: _ } => true,
            Stage::Fail(_) => true,
            _ => false,
        }
    }

    /// A copy of this stage.
    pub fn duplicate(&self) -> (copy: Stage)
        ensures
            copy@ == self@,
    {
        match self {
            Stage::CheckCache => Stage::CheckCache,
            Stage::Invalidate => Stage::Invalidate,
            Stage::FetchMetadata => Stage::FetchMetadata,
            Stage::FetchCoverArt { cover } => Stage::FetchCoverArt { cover: copy_bytes(cover) },
            Stage::StartStream => Stage::StartStream,
            Stage::Stream => Stage::Stream,
            Stage::Encode => Stage::Encode,
            Stage::Write => Stage::Write,
            Stage::Commit => Stage::Commit,
            Stage::Done => Stage::Done,
            Stage::Skip { target } => Stage::Skip { target: target.clone() },
            Stage::Fail(error) => Stage::Fail(error.duplicate()),
        }
    }
}

impl Pipeline {
    /// The pipeline of track `id` under `options`, before anything was
    /// done. A relative destination is taken from `working_directory`; if
    /// that does not make it absolute, the track fails at once. With
    /// `ascii_only`, file names keep ASCII characters only. With
    /// `cover_required`, a track without cover fails; without it, such a
    /// track is encoded without cover art.
    pub fn new(
        id: u128,
        options: &DownloadOptions,
        working_directory: &str,
        ascii_only: bool,
        cover_required: bool,
    ) -> (pipeline: Pipeline)
        ensures
            pipeline@ == PipelineView::start(
                id as nat,
                absolute_path(working_directory@, options.destination@),
                options.format,
                options.folder_structure,
                ascii_only,
                cover_required,
            ),
    {
        let destination = make_absolute(working_directory, options.destination.as_str());
        let stage = if path_is_absolute(destination.as_str()) {
            Stage::CheckCache
        } else {
            Stage::Fail(DownloadError::relative_destination())
        };
        Pipeline {
            stage,
            link: link_path(destination.as_str(), id),
            destination,
            format: options.format,
            structure: options.folder_structure,
            ascii_only,
            cover_required,
            file_name: String::new(),
            path: String::new(),
            bridge: Bridge::new(),
        }
    }

    /// Takes what came of the command that was due, and moves on.
    pub fn advance(self, event: Event) -> (next: Pipeline)
        ensures
            next@ == self@.advance(event@),
    {
        let mut p = self;
        if p.stage.is_terminal() {
            return p;
        }
        match event {
            Event::Failed(error) => {
                p.stage = Stage::Fail(error);
            },
            Event::Probed(found) => {
                if matches!(p.stage, Stage::CheckCache) {
                    match check_cache(&found) {
                        CacheDecision::Download => {
                            p.stage = Stage::FetchMetadata;
                        },
                        CacheDecision::Invalidate => {
                            p.stage = Stage::Invalidate;
                        },
                        CacheDecision::Skip => {
                            if let LinkState::Present { target, target_exists: _ } = found {
                                p.stage = Stage::Skip { target };
                            }
                        },
                    }
                }
            },
            Event::Removed => {
                if matches!(p.stage, Stage::Invalidate) {
                    p.stage = Stage::FetchMetadata;
                }
            },
            Event::Metadata(metadata) => {
                if matches!(p.stage, Stage::FetchMetadata) {
                    p.file_name = get_file_name(&metadata, p.structure, p.ascii_only);
                    let relative = add_extension(p.file_name.clone(), p.format);
                    p.path = join_path(p.destination.as_str(), relative.as_str());
                    match metadata.album.cover {
                        Some(cover) => {
                            p.stage = Stage::FetchCoverArt { cover };
                        },
                        None => {
                            if p.cover_required {
                                p.stage = Stage::Fail(DownloadError::missing_cover_art());
                            } else {
                                p.stage = Stage::StartStream;
                            }
                        },
                    }
                }
            },
            Event::CoverArt => {
                if matches!(p.stage, Stage::FetchCoverArt { .. }) {
                    p.stage = Stage::StartStream;
                }
            },
            Event::Started => {
                if matches!(p.stage, Stage::StartStream) {
                    p.stage = Stage::Stream;
                }
            },
            Event::Sink(message) => {
                if matches!(p.stage, Stage::Stream) {
                    p.bridge.receive(message);
                    if p.bridge.is_finished() {
                        p.stage = Stage::Encode;
                    }
                }
            },
            Event::ChannelClosed => {
                if matches!(p.stage, Stage::Stream) {
                    p.stage = Stage::Fail(DownloadError::closed_before_finished());
                }
            },
            Event::Encoded => {
                if matches!(p.stage, Stage::Encode) {
                    p.stage = Stage::Write;
                }
            },
            Event::Written => {
                if matches!(p.stage, Stage::Write) {
                    p.stage = Stage::Commit;
                }
            },
            Event::Committed => {
                if matches!(p.stage, Stage::Commit) {
                    p.stage = Stage::Done;
                }
            },
        }
        p
    }

    /// The command that is due.
    pub fn command(&self) -> (command: Command)
        ensures
            command@ == self@.command(),
    {
        match &self.stage {
            Stage::CheckCache => Command::Probe { link: self.link.clone() },
            Stage::Invalidate => Command::RemoveEntry { link: self.link.clone() },
            Stage::FetchMetadata => Command::FetchMetadata,
            Stage::FetchCoverArt { cover } => Command::FetchCoverArt { cover: copy_bytes(cover) },
            Stage::StartStream => Command::StartStream,
            Stage::Stream => Command::Receive,
            Stage::Encode => Command::Encode,
            Stage::Write => Command::Write { path: self.path.clone() },
            Stage::Commit => Command::Commit { path: self.path.clone(), link: self.link.clone() },
            Stage::Done => Command::Finish { outcome: Ok(()) },
            Stage::Skip { target: _ } => Command::Finish { outcome: Ok(()) },
            Stage::Fail(error) => Command::Finish { outcome: Err(error.duplicate()) },
        }
    }

    /// What the progress display should show.
    pub fn progress(&self) -> (progress: Progress)
        ensures
            progress@ == self@.progress(),
    {
        match &self.stage {
            Stage::FetchCoverArt { cover: _ } => Progress::Message(self.file_name.clone()),
            Stage::StartStream => Progress::Message(self.file_name.clone()),
            Stage::Stream => Progress::Position {
                bytes: self.bridge.position() as u64,
                total: self.bridge.total() as u64,
            },
            Stage::Encode => {
                let mut text = String::from_str("Encoding ");
                text.append(self.file_name.as_str());
                Progress::Message(text)
            },
            Stage::Write => {
                let mut text = String::from_str("Writing ");
                text.append(self.file_name.as_str());
                Progress::Message(text)
            },
            Stage::Done => {
                let mut text = String::from_str("Downloaded ");
                text.append(self.file_name.as_str());
                Progress::Finished(text)
            },
            Stage::Skip { target } => Progress::Message(target.clone()),
            _ => Progress::Idle,
        }
    }

    /// The stage at which the track stands.
    pub fn stage(&self) -> (stage: Stage)
        ensures
            stage@ == self@.stage,
    {
        self.stage.duplicate()
    }

    /// Whether the track has come to its end.
    pub fn is_finished(&self) -> (ended: bool)
        ensures
            ended == self@.stage.is_terminal(),
    {
        self.stage.is_terminal()
    }

    /// The relative name of the track, without extension; empty until the
    /// metadata is known.
    pub fn file_name(&self) -> (name: String)
        ensures
            name@ == self@.file_name,
    {
        self.file_name.clone()
    }

    /// The output file; empty until the metadata is known.
    pub fn path(&self) -> (path: String)
        ensures
            path@ == self@.path,
    {
        self.path.clone()
    }

    /// The index entry of the track.
    pub fn link(&self) -> (link: String)
        ensures
            link@ == self@.link,
    {
        self.link.clone()
    }

    /// Hands the accumulated samples to the encoder, in order of receipt.
    /// They are handed out once, while the encoding is due: after that,
    /// and at any other stage, the buffer that is returned is empty and the
    /// pipeline stays as it is.
    pub fn take_samples(&mut self) -> (buffer: SampleBuffer)
        ensures
            buffer.samples@ == old(self)@.samples_due(),
            buffer.sample_rate == SAMPLE_RATE,
            buffer.channels == CHANNELS,
            buffer.bits_per_sample == BITS_PER_SAMPLE,
            final(self)@ == old(self)@.without_samples(),
    {
        if matches!(self.stage, Stage::Encode) {
            self.bridge.take_samples()
        } else {
            SampleBuffer {
                samples: Vec::new(),
                sample_rate: SAMPLE_RATE,
                channels: CHANNELS,
                bits_per_sample: BITS_PER_SAMPLE,
            }
        }
    }
}

/// An ended pipeline stays as it is, whatever is reported to it.
pub proof fn lemma_terminal_is_final(p: PipelineView, events: Seq<EventView>)
    requires
        p.stage.is_terminal(),
    ensures
        p.run(events) == p,
    decreases events.len(),
{
    if events.len() > 0 {
        lemma_terminal_is_final(p, events.drop_last());
    }
}

/// A failure ends the track from any stage that is not an end itself: the
/// track reports the failure, and nothing that follows changes that.
pub proof fn lemma_failure_ends_track(
    p: PipelineView,
    error: DownloadErrorView,
    later: Seq<EventView>,
)
    requires
        !p.stage.is_terminal(),
    ensures
        p.advance(EventView::Failed(error)).stage == StageView::Fail(error),
        p.advance(EventView::Failed(error)).run(later).command() == (CommandView::Finish {
            outcome: Err(error),
        }),
{
    lemma_terminal_is_final(p.advance(EventView::Failed(error)), later);
}

/// Cache round trip: where the index holds an entry for the track and the
/// entry's target exists, the track is skipped. It ends at once with
/// success, and whatever is reported later, no other command ever becomes
/// due: no metadata is retrieved and the audio source is not started.
pub proof fn lemma_cache_hit_skips(p: PipelineView, target: Seq<char>, later: Seq<EventView>)
    requires
        p.stage is CheckCache,
    ensures
        ({
            let hit = p.advance(
                EventView::Probed(LinkStateView::Present { target, target_exists: true }),
            );
            &&& hit.stage == StageView::Skip { target }
            &&& hit.run(later) == hit
            &&& hit.run(later).command() == CommandView::Finish { outcome: Ok(()) }
        }),
{
    let hit = p.advance(EventView::Probed(LinkStateView::Present { target, target_exists: true }));
    lemma_terminal_is_final(hit, later);
}

/// Stale-cache recovery: where the entry's target is gone, the entry of the
/// track is removed, and then the track is downloaded like one that has no
/// entry, beginning with its metadata.
pub proof fn lemma_stale_entry_recovers(p: PipelineView, target: Seq<char>)
    requires
        p.stage is CheckCache,
    ensures
        ({
            let stale = p.advance(
                EventView::Probed(LinkStateView::Present { target, target_exists: false }),
            );
            let fresh = p.advance(EventView::Probed(LinkStateView::Missing));
            &&& stale.command() == CommandView::RemoveEntry { link: p.link }
            &&& stale.advance(EventView::Removed) == fresh
            &&& fresh.stage is FetchMetadata
            &&& fresh.command() == CommandView::FetchMetadata
        }),
{
}

/// The stages of a track follow each other in one order: an event leaves
/// the stage as it is, or ends the track with a failure, or leads to a
/// stage that directly follows. What identifies the track never changes.
pub proof fn lemma_stage_order(p: PipelineView, event: EventView)
    ensures
        ({
            let next = p.advance(event);
            &&& (next.stage == p.stage || (!p.stage.is_terminal() && next.stage is Fail)
                || p.stage.precedes(next.stage))
            &&& p.stage.rank() <= next.stage.rank()
            &&& next.link == p.link
            &&& next.destination == p.destination
            &&& next.format == p.format
            &&& next.structure == p.structure
            &&& next.ascii_only == p.ascii_only
            &&& next.cover_required == p.cover_required
        }),
{
}

/// Over any run the stage never goes back.
pub proof fn lemma_run_order(p: PipelineView, events: Seq<EventView>)
    ensures
        p.stage.rank() <= p.run(events).stage.rank(),
        p.run(events).link == p.link,
    decreases events.len(),
{
    if events.len() > 0 {
        lemma_run_order(p, events.drop_last());
        lemma_stage_order(p.run(events.drop_last()), events.last());
    }
}

/// The commit comes strictly after the write: it becomes due only when the
/// output file is reported as written in full, and it records exactly that
/// file under the entry of the track. A failed write is never followed by
/// a commit.
pub proof fn lemma_commit_follows_write(p: PipelineView, event: EventView)
    requires
        !(p.command() is Commit),
        p.advance(event).command() is Commit,
    ensures
        p.stage is Write,
        event is Written,
        p.advance(event).command() == (CommandView::Commit { path: p.path, link: p.link }),
{
}

/// A track is done only when its commit is reported.
pub proof fn lemma_done_follows_commit(p: PipelineView, event: EventView)
    requires
        !(p.stage is Done),
        p.advance(event).stage is Done,
    ensures
        p.stage is Commit,
        event is Committed,
{
}

/// The audio source is started only once the metadata is known and the
/// cover is settled, and the file is named from the metadata under the
/// folder structure and format of the run.
pub proof fn lemma_metadata_names_file(p: PipelineView, m: TrackMetadataView)
    requires
        p.stage is FetchMetadata,
    ensures
        ({
            let next = p.advance(EventView::Metadata(m));
            &&& next.file_name == file_name(m, p.structure, p.ascii_only)
            &&& next.path == joined_path(
                p.destination,
                file_name(m, p.structure, p.ascii_only) + "."@ + p.format.extension_text(),
            )
            &&& m.cover is Some ==> next.command() == (CommandView::FetchCoverArt {
                cover: m.cover->0,
            })
            &&& m.cover is None && p.cover_required ==> next.command() == (
            CommandView::Finish { outcome: Err(missing_cover_art()) })
            &&& m.cover is None && !p.cover_required ==> next.command()
                == CommandView::StartStream
        }),
{
}

/// While a track streams, its samples are those of the bridge: every
/// message is handed to the consumer, the terminal message leads on to the
/// encoder, and a channel that closes before it is a failure.
pub proof fn lemma_stream_feeds_bridge(p: PipelineView, message: SinkEventView)
    requires
        p.stage is Stream,
    ensures
        p.advance(EventView::Sink(message)).bridge == p.bridge.receive(message),
        !p.bridge.finished && message is Finished ==> p.advance(EventView::Sink(message)).command()
            == CommandView::Encode,
        !p.bridge.finished && message is Write ==> p.advance(EventView::Sink(message)).command()
            == CommandView::Receive,
        p.advance(EventView::ChannelClosed).command() == (CommandView::Finish {
            outcome: Err(closed_before_finished()),
        }),
{
}

/// Cache round trip, from one run to the next: once a track's file is
/// written and committed, any later pipeline for the same entry that
/// consults the index finds the entry valid and skips the track, whatever
/// else is stored.
pub proof fn lemma_cache_round_trip(first: PipelineView, second: PipelineView, store: StoreView)
    requires
        first.stage is Write,
        second.stage is CheckCache,
        second.link == first.link,
    ensures
        ({
            let written = first.effect(store);
            let committing = first.advance(EventView::Written);
            let committed = committing.effect(written);
            let done = committing.advance(EventView::Committed);
            let again = second.advance(EventView::Probed(committed.lookup(second.link)));
            &&& done.stage is Done
            &&& committed.lookup(first.link) == (LinkStateView::Present {
                target: first.path,
                target_exists: true,
            })
            &&& again.stage == StageView::Skip { target: first.path }
            &&& again.command() == CommandView::Finish { outcome: Ok(()) }
        }),
{
}

/// Stale-cache recovery, from one run to the next: where the target of a
/// track's entry no longer exists, the pipeline removes the entry, storage
/// then holds no entry for the track, and the track is downloaded afresh.
pub proof fn lemma_stale_cache_recovery(p: PipelineView, store: StoreView)
    requires
        p.stage is CheckCache,
        store.entries.contains_key(p.link),
        !store.files.contains(store.entries[p.link]),
    ensures
        ({
            let removing = p.advance(EventView::Probed(store.lookup(p.link)));
            let cleared = removing.effect(store);
            let fresh = removing.advance(EventView::Removed);
            &&& removing.command() == CommandView::RemoveEntry { link: p.link }
            &&& cleared.lookup(p.link) == LinkStateView::Missing
            &&& fresh.command() == CommandView::FetchMetadata
        }),
{
}

/// A track that fails leaves no entry behind: a failure is never followed
/// by a change of storage.
pub proof fn lemma_failure_commits_nothing(
    p: PipelineView,
    error: DownloadErrorView,
    later: Seq<EventView>,
    store: StoreView,
)
    requires
        !p.stage.is_terminal(),
    ensures
        p.advance(EventView::Failed(error)).run(later).effect(store) == store,
{
    lemma_terminal_is_final(p.advance(EventView::Failed(error)), later);
}

/// While data arrives the track keeps streaming, and its bridge has
/// received every message in turn.
pub proof fn lemma_stream_accumulates(p: PipelineView, writes: Seq<SinkEventView>)
    requires
        p.stage is Stream,
        !p.bridge.finished,
        all_writes(writes),
    ensures
        p.run(sink_events(writes)) == (PipelineView {
            bridge: p.bridge.receive_all(writes),
            ..p
        }),
        !p.bridge.receive_all(writes).finished,
    decreases writes.len(),
{
    if writes.len() > 0 {
        let before = writes.drop_last();
        assert forall|i: int| 0 <= i < before.len() implies #[trigger] before[i] is Write by {
            assert(before[i] == writes[i]);
        }
        assert(writes.last() is Write);
        lemma_stream_accumulates(p, before);
        assert(sink_events(writes).drop_last() =~= sink_events(before));
        assert(sink_events(writes).last() == EventView::Sink(writes.last()));
    }
}

/// What the encoder takes is what the audio source sent: after the data
/// messages of a stream and its terminal message, the encoding is due, and
/// the samples that are handed out are the chunks of the messages,
/// concatenated in order of receipt.
pub proof fn lemma_encoder_takes_the_stream(p: PipelineView, writes: Seq<SinkEventView>)
    requires
        p.stage is Stream,
        p.bridge == BridgeView::start(),
        all_writes(writes),
    ensures
        ({
            let end = p.run(sink_events(writes.push(SinkEventView::Finished)));
            &&& end.command() == CommandView::Encode
            &&& end.samples_due() == contents(writes).flatten()
            &&& end.without_samples().samples_due() == Seq::<i32>::empty()
        }),
{
    let stream = writes.push(SinkEventView::Finished);
    lemma_stream_accumulates(p, writes);
    lemma_writes_accumulate(p.bridge, writes);
    assert(sink_events(stream).drop_last() =~= sink_events(writes));
    assert(sink_events(stream).last() == EventView::Sink(SinkEventView::Finished));
    assert(Seq::<i32>::empty() + contents(writes).flatten() =~= contents(writes).flatten());
}

/// Every event keeps a pipeline rooted.
pub proof fn lemma_advance_keeps_rooted(p: PipelineView, event: EventView)
    requires
        p.rooted(),
    ensures
        p.advance(event).rooted(),
{
    if p.stage is FetchMetadata && event is Metadata {
        let m = event->Metadata_0;
        lemma_joined_path_absolute(
            p.destination,
            relative_path(m, p.structure, p.format, p.ascii_only),
        );
    }
}

/// Every run keeps a pipeline rooted.
pub proof fn lemma_run_keeps_rooted(p: PipelineView, events: Seq<EventView>)
    requires
        p.rooted(),
    ensures
        p.run(events).rooted(),
    decreases events.len(),
{
    if events.len() > 0 {
        lemma_run_keeps_rooted(p, events.drop_last());
        lemma_advance_keeps_rooted(p.run(events.drop_last()), events.last());
    }
}

/// The index records absolute paths only: whatever the destination and
/// whatever is reported to the pipeline, the file that it has written and
/// the file that it commits have an absolute path, and the entry is that
/// of the track below the destination.
pub proof fn lemma_committed_path_is_absolute(
    id: nat,
    destination: Seq<char>,
    format: Format,
    structure: FolderStructure,
    ascii_only: bool,
    cover_required: bool,
    events: Seq<EventView>,
)
    ensures
        ({
            let start = PipelineView::start(
                id,
                destination,
                format,
                structure,
                ascii_only,
                cover_required,
            );
            let end = start.run(events);
            &&& end.command() is Write ==> is_absolute(end.command()->Write_path)
            &&& end.command() is Commit ==> is_absolute(end.command()->Commit_path)
                && is_absolute(end.command()->Commit_link) && end.command()->Commit_link
                == link_path_text(destination, id)
            &&& !is_absolute(destination) ==> end.command() == (CommandView::Finish {
                outcome: Err(relative_destination()),
            })
        }),
{
    let start = PipelineView::start(id, destination, format, structure, ascii_only, cover_required);
    lemma_run_keeps_rooted(start, events);
    lemma_run_order(start, events);
    if is_absolute(destination) {
        lemma_joined_path_absolute(destination, ".index/"@ + decimal(id));
    } else {
        lemma_terminal_is_final(start, events);
    }
}

/// A track without cover is still downloaded where no cover is required:
/// once its metadata is known the audio source is started, and if every
/// later stage succeeds the track is written, committed and done.
pub proof fn lemma_coverless_track_completes(p: PipelineView, m: TrackMetadataView)
    requires
        p.stage is FetchMetadata,
        !p.cover_required,
        m.cover is None,
        !p.bridge.finished,
    ensures
        ({
            let named = p.advance(EventView::Metadata(m));
            let encoding = named.advance(EventView::Started).advance(
                EventView::Sink(SinkEventView::Finished),
            );
            let committing = encoding.advance(EventView::Encoded).advance(EventView::Written);
            let done = committing.advance(EventView::Committed);
            &&& named.command() == CommandView::StartStream
            &&& encoding.command() == CommandView::Encode
            &&& committing.command() == (CommandView::Commit { path: named.path, link: p.link })
            &&& done.command() == CommandView::Finish { outcome: Ok(()) }
        }),
{
}

} // verus!
