//! The upload orchestrator: one request-scoped state machine from locating
//! the configured multipart field to a completed or rejected upload.
//!
//! The machine owns every decision; the caller performs the outside work each
//! returned [`UploadAction`] asks for (await the next part, create the file,
//! write a chunk, delete a partial file) and reports what happened as the
//! next [`UploadEvent`]. Chunks are handed through one at a time, write then
//! next chunk, so memory holds at most one chunk in flight.

use vstd::prelude::*;
use crate::error::{ErrorModel, UploadError};
use crate::guard::StreamingSizeGuard;
use crate::media::{spec_media_type_of, MediaType};
use crate::meme::{Meme, MemeModel, StoredFile, StoredFileModel};
use crate::naming::{generate_stored_name, is_stored_name, is_uuid_text, spec_stored_name};
use crate::text::str_eq;

verus! {

/// Per-request configuration: the form field the upload is read from, the
/// byte ceiling, and the public URL prefix stored files are served under.
pub struct UploadConfig {
    /// The multipart field name carrying the upload.
    pub field_name: String,
    /// The maximum cumulative byte size of one payload.
    pub ceiling: u64,
    /// The URL prefix a stored name is appended to.
    pub url_prefix: String,
}

/// The mathematical shape of an [`UploadConfig`].
#[verifier::ext_equal]
pub struct ConfigModel {
    pub field_name: Seq<char>,
    pub ceiling: u64,
    pub url_prefix: Seq<char>,
}

impl View for UploadConfig {
    type V = ConfigModel;

    open spec fn view(&self) -> ConfigModel {
        ConfigModel {
            field_name: self.field_name@,
            ceiling: self.ceiling,
            url_prefix: self.url_prefix@,
        }
    }
}

/// What the outside world reports to the machine.
pub enum UploadEvent {
    /// The multipart source yielded a part with this name and declared
    /// content type.
    Part { name: Option<String>, content_type: Option<String> },
    /// The multipart source is exhausted.
    NoMorePart,
    /// The multipart source failed: the framing is malformed.
    PartError,
    /// The sink was created under the requested name.
    OpenDone,
    /// Creating the sink failed.
    OpenFail,
    /// The located field yielded one more chunk of payload.
    Chunk { data: Vec<u8> },
    /// The located field's payload ended.
    StreamEnd,
    /// Reading the payload failed: a network error or a client abort.
    StreamFail,
    /// The last chunk was written to the sink.
    WriteDone,
    /// Writing the last chunk failed.
    WriteFail,
}

/// The mathematical shape of an [`UploadEvent`].
#[verifier::ext_equal]
pub enum EventModel {
    Part { name: Option<Seq<char>>, content_type: Option<Seq<char>> },
    NoMorePart,
    PartError,
    OpenDone,
    OpenFail,
    Chunk { data: Seq<u8> },
    StreamEnd,
    StreamFail,
    WriteDone,
    WriteFail,
}

impl View for UploadEvent {
    type V = EventModel;

    open spec fn view(&self) -> EventModel {
        match self {
            UploadEvent::Part { name, content_type } => EventModel::Part {
                name: match name {
                    Option::Some(n) => Option::Some(n@),
                    Option::None => Option::None,
                },
                content_type: match content_type {
                    Option::Some(c) => Option::Some(c@),
                    Option::None => Option::None,
                },
            },
            UploadEvent::NoMorePart => EventModel::NoMorePart,
            UploadEvent::PartError => EventModel::PartError,
            UploadEvent::OpenDone => EventModel::OpenDone,
            UploadEvent::OpenFail => EventModel::OpenFail,
            UploadEvent::Chunk { data } => EventModel::Chunk { data: data@ },
            UploadEvent::StreamEnd => EventModel::StreamEnd,
            UploadEvent::StreamFail => EventModel::StreamFail,
            UploadEvent::WriteDone => EventModel::WriteDone,
            UploadEvent::WriteFail => EventModel::WriteFail,
        }
    }
}

/// What the machine asks the outside world to do next.
pub enum UploadAction {
    /// Await the next multipart part.
    ReadPart,
    /// Create a fresh sink under this name; it must not exist yet.
    OpenSink { name: String },
    /// Await the next payload chunk.
    ReadChunk,
    /// Append this chunk to the sink.
    Write { data: Vec<u8> },
    /// Delete the partial file stored under this name; the run is over.
    Cleanup { name: String },
    /// Nothing is left to do; the run is over.
    Done,
}

/// The mathematical shape of an [`UploadAction`].
#[verifier::ext_equal]
pub enum ActionModel {
    ReadPart,
    OpenSink { name: Seq<char> },
    ReadChunk,
    Write { data: Seq<u8> },
    Cleanup { name: Seq<char> },
    Done,
}

impl View for UploadAction {
    type V = ActionModel;

    open spec fn view(&self) -> ActionModel {
        match self {
            UploadAction::ReadPart => ActionModel::ReadPart,
            UploadAction::OpenSink { name } => ActionModel::OpenSink { name: name@ },
            UploadAction::ReadChunk => ActionModel::ReadChunk,
            UploadAction::Write { data } => ActionModel::Write { data: data@ },
            UploadAction::Cleanup { name } => ActionModel::Cleanup { name: name@ },
            UploadAction::Done => ActionModel::Done,
        }
    }
}

/// Where one upload stands.
pub enum UploadState {
    /// Scanning parts for the configured field name.
    Idle,
    /// The field is located and its type validated; the sink is being created
    /// under the generated name.
    Opening { media_type: MediaType, name: String },
    /// Awaiting the next chunk; `written` carries the bytes stored so far.
    Streaming {
        media_type: MediaType,
        name: String,
        guard: StreamingSizeGuard,
        written: Ghost<Seq<u8>>,
    },
    /// Awaiting completion of the write of `pending`.
    Writing {
        media_type: MediaType,
        name: String,
        guard: StreamingSizeGuard,
        written: Ghost<Seq<u8>>,
        pending: Ghost<Seq<u8>>,
    },
    /// The upload succeeded: the file is fully stored and the record built.
    Completed { meme: Meme, stored: StoredFile },
    /// The upload failed; `partial` names the file that was being filled when
    /// it did, which the matching cleanup action has asked to delete.
    Rejected { error: UploadError, partial: Option<StoredFile> },
}

/// The mathematical shape of an [`UploadState`]. The byte total of the size
/// guard is the length of the bytes written so far, so the guard itself has
/// no separate field here.
#[verifier::ext_equal]
pub enum StateModel {
    Idle,
    Opening { media_type: MediaType, name: Seq<char> },
    Streaming { media_type: MediaType, name: Seq<char>, written: Seq<u8> },
    Writing { media_type: MediaType, name: Seq<char>, written: Seq<u8>, pending: Seq<u8> },
    Completed { meme: MemeModel, stored: StoredFileModel },
    Rejected { error: ErrorModel, partial: Option<StoredFileModel> },
}

impl View for UploadState {
    type V = StateModel;

    open spec fn view(&self) -> StateModel {
        match self {
            UploadState::Idle => StateModel::Idle,
            UploadState::Opening { media_type, name } => StateModel::Opening {
                media_type: *media_type,
                name: name@,
            },
            UploadState::Streaming { media_type, name, guard, written } => StateModel::Streaming {
                media_type: *media_type,
                name: name@,
                written: written@,
            },
            UploadState::Writing {
                media_type,
                name,
                guard,
                written,
                pending,
            } => StateModel::Writing {
                media_type: *media_type,
                name: name@,
                written: written@,
                pending: pending@,
            },
            UploadState::Completed { meme, stored } => StateModel::Completed {
                meme: meme@,
                stored: stored@,
            },
            UploadState::Rejected { error, partial } => StateModel::Rejected {
                error: error@,
                partial: match partial {
                    Option::Some(p) => Option::Some(p@),
                    Option::None => Option::None,
                },
            },
        }
    }
}

impl UploadState {
    /// Which events may be reported in this state: exactly the answers to the
    /// outside work the last action asked for.
    pub open spec fn accepts(self, ev: UploadEvent) -> bool {
        match self {
            UploadState::Idle => ev matches UploadEvent::Part { .. } || ev matches
                UploadEvent::NoMorePart || ev matches UploadEvent::PartError,
            UploadState::Opening { .. } => ev matches UploadEvent::OpenDone || ev matches
                UploadEvent::OpenFail,
            UploadState::Streaming { .. } => ev matches UploadEvent::Chunk { .. } || ev matches
                UploadEvent::StreamEnd || ev matches UploadEvent::StreamFail,
            UploadState::Writing { .. } => ev matches UploadEvent::WriteDone || ev matches
                UploadEvent::WriteFail,
            UploadState::Completed { .. } => false,
            UploadState::Rejected { .. } => false,
        }
    }
}

/// One transition of the upload state machine, over models. `fresh` is the
/// UUID stem drawn if this transition generates a storage name, and `now` the
/// clock reading if it builds the record; both are ignored elsewhere. Events
/// that the state does not accept leave it unchanged.
pub open spec fn spec_step(
    cfg: ConfigModel,
    s: StateModel,
    ev: EventModel,
    fresh: Seq<char>,
    now: i64,
) -> (StateModel, ActionModel) {
    match s {
        StateModel::Idle => match ev {
            EventModel::Part { name, content_type } => {
                if name == Option::Some(cfg.field_name) {
                    match content_type {
                        Option::None => (
                            StateModel::Rejected {
                                error: ErrorModel::MalformedRequest,
                                partial: Option::None,
                            },
                            ActionModel::Done,
                        ),
                        Option::Some(ct) => match spec_media_type_of(ct) {
                            Option::Some(mt) => (
                                StateModel::Opening {
                                    media_type: mt,
                                    name: spec_stored_name(fresh, mt),
                                },
                                ActionModel::OpenSink { name: spec_stored_name(fresh, mt) },
                            ),
                            Option::None => (
                                StateModel::Rejected {
                                    error: ErrorModel::UnsupportedMediaType(ct),
                                    partial: Option::None,
                                },
                                ActionModel::Done,
                            ),
                        },
                    }
                } else {
                    (StateModel::Idle, ActionModel::ReadPart)
                }
            },
            EventModel::NoMorePart => (
                StateModel::Rejected { error: ErrorModel::MissingField, partial: Option::None },
                ActionModel::Done,
            ),
            EventModel::PartError => (
                StateModel::Rejected { error: ErrorModel::MalformedRequest, partial: Option::None },
                ActionModel::Done,
            ),
            _ => (s, ActionModel::Done),
        },
        StateModel::Opening { media_type, name } => match ev {
            EventModel::OpenDone => (
                StateModel::Streaming { media_type, name, written: Seq::empty() },
                ActionModel::ReadChunk,
            ),
            EventModel::OpenFail => (
                StateModel::Rejected { error: ErrorModel::StorageError, partial: Option::None },
                ActionModel::Done,
            ),
            _ => (s, ActionModel::Done),
        },
        StateModel::Streaming { media_type, name, written } => match ev {
            EventModel::Chunk { data } => {
                if written.len() + data.len() <= cfg.ceiling {
                    (
                        StateModel::Writing { media_type, name, written, pending: data },
                        ActionModel::Write { data },
                    )
                } else {
                    (
                        StateModel::Rejected {
                            error: ErrorModel::PayloadTooLarge,
                            partial: Option::Some(
                                StoredFileModel { name, size: written.len() as u64 },
                            ),
                        },
                        ActionModel::Cleanup { name },
                    )
                }
            },
            EventModel::StreamEnd => (
                StateModel::Completed {
                    meme: MemeModel { media_type, url: cfg.url_prefix + name, created_at: now },
                    stored: StoredFileModel { name, size: written.len() as u64 },
                },
                ActionModel::Done,
            ),
            EventModel::StreamFail => (
                StateModel::Rejected {
                    error: ErrorModel::StreamError,
                    partial: Option::Some(StoredFileModel { name, size: written.len() as u64 }),
                },
                ActionModel::Cleanup { name },
            ),
            _ => (s, ActionModel::Done),
        },
        StateModel::Writing { media_type, name, written, pending } => match ev {
            EventModel::WriteDone => (
                StateModel::Streaming { media_type, name, written: written + pending },
                ActionModel::ReadChunk,
            ),
            EventModel::WriteFail => (
                StateModel::Rejected {
                    error: ErrorModel::StorageError,
                    partial: Option::Some(
                        StoredFileModel { name, size: (written.len() + pending.len()) as u64 },
                    ),
                },
                ActionModel::Cleanup { name },
            ),
            _ => (s, ActionModel::Done),
        },
        StateModel::Completed { .. } => (s, ActionModel::Done),
        StateModel::Rejected { .. } => (s, ActionModel::Done),
    }
}

/// The structured result of one upload: the record on success, or the
/// failure with a reference to the partial file, if one was being filled.
pub enum UploadOutcome {
    /// The upload completed and its record was built.
    Success(Meme),
    /// The upload failed for this reason; the reference names the partial
    /// file whose deletion the run has already asked for.
    Rejected(UploadError, Option<StoredFile>),
}

/// Decides whether a multipart part carries the configured field: it does
/// exactly when its name is present and equal to the configured one.
pub fn part_matches_field(configured: &str, part_name: Option<&String>) -> (r: bool)
    ensures
        r == (part_name matches Option::Some(n) && n@ == configured@),
{
    match part_name {
        Option::Some(n) => str_eq(n.as_str(), configured),
        Option::None => false,
    }
}

/// The orchestrator: the configuration and where the one upload it owns
/// stands.
pub struct UploadOrchestrator {
    /// The request's configuration.
    pub config: UploadConfig,
    /// The current state of the upload.
    pub state: UploadState,
}

impl UploadOrchestrator {
    /// The machine's invariant: stored names have the shape the generator
    /// gives them, the size guard carries the configured ceiling, its total
    /// counts exactly the bytes handed to the sink, and that total never
    /// exceeds the ceiling.
    pub open spec fn wf(self) -> bool {
        match self.state {
            UploadState::Idle => true,
            UploadState::Opening { media_type, name } => is_stored_name(name@, media_type),
            UploadState::Streaming { media_type, name, guard, written } => {
                &&& is_stored_name(name@, media_type)
                &&& guard.wf()
                &&& guard.ceiling() == self.config.ceiling
                &&& guard.total() == written@.len()
            },
            UploadState::Writing { media_type, name, guard, written, pending } => {
                &&& is_stored_name(name@, media_type)
                &&& guard.wf()
                &&& guard.ceiling() == self.config.ceiling
                &&& guard.total() == written@.len() + pending@.len()
            },
            UploadState::Completed { meme, stored } => {
                &&& is_stored_name(stored.name@, meme.media_type)
                &&& stored.size <= self.config.ceiling
            },
            UploadState::Rejected { error, partial } => match partial {
                Option::Some(p) => p.size <= self.config.ceiling,
                Option::None => true,
            },
        }
    }

    /// Starts a fresh upload: nothing located, nothing stored yet. The first
    /// outside work to do is reading the first part.
    pub fn new(config: UploadConfig) -> (s: Self)
        ensures
            s.config == config,
            s.state is Idle,
            s.wf(),
    {
        UploadOrchestrator { config, state: UploadState::Idle }
    }

    /// Hands out the structured outcome once the run is over, or nothing
    /// while the machine still awaits outside work.
    pub fn into_outcome(self) -> (r: Option<UploadOutcome>)
        ensures
            match self.state {
                UploadState::Completed { meme, .. } => r matches Option::Some(o) && (o matches
                    UploadOutcome::Success(m) && m == meme),
                UploadState::Rejected { error, partial } => r matches Option::Some(o) && (o
                    matches UploadOutcome::Rejected(e, p) && e == error && p == partial),
                _ => r is None,
            },
    {
        match self.state {
            UploadState::Completed { meme, stored: _ } => Option::Some(
                UploadOutcome::Success(meme),
            ),
            UploadState::Rejected { error, partial } => Option::Some(
                UploadOutcome::Rejected(error, partial),
            ),
            _ => Option::None,
        }
    }

    /// Feeds the machine one event and returns the machine moved one step,
    /// with the next action for the caller to perform. The step taken is
    /// exactly one transition of [`spec_step`], for some UUID stem and clock
    /// reading drawn during it.
    pub fn on_event(self, ev: UploadEvent) -> (r: (Self, UploadAction))
        requires
            self.wf(),
            self.state.accepts(ev),
        ensures
            r.0.config == self.config,
            r.0.wf(),
            exists|fresh: Seq<char>, now: i64| (r.0.state@, r.1@) == spec_step(
                self.config@,
                self.state@,
                ev@,
                fresh,
                now,
            ),
    {
        let ghost pre_cfg = self.config@;
        let ghost pre = self.state@;
        let ghost evm = ev@;
        let UploadOrchestrator { config, state } = self;
        match state {
            UploadState::Idle => match ev {
                UploadEvent::Part { name, content_type } => {
                    let is_match = part_matches_field(config.field_name.as_str(), name.as_ref());
                    if is_match {
                        match content_type {
                            Option::None => {
                                let r = finish(config, UploadError::MalformedRequest);
                                proof {
                                    assert((r.0.state@, r.1@) == spec_step(
                                        pre_cfg,
                                        pre,
                                        evm,
                                        Seq::<char>::empty(),
                                        0i64,
                                    ));
                                }
                                r
                            },
                            Option::Some(ct) => match MediaType::from_str(ct.as_str()) {
                                Ok(mt) => {
                                    let stored = generate_stored_name(mt);
                                    let ghost stem = choose|stem: Seq<char>|
                                        is_uuid_text(stem) && stored@ == spec_stored_name(
                                            stem,
                                            mt,
                                        );
                                    let announced = stored.clone();
                                    let next = UploadOrchestrator {
                                        config,
                                        state: UploadState::Opening {
                                            media_type: mt,
                                            name: stored,
                                        },
                                    };
                                    let act = UploadAction::OpenSink { name: announced };
                                    proof {
                                        assert((next.state@, act@) == spec_step(
                                            pre_cfg,
                                            pre,
                                            evm,
                                            stem,
                                            0i64,
                                        ));
                                    }
                                    (next, act)
                                },
                                Err(e) => {
                                    let r = finish(config, e);
                                    proof {
                                        assert((r.0.state@, r.1@) == spec_step(
                                            pre_cfg,
                                            pre,
                                            evm,
                                            Seq::<char>::empty(),
                                            0i64,
                                        ));
                                    }
                                    r
                                },
                            },
                        }
                    } else {
                        let next = UploadOrchestrator { config, state: UploadState::Idle };
                        let act = UploadAction::ReadPart;
                        proof {
                            assert((next.state@, act@) == spec_step(
                                pre_cfg,
                                pre,
                                evm,
                                Seq::<char>::empty(),
                                0i64,
                            ));
                        }
                        (next, act)
                    }
                },
                UploadEvent::NoMorePart => {
                    let r = finish(config, UploadError::MissingField);
                    proof {
                        assert((r.0.state@, r.1@) == spec_step(
                            pre_cfg,
                            pre,
                            evm,
                            Seq::<char>::empty(),
                            0i64,
                        ));
                    }
                    r
                },
                UploadEvent::PartError => {
                    let r = finish(config, UploadError::MalformedRequest);
                    proof {
                        assert((r.0.state@, r.1@) == spec_step(
                            pre_cfg,
                            pre,
                            evm,
                            Seq::<char>::empty(),
                            0i64,
                        ));
                    }
                    r
                },
                _ => vstd::pervasive::unreached(),
            },
            UploadState::Opening { media_type, name } => match ev {
                UploadEvent::OpenDone => {
                    let guard = StreamingSizeGuard::new(config.ceiling);
                    let next = UploadOrchestrator {
                        config,
                        state: UploadState::Streaming {
                            media_type,
                            name,
                            guard,
                            written: Ghost(Seq::empty()),
                        },
                    };
                    let act = UploadAction::ReadChunk;
                    proof {
                        assert((next.state@, act@) == spec_step(
                            pre_cfg,
                            pre,
                            evm,
                            Seq::<char>::empty(),
                            0i64,
                        ));
                    }
                    (next, act)
                },
                UploadEvent::OpenFail => {
                    let r = finish(config, UploadError::StorageError);
                    proof {
                        assert((r.0.state@, r.1@) == spec_step(
                            pre_cfg,
                            pre,
                            evm,
                            Seq::<char>::empty(),
                            0i64,
                        ));
                    }
                    r
                },
                _ => vstd::pervasive::unreached(),
            },
            UploadState::Streaming { media_type, name, mut guard, written } => match ev {
                UploadEvent::Chunk { data } => {
                    let ghost chunk = data@;
                    let accepted = guard.accept(data.len() as u64);
                    match accepted {
                        Ok(()) => {
                            let next = UploadOrchestrator {
                                config,
                                state: UploadState::Writing {
                                    media_type,
                                    name,
                                    guard,
                                    written,
                                    pending: Ghost(chunk),
                                },
                            };
                            let act = UploadAction::Write { data };
                            proof {
                                assert((next.state@, act@) == spec_step(
                                    pre_cfg,
                                    pre,
                                    evm,
                                    Seq::<char>::empty(),
                                    0i64,
                                ));
                            }
                            (next, act)
                        },
                        Err(e) => {
                            let size = guard.current_total();
                            let r = finish_cleanup(config, e, name, size);
                            proof {
                                assert((r.0.state@, r.1@) == spec_step(
                                    pre_cfg,
                                    pre,
                                    evm,
                                    Seq::<char>::empty(),
                                    0i64,
                                ));
                            }
                            r
                        },
                    }
                },
                UploadEvent::StreamEnd => {
                    let meme = Meme::build(media_type, config.url_prefix.as_str(), name.as_str());
                    let ghost stamp = meme.created_at;
                    let size = guard.current_total();
                    let next = UploadOrchestrator {
                        config,
                        state: UploadState::Completed {
                            meme,
                            stored: StoredFile { name, size },
                        },
                    };
                    let act = UploadAction::Done;
                    proof {
                        assert((next.state@, act@) == spec_step(
                            pre_cfg,
                            pre,
                            evm,
                            Seq::<char>::empty(),
                            stamp,
                        ));
                    }
                    (next, act)
                },
                UploadEvent::StreamFail => {
                    let size = guard.current_total();
                    let r = finish_cleanup(config, UploadError::StreamError, name, size);
                    proof {
                        assert((r.0.state@, r.1@) == spec_step(
                            pre_cfg,
                            pre,
                            evm,
                            Seq::<char>::empty(),
                            0i64,
                        ));
                    }
                    r
                },
                _ => vstd::pervasive::unreached(),
            },
            UploadState::Writing { media_type, name, guard, written, pending } => match ev {
                UploadEvent::WriteDone => {
                    let next = UploadOrchestrator {
                        config,
                        state: UploadState::Streaming {
                            media_type,
                            name,
                            guard,
                            written: Ghost(written@ + pending@),
                        },
                    };
                    let act = UploadAction::ReadChunk;
                    proof {
                        assert((next.state@, act@) == spec_step(
                            pre_cfg,
                            pre,
                            evm,
                            Seq::<char>::empty(),
                            0i64,
                        ));
                    }
                    (next, act)
                },
                UploadEvent::WriteFail => {
                    let size = guard.current_total();
                    let r = finish_cleanup(config, UploadError::StorageError, name, size);
                    proof {
                        assert((r.0.state@, r.1@) == spec_step(
                            pre_cfg,
                            pre,
                            evm,
                            Seq::<char>::empty(),
                            0i64,
                        ));
                    }
                    r
                },
                _ => vstd::pervasive::unreached(),
            },
            UploadState::Completed { .. } => vstd::pervasive::unreached(),
            UploadState::Rejected { .. } => vstd::pervasive::unreached(),
        }
    }
}

/// Ends the run rejected with `error`; no file was created, so there is
/// nothing to clean up.
fn finish(config: UploadConfig, error: UploadError) -> (r: (UploadOrchestrator, UploadAction))
    ensures
        r.0.config == config,
        r.0.state@ == (StateModel::Rejected { error: error@, partial: Option::None }),
        r.0.wf(),
        r.1@ == ActionModel::Done,
{
    (
        UploadOrchestrator {
            config,
            state: UploadState::Rejected { error, partial: Option::None },
        },
        UploadAction::Done,
    )
}

/// Ends the run rejected with `error`, referencing the partial file `name` of
/// `size` bytes, and asks the caller to delete it.
fn finish_cleanup(config: UploadConfig, error: UploadError, name: String, size: u64) -> (r: (
    UploadOrchestrator,
    UploadAction,
))
    requires
        size <= config.ceiling,
    ensures
        r.0.config == config,
        r.0.state@ == (StateModel::Rejected {
            error: error@,
            partial: Option::Some(StoredFileModel { name: name@, size }),
        }),
        r.0.wf(),
        r.1@ == (ActionModel::Cleanup { name: name@ }),
{
    let announced = name.clone();
    (
        UploadOrchestrator {
            config,
            state: UploadState::Rejected {
                error,
                partial: Option::Some(StoredFile { name, size }),
            },
        },
        UploadAction::Cleanup { name: announced },
    )
}

} // verus!
