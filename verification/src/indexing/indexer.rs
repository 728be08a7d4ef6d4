//! The indexing run as a state machine.
//!
//! A run goes from `Idle` through `HealthChecked` and `CollectionEnsured`
//! to `Processing`, and ends in `Done` or `Aborted`. Each step takes the
//! outcome of the last request and names the next one; the caller performs
//! the requests. The store's health is confirmed before anything else, the
//! collection is ensured before the first file is read, and each file is
//! chunked, embedded chunk by chunk and written batch by batch.
//!
//! A chunk whose embedding fails is left out. A batch that the store does
//! not take ends its file without a fingerprint, so that the next run takes
//! the file up again. A store that is down, a collection that cannot be
//! ensured and a file that cannot be read end the run.

use crate::indexing::chunker::{chunk_text, chunked, is_blank, text_is_blank, Chunk};
use crate::qdrant_custom_client::{EmbeddingVector, Point, TelemetryResponse};
use crate::text::texts;
use crate::AppError;
use vstd::prelude::*;

verus! {

/// How far a run has come.
#[derive(Debug, Clone, Copy, PartialEq, Eq, Structural)]
pub enum RunPhase {
    /// The store's health is not confirmed yet.
    Idle,
    /// The store is up; the collection is not ensured yet.
    HealthChecked,
    /// The collection is there; no file has been read yet.
    CollectionEnsured,
    /// Files are being indexed.
    Processing,
    /// Every file was gone through.
    Done,
    /// The run has ended on an error.
    Aborted,
}

/// The request whose outcome a run waits for.
#[derive(Debug, Clone, Copy, PartialEq, Eq, Structural)]
pub enum Awaiting {
    Nothing,
    Health,
    CollectionExists,
    CollectionCreated,
    FileContent,
    Embedding,
    Upsert,
    HashRecord,
}

/// The state of a run.
#[derive(Debug)]
pub struct IndexRun {
    pub phase: RunPhase,
    pub awaiting: Awaiting,
    /// The collection that the points go to.
    pub collection: String,
    /// The chunk size, in characters.
    pub chunk_size: usize,
    /// How many chunks make a batch; 0 makes one batch of each file.
    pub batch_size: usize,
    /// The files to index, in order.
    pub files: Vec<String>,
    /// The place in `files` of the file at hand.
    pub file_index: usize,
    /// The chunks of the file at hand.
    pub chunks: Vec<String>,
    /// The place in `chunks` of the next chunk to look at.
    pub chunk_index: usize,
    /// The points of the batch at hand that are not written yet.
    pub batch: Vec<Point>,
}

/// What the caller reports to a run.
#[derive(Debug)]
pub enum IndexEvent {
    /// The run is to begin.
    Start,
    /// The outcome of the health check.
    Health(Result<TelemetryResponse, AppError>),
    /// The outcome of the existence check: whether the collection exists.
    CollectionExists(Result<bool, AppError>),
    /// The outcome of the creation: whether the store created the collection.
    CollectionCreated(Result<bool, AppError>),
    /// The text of the file that was asked for.
    FileLoaded(Result<String, AppError>),
    /// The embedding of the chunk that was handed out.
    Embedded(Result<EmbeddingVector, AppError>),
    /// The outcome of the write: whether the store took the points.
    Upserted(Result<bool, AppError>),
    /// The fingerprint of the file was recorded.
    HashRecorded,
}

/// What a run asks of the caller.
#[derive(Debug)]
pub enum IndexAction {
    /// Ask the store whether it is up.
    CheckHealth,
    /// Ask the store whether the collection exists.
    CheckCollection,
    /// Have the store create the collection.
    CreateCollection,
    /// Read the text of the named file.
    LoadFile(String),
    /// Embed the given chunk.
    Embed(String),
    /// Write the given points.
    Upsert(Vec<Point>),
    /// Record the fingerprint of the named file.
    RecordHash(String),
    /// The run is done: keep the record of fingerprints.
    Finish,
    /// The run has ended on the given error.
    Abort(AppError),
    /// The run ended earlier; nothing is left to do.
    Halt,
}

/// One step of a run: the next request, and the error that the step got
/// over, if any, for the caller's log.
#[derive(Debug)]
pub struct Step {
    pub action: IndexAction,
    pub warning: Option<AppError>,
}

/// What is due at a place in the chunks of a file.
#[derive(Debug, Clone, Copy, PartialEq, Eq, Structural)]
pub enum Due {
    /// The chunk at the place is to be embedded.
    Embed,
    /// The points of the batch are to be written.
    Flush,
    /// The file is through: its fingerprint is to be recorded.
    Record,
}

/// Whether a batch ends before the chunk at place `at`: at the end of the
/// `count` chunks, and after every `batch_size` chunks.
pub open spec fn batch_ends(at: int, count: int, batch_size: int) -> bool {
    at >= count || (batch_size > 0 && at % batch_size == 0)
}

/// The place at which a run comes to rest when it goes on from place `at`,
/// and what is due there. Points that wait at the end of a batch are
/// written first. Blank chunks are passed over. A chunk that is not blank is
/// embedded. With no chunk left the file is through.
pub open spec fn rest(chunks: Seq<Seq<char>>, at: int, waiting: int, batch_size: int) -> (int, Due)
    decreases chunks.len() - at,
{
    if waiting > 0 && batch_ends(at, chunks.len() as int, batch_size) {
        (at, Due::Flush)
    } else if at >= chunks.len() {
        (at, Due::Record)
    } else if at >= 0 && !is_blank(chunks[at]) {
        (at, Due::Embed)
    } else {
        rest(chunks, at + 1, waiting, batch_size)
    }
}

/// The message of a run that got an event it did not wait for.
pub open spec fn unexpected_message() -> Seq<char> {
    "unexpected event"@
}

/// The message of a creation that the store answered with a refusal.
pub open spec fn not_created_message(collection: Seq<char>) -> Seq<char> {
    "Failed to create collection '"@ + collection + "'"@
}

/// The message of a write that the store answered with a refusal.
pub open spec fn not_upserted_message(collection: Seq<char>) -> Seq<char> {
    "Failed to upsert points into collection '"@ + collection + "'"@
}

/// The message of a write that failed with the error `e`.
pub open spec fn upsert_failed_message(collection: Seq<char>, e: AppError) -> Seq<char> {
    "Failed to upsert points into collection '"@ + collection + "': "@ + (e.label()
        + e.detail())
}

/// The points that a run holds after a step: those handed out to be
/// written, or else those that wait in the state.
pub open spec fn held(post: IndexRun, step: Step) -> Seq<Point> {
    match step.action {
        IndexAction::Upsert(points) => points@,
        _ => post.batch@,
    }
}

impl IndexRun {
    /// Whether the two states have the same plan: collection, sizes and
    /// files.
    pub open spec fn same_plan(self, other: IndexRun) -> bool {
        &&& self.collection == other.collection
        &&& self.chunk_size == other.chunk_size
        &&& self.batch_size == other.batch_size
        &&& self.files == other.files
    }

    /// Whether the run waits for an outcome that concerns the file at hand.
    pub open spec fn at_a_file(self) -> bool {
        self.file_index < self.files@.len()
    }

    /// Whether `event` is one that the run waits for.
    pub open spec fn expects(self, event: IndexEvent) -> bool {
        match (self.phase, self.awaiting, event) {
            (RunPhase::Idle, Awaiting::Nothing, IndexEvent::Start) => true,
            (RunPhase::Idle, Awaiting::Health, IndexEvent::Health(_)) => true,
            (
                RunPhase::HealthChecked,
                Awaiting::CollectionExists,
                IndexEvent::CollectionExists(_),
            ) => true,
            (
                RunPhase::HealthChecked,
                Awaiting::CollectionCreated,
                IndexEvent::CollectionCreated(_),
            ) => true,
            (RunPhase::CollectionEnsured, Awaiting::FileContent, IndexEvent::FileLoaded(_)) =>
                self.at_a_file(),
            (RunPhase::Processing, Awaiting::FileContent, IndexEvent::FileLoaded(_)) =>
                self.at_a_file(),
            (RunPhase::Processing, Awaiting::Embedding, IndexEvent::Embedded(_)) =>
                self.at_a_file() && self.chunk_index < self.chunks@.len(),
            (RunPhase::Processing, Awaiting::Upsert, IndexEvent::Upserted(_)) => self.at_a_file(),
            (RunPhase::Processing, Awaiting::HashRecord, IndexEvent::HashRecorded) =>
                self.at_a_file(),
            _ => false,
        }
    }

    /// Whether the run has ended.
    pub open spec fn ended(self) -> bool {
        self.phase == RunPhase::Done || self.phase == RunPhase::Aborted
    }

    /// A step that ends the run on the error `e`.
    pub open spec fn aborts_with(self, post: IndexRun, step: Step, e: AppError) -> bool {
        &&& post == (IndexRun { phase: RunPhase::Aborted, awaiting: Awaiting::Nothing, ..self })
        &&& step.action == IndexAction::Abort(e)
        &&& step.warning is None
    }

    /// A step that ends the run on a vector-store error with the message
    /// `message`.
    pub open spec fn aborts_on_store(self, post: IndexRun, step: Step, message: Seq<char>) -> bool {
        &&& post == (IndexRun { phase: RunPhase::Aborted, awaiting: Awaiting::Nothing, ..self })
        &&& step.action matches IndexAction::Abort(e)
        &&& e is Qdrant
        &&& e.detail() == message
        &&& step.warning is None
    }

    /// A step that turns to the file at place `index`: the file is asked
    /// for, or the run is done where no file is left.
    pub open spec fn turns_to(self, post: IndexRun, step: Step, index: int, first: bool) -> bool {
        if 0 <= index < self.files@.len() {
            &&& post == (IndexRun {
                phase: if first {
                    RunPhase::CollectionEnsured
                } else {
                    RunPhase::Processing
                },
                awaiting: Awaiting::FileContent,
                file_index: index as usize,
                ..self
            })
            &&& step.action == IndexAction::LoadFile(self.files@[index])
        } else {
            &&& post == (IndexRun { phase: RunPhase::Done, awaiting: Awaiting::Nothing, ..self })
            &&& step.action == IndexAction::Finish
        }
    }

    /// A step that goes on in the file at hand, with `chunks` as the file's
    /// chunks, from place `at`, while `waiting` points are held.
    pub open spec fn goes_on(
        self,
        post: IndexRun,
        step: Step,
        chunks: Vec<String>,
        at: int,
        waiting: int,
    ) -> bool {
        let (place, due) = rest(texts(chunks@), at, waiting, self.batch_size as int);
        &&& post.same_plan(self)
        &&& post.phase == RunPhase::Processing
        &&& post.file_index == self.file_index
        &&& post.chunks == chunks
        &&& post.chunk_index == place
        &&& held(post, step).len() == waiting
        &&& match due {
            Due::Embed => post.awaiting == Awaiting::Embedding && step.action
                == IndexAction::Embed(chunks@[place]),
            Due::Flush => post.awaiting == Awaiting::Upsert && step.action is Upsert
                && post.batch@.len() == 0,
            Due::Record => post.awaiting == Awaiting::HashRecord && step.action
                == IndexAction::RecordHash(self.files@[self.file_index as int]),
        }
    }

    /// What one step does. `self` is the state before the step, `post` the
    /// state after it.
    pub open spec fn steps(self, event: IndexEvent, post: IndexRun, step: Step) -> bool {
        if self.ended() {
            post == self && step.action == IndexAction::Halt && step.warning is None
        } else if !self.expects(event) {
            &&& post == (IndexRun { phase: RunPhase::Aborted, awaiting: Awaiting::Nothing, ..self })
            &&& step.action matches IndexAction::Abort(e)
            &&& e is Unknown
            &&& e.detail() == unexpected_message()
            &&& step.warning is None
        } else {
            match event {
                IndexEvent::Start => {
                    &&& post == (IndexRun { awaiting: Awaiting::Health, ..self })
                    &&& step.action == IndexAction::CheckHealth
                    &&& step.warning is None
                },
                IndexEvent::Health(Ok(_)) => {
                    &&& post == (IndexRun {
                        phase: RunPhase::HealthChecked,
                        awaiting: Awaiting::CollectionExists,
                        ..self
                    })
                    &&& step.action == IndexAction::CheckCollection
                    &&& step.warning is None
                },
                IndexEvent::Health(Err(e)) => self.aborts_with(post, step, e),
                IndexEvent::CollectionExists(Ok(exists)) => if exists {
                    self.turns_to(post, step, 0, true) && step.warning is None
                } else {
                    &&& post == (IndexRun { awaiting: Awaiting::CollectionCreated, ..self })
                    &&& step.action == IndexAction::CreateCollection
                    &&& step.warning is None
                },
                IndexEvent::CollectionExists(Err(e)) => self.aborts_with(post, step, e),
                IndexEvent::CollectionCreated(Ok(created)) => if created {
                    self.turns_to(post, step, 0, true) && step.warning is None
                } else {
                    self.aborts_on_store(post, step, not_created_message(self.collection@))
                },
                IndexEvent::CollectionCreated(Err(e)) => self.aborts_with(post, step, e),
                IndexEvent::FileLoaded(Ok(content)) => {
                    &&& texts(post.chunks@) == chunked(content@, self.chunk_size as nat)
                    &&& self.goes_on(post, step, post.chunks, 0, 0)
                    &&& step.warning is None
                },
                IndexEvent::FileLoaded(Err(e)) => self.aborts_with(post, step, e),
                IndexEvent::Embedded(Ok(vector)) => {
                    let points = held(post, step);
                    &&& points.drop_last() == self.batch@
                    &&& points.len() > 0
                    &&& points.last().stands_for(
                        self.chunks@[self.chunk_index as int]@,
                        self.files@[self.file_index as int]@,
                        self.chunk_index,
                        vector@,
                    )
                    &&& self.goes_on(
                        post,
                        step,
                        self.chunks,
                        self.chunk_index + 1,
                        (self.batch@.len() + 1) as int,
                    )
                    &&& step.warning is None
                },
                IndexEvent::Embedded(Err(e)) => {
                    &&& held(post, step) == self.batch@
                    &&& self.goes_on(
                        post,
                        step,
                        self.chunks,
                        self.chunk_index + 1,
                        self.batch@.len() as int,
                    )
                    &&& step.warning == Some(e)
                },
                IndexEvent::Upserted(Ok(taken)) => if taken {
                    &&& held(post, step) == self.batch@
                    &&& self.goes_on(
                        post,
                        step,
                        self.chunks,
                        self.chunk_index as int,
                        self.batch@.len() as int,
                    )
                    &&& step.warning is None
                } else {
                    &&& self.turns_to(post, step, self.file_index + 1, false)
                    &&& step.warning matches Some(w)
                    &&& w is Qdrant
                    &&& w.detail() == not_upserted_message(self.collection@)
                },
                IndexEvent::Upserted(Err(e)) => {
                    &&& self.turns_to(post, step, self.file_index + 1, false)
                    &&& step.warning matches Some(w)
                    &&& w is Qdrant
                    &&& w.detail() == upsert_failed_message(self.collection@, e)
                },
                IndexEvent::HashRecorded => {
                    &&& self.turns_to(post, step, self.file_index + 1, false)
                    &&& step.warning is None
                },
            }
        }
    }

    /// A run over `files` that has not begun.
    pub fn new(collection: String, chunk_size: usize, batch_size: usize, files: Vec<String>) -> (run:
        IndexRun)
        ensures
            run.wf(),
            run.phase == RunPhase::Idle,
            run.awaiting == Awaiting::Nothing,
            run.collection == collection,
            run.chunk_size == chunk_size,
            run.batch_size == batch_size,
            run.files == files,
            run.file_index == 0,
            run.chunks@.len() == 0,
            run.chunk_index == 0,
            run.batch@.len() == 0,
    {
        IndexRun {
            phase: RunPhase::Idle,
            awaiting: Awaiting::Nothing,
            collection,
            chunk_size,
            batch_size,
            files,
            file_index: 0,
            chunks: Vec::new(),
            chunk_index: 0,
            batch: Vec::new(),
        }
    }

    fn expects_event(&self, event: &IndexEvent) -> (b: bool)
        ensures
            b == self.expects(*event),
    {
        let at_a_file = self.file_index < self.files.len();
        match (self.phase, self.awaiting, event) {
            (RunPhase::Idle, Awaiting::Nothing, IndexEvent::Start) => true,
            (RunPhase::Idle, Awaiting::Health, IndexEvent::Health(_)) => true,
            (
                RunPhase::HealthChecked,
                Awaiting::CollectionExists,
                IndexEvent::CollectionExists(_),
            ) => true,
            (
                RunPhase::HealthChecked,
                Awaiting::CollectionCreated,
                IndexEvent::CollectionCreated(_),
            ) => true,
            (RunPhase::CollectionEnsured, Awaiting::FileContent, IndexEvent::FileLoaded(_)) =>
                at_a_file,
            (RunPhase::Processing, Awaiting::FileContent, IndexEvent::FileLoaded(_)) => at_a_file,
            (RunPhase::Processing, Awaiting::Embedding, IndexEvent::Embedded(_)) => at_a_file
                && self.chunk_index < self.chunks.len(),
            (RunPhase::Processing, Awaiting::Upsert, IndexEvent::Upserted(_)) => at_a_file,
            (RunPhase::Processing, Awaiting::HashRecord, IndexEvent::HashRecorded) => at_a_file,
            _ => false,
        }
    }

    fn abort(&mut self, e: AppError) -> (step: Step)
        ensures
            old(self).aborts_with(*final(self), step, e),
    {
        self.phase = RunPhase::Aborted;
        self.awaiting = Awaiting::Nothing;
        Step { action: IndexAction::Abort(e), warning: None }
    }

    fn turn_to(&mut self, index: usize, first: bool, warning: Option<AppError>) -> (step: Step)
        ensures
            old(self).turns_to(*final(self), step, index as int, first),
            step.warning == warning,
    {
        if index < self.files.len() {
            self.phase = if first {
                RunPhase::CollectionEnsured
            } else {
                RunPhase::Processing
            };
            self.awaiting = Awaiting::FileContent;
            self.file_index = index;
            Step { action: IndexAction::LoadFile(self.files[index].clone()), warning }
        } else {
            self.phase = RunPhase::Done;
            self.awaiting = Awaiting::Nothing;
            Step { action: IndexAction::Finish, warning }
        }
    }

    fn batch_ends_at(&self, at: usize) -> (b: bool)
        ensures
            b == batch_ends(at as int, self.chunks@.len() as int, self.batch_size as int),
    {
        at >= self.chunks.len() || (self.batch_size > 0 && at % self.batch_size == 0)
    }

    fn go_on(&mut self, warning: Option<AppError>) -> (step: Step)
        requires
            old(self).at_a_file(),
        ensures
            old(self).goes_on(
                *final(self),
                step,
                old(self).chunks,
                old(self).chunk_index as int,
                old(self).batch@.len() as int,
            ),
            held(*final(self), step) == old(self).batch@,
            step.warning == warning,
    {
        self.phase = RunPhase::Processing;
        let ghost start = self.chunk_index as int;
        let ghost waiting = self.batch@.len() as int;
        let ghost all = texts(self.chunks@);
        loop
            invariant
                self.same_plan(*old(self)),
                self.phase == RunPhase::Processing,
                self.file_index == old(self).file_index,
                self.at_a_file(),
                self.chunks == old(self).chunks,
                self.batch == old(self).batch,
                all == texts(self.chunks@),
                waiting == self.batch@.len(),
                start == old(self).chunk_index,
                start <= self.chunk_index,
                rest(all, start, waiting, self.batch_size as int) == rest(
                    all,
                    self.chunk_index as int,
                    waiting,
                    self.batch_size as int,
                ),
            decreases
                    if self.chunk_index <= self.chunks@.len() {
                        self.chunks@.len() - self.chunk_index + 1
                    } else {
                        0
                    },
        {
            let at = self.chunk_index;
            assert(all.len() == self.chunks@.len());
            if self.batch.len() > 0 && self.batch_ends_at(at) {
                assert(rest(all, at as int, waiting, self.batch_size as int) == (
                    at as int,
                    Due::Flush,
                ));
                let mut points: Vec<Point> = Vec::new();
                core::mem::swap(&mut self.batch, &mut points);
                self.awaiting = Awaiting::Upsert;
                return Step { action: IndexAction::Upsert(points), warning };
            } else if at >= self.chunks.len() {
                assert(rest(all, at as int, waiting, self.batch_size as int) == (
                    at as int,
                    Due::Record,
                ));
                self.awaiting = Awaiting::HashRecord;
                return Step {
                    action: IndexAction::RecordHash(self.files[self.file_index].clone()),
                    warning,
                };
            } else if !text_is_blank(self.chunks[at].as_str()) {
                assert(all[at as int] == self.chunks@[at as int]@);
                assert(rest(all, at as int, waiting, self.batch_size as int) == (
                    at as int,
                    Due::Embed,
                ));
                self.awaiting = Awaiting::Embedding;
                return Step { action: IndexAction::Embed(self.chunks[at].clone()), warning };
            } else {
                assert(all[at as int] == self.chunks@[at as int]@);
                assert(rest(all, at as int, waiting, self.batch_size as int) == rest(
                    all,
                    at + 1,
                    waiting,
                    self.batch_size as int,
                ));
                self.chunk_index = at + 1;
            }
        }
    }

    /// Takes the outcome of the last request and names the next one.
    pub fn step(&mut self, event: IndexEvent) -> (step: Step)
        ensures
            old(self).steps(event, *final(self), step),
    {
        if self.phase == RunPhase::Done || self.phase == RunPhase::Aborted {
            return Step { action: IndexAction::Halt, warning: None };
        }
        if !self.expects_event(&event) {
            self.phase = RunPhase::Aborted;
            self.awaiting = Awaiting::Nothing;
            return Step {
                action: IndexAction::Abort(AppError::Unknown("unexpected event".to_owned())),
                warning: None,
            };
        }
        assert(self.expects(event));
        let file_count = self.files.len();
        let chunk_count = self.chunks.len();
        match event {
            IndexEvent::Start => {
                self.awaiting = Awaiting::Health;
                Step { action: IndexAction::CheckHealth, warning: None }
            },
            IndexEvent::Health(Ok(_)) => {
                self.phase = RunPhase::HealthChecked;
                self.awaiting = Awaiting::CollectionExists;
                Step { action: IndexAction::CheckCollection, warning: None }
            },
            IndexEvent::Health(Err(e)) => self.abort(e),
            IndexEvent::CollectionExists(Ok(exists)) => {
                if exists {
                    self.turn_to(0, true, None)
                } else {
                    self.awaiting = Awaiting::CollectionCreated;
                    Step { action: IndexAction::CreateCollection, warning: None }
                }
            },
            IndexEvent::CollectionExists(Err(e)) => self.abort(e),
            IndexEvent::CollectionCreated(Ok(created)) => {
                if created {
                    self.turn_to(0, true, None)
                } else {
                    let mut m = "Failed to create collection '".to_owned();
                    m.append(self.collection.as_str());
                    m.append("'");
                    self.abort(AppError::Qdrant(m))
                }
            },
            IndexEvent::CollectionCreated(Err(e)) => self.abort(e),
            IndexEvent::FileLoaded(Ok(content)) => {
                assert(self.at_a_file());
                self.chunks = chunk_text(content.as_str(), self.chunk_size);
                self.chunk_index = 0;
                self.batch = Vec::new();
                self.go_on(None)
            },
            IndexEvent::FileLoaded(Err(e)) => self.abort(e),
            IndexEvent::Embedded(Ok(vector)) => {
                assert(self.at_a_file() && self.chunk_index < self.chunks@.len());
                let at = self.chunk_index;
                let chunk = Chunk {
                    text: self.chunks[at].clone(),
                    source_file: self.files[self.file_index].clone(),
                    index: at,
                };
                let point = Point::for_chunk(&chunk, vector);
                let ghost before = self.batch@;
                self.batch.push(point);
                assert(self.batch@.drop_last() =~= before);
                self.chunk_index = at + 1;
                self.go_on(None)
            },
            IndexEvent::Embedded(Err(e)) => {
                assert(self.at_a_file() && self.chunk_index < self.chunks@.len());
                self.chunk_index = self.chunk_index + 1;
                self.go_on(Some(e))
            },
            IndexEvent::Upserted(Ok(taken)) => {
                assert(self.at_a_file());
                if taken {
                    self.go_on(None)
                } else {
                    let mut m = "Failed to upsert points into collection '".to_owned();
                    m.append(self.collection.as_str());
                    m.append("'");
                    let next = self.file_index + 1;
                    self.turn_to(next, false, Some(AppError::Qdrant(m)))
                }
            },
            IndexEvent::Upserted(Err(e)) => {
                assert(self.at_a_file());
                let mut m = "Failed to upsert points into collection '".to_owned();
                m.append(self.collection.as_str());
                m.append("': ");
                m.append(e.to_string().as_str());
                let next = self.file_index + 1;
                self.turn_to(next, false, Some(AppError::Qdrant(m)))
            },
            IndexEvent::HashRecorded => {
                assert(self.at_a_file());
                let next = self.file_index + 1;
                self.turn_to(next, false, None)
            },
        }
    }
}

/// Whether each of `points` stands for one of the first `upto` chunks of
/// the file `file`, with the place of the chunk in the file.
pub open spec fn from_chunks(points: Seq<Point>, chunks: Seq<String>, file: Seq<char>, upto: int) -> bool {
    forall|i: int| 0 <= i < points.len() ==> of_a_chunk(#[trigger] points[i], chunks, file, upto)
}

/// Whether `point` stands for one of the first `upto` chunks of the file
/// `file`, with the place of the chunk in the file.
pub open spec fn of_a_chunk(point: Point, chunks: Seq<String>, file: Seq<char>, upto: int) -> bool {
    exists|k: int|
        #![trigger chunks[k]]
        0 <= k < upto && k < chunks.len() && point.stands_for(
            chunks[k]@,
            file,
            k as usize,
            point.vector@,
        )
}

/// Whether `event` is the outcome of the request that `awaiting` names.
pub open spec fn answers(awaiting: Awaiting, event: IndexEvent) -> bool {
    match (awaiting, event) {
        (Awaiting::Nothing, IndexEvent::Start) => true,
        (Awaiting::Health, IndexEvent::Health(_)) => true,
        (Awaiting::CollectionExists, IndexEvent::CollectionExists(_)) => true,
        (Awaiting::CollectionCreated, IndexEvent::CollectionCreated(_)) => true,
        (Awaiting::FileContent, IndexEvent::FileLoaded(_)) => true,
        (Awaiting::Embedding, IndexEvent::Embedded(_)) => true,
        (Awaiting::Upsert, IndexEvent::Upserted(_)) => true,
        (Awaiting::HashRecord, IndexEvent::HashRecorded) => true,
        _ => false,
    }
}

impl IndexRun {
    /// Whether the state is one that a run can be in: the request that is
    /// waited for fits the phase, and a request about a file or a chunk has
    /// its file and its chunk.
    pub open spec fn wf(self) -> bool {
        match self.phase {
            RunPhase::Idle => self.awaiting == Awaiting::Nothing || self.awaiting
                == Awaiting::Health,
            RunPhase::HealthChecked => self.awaiting == Awaiting::CollectionExists
                || self.awaiting == Awaiting::CollectionCreated,
            RunPhase::CollectionEnsured => self.awaiting == Awaiting::FileContent
                && self.at_a_file(),
            RunPhase::Processing => {
                &&& self.at_a_file()
                &&& self.awaiting == Awaiting::FileContent || self.awaiting == Awaiting::Embedding
                    || self.awaiting == Awaiting::Upsert || self.awaiting == Awaiting::HashRecord
                &&& from_chunks(
                    self.batch@,
                    self.chunks@,
                    self.files@[self.file_index as int]@,
                    self.chunk_index as int,
                )
                &&& self.awaiting == Awaiting::Embedding ==> self.chunk_index < self.chunks@.len()
                    && !is_blank(self.chunks@[self.chunk_index as int]@)
                &&& self.awaiting == Awaiting::Upsert ==> self.batch@.len() == 0
                &&& self.awaiting == Awaiting::HashRecord ==> self.batch@.len() == 0
                    && self.chunk_index >= self.chunks@.len()
            },
            RunPhase::Done => self.awaiting == Awaiting::Nothing,
            RunPhase::Aborted => self.awaiting == Awaiting::Nothing,
        }
    }
}

proof fn lemma_rest(chunks: Seq<Seq<char>>, at: int, waiting: int, batch_size: int)
    requires
        0 <= at,
    ensures
        ({
            let (place, due) = rest(chunks, at, waiting, batch_size);
            &&& at <= place
            &&& due == Due::Embed ==> place < chunks.len() && !is_blank(chunks[place])
            &&& due == Due::Record ==> place >= chunks.len() && waiting <= 0
            &&& due == Due::Flush ==> waiting > 0
        }),
    decreases chunks.len() - at,
{
    if waiting > 0 && batch_ends(at, chunks.len() as int, batch_size) {
    } else if at >= chunks.len() {
    } else if !is_blank(chunks[at]) {
    } else {
        lemma_rest(chunks, at + 1, waiting, batch_size);
    }
}

/// Where a step that goes on in the file at hand comes to rest: at a
/// chunk that is not blank when a chunk is to be embedded, with points in
/// hand when points are to be written, and behind the last chunk with no
/// point in hand when the fingerprint is to be recorded. The place in the
/// chunks never moves back.
proof fn lemma_comes_to_rest(pre: IndexRun, event: IndexEvent, post: IndexRun, step: Step)
    requires
        pre.steps(event, post, step),
        !pre.ended(),
        pre.expects(event),
        post.phase == RunPhase::Processing,
        post.awaiting != Awaiting::FileContent,
    ensures
        post.at_a_file(),
        post.file_index == pre.file_index,
        post.files == pre.files,
        post.awaiting == Awaiting::Embedding ==> post.chunk_index < post.chunks@.len() && !is_blank(
            post.chunks@[post.chunk_index as int]@,
        ) && step.action == IndexAction::Embed(post.chunks@[post.chunk_index as int]),
        post.awaiting == Awaiting::Upsert ==> held(post, step).len() > 0 && post.batch@.len() == 0,
        post.awaiting == Awaiting::HashRecord ==> held(post, step).len() == 0 && post.chunk_index
            >= post.chunks@.len(),
        step.action is Upsert ==> post.awaiting == Awaiting::Upsert,
        step.action is Embed ==> post.awaiting == Awaiting::Embedding,
        event is FileLoaded ==> held(post, step).len() == 0,
        !(event is FileLoaded) ==> post.chunks == pre.chunks,
        event is Embedded ==> pre.chunk_index < post.chunk_index,
        event is Upserted ==> pre.chunk_index <= post.chunk_index,
{
    match event {
        IndexEvent::FileLoaded(Ok(content)) => {
            lemma_rest(texts(post.chunks@), 0, 0, pre.batch_size as int);
        },
        IndexEvent::Embedded(Ok(vector)) => {
            lemma_rest(
                texts(pre.chunks@),
                pre.chunk_index + 1,
                (pre.batch@.len() + 1) as int,
                pre.batch_size as int,
            );
        },
        IndexEvent::Embedded(Err(e)) => {
            lemma_rest(
                texts(pre.chunks@),
                pre.chunk_index + 1,
                pre.batch@.len() as int,
                pre.batch_size as int,
            );
        },
        IndexEvent::Upserted(Ok(taken)) => {
            lemma_rest(
                texts(pre.chunks@),
                pre.chunk_index as int,
                pre.batch@.len() as int,
                pre.batch_size as int,
            );
        },
        _ => {},
    }
}

/// Every step leads from a state that a run can be in to another such
/// state.
pub proof fn lemma_step_keeps_wf(pre: IndexRun, event: IndexEvent, post: IndexRun, step: Step)
    requires
        pre.wf(),
        pre.steps(event, post, step),
    ensures
        post.wf(),
{
    if post.phase == RunPhase::Processing && post.awaiting != Awaiting::FileContent {
        lemma_held_points(pre, event, post, step);
        if !pre.ended() && pre.expects(event) {
            lemma_comes_to_rest(pre, event, post, step);
        }
    }
}

/// In a state that a run can be in, the outcome of the request that the run
/// waits for is never taken for an event out of turn.
pub proof fn lemma_answer_is_expected(pre: IndexRun, event: IndexEvent)
    requires
        pre.wf(),
        !pre.ended(),
        answers(pre.awaiting, event),
    ensures
        pre.expects(event),
{
}

/// Nothing is embedded, read or written before the store's health is
/// confirmed: a step from `Idle` asks for the health check or for the
/// existence check, or ends the run, and it leaves `Idle` for
/// `HealthChecked` on a health check that succeeded and on nothing else.
pub proof fn lemma_health_comes_first(pre: IndexRun, event: IndexEvent, post: IndexRun, step: Step)
    requires
        pre.phase == RunPhase::Idle,
        pre.steps(event, post, step),
    ensures
        step.action is CheckHealth || step.action is CheckCollection || step.action is Abort,
        post.phase == RunPhase::Idle || post.phase == RunPhase::HealthChecked || post.phase
            == RunPhase::Aborted,
        post.phase == RunPhase::HealthChecked ==> pre.awaiting == Awaiting::Health && event
            matches IndexEvent::Health(Ok(_)),
{
}

/// A health check that fails ends the run with the error of the check.
pub proof fn lemma_failed_health_aborts(
    pre: IndexRun,
    e: AppError,
    post: IndexRun,
    step: Step,
)
    requires
        pre.phase == RunPhase::Idle,
        pre.awaiting == Awaiting::Health,
        pre.steps(IndexEvent::Health(Err(e)), post, step),
    ensures
        post.phase == RunPhase::Aborted,
        step.action == IndexAction::Abort(e),
{
}

/// A run that has ended stays as it is and asks for nothing more.
pub proof fn lemma_ended_run_halts(pre: IndexRun, event: IndexEvent, post: IndexRun, step: Step)
    requires
        pre.ended(),
        pre.steps(event, post, step),
    ensures
        post == pre,
        step.action == IndexAction::Halt,
{
}

/// A file is asked for only once the collection is ensured, and a chunk is
/// embedded, points are written and a fingerprint is recorded only while
/// files are processed.
pub proof fn lemma_work_needs_collection(
    pre: IndexRun,
    event: IndexEvent,
    post: IndexRun,
    step: Step,
)
    requires
        pre.steps(event, post, step),
    ensures
        step.action is LoadFile ==> post.phase == RunPhase::CollectionEnsured || post.phase
            == RunPhase::Processing,
        step.action is Embed || step.action is Upsert || step.action is RecordHash ==> post.phase
            == RunPhase::Processing && (pre.phase == RunPhase::CollectionEnsured || pre.phase
            == RunPhase::Processing),
{
}

/// The points that are handed out to be written stand for chunks of the
/// file at hand: each has the id of its chunk's text, and its payload names
/// the text, the file and the place of the chunk.
pub proof fn lemma_written_points_are_of_the_file(
    pre: IndexRun,
    event: IndexEvent,
    post: IndexRun,
    step: Step,
)
    requires
        pre.wf(),
        pre.steps(event, post, step),
        step.action is Upsert,
    ensures
        post.at_a_file(),
        from_chunks(
            held(post, step),
            post.chunks@,
            post.files@[post.file_index as int]@,
            post.chunk_index as int,
        ),
        held(post, step).len() > 0,
{
    lemma_held_points(pre, event, post, step);
}

proof fn lemma_of_a_chunk_later(
    point: Point,
    chunks: Seq<String>,
    file: Seq<char>,
    upto: int,
    later: int,
)
    requires
        of_a_chunk(point, chunks, file, upto),
        upto <= later,
    ensures
        of_a_chunk(point, chunks, file, later),
{
    let k = choose|k: int|
        #![trigger chunks[k]]
        0 <= k < upto && k < chunks.len() && point.stands_for(
            chunks[k]@,
            file,
            k as usize,
            point.vector@,
        );
    assert(chunks[k] == chunks[k]);
}

proof fn lemma_from_chunks_later(
    points: Seq<Point>,
    chunks: Seq<String>,
    file: Seq<char>,
    upto: int,
    later: int,
)
    requires
        from_chunks(points, chunks, file, upto),
        upto <= later,
    ensures
        from_chunks(points, chunks, file, later),
{
    assert forall|i: int| 0 <= i < points.len() implies of_a_chunk(
        #[trigger] points[i],
        chunks,
        file,
        later,
    ) by {
        lemma_of_a_chunk_later(points[i], chunks, file, upto, later);
    }
}

proof fn lemma_held_points(pre: IndexRun, event: IndexEvent, post: IndexRun, step: Step)
    requires
        pre.wf(),
        pre.steps(event, post, step),
        post.phase == RunPhase::Processing,
        post.awaiting != Awaiting::FileContent,
    ensures
        post.at_a_file(),
        from_chunks(
            held(post, step),
            post.chunks@,
            post.files@[post.file_index as int]@,
            post.chunk_index as int,
        ),
        step.action is Upsert ==> held(post, step).len() > 0,
{
    if !pre.ended() && pre.expects(event) {
        lemma_comes_to_rest(pre, event, post, step);
        let file = pre.files@[pre.file_index as int]@;
        let at = pre.chunk_index as int;
        let points = held(post, step);
        if event is FileLoaded {
        } else if event matches IndexEvent::Embedded(Ok(vector)) {
            assert forall|i: int| 0 <= i < points.len() implies of_a_chunk(
                #[trigger] points[i],
                pre.chunks@,
                file,
                at + 1,
            ) by {
                if i < points.len() - 1 {
                    assert(points[i] == points.drop_last()[i]);
                    assert(of_a_chunk(pre.batch@[i], pre.chunks@, file, at));
                    lemma_of_a_chunk_later(pre.batch@[i], pre.chunks@, file, at, at + 1);
                } else {
                    assert(points[i] == points.last());
                    assert(pre.chunks@[at] == pre.chunks@[at]);
                }
            }
            lemma_from_chunks_later(points, pre.chunks@, file, at + 1, post.chunk_index as int);
        } else {
            lemma_from_chunks_later(pre.batch@, pre.chunks@, file, at, post.chunk_index as int);
        }
    }
}

/// A chunk that is handed out to be embedded is a chunk of the file at
/// hand that is not blank.
pub proof fn lemma_embedded_chunk_is_not_blank(
    pre: IndexRun,
    event: IndexEvent,
    post: IndexRun,
    step: Step,
)
    requires
        pre.steps(event, post, step),
        step.action is Embed,
    ensures
        post.chunk_index < post.chunks@.len(),
        step.action == IndexAction::Embed(post.chunks@[post.chunk_index as int]),
        !is_blank(post.chunks@[post.chunk_index as int]@),
{
    lemma_comes_to_rest(pre, event, post, step);
}

} // verus!
