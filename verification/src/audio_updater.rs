//! The resource multiplexer: one capture pipeline per source index, shared
//! by every consumer attached to that index.
//!
//! Each source index is in one of two observable states: Unassigned (no
//! table entry) or Active (an entry holding the one live extractor record
//! and the nonempty set of attached consumer ids).  An entry exists exactly
//! while its consumer set is nonempty: the extractor is created lazily by
//! the first attach and torn down by the last detach, so no idle capture
//! stream lingers.  One publication slot per index carries the most recent
//! spectrum frame; it reads `None` before the first frame and again after
//! teardown.
//!
//! Opening the underlying device and reading from it are the surrounding
//! application's work (device I/O); the driver loop reports each outcome to
//! this module — whether an open succeeded, and what a read produced — and
//! every state change this module makes from those reports is verified.

use vstd::prelude::*;

use std::collections::HashSet;
use std::sync::mpsc::Receiver;

verus! {

use crate::audio_devices::PaSourceInfo;
use crate::audio_process::{AudioFrame, AudioProcessor};
use crate::message::UpdateMessage;

broadcast use vstd::std_specs::hash::group_hash_axioms;

/// What can go wrong in the pipeline.
#[derive(Clone, Copy, PartialEq, Eq, Structural, Debug)]
pub enum MultiplexError {
    /// The source could not be opened: there is no descriptor at the index,
    /// or the device refused the open.  Recoverable — the caller may attach
    /// again; other indices are unaffected.
    DeviceUnavailable,
    /// A device read failed while producing a frame.  The failing index's
    /// entry is torn down rather than retried forever.
    CaptureReadFailure,
    /// The sending side of the control channel is gone.  Fatal to the
    /// driver loop: no further attach or detach can ever arrive.
    ChannelClosed,
}

#[verifier::external_type_specification]
#[verifier::external_body]
#[verifier::reject_recursive_types(T)]
pub struct ExReceiver<T>(Receiver<T>);

/// The abstract state of the multiplexer: the fixed descriptor table, one
/// optional (extractor, consumer set) entry per index, and one publication
/// slot per index.
#[verifier::ext_equal]
pub struct MuxState {
    /// Name of the system default source.
    pub default_source_name: Seq<char>,
    /// The sparse descriptor table, fixed for the multiplexer's lifetime.
    pub sources: Seq<Option<PaSourceInfo>>,
    /// Per index: the live extractor and the consumers using it, or `None`.
    pub entries: Seq<Option<(AudioProcessor, Set<usize>)>>,
    /// Per index: the most recently published frame, if any.
    pub slots: Seq<Option<AudioFrame>>,
}

/// The extractor record that an attach to `index` creates from the
/// descriptor `d` (see `AudioProcessor::new`).
pub open spec fn extractor_record(d: PaSourceInfo, index: usize) -> AudioProcessor {
    AudioProcessor { source_index: index, channels: d.channels as usize, rate: d.rate }
}

impl MuxState {
    /// Well-formedness: the three tables have one cell per source index; an
    /// entry exists only with a nonempty consumer set, a present descriptor,
    /// and the extractor record built from that descriptor; an unassigned
    /// index publishes nothing.
    pub open spec fn wf(self) -> bool {
        &&& self.entries.len() == self.sources.len()
        &&& self.slots.len() == self.sources.len()
        &&& forall|i: int|
            0 <= i < self.sources.len() ==> match #[trigger] self.entries[i] {
                Some(e) => {
                    &&& e.1.finite()
                    &&& !e.1.is_empty()
                    &&& match self.sources[i] {
                        Some(d) => e.0 == extractor_record(d, i as usize),
                        None => false,
                    }
                },
                None => self.slots[i] is None,
            }
    }

    /// Whether `index` is Active (has a live extractor).
    pub open spec fn is_active(self, index: int) -> bool {
        self.entries[index] is Some
    }

    /// The consumers attached to `index` (empty when Unassigned).
    pub open spec fn consumers(self, index: int) -> Set<usize> {
        match self.entries[index] {
            Some(e) => e.1,
            None => Set::empty(),
        }
    }
}

/// The attach transition (`assign_id_to_index`): the new state and the
/// result.  `device_opened` reports whether the application's attempt to
/// open the underlying device succeeded; it matters only when the index was
/// Unassigned, since an Active index already has its stream.
pub open spec fn attach_tr(s: MuxState, id: usize, index: int, device_opened: bool) -> (
    MuxState,
    Result<(), MultiplexError>,
) {
    match s.entries[index] {
        Some(e) => (
            MuxState { entries: s.entries.update(index, Some((e.0, e.1.insert(id)))), ..s },
            Ok(()),
        ),
        None => match s.sources[index] {
            Some(d) => if device_opened {
                (
                    MuxState {
                        entries: s.entries.update(
                            index,
                            Some((extractor_record(d, index as usize), set![id])),
                        ),
                        slots: s.slots.update(index, None),
                        ..s
                    },
                    Ok(()),
                )
            } else {
                (s, Err(MultiplexError::DeviceUnavailable))
            },
            None => (s, Err(MultiplexError::DeviceUnavailable)),
        },
    }
}

/// The detach transition (`remove_id_from_index`): removing an id that is
/// not attached, or detaching from an Unassigned index, changes nothing;
/// removing the last consumer tears the entry down and clears the slot.
pub open spec fn detach_tr(s: MuxState, id: usize, index: int) -> MuxState {
    match s.entries[index] {
        Some(e) => if e.1.contains(id) {
            let rest = e.1.remove(id);
            if rest.is_empty() {
                MuxState {
                    entries: s.entries.update(index, None),
                    slots: s.slots.update(index, None),
                    ..s
                }
            } else {
                MuxState { entries: s.entries.update(index, Some((e.0, rest))), ..s }
            }
        } else {
            s
        },
        None => s,
    }
}

/// The retarget transition: attach to the new index, and only if that
/// succeeded, detach from the old one — so the consumer always keeps a live
/// attachment, and a failed attach leaves everything as it was.
pub open spec fn retarget_tr(
    s: MuxState,
    id: usize,
    old_index: int,
    new_index: int,
    device_opened: bool,
) -> (MuxState, Result<(), MultiplexError>) {
    let (s1, r) = attach_tr(s, id, new_index, device_opened);
    match r {
        Ok(_) => (detach_tr(s1, id, old_index), Ok(())),
        Err(e) => (s, Err(e)),
    }
}

/// The frame-delivery transition (one index of `drive_once`): a produced
/// frame overwrites the slot; a failed read tears the index down and
/// reports `CaptureReadFailure`.
pub open spec fn capture_tr(s: MuxState, index: int, captured: Option<AudioFrame>) -> (
    MuxState,
    Result<(), MultiplexError>,
) {
    match captured {
        Some(frame) => (MuxState { slots: s.slots.update(index, Some(frame)), ..s }, Ok(())),
        None => (
            MuxState {
                entries: s.entries.update(index, None),
                slots: s.slots.update(index, None),
                ..s
            },
            Err(MultiplexError::CaptureReadFailure),
        ),
    }
}

/// The dispatch of one control message, as a transition.
pub open spec fn handle_tr(s: MuxState, message: UpdateMessage, device_opened: bool) -> (
    MuxState,
    Result<(), MultiplexError>,
) {
    match message {
        UpdateMessage::Destroy(id, index) => (detach_tr(s, id, index as int), Ok(())),
        UpdateMessage::ChangeMapping(id, old_index, new_index) => retarget_tr(
            s,
            id,
            old_index as int,
            new_index as int,
            device_opened,
        ),
        UpdateMessage::Add(id, index) => attach_tr(s, id, index as int, device_opened),
    }
}

/// What a message needs of the state before it can be applied: indices in
/// range, and no double attach of an id already attached to that index.
pub open spec fn message_permitted(s: MuxState, message: UpdateMessage) -> bool {
    match message {
        UpdateMessage::Destroy(id, index) => index < s.sources.len(),
        UpdateMessage::ChangeMapping(id, old_index, new_index) => {
            &&& old_index < s.sources.len()
            &&& new_index < s.sources.len()
            &&& !s.consumers(new_index as int).contains(id)
        },
        UpdateMessage::Add(id, index) => index < s.sources.len() && !s.consumers(
            index as int,
        ).contains(id),
    }
}

/// The multiplexer.  It owns the receiving end of the control channel, the
/// descriptor table, the entry table and the publication slots; consumers
/// interact with it only through control messages.
pub struct AudioUpdater {
    default_source_name: String,
    sources: Vec<Option<PaSourceInfo>>,
    audio_processor_mappings: Vec<Option<(AudioProcessor, HashSet<usize>)>>,
    msg_receiver: Receiver<UpdateMessage>,
    current_data: Vec<Option<AudioFrame>>,
}

impl View for AudioUpdater {
    type V = MuxState;

    closed spec fn view(&self) -> MuxState {
        MuxState {
            default_source_name: self.default_source_name@,
            sources: self.sources@,
            entries: Seq::new(
                self.audio_processor_mappings@.len(),
                |i: int|
                    match self.audio_processor_mappings@[i] {
                        Some(e) => Some((e.0, e.1@)),
                        None => None,
                    },
            ),
            slots: self.current_data@,
        }
    }
}

impl AudioUpdater {
    /// A fresh multiplexer over the given descriptor table: every index
    /// Unassigned, every publication slot empty.
    pub fn new(
        default_source_name: &str,
        sources: Vec<Option<PaSourceInfo>>,
        msg_receiver: Receiver<UpdateMessage>,
    ) -> (r: AudioUpdater)
        ensures
            r@.wf(),
            r@.default_source_name == default_source_name@,
            r@.sources == sources@,
            forall|i: int| 0 <= i < sources@.len() ==> !r@.is_active(i),
            forall|i: int| 0 <= i < sources@.len() ==> r@.slots[i] is None,
    {
        let n: usize = sources.len();
        let mut mappings: Vec<Option<(AudioProcessor, HashSet<usize>)>> = Vec::new();
        let mut data: Vec<Option<AudioFrame>> = Vec::new();
        let mut i: usize = 0;
        while i < n
            invariant
                0 <= i <= n,
                mappings@.len() == i as int,
                data@.len() == i as int,
                forall|k: int| 0 <= k < i as int ==> mappings@[k] is None,
                forall|k: int| 0 <= k < i as int ==> data@[k] is None,
            decreases n - i,
        {
            mappings.push(None);
            data.push(None);
            i += 1;
        }
        AudioUpdater {
            default_source_name: default_source_name.to_owned(),
            sources,
            audio_processor_mappings: mappings,
            msg_receiver,
            current_data: data,
        }
    }

    /// Number of source indices in the catalog table.
    pub fn num_sources(&self) -> (r: usize)
        ensures
            r == self@.sources.len(),
    {
        self.sources.len()
    }

    /// Whether `index` is Active — that is, whether an extractor is live for
    /// it.  The application's driver asks this to know when an attach will
    /// need a fresh device open.
    pub fn is_active(&self, index: usize) -> (r: bool)
        requires
            self@.wf(),
            index < self@.sources.len(),
        ensures
            r == self@.is_active(index as int),
    {
        self.audio_processor_mappings[index].is_some()
    }

    /// Read the publication slot of `index`: `None` until an extractor has
    /// produced a frame for it, and `None` again after teardown.
    pub fn read_slot(&self, index: usize) -> (r: &Option<AudioFrame>)
        requires
            self@.wf(),
            index < self@.sources.len(),
        ensures
            *r == self@.slots[index as int],
    {
        &self.current_data[index]
    }

    /// The index of the system default source: the first table entry whose
    /// descriptor carries the default source's name.
    pub fn default_source_index(&self) -> (r: Option<usize>)
        ensures
            match r {
                Some(i) => {
                    &&& i < self@.sources.len()
                    &&& default_name_at(self@, i as int)
                    &&& forall|j: int| 0 <= j < i as int ==> !default_name_at(self@, j)
                },
                None => forall|j: int| 0 <= j < self@.sources.len() ==> !default_name_at(self@, j),
            },
    {
        let n: usize = self.sources.len();
        let mut i: usize = 0;
        while i < n
            invariant
                0 <= i <= n,
                n == self@.sources.len(),
                forall|j: int| 0 <= j < i as int ==> !default_name_at(self@, j),
            decreases n - i,
        {
            match &self.sources[i] {
                Some(source_info) => {
                    if source_info.name == self.default_source_name {
                        return Some(i);
                    }
                },
                None => {},
            }
            i += 1;
        }
        None
    }
}

/// Whether the descriptor at `index` names the default source.
pub open spec fn default_name_at(s: MuxState, index: int) -> bool {
    match s.sources[index] {
        Some(d) => d.name@ == s.default_source_name,
        None => false,
    }
}

impl AudioUpdater {
    /// Attach consumer `id` to source `index` (the `Add` message).  If the
    /// index is Active, `id` joins its consumer set and the extractor is
    /// untouched.  If it is Unassigned, a successful device open
    /// (`device_opened`, reported by the caller's driver) makes it Active
    /// with `{id}` and an empty publication slot; a missing descriptor or a
    /// failed open returns `DeviceUnavailable` and changes nothing.
    /// Attaching an id already attached to the same index is not permitted.
    pub fn assign_id_to_index(&mut self, id: usize, index: usize, device_opened: bool) -> (r:
        Result<(), MultiplexError>)
        requires
            old(self)@.wf(),
            index < old(self)@.sources.len(),
            !old(self)@.consumers(index as int).contains(id),
        ensures
            final(self)@.wf(),
            final(self)@ == attach_tr(old(self)@, id, index as int, device_opened).0,
            r == attach_tr(old(self)@, id, index as int, device_opened).1,
    {
        let ghost pre = self@;
        if self.audio_processor_mappings[index].is_some() {
            let entry: &mut Option<(AudioProcessor, HashSet<usize>)> =
                &mut self.audio_processor_mappings[index];
            match entry {
                Some(pair) => {
                    pair.1.insert(id);
                },
                None => {},
            }
            proof {
                let post = attach_tr(pre, id, index as int, device_opened).0;
                assert(self@.entries =~= post.entries);
                assert(self@ =~= post);
                lemma_attach_preserves_wf(pre, id, index as int, device_opened);
            }
            Ok(())
        } else {
            match AudioProcessor::new(&self.sources, index) {
                Some(processor) => {
                    if device_opened {
                        let mut ids: HashSet<usize> = HashSet::new();
                        ids.insert(id);
                        proof {
                            assert(ids@ =~= set![id]);
                        }
                        self.audio_processor_mappings.set(index, Some((processor, ids)));
                        self.current_data.set(index, None);
                        proof {
                            let post = attach_tr(pre, id, index as int, device_opened).0;
                            assert(self@.entries =~= post.entries);
                            assert(self@.slots =~= post.slots);
                            assert(self@ =~= post);
                            lemma_attach_preserves_wf(pre, id, index as int, device_opened);
                        }
                        Ok(())
                    } else {
                        Err(MultiplexError::DeviceUnavailable)
                    }
                },
                None => Err(MultiplexError::DeviceUnavailable),
            }
        }
    }

    /// Detach consumer `id` from source `index` (the `Destroy` message).
    /// Detaching an id that is not attached, or detaching from an Unassigned
    /// index, is a no-op — duplicate teardown notifications are tolerated.
    /// When the last consumer leaves, the extractor is torn down and the
    /// publication slot reads `None` again.
    pub fn remove_id_from_index(&mut self, id: usize, index: usize)
        requires
            old(self)@.wf(),
            index < old(self)@.sources.len(),
        ensures
            final(self)@.wf(),
            final(self)@ == detach_tr(old(self)@, id, index as int),
    {
        let ghost pre = self@;
        let mut clear: bool = false;
        let entry: &mut Option<(AudioProcessor, HashSet<usize>)> =
            &mut self.audio_processor_mappings[index];
        match entry {
            Some(pair) => {
                if pair.1.contains(&id) {
                    pair.1.remove(&id);
                    if pair.1.is_empty() {
                        clear = true;
                    }
                }
            },
            None => {},
        }
        if clear {
            self.audio_processor_mappings.set(index, None);
            self.current_data.set(index, None);
        }
        proof {
            let post = detach_tr(pre, id, index as int);
            assert(self@.entries =~= post.entries);
            assert(self@.slots =~= post.slots);
            assert(self@ =~= post);
            lemma_detach_preserves_wf(pre, id, index as int);
        }
    }
}

/// Attaching preserves well-formedness.
pub proof fn lemma_attach_preserves_wf(s: MuxState, id: usize, index: int, device_opened: bool)
    requires
        s.wf(),
        0 <= index < s.sources.len(),
    ensures
        attach_tr(s, id, index, device_opened).0.wf(),
{
    let post = attach_tr(s, id, index, device_opened).0;
    match s.entries[index] {
        Some(e) => {
            assert(post.entries[index] matches Some(p) ==> !p.1.is_empty()) by {
                assert(e.1.insert(id).contains(id));
            }
        },
        None => {
            assert(!set![id].is_empty()) by {
                assert(set![id].contains(id));
            }
        },
    }
}

/// Detaching preserves well-formedness.
pub proof fn lemma_detach_preserves_wf(s: MuxState, id: usize, index: int)
    requires
        s.wf(),
        0 <= index < s.sources.len(),
    ensures
        detach_tr(s, id, index).wf(),
{
}

impl AudioUpdater {
    /// Retarget consumer `id` from `old_index` to `new_index`: attach to the
    /// new index first, and only if that succeeded detach from the old one,
    /// so the consumer is never left without a live attachment and the new
    /// source is proven viable before the old one is released.  A failed
    /// attach leaves the old attachment intact and issues no detach.
    pub fn retarget(
        &mut self,
        id: usize,
        old_index: usize,
        new_index: usize,
        device_opened: bool,
    ) -> (r: Result<(), MultiplexError>)
        requires
            old(self)@.wf(),
            old_index < old(self)@.sources.len(),
            new_index < old(self)@.sources.len(),
            !old(self)@.consumers(new_index as int).contains(id),
        ensures
            final(self)@.wf(),
            final(self)@ == retarget_tr(
                old(self)@,
                id,
                old_index as int,
                new_index as int,
                device_opened,
            ).0,
            r == retarget_tr(old(self)@, id, old_index as int, new_index as int, device_opened).1,
    {
        match self.assign_id_to_index(id, new_index, device_opened) {
            Ok(_) => {
                self.remove_id_from_index(id, old_index);
                Ok(())
            },
            Err(e) => Err(e),
        }
    }

    /// Deliver the outcome of one frame production for the Active `index`
    /// (one step of the drive phase).  A produced frame overwrites the
    /// index's publication slot whole; a failed read (`None`) tears the
    /// index's entry down — the driver does not spin on a broken device —
    /// and reports `CaptureReadFailure`.
    pub fn apply_capture(&mut self, index: usize, captured: Option<AudioFrame>) -> (r: Result<
        (),
        MultiplexError,
    >)
        requires
            old(self)@.wf(),
            index < old(self)@.sources.len(),
            old(self)@.is_active(index as int),
        ensures
            final(self)@.wf(),
            final(self)@ == capture_tr(old(self)@, index as int, captured).0,
            r == capture_tr(old(self)@, index as int, captured).1,
    {
        let ghost pre = self@;
        match captured {
            Some(frame) => {
                self.current_data.set(index, Some(frame));
                proof {
                    let post = capture_tr(pre, index as int, Some(frame)).0;
                    assert(self@.slots =~= post.slots);
                    assert(self@ =~= post);
                }
                Ok(())
            },
            None => {
                self.audio_processor_mappings.set(index, None);
                self.current_data.set(index, None);
                proof {
                    let post = capture_tr(pre, index as int, None).0;
                    assert(self@.entries =~= post.entries);
                    assert(self@.slots =~= post.slots);
                    assert(self@ =~= post);
                }
                Err(MultiplexError::CaptureReadFailure)
            },
        }
    }

    /// The Active indices, in increasing order: the indices the drive phase
    /// visits, producing one frame for each per iteration.
    pub fn active_indices(&self) -> (r: Vec<usize>)
        requires
            self@.wf(),
        ensures
            forall|k: int|
                0 <= k < r@.len() ==> r@[k] < self@.sources.len() && self@.is_active(r@[k] as int),
            forall|i: int|
                0 <= i < self@.sources.len() && self@.is_active(i) ==> r@.contains(i as usize),
            forall|k1: int, k2: int| 0 <= k1 < k2 < r@.len() ==> r@[k1] < r@[k2],
    {
        let n: usize = self.sources.len();
        let mut out: Vec<usize> = Vec::new();
        let mut i: usize = 0;
        while i < n
            invariant
                0 <= i <= n,
                n == self@.sources.len(),
                self@.wf(),
                forall|k: int|
                    0 <= k < out@.len() ==> out@[k] < i && self@.is_active(out@[k] as int),
                forall|j: int| 0 <= j < i as int && self@.is_active(j) ==> out@.contains(j as usize),
                forall|k1: int, k2: int| 0 <= k1 < k2 < out@.len() ==> out@[k1] < out@[k2],
            decreases n - i,
        {
            let ghost before = out@;
            if self.audio_processor_mappings[i].is_some() {
                out.push(i);
            }
            proof {
                assert forall|j: int|
                    0 <= j < i as int + 1 && self@.is_active(j) implies out@.contains(
                    j as usize,
                ) by {
                    if j < i as int {
                        assert(before.contains(j as usize));
                        let k = choose|k: int| 0 <= k < before.len() && before[k] == j as usize;
                        assert(out@[k] == j as usize);
                    } else {
                        assert(out@[out@.len() - 1] == j as usize);
                    }
                }
            }
            i += 1;
        }
        out
    }

    /// Whether consumer `id` is currently attached to `index`.  The driver
    /// asks this before applying an `Add` or `ChangeMapping` message, since
    /// attaching an id twice to one index is not permitted.
    pub fn is_attached(&self, id: usize, index: usize) -> (r: bool)
        requires
            self@.wf(),
            index < self@.sources.len(),
        ensures
            r == self@.consumers(index as int).contains(id),
    {
        match &self.audio_processor_mappings[index] {
            Some(pair) => pair.1.contains(&id),
            None => false,
        }
    }

    /// How many consumers are attached to `index` (0 when Unassigned).
    pub fn consumer_count(&self, index: usize) -> (r: usize)
        requires
            self@.wf(),
            index < self@.sources.len(),
        ensures
            r as nat == self@.consumers(index as int).len(),
    {
        match &self.audio_processor_mappings[index] {
            Some(pair) => pair.1.len(),
            None => 0,
        }
    }

    /// Poll the control channel without blocking: the receiving edge of the
    /// driver loop's iteration.  One waiting message is returned at a time;
    /// `None` says the queue is momentarily empty; `ChannelClosed` says the
    /// sending side is gone for good — fatal to the driver loop, since no
    /// attach or detach can ever arrive again.  What arrives depends on the
    /// other threads, so nothing is promised of the message itself; the
    /// multiplexer's own tables are untouched.
    ///
    /// Relies on std::sync::mpsc::Receiver::try_recv: without blocking it
    /// hands out the next waiting message in arrival order, or reports
    /// Empty, or reports Disconnected once every sender has been dropped.
    #[verifier::external_body]
    pub fn poll_message(&mut self) -> (r: Result<Option<UpdateMessage>, MultiplexError>)
        ensures
            final(self)@ == old(self)@,
    {
        match self.msg_receiver.try_recv() {
            Ok(m) => Ok(Some(m)),
            Err(std::sync::mpsc::TryRecvError::Empty) => Ok(None),
            Err(std::sync::mpsc::TryRecvError::Disconnected) => Err(MultiplexError::ChannelClosed),
        }
    }
}

impl crate::messages::HandleMessage for AudioUpdater {
    type M = (UpdateMessage, bool);

    type E = MultiplexError;

    open spec fn msg_permitted(&self, message: &(UpdateMessage, bool)) -> bool {
        &&& self@.wf()
        &&& message_permitted(self@, message.0)
    }

    open spec fn msg_handled(
        &self,
        pre: &AudioUpdater,
        message: &(UpdateMessage, bool),
        r: &Result<(), MultiplexError>,
    ) -> bool {
        &&& self@.wf()
        &&& self@ == handle_tr(pre@, message.0, message.1).0
        &&& *r == handle_tr(pre@, message.0, message.1).1
    }

    /// Dispatch one control message, with `message.1` reporting whether the
    /// driver's device open succeeded (meaningful only for a message that
    /// may create an extractor).
    fn handle_message(&mut self, message: (UpdateMessage, bool)) -> (r: Result<
        (),
        MultiplexError,
    >) {
        let (msg, device_opened) = message;
        match msg {
            UpdateMessage::Destroy(id, index) => {
                self.remove_id_from_index(id, index);
                Ok(())
            },
            UpdateMessage::ChangeMapping(id, old_index, new_index) => self.retarget(
                id,
                old_index,
                new_index,
                device_opened,
            ),
            UpdateMessage::Add(id, index) => self.assign_id_to_index(id, index, device_opened),
        }
    }
}

/// Law: for any state in which consumer `id` is not attached to `index`, an
/// attach of the pair `(id, index)` followed by a detach of the same pair
/// returns the multiplexer to exactly the state it started from — so any
/// sequence of such attach/detach pairs brings the consumer set for the
/// index back to what it was, with the publication slot and every other
/// index untouched.  When the index started Unassigned and the attach
/// succeeded, the pair creates the extractor exactly once and tears it down
/// exactly once: the index is Active between the two calls, and Unassigned
/// with a `None` publication slot after the second.
pub proof fn lemma_attach_detach_round_trip(
    s: MuxState,
    id: usize,
    index: int,
    device_opened: bool,
)
    requires
        s.wf(),
        0 <= index < s.sources.len(),
        !s.consumers(index).contains(id),
    ensures
        detach_tr(attach_tr(s, id, index, device_opened).0, id, index) == s,
        !s.is_active(index) && attach_tr(s, id, index, device_opened).1 is Ok ==> {
            let mid = attach_tr(s, id, index, device_opened).0;
            &&& mid.is_active(index)
            &&& !detach_tr(mid, id, index).is_active(index)
            &&& detach_tr(mid, id, index).slots[index] is None
        },
{
    let mid = attach_tr(s, id, index, device_opened).0;
    match s.entries[index] {
        Some(e) => {
            let grown = e.1.insert(id);
            assert(grown.contains(id));
            assert(grown.remove(id) =~= e.1);
            assert(detach_tr(mid, id, index).entries =~= s.entries);
            assert(detach_tr(mid, id, index) =~= s);
        },
        None => {
            if s.sources[index] is Some && device_opened {
                let fresh: Set<usize> = set![id];
                assert(fresh.contains(id));
                assert(fresh.remove(id) =~= Set::<usize>::empty());
                assert(detach_tr(mid, id, index).entries =~= s.entries);
                assert(detach_tr(mid, id, index).slots =~= s.slots);
                assert(detach_tr(mid, id, index) =~= s);
            }
        },
    }
}

/// Law: two consumers attaching to the same index never cause two live
/// extractors for that index.  The entry table holds at most one extractor
/// per index by construction, and the second attach finds the index Active,
/// always succeeds, and leaves the extractor exactly as the first attach
/// made it — only the consumer set grows.
pub proof fn lemma_second_attach_keeps_extractor(
    s: MuxState,
    id1: usize,
    id2: usize,
    index: int,
    opened1: bool,
    opened2: bool,
)
    requires
        s.wf(),
        0 <= index < s.sources.len(),
        attach_tr(s, id1, index, opened1).1 is Ok,
    ensures
        ({
            let s1 = attach_tr(s, id1, index, opened1).0;
            let s2 = attach_tr(s1, id2, index, opened2).0;
            &&& s1.is_active(index)
            &&& attach_tr(s1, id2, index, opened2).1 is Ok
            &&& s2.is_active(index)
            &&& s2.entries[index] matches Some(e2) && s1.entries[index] matches Some(e1) && e2.0
                == e1.0
            &&& s2.consumers(index) == s1.consumers(index).insert(id2)
        }),
{
}

/// Law: a retarget whose internal attach fails leaves the multiplexer
/// exactly as it was: the consumer's old attachment is intact and no detach
/// is issued.
pub proof fn lemma_retarget_failure_is_noop(
    s: MuxState,
    id: usize,
    old_index: int,
    new_index: int,
    device_opened: bool,
)
    requires
        retarget_tr(s, id, old_index, new_index, device_opened).1 is Err,
    ensures
        retarget_tr(s, id, old_index, new_index, device_opened).0 == s,
        s.consumers(old_index).contains(id) ==> retarget_tr(
            s,
            id,
            old_index,
            new_index,
            device_opened,
        ).0.consumers(old_index).contains(id),
{
}

/// Law: after an index's last consumer detaches, the index is Unassigned and
/// its publication slot reads `None`, whatever it held before.
pub proof fn lemma_last_detach_clears_slot(s: MuxState, id: usize, index: int)
    requires
        s.wf(),
        0 <= index < s.sources.len(),
        s.consumers(index) =~= set![id],
    ensures
        !detach_tr(s, id, index).is_active(index),
        detach_tr(s, id, index).slots[index] is None,
{
    assert(set![id].contains(id));
    assert(s.consumers(index).contains(id));
    assert(s.consumers(index).remove(id) =~= Set::<usize>::empty());
}

} // verus!
