//! DMX state: the retained image of each universe source, and the log of
//! reconstructed frames.

use super::table::{
    distinct, index_of, keys_after, lemma_index_of, lemma_index_of_prefix,
    lemma_keys_after_distinct,
};
use crate::text::text_eq;
use vstd::prelude::*;

verus! {

/// The protocol that carried a DMX frame.
#[derive(Debug, Clone, Copy, PartialEq, Eq, Hash, Structural)]
pub enum DmxProtocol {
    ArtNet,
    Sacn,
}

/// A reconstructed frame: the full image of a universe as one source left it.
#[derive(Debug, Clone, PartialEq)]
pub struct DmxFrame {
    pub universe: u16,
    /// Capture time in microseconds, where known.
    pub timestamp: Option<u64>,
    pub source_id: String,
    pub protocol: DmxProtocol,
    pub slots: [u8; 512],
}

/// The view of `DmxFrame`: its texts as characters, its lists as sequences.
pub struct DmxFrameView {
    pub universe: u16,
    pub timestamp: Option<u64>,
    pub source_id: Seq<char>,
    pub protocol: DmxProtocol,
    pub slots: Seq<u8>,
}

impl View for DmxFrame {
    type V = DmxFrameView;

    open spec fn view(&self) -> DmxFrameView {
        DmxFrameView {
            universe: self.universe,
            timestamp: self.timestamp,
            source_id: self.source_id@,
            protocol: self.protocol,
            slots: self.slots@,
        }
    }
}

/// The log of reconstructed frames, in arrival order.
pub struct DmxStore {
    frames: Vec<DmxFrame>,
}

/// The frames of one universe and protocol, in arrival order.
pub open spec fn frames_of_universe(
    frames: Seq<DmxFrameView>,
    universe: u16,
    protocol: DmxProtocol,
) -> Seq<DmxFrameView>
    decreases frames.len(),
{
    if frames.len() == 0 {
        Seq::empty()
    } else {
        let rest = frames_of_universe(frames.drop_last(), universe, protocol);
        if frames.last().universe == universe && frames.last().protocol == protocol {
            rest.push(frames.last())
        } else {
            rest
        }
    }
}

/// The frames of one universe and source, in arrival order.
pub open spec fn frames_of_source(frames: Seq<DmxFrameView>, universe: u16, source: Seq<char>) -> Seq<
    DmxFrameView,
>
    decreases frames.len(),
{
    if frames.len() == 0 {
        Seq::empty()
    } else {
        let rest = frames_of_source(frames.drop_last(), universe, source);
        if frames.last().universe == universe && frames.last().source_id == source {
            rest.push(frames.last())
        } else {
            rest
        }
    }
}

/// The views of borrowed frames.
pub open spec fn borrowed_views(v: Seq<&DmxFrame>) -> Seq<DmxFrameView> {
    Seq::new(v.len(), |i: int| v[i]@)
}

/// The views of frames.
pub open spec fn frame_views(v: Seq<DmxFrame>) -> Seq<DmxFrameView> {
    Seq::new(v.len(), |i: int| v[i]@)
}

impl View for DmxStore {
    type V = Seq<DmxFrameView>;

    /// Every logged frame, in arrival order.
    closed spec fn view(&self) -> Seq<DmxFrameView> {
        frame_views(self.frames@)
    }
}

impl DmxStore {
    /// A frame log without frames.
    pub fn new() -> (r: Self)
        ensures
            r@ == Seq::<DmxFrameView>::empty(),
    {
        let r = DmxStore { frames: Vec::new() };
        assert(r@ =~= Seq::<DmxFrameView>::empty());
        r
    }

    /// Appends a frame to the log.
    pub fn push(&mut self, frame: DmxFrame)
        ensures
            final(self)@ == old(self)@.push(frame@),
    {
        self.frames.push(frame);
        assert(final(self)@ =~= old(self)@.push(frame@));
    }

    /// The logged frames of one universe and protocol, in arrival order.
    pub fn frames_for_universe(&self, universe: u16, protocol: DmxProtocol) -> (r: Vec<&DmxFrame>)
        ensures
            borrowed_views(r@) == frames_of_universe(self@, universe, protocol),
    {
        let mut out: Vec<&DmxFrame> = Vec::new();
        let mut i: usize = 0;
        assert(self@.take(0) =~= Seq::<DmxFrameView>::empty());
        while i < self.frames.len()
            invariant
                i <= self.frames.len(),
                borrowed_views(out@) =~= frames_of_universe(self@.take(i as int), universe, protocol),
            decreases self.frames.len() - i,
        {
            proof {
                assert(self@.take(i + 1).drop_last() =~= self@.take(i as int));
                assert(self@.take(i + 1).last() == self.frames@[i as int]@);
            }
            let frame = &self.frames[i];
            let same_protocol = match (frame.protocol, protocol) {
                (DmxProtocol::ArtNet, DmxProtocol::ArtNet) => true,
                (DmxProtocol::Sacn, DmxProtocol::Sacn) => true,
                _ => false,
            };
            if frame.universe == universe && same_protocol {
                out.push(frame);
            }
            i += 1;
        }
        assert(self@.take(self.frames.len() as int) =~= self@);
        out
    }

    /// The logged frames of one universe and source, in arrival order; `None`
    /// where there are none.
    pub fn frames_for(&self, universe: u16, source_id: &str) -> (r: Option<Vec<DmxFrame>>)
        ensures
            match r {
                Some(v) => frame_views(v@) == frames_of_source(self@, universe, source_id@)
                    && v@.len() > 0,
                None => frames_of_source(self@, universe, source_id@).len() == 0,
            },
    {
        let mut out: Vec<DmxFrame> = Vec::new();
        let mut i: usize = 0;
        assert(self@.take(0) =~= Seq::<DmxFrameView>::empty());
        while i < self.frames.len()
            invariant
                i <= self.frames.len(),
                frame_views(out@) =~= frames_of_source(self@.take(i as int), universe, source_id@),
            decreases self.frames.len() - i,
        {
            proof {
                assert(self@.take(i + 1).drop_last() =~= self@.take(i as int));
                assert(self@.take(i + 1).last() == self.frames@[i as int]@);
            }
            let frame = &self.frames[i];
            if frame.universe == universe && text_eq(frame.source_id.as_str(), source_id) {
                out.push(
                    DmxFrame {
                        universe: frame.universe,
                        timestamp: frame.timestamp,
                        source_id: frame.source_id.clone(),
                        protocol: frame.protocol,
                        slots: frame.slots,
                    },
                );
            }
            i += 1;
        }
        assert(self@.take(self.frames.len() as int) =~= self@);
        if out.len() == 0 {
            None
        } else {
            Some(out)
        }
    }
}

/// What identifies a retained image.
pub struct StateKey {
    pub universe: u16,
    pub source: Seq<char>,
    pub protocol: DmxProtocol,
}

struct StateEntry {
    universe: u16,
    source_id: String,
    protocol: DmxProtocol,
    image: [u8; 512],
}

/// The retained image of every universe source.
pub struct DmxStateStore {
    states: Vec<StateEntry>,
}

/// An image in which nothing was written.
pub open spec fn blank_image() -> Seq<u8> {
    Seq::new(512, |k: int| 0u8)
}

/// `image` with the slots that `partial` covers replaced by those of `partial`.
pub open spec fn overlay(image: Seq<u8>, partial: Seq<u8>) -> Seq<u8> {
    Seq::new(
        512,
        |k: int|
            if k < partial.len() {
                partial[k]
            } else {
                image[k]
            },
    )
}

/// The image after the partial updates were applied in order to a blank image.
pub open spec fn replay(partials: Seq<Seq<u8>>) -> Seq<u8>
    decreases partials.len(),
{
    if partials.len() == 0 {
        blank_image()
    } else {
        overlay(replay(partials.drop_last()), partials.last())
    }
}

/// The last update that covers slot `k`, if any does.
pub open spec fn last_writer(partials: Seq<Seq<u8>>, k: int) -> Option<int>
    decreases partials.len(),
{
    if partials.len() == 0 {
        None
    } else if k < partials.last().len() {
        Some(partials.len() - 1)
    } else {
        last_writer(partials.drop_last(), k)
    }
}

/// After any sequence of partial updates, each slot holds what the last
/// update that covered it wrote there, and zero where none did.
pub proof fn lemma_replay_keeps_last_written(partials: Seq<Seq<u8>>, k: int)
    requires
        0 <= k < 512,
    ensures
        replay(partials).len() == 512,
        match last_writer(partials, k) {
            Some(j) => 0 <= j < partials.len() && k < partials[j].len() && replay(partials)[k]
                == partials[j][k] && forall|l: int|
                j < l < partials.len() ==> k >= partials[l].len(),
            None => replay(partials)[k] == 0 && forall|l: int|
                0 <= l < partials.len() ==> k >= partials[l].len(),
        },
    decreases partials.len(),
{
    if partials.len() > 0 {
        let front = partials.drop_last();
        lemma_replay_keeps_last_written(front, k);
        if k >= partials.last().len() {
            match last_writer(front, k) {
                Some(j) => {
                    assert(partials[j] == front[j]);
                    assert forall|l: int| j < l < partials.len() implies k >= partials[l].len() by {
                        if l < partials.len() - 1 {
                            assert(partials[l] == front[l]);
                        }
                    }
                },
                None => {
                    assert forall|l: int| 0 <= l < partials.len() implies k >= partials[l].len() by {
                        if l < partials.len() - 1 {
                            assert(partials[l] == front[l]);
                        }
                    }
                },
            }
        }
    }
}

/// The keys of a state model.
pub open spec fn state_keys(m: Seq<(StateKey, Seq<u8>)>) -> Seq<StateKey> {
    Seq::new(m.len(), |i: int| m[i].0)
}

/// The image that a state model retains under `key`; blank where the source
/// has not sent yet.
pub open spec fn image_of(m: Seq<(StateKey, Seq<u8>)>, key: StateKey) -> Seq<u8> {
    match index_of(state_keys(m), key) {
        Some(i) => m[i].1,
        None => blank_image(),
    }
}

/// The retained images after a partial update of the source `key`.
pub open spec fn state_step(m: Seq<(StateKey, Seq<u8>)>, key: StateKey, partial: Seq<u8>) -> Seq<
    (StateKey, Seq<u8>),
> {
    match index_of(state_keys(m), key) {
        Some(i) => m.update(i, (key, overlay(m[i].1, partial))),
        None => m.push((key, overlay(blank_image(), partial))),
    }
}

/// An update changes the image of its source and no other.
pub proof fn lemma_state_step(m: Seq<(StateKey, Seq<u8>)>, key: StateKey, partial: Seq<u8>)
    ensures
        image_of(state_step(m, key, partial), key) == overlay(image_of(m, key), partial),
        forall|other: StateKey|
            other != key ==> image_of(state_step(m, key, partial), other) == image_of(m, other),
{
    let next = state_step(m, key, partial);
    lemma_index_of(state_keys(m), key);
    match index_of(state_keys(m), key) {
        Some(i) => {
            assert(state_keys(next) =~= state_keys(m));
        },
        None => {
            assert(state_keys(next).drop_last() =~= state_keys(m));
        },
    }
    assert forall|other: StateKey| other != key implies image_of(next, other) == image_of(
        m,
        other,
    ) by {
        lemma_index_of(state_keys(m), other);
    }
}

/// A store that holds no source twice stays so with every update.
pub proof fn lemma_state_step_keeps_keys_distinct(
    m: Seq<(StateKey, Seq<u8>)>,
    key: StateKey,
    partial: Seq<u8>,
)
    requires
        distinct(state_keys(m)),
    ensures
        distinct(state_keys(state_step(m, key, partial))),
{
    lemma_keys_after_distinct(state_keys(m), key);
    lemma_index_of(state_keys(m), key);
    assert(state_keys(state_step(m, key, partial)) =~= keys_after(state_keys(m), key));
}

impl View for DmxStateStore {
    type V = Seq<(StateKey, Seq<u8>)>;

    /// Sources and their images, in the order in which the sources first sent.
    closed spec fn view(&self) -> Seq<(StateKey, Seq<u8>)> {
        Seq::new(
            self.states@.len(),
            |i: int|
                (
                    StateKey {
                        universe: self.states@[i].universe,
                        source: self.states@[i].source_id@,
                        protocol: self.states@[i].protocol,
                    },
                    self.states@[i].image@,
                ),
        )
    }
}

impl DmxStateStore {
    /// The image retained for a source of a universe; blank where the source
    /// has not sent yet.
    pub open spec fn image(&self, universe: u16, source: Seq<char>, protocol: DmxProtocol) -> Seq<u8> {
        image_of(self@, StateKey { universe, source, protocol })
    }

    /// A store that retains no image.
    pub fn new() -> (r: Self)
        ensures
            r@ == Seq::<(StateKey, Seq<u8>)>::empty(),
    {
        let r = DmxStateStore { states: Vec::new() };
        assert(r@ =~= Seq::<(StateKey, Seq<u8>)>::empty());
        r
    }

    fn find(&self, universe: u16, source_id: &str, protocol: DmxProtocol) -> (r: Option<usize>)
        ensures
            match r {
                Some(i) => index_of(
                    state_keys(self@),
                    StateKey { universe, source: source_id@, protocol },
                ) == Some(i as int) && i < self.states@.len(),
                None => index_of(
                    state_keys(self@),
                    StateKey { universe, source: source_id@, protocol },
                ) is None,
            },
    {
        let ghost key = StateKey { universe, source: source_id@, protocol };
        let ghost keys = state_keys(self@);
        let mut i: usize = 0;
        while i < self.states.len()
            invariant
                i <= self.states.len(),
                key == (StateKey { universe, source: source_id@, protocol }),
                keys == state_keys(self@),
                index_of(keys.take(i as int), key) is None,
            decreases self.states.len() - i,
        {
            proof {
                assert(keys.take(i + 1).drop_last() =~= keys.take(i as int));
            }
            let entry = &self.states[i];
            let same_protocol = match (entry.protocol, protocol) {
                (DmxProtocol::ArtNet, DmxProtocol::ArtNet) => true,
                (DmxProtocol::Sacn, DmxProtocol::Sacn) => true,
                _ => false,
            };
            if entry.universe == universe && same_protocol && text_eq(
                entry.source_id.as_str(),
                source_id,
            ) {
                proof {
                    lemma_index_of_prefix(keys, i + 1, key);
                }
                return Some(i);
            }
            i += 1;
        }
        assert(keys.take(self.states.len() as int) =~= keys);
        None
    }

    /// Merges a partial update into the image retained for the source and
    /// returns the image: the first `min(len, 512)` slots are those of the
    /// update, the others stay as they were. The first update of a source
    /// meets a blank image. No other image changes.
    pub fn apply_partial(
        &mut self,
        universe: u16,
        source_id: String,
        protocol: DmxProtocol,
        partial_slots: &[u8],
    ) -> (r: [u8; 512])
        ensures
            final(self)@ == state_step(
                old(self)@,
                StateKey { universe, source: source_id@, protocol },
                partial_slots@,
            ),
            r@ == overlay(old(self).image(universe, source_id@, protocol), partial_slots@),
            final(self).image(universe, source_id@, protocol) == r@,
            forall|u: u16, s: Seq<char>, p: DmxProtocol|
                !(u == universe && s == source_id@ && p == protocol) ==> final(self).image(u, s, p)
                    == old(self).image(u, s, p),
    {
        let ghost key = StateKey { universe, source: source_id@, protocol };
        proof {
            lemma_state_step(old(self)@, key, partial_slots@);
            lemma_index_of(state_keys(old(self)@), key);
        }
        let found = self.find(universe, source_id.as_str(), protocol);
        let mut image: [u8; 512] = match found {
            Some(i) => self.states[i].image,
            None => [0u8; 512],
        };
        let ghost start = image@;
        assert(start =~= image_of(old(self)@, key));
        let len: usize = if partial_slots.len() < 512 {
            partial_slots.len()
        } else {
            512
        };
        let mut k: usize = 0;
        while k < len
            invariant
                k <= len <= 512,
                len <= partial_slots@.len(),
                start.len() == 512,
                forall|j: int| 0 <= j < k ==> image@[j] == partial_slots@[j],
                forall|j: int| k <= j < 512 ==> image@[j] == start[j],
            decreases len - k,
        {
            image[k] = partial_slots[k];
            k += 1;
        }
        assert(image@ =~= overlay(start, partial_slots@));
        match found {
            Some(i) => {
                self.states[i].image = image;
                assert(self@ =~= old(self)@.update(i as int, (key, image@)));
            },
            None => {
                self.states.push(StateEntry { universe, source_id, protocol, image });
                assert(self@ =~= old(self)@.push((key, image@)));
            },
        }
        image
    }
}

} // verus!
