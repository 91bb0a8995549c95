//! The last group of pictures of a stream, which new clients start with.

use std::sync::Arc;
use vstd::prelude::*;

use crate::media::HubFrame;

verus! {

/// Upper bound for the frames of one group of pictures that are kept for new clients.
pub const GOP_MAX_FRAMES: usize = 1000;

/// The frames that are kept once another one has been published.
pub open spec fn published(kept: Seq<Arc<HubFrame>>, frame: Arc<HubFrame>) -> Seq<Arc<HubFrame>> {
    if frame.media.is_key() {
        seq![frame]
    } else if 0 < kept.len() < GOP_MAX_FRAMES {
        kept.push(frame)
    } else {
        kept
    }
}

/// Frames that a decoder can take from the first one on: none at all, or a keyframe and what
/// follows it up to the next one, within the bound.
pub open spec fn is_gop(kept: Seq<Arc<HubFrame>>) -> bool {
    &&& kept.len() <= GOP_MAX_FRAMES
    &&& kept.len() > 0 ==> kept[0].media.is_key()
    &&& forall|i: int| 0 < i < kept.len() ==> !(#[trigger] kept[i]).media.is_key()
}

/// The frames since the last keyframe, as far as they are kept.
#[derive(Debug)]
pub struct Gop {
    frames: Vec<Arc<HubFrame>>,
}

impl View for Gop {
    type V = Seq<Arc<HubFrame>>;

    closed spec fn view(&self) -> Seq<Arc<HubFrame>> {
        self.frames@
    }
}

impl Gop {
    /// Keeps nothing yet.
    pub fn new() -> (r: Gop)
        ensures
            r@ == Seq::<Arc<HubFrame>>::empty(),
            is_gop(r@),
    {
        Gop { frames: Vec::new() }
    }

    /// Takes note of a frame that is published. A keyframe replaces everything that was kept,
    /// another frame is kept behind a keyframe as long as there is room.
    pub fn publish(&mut self, frame: &Arc<HubFrame>)
        ensures
            final(self)@ == published(old(self)@, *frame),
            is_gop(old(self)@) ==> is_gop(final(self)@),
    {
        if frame.is_keyframe() {
            self.frames.clear();
            self.frames.push(frame.clone());
            assert(self@ =~= seq![*frame]);
        } else if !self.frames.is_empty() && self.frames.len() < GOP_MAX_FRAMES {
            self.frames.push(frame.clone());
        }
    }

    /// The frames that a new client starts with.
    pub fn backlog(&self) -> (r: Vec<Arc<HubFrame>>)
        ensures
            r@ == self@,
    {
        let mut r: Vec<Arc<HubFrame>> = Vec::new();
        let mut i: usize = 0;
        while i < self.frames.len()
            invariant
                i <= self.frames.len(),
                r@ == self.frames@.take(i as int),
            decreases self.frames.len() - i,
        {
            r.push(self.frames[i].clone());
            assert(self.frames@.take(i + 1) =~= self.frames@.take(i as int).push(self.frames@[i as int]));
            i = i + 1;
        }
        assert(self.frames@.take(i as int) =~= self.frames@);
        r
    }

    /// Forgets all frames.
    pub fn clear(&mut self)
        ensures
            final(self)@ == Seq::<Arc<HubFrame>>::empty(),
            is_gop(final(self)@),
    {
        self.frames.clear();
    }
}

/// The frames that are kept after a history of published frames, the oldest first.
pub open spec fn kept_after(history: Seq<Arc<HubFrame>>) -> Seq<Arc<HubFrame>>
    decreases history.len(),
{
    if history.len() == 0 {
        seq![]
    } else {
        published(kept_after(history.drop_last()), history.last())
    }
}

/// Is this the place of the last keyframe in a history?
pub open spec fn is_last_key(history: Seq<Arc<HubFrame>>, i: int) -> bool {
    &&& 0 <= i < history.len()
    &&& history[i].media is Iframe
    &&& forall|j: int| i < j < history.len() ==> !((#[trigger] history[j]).media is Iframe)
}

/// The smaller of a length and the bound on what is kept, which is 1000 frames.
pub open spec fn room_for(len: int) -> int {
    if len <= 1000 {
        len
    } else {
        1000
    }
}

/// What is kept is what was published since the last keyframe, that one included, up to the
/// bound. Nothing is kept before the first keyframe.
pub proof fn law_last_group_is_kept(history: Seq<Arc<HubFrame>>)
    ensures
        is_gop(kept_after(history)),
        forall|i: int| #[trigger]
            is_last_key(history, i) ==> kept_after(history) == history.subrange(
                i,
                i + room_for(history.len() - i),
            ),
        (forall|i: int| 0 <= i < history.len() ==> !((#[trigger] history[i]).media is Iframe))
            ==> kept_after(history).len() == 0,
    decreases history.len(),
{
    if history.len() > 0 {
        let before = history.drop_last();
        let frame = history.last();
        law_last_group_is_kept(before);
        assert forall|i: int| #[trigger] is_last_key(history, i) implies kept_after(history)
            == history.subrange(i, i + room_for(history.len() - i)) by {
            if frame.media is Iframe {
                assert(i == history.len() - 1);
                assert(kept_after(history) =~= history.subrange(i, i + 1));
            } else {
                assert(before[i] == history[i]);
                assert forall|j: int| i < j < before.len() implies !((#[trigger] before[j]).media is Iframe) by {
                    assert(before[j] == history[j]);
                }
                assert(is_last_key(before, i));
                assert(kept_after(history) =~= history.subrange(
                    i,
                    i + room_for(history.len() - i),
                ));
            }
        }
        if forall|i: int| 0 <= i < history.len() ==> !((#[trigger] history[i]).media is Iframe) {
            assert forall|i: int| 0 <= i < before.len() implies !((#[trigger] before[i]).media is Iframe) by {
                assert(before[i] == history[i]);
            }
        }
    }
}

/// What can happen to the frames that are kept.
pub enum GopEvent {
    Publish(Arc<HubFrame>),
    Clear,
}

/// The frames that are kept after some events, one after the other.
pub open spec fn kept_by(events: Seq<GopEvent>) -> Seq<Arc<HubFrame>>
    decreases events.len(),
{
    if events.len() == 0 {
        seq![]
    } else {
        match events.last() {
            GopEvent::Publish(frame) => published(kept_by(events.drop_last()), frame),
            GopEvent::Clear => seq![],
        }
    }
}

/// The frames that are published by some events, in their order.
pub open spec fn frames_of(events: Seq<GopEvent>) -> Seq<Arc<HubFrame>>
    decreases events.len(),
{
    if events.len() == 0 {
        seq![]
    } else {
        match events.last() {
            GopEvent::Publish(frame) => frames_of(events.drop_last()).push(frame),
            GopEvent::Clear => frames_of(events.drop_last()),
        }
    }
}

/// Is a keyframe published at this place, and nothing but frames without a key behind it?
pub open spec fn is_open_group(events: Seq<GopEvent>, key: int) -> bool {
    &&& 0 <= key < events.len()
    &&& events[key] matches GopEvent::Publish(frame) && frame.media is Iframe
    &&& forall|i: int|
        key < i < events.len() ==> ((#[trigger] events[i]) matches GopEvent::Publish(frame)
            && !(frame.media is Iframe))
}

/// A client may subscribe between any two events. What is kept at that point, and what is
/// published from there on, is exactly what is published from the last keyframe on: no frame is
/// missing, none comes twice, and the first one is that keyframe. A group of pictures that
/// outgrows the bound is the exception.
pub proof fn law_new_client_misses_nothing(events: Seq<GopEvent>, at: int, key: int)
    requires
        0 <= at <= events.len(),
        is_open_group(events.take(at), key),
        at - key <= 1000,
    ensures
        kept_by(events.take(at)) + frames_of(events.skip(at)) == frames_of(events.skip(key)),
        kept_by(events.take(at)).len() == at - key,
        kept_by(events.take(at))[0].media is Iframe,
{
    lemma_open_group_is_kept(events.take(at), key);
    lemma_frames_of_split(events.take(at).skip(key), events.skip(at));
    assert(events.take(at).skip(key) + events.skip(at) =~= events.skip(key));
}

/// A client that subscribes before the first keyframe, or before the first one behind a clearing,
/// starts with nothing.
pub proof fn law_nothing_is_kept_without_a_keyframe(events: Seq<GopEvent>, since: int)
    requires
        0 <= since <= events.len(),
        since == 0 || events[since - 1] is Clear,
        forall|i: int|
            since <= i < events.len() ==> ((#[trigger] events[i]) matches GopEvent::Publish(frame)
                ==> !(frame.media is Iframe)),
    ensures
        kept_by(events).len() == 0,
    decreases events.len(),
{
    if since < events.len() {
        let before = events.drop_last();
        assert forall|i: int| since <= i < before.len() implies ((#[trigger] before[i]) matches
        GopEvent::Publish(frame) ==> !(frame.media is Iframe)) by {
            assert(before[i] == events[i]);
        }
        law_nothing_is_kept_without_a_keyframe(before, since);
        assert(events[events.len() - 1] == events.last());
    }
}

proof fn lemma_open_group_is_kept(events: Seq<GopEvent>, key: int)
    requires
        is_open_group(events, key),
        events.len() - key <= 1000,
    ensures
        kept_by(events) == frames_of(events.skip(key)),
        kept_by(events).len() == events.len() - key,
        kept_by(events)[0].media is Iframe,
    decreases events.len(),
{
    let before = events.drop_last();
    assert(events.skip(key).last() == events.last());
    assert(events.skip(key).drop_last() =~= before.skip(key));
    if key == events.len() - 1 {
        assert(before.skip(key) =~= seq![]);
        assert(frames_of(before.skip(key)) =~= seq![]);
        assert(kept_by(events) =~= frames_of(events.skip(key)));
    } else {
        assert(before[key] == events[key]);
        assert forall|i: int| key < i < before.len() implies ((#[trigger] before[i]) matches
        GopEvent::Publish(frame) && !(frame.media is Iframe)) by {
            assert(before[i] == events[i]);
        }
        lemma_open_group_is_kept(before, key);
        assert(events[events.len() - 1] == events.last());
    }
}

proof fn lemma_frames_of_split(events: Seq<GopEvent>, later: Seq<GopEvent>)
    ensures
        frames_of(events + later) == frames_of(events) + frames_of(later),
    decreases later.len(),
{
    if later.len() == 0 {
        assert(events + later =~= events);
        assert(frames_of(events) + frames_of(later) =~= frames_of(events));
    } else {
        lemma_frames_of_split(events, later.drop_last());
        assert((events + later).drop_last() =~= events + later.drop_last());
        assert(frames_of(events + later) =~= frames_of(events) + frames_of(later));
    }
}

/// After an I-frame has been published, that frame alone is kept, whatever its encoding and
/// whatever was kept before. Another frame never takes the place of one that is kept: it is kept
/// behind the others, as long as there is a frame to follow and fewer than 1000 are kept.
pub proof fn law_an_iframe_opens_a_new_group(kept: Seq<Arc<HubFrame>>, frame: Arc<HubFrame>)
    ensures
        frame.media is Iframe ==> {
            &&& published(kept, frame).len() == 1
            &&& published(kept, frame)[0] == frame
        },
        !(frame.media is Iframe) ==> {
            &&& published(kept, frame).len() == kept.len() + if 1 <= kept.len() < 1000 {
                1int
            } else {
                0int
            }
            &&& published(kept, frame).take(kept.len() as int) == kept
            &&& published(kept, frame).len() > kept.len() ==> published(kept, frame).last() == frame
        },
{
}

} // verus!
