//! Recovery on opening a store: the frames that the write-ahead log holds
//! and the table of contents lacks are inserted again.

use vstd::prelude::*;
use crate::memvid::lifecycle::frames_ordered;
use crate::memvid::lifecycle::frames_within;
use crate::memvid::lifecycle::max_frame_id;
use crate::memvid::lifecycle::Memvid;
use crate::types::frame::Frame;

verus! {

/// A frame read from a record of the log, and the checksum of the bytes
/// that the file holds where the frame says its payload lies; no checksum
/// where the file ends before the payload does.
#[derive(Clone, Debug, PartialEq, Eq)]
pub struct WalEntry {
    pub frame: Frame,
    pub found_checksum: Option<u32>,
}

/// Whether a record of the log holds a frame whose payload is in the file
/// as the frame says: it ends within the file, and the bytes there have the
/// recorded checksum. `None` stands for a record that holds no frame.
pub open spec fn entry_intact(entry: Option<WalEntry>, file_len: u64) -> bool {
    entry matches Some(found) && found.frame.end() <= file_len && found.found_checksum == Some(
        found.frame.checksum,
    )
}

/// The frames after the entries of the log were replayed, in their order:
/// an entry whose payload is intact and whose id is greater than every id
/// so far is appended; one whose id is not greater is passed over; the
/// first one that holds no frame, or whose payload is not intact, ends the
/// replay.
pub open spec fn replayed(
    frames: Seq<Frame>,
    entries: Seq<Option<WalEntry>>,
    file_len: u64,
) -> Seq<Frame>
    decreases entries.len(),
{
    if entries.len() == 0 {
        frames
    } else if !entry_intact(entries.first(), file_len) {
        frames
    } else if entries.first()->0.frame.frame_id > max_frame_id(frames) {
        replayed(frames.push(entries.first()->0.frame), entries.drop_first(), file_len)
    } else {
        replayed(frames, entries.drop_first(), file_len)
    }
}

/// A frame whose id is greater than every id so far, and that ends within
/// the file, keeps the ids increasing and the frames within the file.
pub proof fn lemma_push_keeps_order(frames: Seq<Frame>, frame: Frame, file_len: u64)
    requires
        frames_ordered(frames),
        frames_within(frames, file_len as int),
        frame.frame_id > max_frame_id(frames),
        frame.end() <= file_len,
    ensures
        frames_ordered(frames.push(frame)),
        frames_within(frames.push(frame), file_len as int),
        max_frame_id(frames.push(frame)) == frame.frame_id,
{
    let longer = frames.push(frame);
    assert forall|i: int, j: int| 0 <= i < j < longer.len() implies longer[i].frame_id
        < longer[j].frame_id by {
        if j < frames.len() {
            assert(frames[i].frame_id < frames[j].frame_id);
        } else if i < frames.len() - 1 {
            assert(frames[i].frame_id < frames[frames.len() - 1].frame_id);
        }
    }
    assert forall|i: int| 0 <= i < longer.len() implies (#[trigger] longer[i]).end()
        <= file_len by {
        if i < frames.len() {
            assert(frames[i].end() <= file_len);
        }
    }
}

/// Replaying keeps the frames that were there, in front, and keeps the ids
/// increasing; no id gets smaller than the greatest one before, and every
/// frame still ends within the file.
pub proof fn lemma_replayed_extends(
    frames: Seq<Frame>,
    entries: Seq<Option<WalEntry>>,
    file_len: u64,
)
    requires
        frames_ordered(frames),
        frames_within(frames, file_len as int),
    ensures
        frames_ordered(replayed(frames, entries, file_len)),
        frames_within(replayed(frames, entries, file_len), file_len as int),
        replayed(frames, entries, file_len).len() >= frames.len(),
        replayed(frames, entries, file_len).take(frames.len() as int) == frames,
        max_frame_id(replayed(frames, entries, file_len)) >= max_frame_id(frames),
    decreases entries.len(),
{
    if entries.len() == 0 || !entry_intact(entries.first(), file_len) {
        assert(frames.take(frames.len() as int) =~= frames);
    } else if entries.first()->0.frame.frame_id > max_frame_id(frames) {
        let longer = frames.push(entries.first()->0.frame);
        lemma_push_keeps_order(frames, entries.first()->0.frame, file_len);
        lemma_replayed_extends(longer, entries.drop_first(), file_len);
        let result = replayed(longer, entries.drop_first(), file_len);
        assert(result.take(frames.len() as int) =~= result.take(longer.len() as int).take(
            frames.len() as int,
        ));
        assert(longer.take(frames.len() as int) =~= frames);
    } else {
        lemma_replayed_extends(frames, entries.drop_first(), file_len);
    }
}

/// Whether every entry up to the first one that is not intact has an id
/// that is not above `limit`.
pub open spec fn entries_covered(
    entries: Seq<Option<WalEntry>>,
    file_len: u64,
    limit: nat,
) -> bool
    decreases entries.len(),
{
    if entries.len() == 0 {
        true
    } else if !entry_intact(entries.first(), file_len) {
        true
    } else {
        entries.first()->0.frame.frame_id <= limit && entries_covered(
            entries.drop_first(),
            file_len,
            limit,
        )
    }
}

/// Replaying entries whose ids the frames already reach changes nothing.
pub proof fn lemma_replay_of_covered(
    frames: Seq<Frame>,
    entries: Seq<Option<WalEntry>>,
    file_len: u64,
)
    requires
        entries_covered(entries, file_len, max_frame_id(frames)),
    ensures
        replayed(frames, entries, file_len) == frames,
    decreases entries.len(),
{
    if entries.len() > 0 && entry_intact(entries.first(), file_len) {
        lemma_replay_of_covered(frames, entries.drop_first(), file_len);
    }
}

/// After a replay the frames reach the id of every entry that was looked
/// at.
pub proof fn lemma_replay_covers(
    frames: Seq<Frame>,
    entries: Seq<Option<WalEntry>>,
    file_len: u64,
)
    requires
        frames_ordered(frames),
        frames_within(frames, file_len as int),
    ensures
        entries_covered(entries, file_len, max_frame_id(replayed(frames, entries, file_len))),
    decreases entries.len(),
{
    if entries.len() > 0 && entry_intact(entries.first(), file_len) {
        let rest = entries.drop_first();
        if entries.first()->0.frame.frame_id > max_frame_id(frames) {
            let longer = frames.push(entries.first()->0.frame);
            lemma_push_keeps_order(frames, entries.first()->0.frame, file_len);
            lemma_replay_covers(longer, rest, file_len);
            lemma_replayed_extends(longer, rest, file_len);
        } else {
            lemma_replay_covers(frames, rest, file_len);
            lemma_replayed_extends(frames, rest, file_len);
        }
    }
}

/// Replaying the log a second time changes nothing: the table of contents
/// after two replays is the one after the first.
pub proof fn lemma_replay_idempotent(
    frames: Seq<Frame>,
    entries: Seq<Option<WalEntry>>,
    file_len: u64,
)
    requires
        frames_ordered(frames),
        frames_within(frames, file_len as int),
    ensures
        replayed(replayed(frames, entries, file_len), entries, file_len) == replayed(
            frames,
            entries,
            file_len,
        ),
{
    lemma_replay_covers(frames, entries, file_len);
    lemma_replay_of_covered(replayed(frames, entries, file_len), entries, file_len);
}

impl Memvid {
    /// Replays the entries of the write-ahead log, in their order, into the
    /// table of contents in memory, and says how many frames that added.
    /// Where it added any, the table is ahead of the file, and a commit is
    /// due. A second replay of the same entries adds nothing.
    pub fn replay(&mut self, entries: Vec<Option<WalEntry>>) -> (res: usize)
        requires
            old(self).wf(),
        ensures
            final(self).wf(),
            final(self).toc.frames@ == replayed(
                old(self).toc.frames@,
                entries@,
                old(self).file_len,
            ),
            final(self).toc.frames@ == replayed(
                final(self).toc.frames@,
                entries@,
                old(self).file_len,
            ),
            res == final(self).toc.frames@.len() - old(self).toc.frames@.len(),
            res == 0 ==> *final(self) == *old(self),
            res > 0 ==> final(self).dirty,
            final(self).file_len == old(self).file_len,
            old(self).same_but_frames(*final(self)),
    {
        let ghost start = self.toc.frames@;
        let file_len = self.file_len;
        let mut remaining = entries;
        let start_len = self.toc.frames.len();
        let mut pending: Vec<Option<WalEntry>> = Vec::new();
        // the entries in reverse, so that they can be taken one by one
        while remaining.len() > 0
            invariant
                entries@ == remaining@ + pending@.reverse(),
            decreases remaining@.len(),
        {
            let ghost before = remaining@;
            let ghost stack = pending@;
            let entry = remaining.pop().unwrap();
            pending.push(entry);
            proof {
                assert(pending@.reverse() =~= seq![entry] + stack.reverse());
                assert(before =~= remaining@.push(entry));
                assert(remaining@ + pending@.reverse() =~= before + stack.reverse());
            }
        }
        proof {
            assert(pending@.reverse() =~= entries@);
        }
        while pending.len() > 0
            invariant
                self.wf(),
                self.file_len == file_len == old(self).file_len,
                start == old(self).toc.frames@,
                frames_ordered(start),
                frames_within(start, file_len as int),
                start_len == start.len() <= self.toc.frames@.len(),
                replayed(start, entries@, file_len) == replayed(
                    self.toc.frames@,
                    pending@.reverse(),
                    file_len,
                ),
                self.toc.frames@.len() == start.len() ==> *self == *old(self),
                self.toc.frames@.len() > start.len() ==> self.dirty,
                old(self).same_but_frames(*self),
            decreases pending@.len(),
        {
            let ghost queue = pending@.reverse();
            let ghost frames = self.toc.frames@;
            let entry = pending.pop().unwrap();
            proof {
                assert(queue.first() == entry);
                assert(queue.drop_first() =~= pending@.reverse());
            }
            let found = match entry {
                Some(found) => found,
                None => {
                    proof {
                        lemma_replay_idempotent(start, entries@, file_len);
                    }
                    return self.toc.frames.len() - start_len;
                },
            };
            let frame = found.frame;
            let intact = frame.offset <= file_len && frame.payload_length <= file_len
                - frame.offset && match found.found_checksum {
                Some(sum) => sum == frame.checksum,
                None => false,
            };
            if !intact {
                proof {
                    lemma_replay_idempotent(start, entries@, file_len);
                }
                return self.toc.frames.len() - start_len;
            }
            let count = self.toc.frames.len();
            let last_id = if count == 0 {
                0
            } else {
                self.toc.frames[count - 1].frame_id
            };
            if frame.frame_id > last_id {
                proof {
                    lemma_push_keeps_order(frames, frame, file_len);
                }
                self.toc.frames.push(frame);
                self.dirty = true;
            }
        }
        proof {
            assert(pending@.reverse() =~= Seq::<Option<WalEntry>>::empty());
            lemma_replay_idempotent(start, entries@, file_len);
        }
        self.toc.frames.len() - start_len
    }
}

} // verus!
