//! What holds of the negotiation however the server's bytes are cut
//! into reads.

use vstd::prelude::*;
use crate::io::{IoView, OutputView};
use crate::model::{command, initial, resume_spec, tag, writing, Machine, Phase};
use crate::scan::{
    holds_line, holds_tagged_line, lemma_line_persists, lemma_tagged_line_has_tag,
    lemma_tagged_line_persists, occurs,
};
use crate::stream::{zeroed, DEFAULT_CAPACITY};

verus! {

/// The response to a read that filled `out`.
pub open spec fn read_done(out: OutputView) -> Option<IoView> {
    Some(IoView::Read(Ok(out)))
}

/// The request for a read into a zeroed buffer of `len` bytes.
pub open spec fn read_wanted(len: nat) -> Result<(), IoView> {
    Err(IoView::Read(Err(zeroed(len))))
}

/// Every read counts no more bytes than its buffer has.
pub open spec fn all_wf(reads: Seq<OutputView>) -> bool {
    forall|i: int| 0 <= i < reads.len() ==> (#[trigger] reads[i]).wf()
}

/// The bytes that a sequence of reads brought, in order.
pub open spec fn received(reads: Seq<OutputView>) -> Seq<u8>
    decreases reads.len(),
{
    if reads.len() == 0 {
        Seq::empty()
    } else {
        received(reads.drop_last()) + reads.last().bytes()
    }
}

/// The state of the negotiation after it has been resumed with each of
/// `reads` in turn.
pub open spec fn delivered(m: Machine, reads: Seq<OutputView>) -> Machine
    decreases reads.len(),
{
    if reads.len() == 0 {
        m
    } else {
        resume_spec(delivered(m, reads.drop_last()), read_done(reads.last())).0
    }
}

/// What the negotiation returns for the last of `reads`, having been
/// resumed with those before it.
pub open spec fn answer(m: Machine, reads: Seq<OutputView>) -> Result<(), IoView>
    recommends
        reads.len() > 0,
{
    resume_spec(delivered(m, reads.drop_last()), read_done(reads.last())).1
}

/// A reading phase that has not seen its line yet keeps every byte it
/// is given and asks for the next read, reusing the buffer of the last.
pub proof fn lemma_reading_goes_on(m: Machine, reads: Seq<OutputView>)
    requires
        reads.len() > 0,
        all_wf(reads),
        (m.phase is DiscardGreeting && !holds_line(m.bytes + received(reads))) || (m.phase
            is DiscardResponse && !holds_tagged_line(m.bytes + received(reads), tag())),
    ensures
        delivered(m, reads) == (Machine { held: None, bytes: m.bytes + received(reads), ..m }),
        answer(m, reads) == read_wanted(reads.last().buffer.len()),
    decreases reads.len(),
{
    let before = reads.drop_last();
    let last = reads.last();
    assert(m.bytes + received(reads) =~= (m.bytes + received(before)) + last.bytes());
    if before.len() > 0 {
        if holds_line(m.bytes + received(before)) {
            lemma_line_persists(m.bytes + received(before), last.bytes());
        }
        if holds_tagged_line(m.bytes + received(before), tag()) {
            lemma_tagged_line_persists(m.bytes + received(before), last.bytes(), tag());
        }
        lemma_reading_goes_on(m, before);
    }
}

/// Chunking invariance of the greeting. However the greeting is cut
/// into reads, as long as its line feed comes with the last of them,
/// the negotiation ends up exactly where a single read of the whole
/// greeting takes it: about to write, having asked to write the
/// command. Every read before the last is answered by a request for
/// another read.
pub proof fn lemma_greeting_chunking(m: Machine, reads: Seq<OutputView>, whole: OutputView)
    requires
        m.phase is DiscardGreeting,
        reads.len() > 0,
        all_wf(reads),
        whole.wf(),
        whole.bytes() == received(reads),
        !holds_line(m.bytes + received(reads.drop_last())),
        holds_line(m.bytes + received(reads)),
    ensures
        delivered(m, reads) == resume_spec(m, read_done(whole)).0,
        answer(m, reads) == resume_spec(m, read_done(whole)).1,
        delivered(m, reads) == (Machine { held: None, ..writing() }),
        answer(m, reads) == Err::<(), IoView>(IoView::Write(Err(command()))),
        forall|k: int|
            0 < k < reads.len() ==> #[trigger] answer(m, reads.take(k)) == read_wanted(
                reads[k - 1].buffer.len(),
            ),
{
    let before = reads.drop_last();
    let last = reads.last();
    assert(m.bytes + received(reads) =~= (m.bytes + received(before)) + last.bytes());
    if before.len() > 0 {
        lemma_reading_goes_on(m, before);
    }
    assert forall|k: int| 0 < k < reads.len() implies #[trigger] answer(m, reads.take(k))
        == read_wanted(reads[k - 1].buffer.len()) by {
        lemma_take_before(reads, k);
        lemma_prefix_received(m.bytes, before, k);
        if holds_line(m.bytes + received(reads.take(k))) {
            lemma_line_persists(m.bytes + received(reads.take(k)), received(before.skip(k)));
        }
        lemma_reading_goes_on(m, reads.take(k));
    }
}

/// Reassembly of the acknowledgement. However the server's response
/// is cut into reads, within the tag or before the line feed, the
/// negotiation completes with the read that brings the end of the
/// tagged line and not before: every earlier read is answered by a
/// request for another, and the negotiation ends up holding the same
/// bytes, in the same phase, as after a single read of the whole
/// response. With a read outstanding at the start, as there is whenever
/// a response arrives, the two final states are equal.
pub proof fn lemma_response_reassembly(m: Machine, reads: Seq<OutputView>, whole: OutputView)
    requires
        m.phase is DiscardResponse,
        reads.len() > 0,
        all_wf(reads),
        whole.wf(),
        whole.bytes() == received(reads),
        !holds_tagged_line(m.bytes + received(reads.drop_last()), tag()),
        holds_tagged_line(m.bytes + received(reads), tag()),
    ensures
        answer(m, reads) == Ok::<(), IoView>(()),
        answer(m, reads) == resume_spec(m, read_done(whole)).1,
        delivered(m, reads).phase == resume_spec(m, read_done(whole)).0.phase,
        delivered(m, reads).bytes == resume_spec(m, read_done(whole)).0.bytes,
        delivered(m, reads).phase is DiscardResponse,
        delivered(m, reads).bytes == m.bytes + received(reads),
        m.held is None ==> delivered(m, reads) == resume_spec(m, read_done(whole)).0,
        forall|k: int|
            0 < k < reads.len() ==> #[trigger] answer(m, reads.take(k)) == read_wanted(
                reads[k - 1].buffer.len(),
            ),
{
    let before = reads.drop_last();
    let last = reads.last();
    assert(m.bytes + received(reads) =~= (m.bytes + received(before)) + last.bytes());
    if before.len() > 0 {
        lemma_reading_goes_on(m, before);
    }
    assert forall|k: int| 0 < k < reads.len() implies #[trigger] answer(m, reads.take(k))
        == read_wanted(reads[k - 1].buffer.len()) by {
        lemma_take_before(reads, k);
        lemma_prefix_received(m.bytes, before, k);
        if holds_tagged_line(m.bytes + received(reads.take(k)), tag()) {
            lemma_tagged_line_persists(
                m.bytes + received(reads.take(k)),
                received(before.skip(k)),
                tag(),
            );
        }
        lemma_reading_goes_on(m, reads.take(k));
    }
}

/// Tolerance of noise before the tag. As long as the tag has not
/// arrived, whatever lines the reads bring are all kept, in order, the
/// phase does not change, and every read is answered by a request for
/// another.
pub proof fn lemma_noise_is_kept(m: Machine, reads: Seq<OutputView>)
    requires
        m.phase is DiscardResponse,
        reads.len() > 0,
        all_wf(reads),
        !occurs(m.bytes + received(reads), tag()),
    ensures
        delivered(m, reads) == (Machine { held: None, bytes: m.bytes + received(reads), ..m }),
        forall|k: int|
            0 < k <= reads.len() ==> #[trigger] answer(m, reads.take(k)) == read_wanted(
                reads[k - 1].buffer.len(),
            ),
{
    if holds_tagged_line(m.bytes + received(reads), tag()) {
        lemma_tagged_line_has_tag(m.bytes + received(reads), tag());
    }
    lemma_reading_goes_on(m, reads);
    assert forall|k: int| 0 < k <= reads.len() implies #[trigger] answer(m, reads.take(k))
        == read_wanted(reads[k - 1].buffer.len()) by {
        if k == reads.len() {
            assert(reads.take(k) =~= reads);
        } else {
            lemma_take_before(reads, k);
            lemma_prefix_received(m.bytes, reads, k);
            if holds_tagged_line(m.bytes + received(reads.take(k)), tag()) {
                lemma_tagged_line_persists(
                    m.bytes + received(reads.take(k)),
                    received(reads.skip(k)),
                    tag(),
                );
            }
            lemma_reading_goes_on(m, reads.take(k));
        }
    }
}

/// The negotiation completes on one occasion only: in its last phase,
/// resumed with a read that makes the received bytes hold the tag and
/// the line feed after it.
pub proof fn lemma_completes_on_tagged_line_only(m: Machine, io: Option<IoView>)
    ensures
        resume_spec(m, io).1 is Ok <==> m.phase is DiscardResponse && (io matches Some(
            IoView::Read(Ok(out)),
        ) && holds_tagged_line(m.bytes + out.bytes(), tag())),
        resume_spec(m, io).1 is Ok ==> (io matches Some(IoView::Read(Ok(out))) && occurs(
            m.bytes + out.bytes(),
            tag(),
        )),
{
    if resume_spec(m, io).1 is Ok {
        match io {
            Some(IoView::Read(Ok(out))) => {
                lemma_tagged_line_has_tag(m.bytes + out.bytes(), tag());
            },
            _ => {},
        }
    }
}

/// Skipping the greeting. A negotiation told not to discard the
/// greeting first asks to write the command; it asks for no read
/// before that.
pub proof fn lemma_skipped_greeting_writes_first()
    ensures
        resume_spec(initial(false), None) == (
            Machine { held: None, ..writing() },
            Err::<(), IoView>(IoView::Write(Err(command()))),
        ),
{
}

/// A negotiation that discards the greeting first asks for a read, and
/// asks to write the command only when resumed with the read that
/// brings the end of the greeting line.
pub proof fn lemma_command_follows_greeting(m: Machine, io: Option<IoView>)
    requires
        m.phase is DiscardGreeting,
    ensures
        resume_spec(initial(true), None).1 == read_wanted(DEFAULT_CAPACITY as nat),
        resume_spec(m, io).1 matches Err(IoView::Write(_)) ==> (io matches Some(
            IoView::Read(Ok(out)),
        ) && holds_line(m.bytes + out.bytes())),
{
}

/// Resuming without input never loses received bytes nor changes the
/// phase, and asks for I/O at most once: a second resumption without
/// input in a row reports an error in place of a second request.
pub proof fn lemma_polling_is_harmless(m: Machine)
    ensures
        resume_spec(m, None).0 == (Machine { held: None, ..m }),
        resume_spec(resume_spec(m, None).0, None).1 matches Err(IoView::Error(_)),
        resume_spec(resume_spec(m, None).0, None).0 == resume_spec(m, None).0,
{
}

/// A whole negotiation. Started without input, the negotiation asks
/// for a read; given the greeting, in however many reads, it asks to
/// write the command; told that the write is done, it asks for a read
/// again; and given the acknowledgement, in however many reads, it
/// completes. A negotiation that skips the greeting goes the same way
/// from the write on.
pub proof fn lemma_negotiation_completes(
    discard_greeting: bool,
    greeting: Seq<OutputView>,
    written: OutputView,
    response: Seq<OutputView>,
)
    requires
        discard_greeting ==> {
            &&& greeting.len() > 0
            &&& all_wf(greeting)
            &&& !holds_line(received(greeting.drop_last()))
            &&& holds_line(received(greeting))
        },
        response.len() > 0,
        all_wf(response),
        !holds_tagged_line(received(response.drop_last()), tag()),
        holds_tagged_line(received(response), tag()),
    ensures
        ({
            let (asked, first) = resume_spec(initial(discard_greeting), None);
            let greeted = if discard_greeting {
                delivered(asked, greeting)
            } else {
                asked
            };
            let (sent, second) = resume_spec(greeted, Some(IoView::Write(Ok(written))));
            &&& discard_greeting ==> first == read_wanted(DEFAULT_CAPACITY as nat)
            &&& discard_greeting ==> answer(asked, greeting) == Err::<(), IoView>(
                IoView::Write(Err(command())),
            )
            &&& !discard_greeting ==> first == Err::<(), IoView>(IoView::Write(Err(command())))
            &&& second == read_wanted(DEFAULT_CAPACITY as nat)
            &&& answer(sent, response) == Ok::<(), IoView>(())
        }),
{
    let (asked, first) = resume_spec(initial(discard_greeting), None);
    if discard_greeting {
        let whole = OutputView {
            buffer: received(greeting),
            bytes_count: received(greeting).len(),
        };
        assert(whole.bytes() =~= received(greeting));
        lemma_greeting_chunking(asked, greeting, whole);
    }
    let greeted = if discard_greeting {
        delivered(asked, greeting)
    } else {
        asked
    };
    let (sent, second) = resume_spec(greeted, Some(IoView::Write(Ok(written))));
    let whole = OutputView { buffer: received(response), bytes_count: received(response).len() };
    assert(whole.bytes() =~= received(response));
    lemma_response_reassembly(sent, response, whole);
}

/// The phases follow one another in their order, one step at a time.
/// Within a phase the received bytes only grow; when the phase changes
/// they are dropped, all of them.
pub proof fn lemma_phases_in_order(m: Machine, io: Option<IoView>)
    ensures
        ({
            let next = resume_spec(m, io).0;
            if next.phase == m.phase {
                m.bytes.is_prefix_of(next.bytes)
            } else {
                &&& next.bytes.len() == 0
                &&& (m.phase is DiscardGreeting && next.phase is WriteCommand) || (m.phase
                    is WriteCommand && next.phase is DiscardResponse)
            }
        }),
{
}

/// The bytes of all the reads are those of the first `k` followed by
/// those of the rest.
proof fn lemma_prefix_received(acc: Seq<u8>, reads: Seq<OutputView>, k: int)
    requires
        0 <= k <= reads.len(),
    ensures
        acc + received(reads) == (acc + received(reads.take(k))) + received(reads.skip(k)),
    decreases reads.len() - k,
{
    if k == reads.len() {
        assert(reads.take(k) =~= reads);
    } else {
        lemma_prefix_received(acc, reads.drop_last(), k);
        assert(reads.drop_last().take(k) =~= reads.take(k));
        assert(reads.skip(k).drop_last() =~= reads.drop_last().skip(k));
        assert(acc + received(reads) =~= (acc + received(reads.drop_last()))
            + reads.last().bytes());
        assert((acc + received(reads.take(k))) + received(reads.skip(k)) =~= ((acc + received(
            reads.take(k),
        )) + received(reads.skip(k).drop_last())) + reads.last().bytes());
    }
}

/// The first `k` of the first `n - 1` reads are the first `k` reads.
proof fn lemma_take_before(reads: Seq<OutputView>, k: int)
    requires
        0 < k < reads.len(),
        all_wf(reads),
    ensures
        all_wf(reads.take(k)),
        reads.take(k).len() > 0,
        reads.take(k).last() == reads[k - 1],
        reads.drop_last().take(k) == reads.take(k),
{
}

} // verus!
