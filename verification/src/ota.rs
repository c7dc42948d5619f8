//! The chunked firmware transfer.
//!
//! A transfer starts with a chunk that declares the size of the whole image
//! and continues with chunks that each declare the offset at which they
//! belong. The machine keeps its own count of the bytes it has accepted and
//! refuses every chunk whose declaration contradicts that count, so that an
//! image is only ever finalized when exactly the declared number of bytes
//! has been written in order.

use vstd::prelude::*;

verus! {

/// Positional metadata that the broker attaches to an inbound message.
#[derive(Clone, Copy, Debug, PartialEq, Eq)]
pub enum Details {
    /// The message is whole: nothing precedes or follows it.
    Complete,
    /// First piece of a split message; declares the size of the whole.
    InitialChunk { total_data_size: usize },
    /// A later piece; declares where it belongs and, again, the whole size.
    SubsequentChunk { current_data_offset: usize, total_data_size: usize },
}

/// Why a chunk was refused. Every violation is fatal to the transfer.
#[derive(Clone, Copy, Debug, PartialEq, Eq)]
pub enum Violation {
    /// A chunk other than an initial one arrived while no transfer was live.
    MissingInitialChunk,
    /// An initial chunk arrived while a transfer was already live.
    UnexpectedInitialChunk,
    /// The declared offset differs from the number of bytes written so far.
    OffsetMismatch,
    /// The chunk declares another total size than the transfer was opened with.
    TotalMismatch,
    /// Accepting the chunk would write past the declared total size.
    Overshoot,
    /// A chunk arrived after the transfer had completed or aborted.
    TransferOver,
}

/// What the driver must do with the chunk it has just reported.
#[derive(Clone, Copy, Debug, PartialEq, Eq)]
pub enum OtaAction {
    /// Open a write cursor on the spare slot and write the chunk to it.
    BeginAndWrite,
    /// Write the chunk to the open cursor.
    Write,
    /// Write the chunk, then flush the image, make it the boot target and restart.
    WriteAndFinalize,
    /// Flush the image as it stands, make it the boot target and restart.
    Finalize,
    /// Write nothing and stop: the transfer is void.
    Abort(Violation),
}

/// The state of the one transfer that may be live at a time.
#[derive(Clone, Copy, Debug, PartialEq, Eq)]
pub enum OtaState {
    /// No transfer is live.
    Idle,
    /// `written` of the `total` declared bytes have been accepted.
    InProgress { written: usize, total: usize },
    /// The image was handed over for finalizing. Terminal.
    Complete,
    /// The transfer was stopped by a violation. Terminal.
    Aborted,
}

impl OtaAction {
    /// The action flushes the image and switches the boot target.
    pub open spec fn spec_finalizes(self) -> bool {
        self == OtaAction::WriteAndFinalize || self == OtaAction::Finalize
    }

    /// The action puts the bytes of the chunk into storage.
    pub open spec fn spec_writes(self) -> bool {
        self == OtaAction::BeginAndWrite || self == OtaAction::Write || self
            == OtaAction::WriteAndFinalize
    }

    /// The action flushes the image and switches the boot target.
    pub fn finalizes(self) -> (r: bool)
        ensures
            r == self.spec_finalizes(),
    {
        match self {
            OtaAction::WriteAndFinalize => true,
            OtaAction::Finalize => true,
            _ => false,
        }
    }

    /// The action puts the bytes of the chunk into storage.
    pub fn writes(self) -> (r: bool)
        ensures
            r == self.spec_writes(),
    {
        match self {
            OtaAction::BeginAndWrite => true,
            OtaAction::Write => true,
            OtaAction::WriteAndFinalize => true,
            _ => false,
        }
    }
}

impl OtaState {
    /// A live transfer never holds more bytes than were declared.
    pub open spec fn wf(self) -> bool {
        match self {
            OtaState::InProgress { written, total } => written <= total,
            _ => true,
        }
    }

    /// The transition function: the state after a chunk of `len` bytes with
    /// metadata `details`, and what is to be done with the chunk.
    pub open spec fn spec_on_chunk(self, details: Details, len: usize) -> (OtaState, OtaAction) {
        match self {
            OtaState::Idle => match details {
                Details::InitialChunk { total_data_size } => if len <= total_data_size {
                    (
                        OtaState::InProgress { written: len, total: total_data_size },
                        OtaAction::BeginAndWrite,
                    )
                } else {
                    (OtaState::Aborted, OtaAction::Abort(Violation::Overshoot))
                },
                _ => (OtaState::Aborted, OtaAction::Abort(Violation::MissingInitialChunk)),
            },
            OtaState::InProgress { written, total } => match details {
                Details::InitialChunk { .. } => (
                    OtaState::Aborted,
                    OtaAction::Abort(Violation::UnexpectedInitialChunk),
                ),
                Details::Complete => (OtaState::Complete, OtaAction::Finalize),
                Details::SubsequentChunk { current_data_offset, total_data_size } => {
                    if current_data_offset != written {
                        (OtaState::Aborted, OtaAction::Abort(Violation::OffsetMismatch))
                    } else if total_data_size != total {
                        (OtaState::Aborted, OtaAction::Abort(Violation::TotalMismatch))
                    } else if written + len > total {
                        (OtaState::Aborted, OtaAction::Abort(Violation::Overshoot))
                    } else if written + len == total {
                        (OtaState::Complete, OtaAction::WriteAndFinalize)
                    } else {
                        (
                            OtaState::InProgress { written: (written + len) as usize, total },
                            OtaAction::Write,
                        )
                    }
                },
            },
            OtaState::Complete => (OtaState::Aborted, OtaAction::Abort(Violation::TransferOver)),
            OtaState::Aborted => (OtaState::Aborted, OtaAction::Abort(Violation::TransferOver)),
        }
    }

    /// The state in which no transfer is live.
    pub fn new() -> (r: OtaState)
        ensures
            r == OtaState::Idle,
            r.wf(),
    {
        OtaState::Idle
    }

    /// Tells whether the state is one that the machine can be in.
    pub fn is_sound(self) -> (r: bool)
        ensures
            r == self.wf(),
    {
        match self {
            OtaState::InProgress { written, total } => written <= total,
            _ => true,
        }
    }

    /// A transfer is live: a cursor is open and not yet finalized.
    pub fn is_live(self) -> (r: bool)
        ensures
            r == (self is InProgress),
    {
        match self {
            OtaState::InProgress { .. } => true,
            _ => false,
        }
    }

    /// Feeds one chunk of `len` bytes to the machine.
    ///
    /// The declared offset of a subsequent chunk must equal the number of
    /// bytes accepted so far and its declared total must be the one the
    /// transfer was opened with; a chunk that would pass the total is
    /// refused before anything is written. The transfer completes with the
    /// chunk that brings the count to the total, or with a message that the
    /// broker marks as whole, whichever comes first.
    pub fn on_chunk(self, details: Details, len: usize) -> (r: (OtaState, OtaAction))
        ensures
            r == self.spec_on_chunk(details, len),
            r.0.wf(),
    {
        match self {
            OtaState::Idle => match details {
                Details::InitialChunk { total_data_size } => {
                    if len <= total_data_size {
                        (
                            OtaState::InProgress { written: len, total: total_data_size },
                            OtaAction::BeginAndWrite,
                        )
                    } else {
                        (OtaState::Aborted, OtaAction::Abort(Violation::Overshoot))
                    }
                },
                _ => (OtaState::Aborted, OtaAction::Abort(Violation::MissingInitialChunk)),
            },
            OtaState::InProgress { written, total } => match details {
                Details::InitialChunk { .. } => (
                    OtaState::Aborted,
                    OtaAction::Abort(Violation::UnexpectedInitialChunk),
                ),
                Details::Complete => (OtaState::Complete, OtaAction::Finalize),
                Details::SubsequentChunk { current_data_offset, total_data_size } => {
                    if current_data_offset != written {
                        (OtaState::Aborted, OtaAction::Abort(Violation::OffsetMismatch))
                    } else if total_data_size != total {
                        (OtaState::Aborted, OtaAction::Abort(Violation::TotalMismatch))
                    } else if written > total || len > total - written {
                        (OtaState::Aborted, OtaAction::Abort(Violation::Overshoot))
                    } else if len == total - written {
                        (OtaState::Complete, OtaAction::WriteAndFinalize)
                    } else {
                        (OtaState::InProgress { written: written + len, total }, OtaAction::Write)
                    }
                },
            },
            OtaState::Complete => (OtaState::Aborted, OtaAction::Abort(Violation::TransferOver)),
            OtaState::Aborted => (OtaState::Aborted, OtaAction::Abort(Violation::TransferOver)),
        }
    }
}

/// One delivered chunk as the machine sees it: its metadata and its size.
#[derive(Clone, Copy, Debug, PartialEq, Eq)]
pub struct Chunk {
    pub details: Details,
    pub len: usize,
}

/// The state after `chunks` have been fed in order to a machine in `start`.
pub open spec fn spec_run(start: OtaState, chunks: Seq<Chunk>) -> OtaState
    decreases chunks.len(),
{
    if chunks.len() == 0 {
        start
    } else {
        spec_run(start, chunks.drop_last()).spec_on_chunk(
            chunks.last().details,
            chunks.last().len,
        ).0
    }
}

/// How many of the actions answered to `chunks` asked for the image to be
/// finalized.
pub open spec fn spec_finalize_count(start: OtaState, chunks: Seq<Chunk>) -> nat
    decreases chunks.len(),
{
    if chunks.len() == 0 {
        0
    } else {
        let action = spec_run(start, chunks.drop_last()).spec_on_chunk(
            chunks.last().details,
            chunks.last().len,
        ).1;
        if action.spec_finalizes() {
            spec_finalize_count(start, chunks.drop_last()) + 1
        } else {
            spec_finalize_count(start, chunks.drop_last())
        }
    }
}

/// The number of bytes that `chunks` carry together.
pub open spec fn spec_delivered(chunks: Seq<Chunk>) -> nat
    decreases chunks.len(),
{
    if chunks.len() == 0 {
        0
    } else {
        (spec_delivered(chunks.drop_last()) + chunks.last().len) as nat
    }
}

/// `chunks` is an orderly delivery of an image of `total` bytes: an initial
/// chunk that declares `total`, then at least one subsequent chunk, each
/// declaring `total` and, as its offset, the number of bytes that the chunks
/// before it carry; all together carry `total` bytes, and no subsequent
/// chunk but the last reaches that count.
pub open spec fn spec_orderly(chunks: Seq<Chunk>, total: usize) -> bool {
    &&& chunks.len() >= 2
    &&& chunks[0].details == Details::InitialChunk { total_data_size: total }
    &&& forall|i: int|
        1 <= i < chunks.len() ==> (#[trigger] chunks[i]).details
            == Details::SubsequentChunk {
            current_data_offset: spec_delivered(chunks.take(i)) as usize,
            total_data_size: total,
        }
    &&& forall|j: int| 2 <= j < chunks.len() ==> #[trigger] spec_delivered(chunks.take(j)) < total
    &&& spec_delivered(chunks) == total
}

proof fn lemma_delivered_prefix(chunks: Seq<Chunk>, j: int)
    requires
        0 <= j <= chunks.len(),
    ensures
        spec_delivered(chunks.take(j)) <= spec_delivered(chunks),
    decreases chunks.len(),
{
    if j == chunks.len() {
        assert(chunks.take(j) =~= chunks);
    } else {
        assert(chunks.drop_last().take(j) =~= chunks.take(j));
        lemma_delivered_prefix(chunks.drop_last(), j);
    }
}

proof fn lemma_orderly_prefix(chunks: Seq<Chunk>, total: usize, j: int)
    requires
        spec_orderly(chunks, total),
        1 <= j < chunks.len(),
    ensures
        spec_run(OtaState::Idle, chunks.take(j)) == (OtaState::InProgress {
            written: spec_delivered(chunks.take(j)) as usize,
            total,
        }),
        spec_delivered(chunks.take(j)) <= total,
        spec_finalize_count(OtaState::Idle, chunks.take(j)) == 0,
    decreases j,
{
    let now = chunks.take(j);
    let before = chunks.take(j - 1);
    assert(now.drop_last() =~= before);
    assert(now.last() == chunks[j - 1]);
    lemma_delivered_prefix(chunks, j);
    let action = spec_run(OtaState::Idle, before).spec_on_chunk(
        chunks[j - 1].details,
        chunks[j - 1].len,
    ).1;
    if j == 1 {
        assert(spec_run(OtaState::Idle, before) == OtaState::Idle);
        assert(spec_finalize_count(OtaState::Idle, before) == 0);
        assert(spec_delivered(before) == 0);
        assert(action == OtaAction::BeginAndWrite);
    } else {
        lemma_orderly_prefix(chunks, total, j - 1);
        assert(spec_delivered(now) < total);
        assert(action == OtaAction::Write);
    }
}

/// An orderly delivery completes the transfer with its last chunk and asks
/// for the image to be finalized exactly once: every proper prefix leaves
/// the transfer in progress with exactly the bytes delivered so far, the
/// whole delivery leaves it complete, and one finalize request was made.
pub proof fn law_orderly_delivery_completes_once(chunks: Seq<Chunk>, total: usize)
    requires
        spec_orderly(chunks, total),
    ensures
        spec_run(OtaState::Idle, chunks) == OtaState::Complete,
        spec_finalize_count(OtaState::Idle, chunks) == 1,
        forall|j: int|
            1 <= j < chunks.len() ==> #[trigger] spec_run(OtaState::Idle, chunks.take(j)) == (
            OtaState::InProgress { written: spec_delivered(chunks.take(j)) as usize, total }),
{
    let n = chunks.len() as int;
    lemma_orderly_prefix(chunks, total, n - 1);
    assert(chunks.drop_last() =~= chunks.take(n - 1));
    assert(chunks.last() == chunks[n - 1]);
    assert forall|j: int| 1 <= j < chunks.len() implies #[trigger] spec_run(
        OtaState::Idle,
        chunks.take(j),
    ) == (OtaState::InProgress { written: spec_delivered(chunks.take(j)) as usize, total }) by {
        lemma_orderly_prefix(chunks, total, j);
    }
}

/// A subsequent chunk whose declared offset is not the number of bytes
/// written so far aborts the transfer: nothing is written and nothing is
/// finalized.
pub proof fn law_offset_mismatch_aborts(
    written: usize,
    total: usize,
    declared_offset: usize,
    declared_total: usize,
    len: usize,
)
    requires
        declared_offset != written,
    ensures
        (OtaState::InProgress { written, total }).spec_on_chunk(
            Details::SubsequentChunk {
                current_data_offset: declared_offset,
                total_data_size: declared_total,
            },
            len,
        ) == (OtaState::Aborted, OtaAction::Abort(Violation::OffsetMismatch)),
{
}

/// Once a transfer has aborted or completed, no later chunk revives it:
/// whatever is delivered, the machine ends aborted (or stays as it was, when
/// nothing is delivered) and asks for no finalize.
pub proof fn law_terminal_states_never_finalize(start: OtaState, chunks: Seq<Chunk>)
    requires
        start == OtaState::Aborted || start == OtaState::Complete,
    ensures
        chunks.len() > 0 ==> spec_run(start, chunks) == OtaState::Aborted,
        spec_finalize_count(start, chunks) == 0,
    decreases chunks.len(),
{
    if chunks.len() > 0 {
        law_terminal_states_never_finalize(start, chunks.drop_last());
    }
}

/// No chunk is ever written past the declared total: whenever the answer to
/// a chunk asks for its bytes to be written, the bytes accepted before it
/// and its own fit into the declared size, and the new state counts them.
pub proof fn law_overshoot_is_rejected(state: OtaState, details: Details, len: usize)
    ensures
        ({
            let (next, action) = state.spec_on_chunk(details, len);
            action.spec_writes() ==> match state {
                OtaState::Idle => details matches Details::InitialChunk { total_data_size } && len
                    <= total_data_size && next == (OtaState::InProgress {
                    written: len,
                    total: total_data_size,
                }),
                OtaState::InProgress { written, total } => written + len <= total && (next
                    == OtaState::Complete <==> written + len == total) && (written + len < total
                    ==> next == (OtaState::InProgress {
                    written: (written + len) as usize,
                    total,
                })),
                _ => false,
            }
        }),
{
}

/// The bytes of a chunk are written in exactly two situations: the chunk is
/// an initial one, no transfer is live, and it is no larger than the image
/// it declares; or it is a subsequent one, a transfer is live, the chunk
/// declares the offset and the total that the transfer stands at, and it
/// fits into what is left. The image is finalized exactly with a chunk of
/// the second sort that fills what is left, or with a message marked whole
/// during a live transfer. Everything else aborts.
pub proof fn law_when_a_chunk_is_accepted(state: OtaState, details: Details, len: usize)
    ensures
        ({
            let (next, action) = state.spec_on_chunk(details, len);
            let opens = state == OtaState::Idle && (details matches Details::InitialChunk {
                total_data_size,
            } && len <= total_data_size);
            let continues = state matches OtaState::InProgress { written, total } && (
            details matches Details::SubsequentChunk { current_data_offset, total_data_size }
                && current_data_offset == written && total_data_size == total && written + len
                <= total);
            let fills = state matches OtaState::InProgress { written, total } && written + len
                == total;
            let marked_whole = state is InProgress && details == Details::Complete;
            &&& action.spec_writes() <==> opens || continues
            &&& action.spec_finalizes() <==> (continues && fills) || marked_whole
            &&& action is Abort <==> !(opens || continues || marked_whole)
            &&& action is Abort <==> next == OtaState::Aborted
            &&& action.spec_finalizes() <==> next == OtaState::Complete
        }),
{
}

/// A subsequent chunk that was accepted and carried at least one byte is
/// refused when it is delivered a second time.
pub proof fn law_duplicate_chunk_aborts(
    written: usize,
    total: usize,
    details: Details,
    len: usize,
)
    requires
        len > 0,
        details is SubsequentChunk,
        (OtaState::InProgress { written, total }).spec_on_chunk(details, len).1.spec_writes(),
    ensures
        ({
            let first = (OtaState::InProgress { written, total }).spec_on_chunk(details, len);
            let second = first.0.spec_on_chunk(details, len);
            second.0 == OtaState::Aborted && second.1 is Abort
        }),
{
}

/// Every chunk leaves the machine in a sound state.
pub proof fn law_step_keeps_sound(state: OtaState, details: Details, len: usize)
    ensures
        state.spec_on_chunk(details, len).0.wf(),
{
}

} // verus!
