//! Framing of lightningd's replies: a reply on the RPC socket ends at the
//! first two consecutive newline bytes, which the proxy does not forward.
//! The terminator may arrive split over two reads, so a newline at the end of
//! a read is held back until the next read shows whether it starts the
//! terminator.

use vstd::prelude::*;

verus! {

/// The newline byte.
pub const NEWLINE: u8 = 10u8;

/// How much of the reply's terminator has been seen so far: nothing, a
/// newline that ended the last read (held back, not yet forwarded), or the
/// whole terminator (the reply is finished).
#[derive(Clone, Copy, Debug, PartialEq, Eq, Structural)]
pub enum RpcResponseState {
    NoNewLines,
    OneNewLine,
    TwoNewLines,
}

/// Two consecutive newlines start at index `k` of `bytes`.
pub open spec fn terminator_at(bytes: Seq<u8>, k: int) -> bool {
    0 <= k && k + 1 < bytes.len() && bytes[k] == NEWLINE && bytes[k + 1] == NEWLINE
}

/// The first index at or after `from` where two consecutive newlines start.
pub open spec fn first_terminator_from(bytes: Seq<u8>, from: int) -> Option<int>
    decreases bytes.len() - from,
{
    if from < 0 || from + 1 >= bytes.len() {
        None
    } else if bytes[from] == NEWLINE && bytes[from + 1] == NEWLINE {
        Some(from)
    } else {
        first_terminator_from(bytes, from + 1)
    }
}

/// The index where the first two consecutive newlines of `bytes` start.
pub open spec fn first_terminator(bytes: Seq<u8>) -> Option<int> {
    first_terminator_from(bytes, 0)
}

/// `bytes` ends with a newline byte.
pub open spec fn ends_with_newline(bytes: Seq<u8>) -> bool {
    bytes.len() >= 1 && bytes[bytes.len() - 1] == NEWLINE
}

/// The concatenation of a series of reads.
pub open spec fn concat_chunks(chunks: Seq<Seq<u8>>) -> Seq<u8>
    decreases chunks.len(),
{
    if chunks.len() == 0 {
        Seq::empty()
    } else {
        concat_chunks(chunks.drop_last()) + chunks.last()
    }
}

impl RpcResponseState {
    /// The bytes read but held back in this state: the newline that ended
    /// the last read, if any.
    pub open spec fn held_back(self) -> Seq<u8> {
        if self == RpcResponseState::OneNewLine {
            seq![NEWLINE]
        } else {
            Seq::empty()
        }
    }

    /// The state after a chunk has been read in this state, and the bytes
    /// forwarded for it. The held-back newline comes first, then the chunk;
    /// of these, everything before the first two consecutive newlines is
    /// forwarded and the reply is finished; without such a pair, all is
    /// forwarded except a last newline, which is held back. Once finished,
    /// nothing more is forwarded.
    pub open spec fn after_chunk(self, chunk: Seq<u8>) -> (RpcResponseState, Seq<u8>) {
        if self == RpcResponseState::TwoNewLines {
            (RpcResponseState::TwoNewLines, Seq::empty())
        } else {
            let input = self.held_back() + chunk;
            match first_terminator(input) {
                Some(k) => (RpcResponseState::TwoNewLines, input.take(k)),
                None => if ends_with_newline(input) {
                    (RpcResponseState::OneNewLine, input.drop_last())
                } else {
                    (RpcResponseState::NoNewLines, input)
                },
            }
        }
    }

    /// The state and the forwarded bytes after a series of chunks.
    pub open spec fn after_chunks(self, chunks: Seq<Seq<u8>>) -> (RpcResponseState, Seq<u8>)
        decreases chunks.len(),
    {
        if chunks.len() == 0 {
            (self, Seq::empty())
        } else {
            let (mid, out) = self.after_chunks(chunks.drop_last());
            let (last, more) = mid.after_chunk(chunks.last());
            (last, out + more)
        }
    }

    /// The state of a reply of which nothing has been read yet.
    pub fn new() -> (state: RpcResponseState)
        ensures
            state == RpcResponseState::NoNewLines,
    {
        RpcResponseState::NoNewLines
    }

    /// Whether the end of the reply has been seen.
    pub fn is_finished(&self) -> (finished: bool)
        ensures
            finished == (*self == RpcResponseState::TwoNewLines),
    {
        match self {
            RpcResponseState::TwoNewLines => true,
            _ => false,
        }
    }

    /// Takes in one chunk read from the socket and returns the bytes that are
    /// forwarded to the HTTP client for it (see [`RpcResponseState::after_chunk`]).
    pub fn next_chunk(&mut self, chunk: &[u8]) -> (forwarded: Vec<u8>)
        ensures
            (*final(self), forwarded@) == old(self).after_chunk(chunk@),
    {
        if self.is_finished() {
            return Vec::new();
        }
        let mut input: Vec<u8> = Vec::new();
        if self.is_one_newline() {
            input.push(NEWLINE);
        }
        let ghost held = old(self).held_back();
        assert(input@ == held);
        let n = chunk.len();
        let mut i: usize = 0;
        while i < n
            invariant
                *self == *old(self),
                i <= n,
                n == chunk@.len(),
                input@ == held + chunk@.take(i as int),
            decreases n - i,
        {
            input.push(chunk[i]);
            assert(chunk@.take(i + 1) =~= chunk@.take(i as int).push(chunk@[i as int]));
            i = i + 1;
        }
        assert(chunk@.take(n as int) =~= chunk@);
        let len = input.len();
        let mut k: usize = 0;
        while len > 0 && k < len - 1
            invariant
                *self == *old(self),
                *old(self) != RpcResponseState::TwoNewLines,
                input@ == held + chunk@,
                held == old(self).held_back(),
                len == input@.len(),
                k <= len,
                forall|j: int| 0 <= j < k ==> !terminator_at(input@, j),
            decreases len - k,
        {
            if input[k] == NEWLINE && input[k + 1] == NEWLINE {
                let ghost whole = input@;
                proof {
                    lemma_first_terminator_is(whole, k as int);
                }
                *self = RpcResponseState::TwoNewLines;
                input.truncate(k);
                assert(input@ =~= whole.take(k as int));
                return input;
            }
            k = k + 1;
        }
        proof {
            lemma_no_terminator(input@);
        }
        if len >= 1 && input[len - 1] == NEWLINE {
            *self = RpcResponseState::OneNewLine;
            input.truncate(len - 1);
        } else {
            *self = RpcResponseState::NoNewLines;
        }
        input
    }

    fn is_one_newline(&self) -> (one: bool)
        ensures
            one == (*self == RpcResponseState::OneNewLine),
    {
        match self {
            RpcResponseState::OneNewLine => true,
            _ => false,
        }
    }
}

/// What [`first_terminator_from`] finds: the least index at or after `from`
/// where two consecutive newlines start, or none when there is no such index.
pub proof fn lemma_first_terminator_from(bytes: Seq<u8>, from: int)
    requires
        from >= 0,
    ensures
        match first_terminator_from(bytes, from) {
            Some(k) => from <= k && terminator_at(bytes, k) && forall|j: int|
                from <= j < k ==> !terminator_at(bytes, j),
            None => forall|j: int| from <= j ==> !terminator_at(bytes, j),
        },
    decreases bytes.len() - from,
{
    if from + 1 < bytes.len() && !(bytes[from] == NEWLINE && bytes[from + 1] == NEWLINE) {
        lemma_first_terminator_from(bytes, from + 1);
    }
}

/// Where two consecutive newlines start at `k` and at no index before it,
/// `k` is the first terminator.
pub proof fn lemma_first_terminator_is(bytes: Seq<u8>, k: int)
    requires
        terminator_at(bytes, k),
        forall|j: int| 0 <= j < k ==> !terminator_at(bytes, j),
    ensures
        first_terminator(bytes) == Some(k),
{
    lemma_first_terminator_from(bytes, 0);
}

/// Where two consecutive newlines start at no index, there is no first
/// terminator.
pub proof fn lemma_no_terminator(bytes: Seq<u8>)
    requires
        forall|j: int| 0 <= j && j + 1 < bytes.len() ==> !terminator_at(bytes, j),
    ensures
        first_terminator(bytes) is None,
{
    lemma_first_terminator_from(bytes, 0);
}

/// Appending bytes to a sequence that already holds a terminator leaves its
/// first terminator where it was.
proof fn lemma_terminator_kept_by_append(bytes: Seq<u8>, more: Seq<u8>, k: int)
    requires
        first_terminator(bytes) == Some(k),
    ensures
        first_terminator(bytes + more) == Some(k),
{
    lemma_first_terminator_from(bytes, 0);
    let joined = bytes + more;
    assert forall|j: int| 0 <= j < k implies !terminator_at(joined, j) by {
        assert(!terminator_at(bytes, j));
    }
    lemma_first_terminator_is(joined, k);
}

/// In `before + input`, where `before` holds no terminator and no terminator
/// straddles the two, the first terminator is the first terminator of
/// `input`, shifted by the length of `before`.
proof fn lemma_terminator_after_clean_prefix(before: Seq<u8>, input: Seq<u8>)
    requires
        first_terminator(before) is None,
        !(ends_with_newline(before) && input.len() >= 1 && input[0] == NEWLINE),
    ensures
        first_terminator(before + input) == match first_terminator(input) {
            Some(k) => Some(k + before.len()),
            None => None::<int>,
        },
{
    lemma_first_terminator_from(before, 0);
    lemma_first_terminator_from(input, 0);
    let joined = before + input;
    let b = before.len() as int;
    assert forall|j: int| 0 <= j < b implies !terminator_at(joined, j) by {
        if j + 1 < b {
            assert(!terminator_at(before, j));
        }
    }
    assert forall|j: int| b <= j implies terminator_at(joined, j) == terminator_at(input, j - b) by {
    }
    match first_terminator(input) {
        Some(k) => {
            assert forall|j: int| 0 <= j < k + b implies !terminator_at(joined, j) by {
                if j >= b {
                    assert(!terminator_at(input, j - b));
                }
            }
            assert(terminator_at(joined, k + b));
            lemma_first_terminator_is(joined, k + b);
        },
        None => {
            assert forall|j: int| 0 <= j && j + 1 < joined.len() implies !terminator_at(joined, j) by {
                if j >= b {
                    assert(!terminator_at(input, j - b));
                }
            }
            lemma_no_terminator(joined);
        },
    }
}

/// What holds of the forwarded bytes and the state after the bytes `all`
/// have been read from the start of a reply: once the reply is finished, the
/// bytes forwarded are those before the first two consecutive newlines of
/// `all`; before that, `all` has no such pair and the bytes forwarded are
/// `all` without the newline held back.
pub open spec fn framing_invariant(state: RpcResponseState, forwarded: Seq<u8>, all: Seq<u8>) -> bool {
    if state == RpcResponseState::TwoNewLines {
        first_terminator(all) matches Some(k) && forwarded == all.take(k)
    } else {
        &&& first_terminator(all) is None
        &&& forwarded + state.held_back() == all
        &&& (state == RpcResponseState::OneNewLine) == ends_with_newline(all)
    }
}

/// Reading one more chunk keeps [`framing_invariant`].
pub proof fn lemma_chunk_keeps_framing(
    state: RpcResponseState,
    forwarded: Seq<u8>,
    all: Seq<u8>,
    chunk: Seq<u8>,
)
    requires
        framing_invariant(state, forwarded, all),
    ensures
        ({
            let (next, more) = state.after_chunk(chunk);
            framing_invariant(next, forwarded + more, all + chunk)
        }),
{
    let joined = all + chunk;
    if state == RpcResponseState::TwoNewLines {
        let k = first_terminator(all)->0;
        lemma_terminator_kept_by_append(all, chunk, k);
        lemma_first_terminator_from(all, 0);
        assert(forwarded + Seq::<u8>::empty() =~= forwarded);
        assert(joined.take(k) =~= all.take(k));
    } else {
        let input = state.held_back() + chunk;
        assert(joined =~= forwarded + input);
        if ends_with_newline(forwarded) {
            // the newline would have been held back, or `all` would end in
            // two newlines
            if state == RpcResponseState::OneNewLine {
                assert(terminator_at(all, forwarded.len() - 1));
                lemma_first_terminator_from(all, 0);
            } else {
                assert(all =~= forwarded);
            }
        }
        assert(first_terminator(forwarded) is None) by {
            lemma_first_terminator_from(all, 0);
            assert forall|j: int| 0 <= j && j + 1 < forwarded.len() implies !terminator_at(
                forwarded,
                j,
            ) by {
                assert(!terminator_at(all, j));
            }
            lemma_no_terminator(forwarded);
        }
        lemma_terminator_after_clean_prefix(forwarded, input);
        match first_terminator(input) {
            Some(k) => {
                lemma_first_terminator_from(input, 0);
                assert(joined.take(k + forwarded.len()) =~= forwarded + input.take(k));
            },
            None => {
                if ends_with_newline(input) {
                    assert(forwarded + input.drop_last() + seq![NEWLINE] =~= joined);
                } else {
                    assert(forwarded + input + Seq::<u8>::empty() =~= joined);
                    if input.len() == 0 {
                        assert(joined =~= forwarded);
                        assert(state == RpcResponseState::NoNewLines);
                        assert(all =~= forwarded);
                    }
                }
            },
        }
    }
}

/// The documented framing of a reply read in any series of chunks: the
/// reply is finished exactly when the bytes read so far contain two
/// consecutive newlines, and the bytes forwarded are then all the bytes
/// before the first such pair; until then, everything read is forwarded
/// except a newline at the very end, which is held back.
pub proof fn lemma_reply_ends_at_first_two_newlines(chunks: Seq<Seq<u8>>)
    ensures
        ({
            let (state, forwarded) = RpcResponseState::NoNewLines.after_chunks(chunks);
            let all = concat_chunks(chunks);
            &&& (state == RpcResponseState::TwoNewLines) == (first_terminator(all) is Some)
            &&& first_terminator(all) matches Some(k) ==> forwarded == all.take(k)
            &&& first_terminator(all) is None ==> forwarded + state.held_back() == all
        }),
    decreases chunks.len(),
{
    lemma_framing_invariant_holds(chunks);
}

proof fn lemma_framing_invariant_holds(chunks: Seq<Seq<u8>>)
    ensures
        ({
            let (state, forwarded) = RpcResponseState::NoNewLines.after_chunks(chunks);
            framing_invariant(state, forwarded, concat_chunks(chunks))
        }),
    decreases chunks.len(),
{
    if chunks.len() == 0 {
        lemma_no_terminator(Seq::<u8>::empty());
        assert(Seq::<u8>::empty() + Seq::<u8>::empty() =~= Seq::<u8>::empty());
    } else {
        lemma_framing_invariant_holds(chunks.drop_last());
        let (mid, out) = RpcResponseState::NoNewLines.after_chunks(chunks.drop_last());
        lemma_chunk_keeps_framing(mid, out, concat_chunks(chunks.drop_last()), chunks.last());
    }
}

/// Once the reply is finished it stays finished and nothing more is
/// forwarded, whatever is read afterwards.
pub proof fn lemma_finished_stays_finished(chunk: Seq<u8>)
    ensures
        RpcResponseState::TwoNewLines.after_chunk(chunk) == (
            RpcResponseState::TwoNewLines,
            Seq::<u8>::empty(),
        ),
{
}

/// Reading a series of chunks one after another forwards the bytes of each
/// chunk in order: the output of `chunks` followed by `chunk` is the output of
/// `chunks` followed by what `chunk` forwards.
pub proof fn lemma_chunks_forward_in_order(
    state: RpcResponseState,
    chunks: Seq<Seq<u8>>,
    chunk: Seq<u8>,
)
    ensures
        ({
            let (mid, out) = state.after_chunks(chunks);
            let (last, more) = mid.after_chunk(chunk);
            state.after_chunks(chunks.push(chunk)) == (last, out + more)
        }),
{
    assert(chunks.push(chunk).drop_last() =~= chunks);
}

} // verus!
