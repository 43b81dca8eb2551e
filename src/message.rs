//! Outbound messages: a draft is written, finalized and posted, and each
//! emitter's messages are numbered consecutively.
use vstd::prelude::*;

use crate::bytes::bytes_eq;
use crate::crypto::{keccak256, keccak256_of};
use crate::error::BridgeError;
use crate::vaa::{encode_message_preimage, message_preimage};

verus! {

/// Where a draft message stands.
#[derive(Debug, Clone, Copy, PartialEq, Eq, Structural)]
pub enum MessageStatus {
    /// The payload may still be written.
    Writing,
    /// The payload is fixed and awaits posting.
    Finalized,
    /// The message was given a sequence number and hash.
    Published,
}

/// A message under construction, with a payload buffer sized at creation.
pub struct DraftMessage {
    pub status: MessageStatus,
    /// The only account that may write, finalize, post or close the draft.
    pub emitter_authority: [u8; 32],
    /// The payload buffer; its length is the encoded payload length.
    pub payload: Vec<u8>,
}

/// The payload after writing `data` at `index`.
pub open spec fn written(payload: Seq<u8>, index: int, data: Seq<u8>) -> Seq<u8> {
    payload.subrange(0, index) + data + payload.subrange(index + data.len(), payload.len() as int)
}

/// What writing `data` at `index` gives: the new payload, or the reason it is
/// refused.
pub open spec fn write_outcome(d: DraftMessage, caller: Seq<u8>, index: int, data: Seq<u8>) -> Result<
    Seq<u8>,
    BridgeError,
> {
    if d.status != MessageStatus::Writing {
        Err(BridgeError::MessageAlreadyPublished)
    } else if caller != d.emitter_authority@ {
        Err(BridgeError::AuthorityMismatch)
    } else if data.len() == 0 {
        Err(BridgeError::InvalidInstructionArgument)
    } else if index + data.len() > d.payload@.len() {
        Err(BridgeError::DataOverflow)
    } else {
        Ok(written(d.payload@, index, data))
    }
}

/// Writing past the encoded payload length fails with `DataOverflow`, and
/// no write is accepted once the draft has left `Writing` (after `finalize`).
pub proof fn lemma_draft_write_rules(d: DraftMessage, caller: Seq<u8>, index: int, data: Seq<u8>)
    ensures
        d.status == MessageStatus::Writing && caller == d.emitter_authority@ && data.len() > 0
            && index + data.len() > d.payload@.len() ==> write_outcome(d, caller, index, data)
            == Err::<Seq<u8>, BridgeError>(BridgeError::DataOverflow),
        d.status != MessageStatus::Writing ==> write_outcome(d, caller, index, data) == Err::<
            Seq<u8>,
            BridgeError,
        >(BridgeError::MessageAlreadyPublished),
{
}

impl DraftMessage {
    /// A draft in `Writing` with a zeroed payload of `payload_length` bytes.
    pub fn init(emitter_authority: [u8; 32], payload_length: u32) -> (r: Self)
        ensures
            r.status == MessageStatus::Writing,
            r.emitter_authority == emitter_authority,
            r.payload@ == Seq::new(payload_length as nat, |i: int| 0u8),
    {
        let mut payload: Vec<u8> = Vec::new();
        let mut i: u32 = 0;
        while i < payload_length
            invariant
                i <= payload_length,
                payload@ == Seq::new(i as nat, |j: int| 0u8),
            decreases payload_length - i,
        {
            payload.push(0u8);
            i = i + 1;
            assert(payload@ =~= Seq::new(i as nat, |j: int| 0u8));
        }
        DraftMessage { status: MessageStatus::Writing, emitter_authority, payload }
    }

    /// Length of the payload fixed at creation.
    pub fn encoded_payload_length(&self) -> (r: usize)
        ensures
            r == self.payload@.len(),
    {
        self.payload.len()
    }

    /// Writes `data` at byte offset `index` of the payload. Writes may overlap
    /// and come in any order.
    pub fn write(&mut self, caller: &[u8; 32], index: u32, data: &[u8]) -> (r: Result<(), BridgeError>)
        ensures
            final(self).status == old(self).status,
            final(self).emitter_authority == old(self).emitter_authority,
            match write_outcome(*old(self), caller@, index as int, data@) {
                Ok(p) => r is Ok && final(self).payload@ == p,
                Err(e) => r == Err::<(), BridgeError>(e) && final(self).payload@ == old(self).payload@,
            },
    {
        if self.status != MessageStatus::Writing {
            return Err(BridgeError::MessageAlreadyPublished);
        }
        if !bytes_eq(caller.as_slice(), self.emitter_authority.as_slice()) {
            return Err(BridgeError::AuthorityMismatch);
        }
        write_message(self, index as usize, data)
    }

    /// Fixes the payload: no write is accepted afterwards.
    pub fn finalize(&mut self, caller: &[u8; 32]) -> (r: Result<(), BridgeError>)
        ensures
            old(self).status != MessageStatus::Writing ==> r == Err::<(), BridgeError>(
                BridgeError::MessageAlreadyPublished,
            ),
            old(self).status == MessageStatus::Writing && caller@ != old(self).emitter_authority@
                ==> r == Err::<(), BridgeError>(BridgeError::AuthorityMismatch),
            r is Ok <==> old(self).status == MessageStatus::Writing && caller@
                == old(self).emitter_authority@,
            r is Ok ==> final(self).status == MessageStatus::Finalized,
            r is Err ==> final(self).status == old(self).status,
            final(self).payload@ == old(self).payload@,
            final(self).emitter_authority == old(self).emitter_authority,
    {
        if self.status != MessageStatus::Writing {
            return Err(BridgeError::MessageAlreadyPublished);
        }
        if !bytes_eq(caller.as_slice(), self.emitter_authority.as_slice()) {
            return Err(BridgeError::AuthorityMismatch);
        }
        self.status = MessageStatus::Finalized;
        Ok(())
    }

    /// Whether the draft may be closed: while it is written, or once posted;
    /// never while it awaits posting.
    pub fn close(&self, caller: &[u8; 32]) -> (r: Result<(), BridgeError>)
        ensures
            r is Ok <==> self.status != MessageStatus::Finalized && caller@ == self.emitter_authority@,
            self.status == MessageStatus::Finalized ==> r == Err::<(), BridgeError>(
                BridgeError::MessageAlreadyPublished,
            ),
            self.status != MessageStatus::Finalized && caller@ != self.emitter_authority@ ==> r
                == Err::<(), BridgeError>(BridgeError::AuthorityMismatch),
    {
        if self.status == MessageStatus::Finalized {
            return Err(BridgeError::MessageAlreadyPublished);
        }
        if !bytes_eq(caller.as_slice(), self.emitter_authority.as_slice()) {
            return Err(BridgeError::AuthorityMismatch);
        }
        Ok(())
    }
}

/// Copies `data` into the payload at `index`, once the draft's state and
/// authority were checked.
fn write_message(msg: &mut DraftMessage, index: usize, data: &[u8]) -> (r: Result<(), BridgeError>)
    ensures
        final(msg).status == old(msg).status,
        final(msg).emitter_authority == old(msg).emitter_authority,
        data@.len() == 0 ==> r == Err::<(), BridgeError>(BridgeError::InvalidInstructionArgument),
        data@.len() > 0 && index + data@.len() > old(msg).payload@.len() ==> r == Err::<
            (),
            BridgeError,
        >(BridgeError::DataOverflow),
        r is Ok <==> data@.len() > 0 && index + data@.len() <= old(msg).payload@.len(),
        r is Ok ==> final(msg).payload@ == written(old(msg).payload@, index as int, data@),
        r is Err ==> final(msg).payload@ == old(msg).payload@,
{
    let n: usize = data.len();
    if n == 0 {
        return Err(BridgeError::InvalidInstructionArgument);
    }
    let msg_length: usize = msg.payload.len();
    let end: usize = match index.checked_add(n) {
        Some(e) => e,
        None => {
            return Err(BridgeError::DataOverflow);
        },
    };
    if end > msg_length {
        return Err(BridgeError::DataOverflow);
    }
    let ghost before = msg.payload@;
    let mut i: usize = 0;
    while i < n
        invariant
            n == data@.len(),
            index + n <= msg_length,
            msg_length == before.len(),
            msg.status == old(msg).status,
            msg.emitter_authority == old(msg).emitter_authority,
            before == old(msg).payload@,
            i <= n,
            msg.payload@.len() == before.len(),
            forall|j: int| 0 <= j < index ==> msg.payload@[j] == before[j],
            forall|j: int| index <= j < index + i ==> msg.payload@[j] == data@[j - index],
            forall|j: int| index + i <= j < before.len() ==> msg.payload@[j] == before[j],
        decreases n - i,
    {
        msg.payload.set(index + i, data[i]);
        i = i + 1;
    }
    assert(msg.payload@ =~= written(before, index as int, data@));
    Ok(())
}

/// What a caller asks of a draft message.
pub enum ProcessMessageV1Directive {
    /// Close the draft, sending its storage to the given destination.
    CloseMessageAccount,
    /// Write `data` at byte offset `index`.
    Write { index: u32, data: Vec<u8> },
}

/// Applies a directive to a draft that is still being written by its
/// authority. Closing needs a destination for the reclaimed storage; the
/// result tells whether the draft was closed.
pub fn process_message_v1(
    draft: &mut DraftMessage,
    caller: &[u8; 32],
    close_account_destination: Option<[u8; 32]>,
    directive: ProcessMessageV1Directive,
) -> (r: Result<bool, BridgeError>)
    ensures
        final(draft).status == old(draft).status,
        final(draft).emitter_authority == old(draft).emitter_authority,
        old(draft).status != MessageStatus::Writing ==> r == Err::<bool, BridgeError>(
            BridgeError::MessageAlreadyPublished,
        ),
        old(draft).status == MessageStatus::Writing && caller@ != old(draft).emitter_authority@ ==> r
            == Err::<bool, BridgeError>(BridgeError::AuthorityMismatch),
        match directive {
            ProcessMessageV1Directive::CloseMessageAccount => {
                &&& final(draft).payload@ == old(draft).payload@
                &&& old(draft).status == MessageStatus::Writing && caller@
                    == old(draft).emitter_authority@ ==> r == if close_account_destination is Some {
                    Ok::<bool, BridgeError>(true)
                } else {
                    Err::<bool, BridgeError>(BridgeError::AccountNotEnoughKeys)
                }
            },
            ProcessMessageV1Directive::Write { index, data } => match write_outcome(
                *old(draft),
                caller@,
                index as int,
                data@,
            ) {
                Ok(p) => r == Ok::<bool, BridgeError>(false) && final(draft).payload@ == p,
                Err(e) => r == Err::<bool, BridgeError>(e) && final(draft).payload@ == old(
                    draft,
                ).payload@,
            },
        },
{
    if draft.status != MessageStatus::Writing {
        return Err(BridgeError::MessageAlreadyPublished);
    }
    if !bytes_eq(caller.as_slice(), draft.emitter_authority.as_slice()) {
        return Err(BridgeError::AuthorityMismatch);
    }
    match directive {
        ProcessMessageV1Directive::CloseMessageAccount => match close_account_destination {
            Some(_) => Ok(true),
            None => Err(BridgeError::AccountNotEnoughKeys),
        },
        ProcessMessageV1Directive::Write { index, data } => {
            match write_message(draft, index as usize, data.as_slice()) {
                Ok(()) => Ok(false),
                Err(e) => Err(e),
            }
        },
    }
}

/// The next sequence number of one emitter.
pub struct EmitterSequence {
    pub emitter: [u8; 32],
    pub value: u64,
}

/// The next sequence number of `emitter`: the value of its last entry, or zero
/// when it has none.
pub open spec fn next_sequence(entries: Seq<EmitterSequence>, emitter: Seq<u8>) -> u64
    decreases entries.len(),
{
    if entries.len() == 0 {
        0
    } else if entries.last().emitter@ == emitter {
        entries.last().value
    } else {
        next_sequence(entries.drop_last(), emitter)
    }
}

/// Whether `after` holds the counters of `before` with the counter of
/// `emitter` advanced by one and every other counter unchanged.
pub open spec fn counters_advanced(
    before: Seq<EmitterSequence>,
    after: Seq<EmitterSequence>,
    emitter: Seq<u8>,
) -> bool {
    &&& next_sequence(after, emitter) == next_sequence(before, emitter) + 1
    &&& forall|other: Seq<u8>|
        other != emitter ==> #[trigger] next_sequence(after, other) == next_sequence(before, other)
}

proof fn lemma_update_last_match(s: Seq<EmitterSequence>, i: int, e: EmitterSequence, other: Seq<u8>)
    requires
        0 <= i < s.len(),
        s[i].emitter@ == e.emitter@,
        forall|j: int| i < j < s.len() ==> (#[trigger] s[j]).emitter@ != e.emitter@,
    ensures
        next_sequence(s.update(i, e), e.emitter@) == e.value,
        other != e.emitter@ ==> next_sequence(s.update(i, e), other) == next_sequence(s, other),
    decreases s.len(),
{
    let u = s.update(i, e);
    if i == s.len() - 1 {
        assert(u.drop_last() =~= s.drop_last());
    } else {
        assert(u.drop_last() =~= s.drop_last().update(i, e));
        lemma_update_last_match(s.drop_last(), i, e, other);
    }
}

proof fn lemma_push_new(s: Seq<EmitterSequence>, e: EmitterSequence, other: Seq<u8>)
    ensures
        next_sequence(s.push(e), e.emitter@) == e.value,
        other != e.emitter@ ==> next_sequence(s.push(e), other) == next_sequence(s, other),
{
    assert(s.push(e).drop_last() =~= s);
}

/// Per-emitter sequence counters.
pub struct EmitterSequences {
    entries: Vec<EmitterSequence>,
}

impl View for EmitterSequences {
    type V = Seq<EmitterSequence>;

    closed spec fn view(&self) -> Seq<EmitterSequence> {
        self.entries@
    }
}

impl EmitterSequences {
    pub fn new() -> (r: Self)
        ensures
            forall|e: Seq<u8>| #[trigger] next_sequence(r@, e) == 0,
    {
        let r = EmitterSequences { entries: Vec::new() };
        assert forall|e: Seq<u8>| #[trigger] next_sequence(r@, e) == 0 by {
            assert(r@.len() == 0);
        }
        r
    }

    /// The sequence number the next message of `emitter` will get.
    pub fn next(&self, emitter: &[u8; 32]) -> (r: u64)
        ensures
            r == next_sequence(self@, emitter@),
    {
        match self.find_last(emitter) {
            Some(i) => self.entries[i].value,
            None => 0,
        }
    }

    fn find_last(&self, emitter: &[u8; 32]) -> (r: Option<usize>)
        ensures
            r matches Some(i) ==> i < self@.len() && self@[i as int].emitter@ == emitter@ && (forall|
                j: int,
            | i < j < self@.len() ==> (#[trigger] self@[j]).emitter@ != emitter@) && next_sequence(
                self@,
                emitter@,
            ) == self@[i as int].value,
            r is None ==> forall|j: int|
                0 <= j < self@.len() ==> (#[trigger] self@[j]).emitter@ != emitter@,
            r is None ==> next_sequence(self@, emitter@) == 0,
    {
        let mut k: usize = self.entries.len();
        assert(self.entries@.subrange(0, k as int) =~= self.entries@);
        while k > 0
            invariant
                k <= self.entries@.len(),
                forall|j: int| k <= j < self.entries@.len() ==> (#[trigger] self.entries@[j]).emitter@ != emitter@,
                next_sequence(self.entries@, emitter@) == next_sequence(self.entries@.subrange(0, k as int), emitter@),
            decreases k,
        {
            let ghost pre = self.entries@.subrange(0, k as int);
            if bytes_eq(self.entries[k - 1].emitter.as_slice(), emitter.as_slice()) {
                return Some(k - 1);
            }
            assert(pre.drop_last() =~= self.entries@.subrange(0, k - 1));
            k = k - 1;
        }
        None
    }

    /// Takes the next sequence number of `emitter` and advances its counter.
    pub fn take_next(&mut self, emitter: &[u8; 32]) -> (r: Result<u64, BridgeError>)
        ensures
            next_sequence(old(self)@, emitter@) == u64::MAX ==> r == Err::<u64, BridgeError>(
                BridgeError::NumericOverflow,
            ) && final(self)@ == old(self)@,
            next_sequence(old(self)@, emitter@) < u64::MAX ==> r == Ok::<u64, BridgeError>(
                next_sequence(old(self)@, emitter@),
            ) && counters_advanced(old(self)@, final(self)@, emitter@),
    {
        match self.find_last(emitter) {
            Some(i) => {
                let v = self.entries[i].value;
                if v == u64::MAX {
                    return Err(BridgeError::NumericOverflow);
                }
                let e = EmitterSequence { emitter: *emitter, value: v + 1 };
                let ghost before = self.entries@;
                self.entries.set(i, e);
                proof {
                    assert forall|other: Seq<u8>| other != emitter@ implies #[trigger] next_sequence(
                        self.entries@,
                        other,
                    ) == next_sequence(before, other) by {
                        lemma_update_last_match(before, i as int, e, other);
                    }
                    lemma_update_last_match(before, i as int, e, emitter@);
                }
                Ok(v)
            },
            None => {
                let e = EmitterSequence { emitter: *emitter, value: 1 };
                let ghost before = self.entries@;
                self.entries.push(e);
                proof {
                    assert forall|other: Seq<u8>| other != emitter@ implies #[trigger] next_sequence(
                        self.entries@,
                        other,
                    ) == next_sequence(before, other) by {
                        lemma_push_new(before, e, other);
                    }
                    lemma_push_new(before, e, emitter@);
                }
                Ok(0)
            },
        }
    }
}

/// Successive posts by one emitter get consecutive, strictly increasing
/// sequence numbers, and a post by one emitter leaves every other emitter's
/// counter as it was.
pub proof fn lemma_sequences_per_emitter(
    s0: Seq<EmitterSequence>,
    s1: Seq<EmitterSequence>,
    s2: Seq<EmitterSequence>,
    emitter: Seq<u8>,
    other: Seq<u8>,
)
    requires
        counters_advanced(s0, s1, emitter),
        counters_advanced(s1, s2, emitter),
    ensures
        next_sequence(s1, emitter) == next_sequence(s0, emitter) + 1,
        next_sequence(s1, emitter) > next_sequence(s0, emitter),
        next_sequence(s2, emitter) == next_sequence(s1, emitter) + 1,
        other != emitter ==> next_sequence(s2, other) == next_sequence(s0, other),
{
    if other != emitter {
        assert(next_sequence(s1, other) == next_sequence(s0, other));
        assert(next_sequence(s2, other) == next_sequence(s1, other));
    }
}

/// The hash of a message posted by `emitter` with the given fields.
pub open spec fn posted_hash(
    timestamp: u32,
    nonce: u32,
    emitter_chain: u16,
    emitter: Seq<u8>,
    sequence: u64,
    consistency_level: u8,
    payload: Seq<u8>,
) -> Seq<u8> {
    keccak256_of(
        message_preimage(timestamp, nonce, emitter_chain, emitter, sequence, consistency_level, payload),
    )
}

/// Posts a finalized draft: assigns the emitter's next sequence number and
/// computes the message hash over the now fixed body. Returns both.
pub fn post_message(
    draft: &mut DraftMessage,
    sequences: &mut EmitterSequences,
    caller: &[u8; 32],
    nonce: u32,
    consistency_level: u8,
    timestamp: u32,
    emitter_chain: u16,
) -> (r: Result<(u64, [u8; 32]), BridgeError>)
    ensures
        final(draft).payload@ == old(draft).payload@,
        final(draft).emitter_authority == old(draft).emitter_authority,
        old(draft).status != MessageStatus::Finalized ==> r == Err::<(u64, [u8; 32]), BridgeError>(
            BridgeError::MessageAlreadyPublished,
        ),
        old(draft).status == MessageStatus::Finalized && caller@ != old(draft).emitter_authority@
            ==> r == Err::<(u64, [u8; 32]), BridgeError>(BridgeError::AuthorityMismatch),
        old(draft).status == MessageStatus::Finalized && caller@ == old(draft).emitter_authority@
            && next_sequence(old(sequences)@, caller@) == u64::MAX ==> r == Err::<
            (u64, [u8; 32]),
            BridgeError,
        >(BridgeError::NumericOverflow),
        r is Ok <==> old(draft).status == MessageStatus::Finalized && caller@
            == old(draft).emitter_authority@ && next_sequence(old(sequences)@, caller@) < u64::MAX,
        r is Err ==> final(draft).status == old(draft).status && final(sequences)@ == old(
            sequences,
        )@,
        r matches Ok((seq, hash)) ==> {
            &&& seq == next_sequence(old(sequences)@, caller@)
            &&& counters_advanced(old(sequences)@, final(sequences)@, caller@)
            &&& hash@ == posted_hash(
                timestamp,
                nonce,
                emitter_chain,
                caller@,
                seq,
                consistency_level,
                old(draft).payload@,
            )
            &&& final(draft).status == MessageStatus::Published
        },
{
    if draft.status != MessageStatus::Finalized {
        return Err(BridgeError::MessageAlreadyPublished);
    }
    if !bytes_eq(caller.as_slice(), draft.emitter_authority.as_slice()) {
        return Err(BridgeError::AuthorityMismatch);
    }
    let seq = match sequences.take_next(caller) {
        Ok(s) => s,
        Err(e) => {
            return Err(e);
        },
    };
    let pre = encode_message_preimage(
        timestamp,
        nonce,
        emitter_chain,
        caller,
        seq,
        consistency_level,
        draft.payload.as_slice(),
    );
    let hash = keccak256(pre.as_slice());
    draft.status = MessageStatus::Published;
    Ok((seq, hash))
}

/// Posts a payload in one step, without a separate draft: the message is
/// finalized and posted at once. Returns the sequence number and hash.
pub fn publish(
    sequences: &mut EmitterSequences,
    emitter_authority: [u8; 32],
    payload: Vec<u8>,
    nonce: u32,
    consistency_level: u8,
    timestamp: u32,
    emitter_chain: u16,
) -> (r: Result<(u64, [u8; 32]), BridgeError>)
    ensures
        r is Ok <==> next_sequence(old(sequences)@, emitter_authority@) < u64::MAX,
        r is Err ==> r == Err::<(u64, [u8; 32]), BridgeError>(BridgeError::NumericOverflow) && final(sequences)@ == old(sequences)@,
        r matches Ok((seq, hash)) ==> {
            &&& seq == next_sequence(old(sequences)@, emitter_authority@)
            &&& counters_advanced(old(sequences)@, final(sequences)@, emitter_authority@)
            &&& hash@ == posted_hash(
                timestamp,
                nonce,
                emitter_chain,
                emitter_authority@,
                seq,
                consistency_level,
                payload@,
            )
        },
{
    let mut draft = DraftMessage { status: MessageStatus::Finalized, emitter_authority, payload };
    post_message(&mut draft, sequences, &emitter_authority, nonce, consistency_level, timestamp, emitter_chain)
}

} // verus!
