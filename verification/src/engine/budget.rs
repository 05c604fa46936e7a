//! Quotas for platform messages that the engine hands to the embedder, and
//! the pool of cleared buffers that decoded messages reuse.

use vstd::prelude::*;
use crate::text::{lossy_string, utf8_lossy};

verus! {

/// Largest payload accepted from one platform message.
pub const MAX_PLATFORM_MESSAGE_BYTES: usize = 4194304;

/// Largest number of payload and channel bytes held by undelivered messages.
pub const MAX_IN_FLIGHT_PLATFORM_MESSAGE_BYTES: usize = 16777216;

/// Largest number of undelivered messages.
pub const MAX_IN_FLIGHT_PLATFORM_MESSAGES: usize = 256;

/// Longest channel name read from the engine.
pub const MAX_PLATFORM_CHANNEL_BYTES: usize = 1024;

/// A payload pointer and length are usable: the length is within the cap and
/// a null pointer comes only with an empty payload.
pub open spec fn spec_valid_payload_length(is_null: bool, length: usize) -> bool {
    length <= MAX_PLATFORM_MESSAGE_BYTES && !(is_null && length != 0)
}

pub fn valid_platform_payload_length(is_null: bool, length: usize) -> (r: Option<()>)
    ensures
        r is Some <==> spec_valid_payload_length(is_null, length),
{
    if length > MAX_PLATFORM_MESSAGE_BYTES || (is_null && length != 0) {
        None
    } else {
        Some(())
    }
}

/// Calls `String::clear`: the string becomes empty.
#[verifier::external_body]
fn clear_string(s: &mut String)
    ensures
        final(s)@ == Seq::<char>::empty(),
{
    s.clear();
}

/// Calls `String::push_str`: `t` is appended.
#[verifier::external_body]
fn append_str(s: &mut String, t: &str)
    ensures
        final(s)@ == old(s)@ + t@,
{
    s.push_str(t);
}

/// Calls `String::capacity`; the allocator decides the value.
#[verifier::external_body]
fn string_capacity(s: &String) -> (r: usize) {
    s.capacity()
}

/// Calls `Vec::capacity`; the allocator decides the value.
#[verifier::external_body]
fn bytes_capacity(v: &Vec<u8>) -> (r: usize) {
    v.capacity()
}

/// Calls `Vec::try_reserve_exact`: `true` when room for `additional` more
/// bytes was reserved. The contents are unchanged either way.
#[verifier::external_body]
fn reserve_exact(v: &mut Vec<u8>, additional: usize) -> (r: bool)
    ensures
        final(v)@ == old(v)@,
{
    v.try_reserve_exact(additional).is_ok()
}

/// Both the channel and the payload were read and their lengths sum
/// without overflow.
pub open spec fn decodable(channel: Option<&[u8]>, payload: Option<&[u8]>) -> bool {
    match (channel, payload) {
        (Some(c), Some(p)) => c@.len() + p@.len() <= usize::MAX,
        _ => false,
    }
}

/// What a message is charged: the channel's and payload's lengths when it
/// can be decoded, else nothing.
pub open spec fn message_charge(channel: Option<&[u8]>, payload: Option<&[u8]>) -> nat {
    match (channel, payload) {
        (Some(c), Some(p)) => if c@.len() + p@.len() <= usize::MAX {
            c@.len() + p@.len()
        } else {
            0
        },
        _ => 0,
    }
}

/// One message's share of the in-flight quotas.
///
/// A permit has no destructor: its share stays charged until the permit is
/// handed back to `PlatformMessageBudget::release_permit`, so every permit
/// must be released exactly once.
#[derive(Debug)]
pub struct PlatformMessageBudgetPermit {
    bytes: usize,
}

impl PlatformMessageBudgetPermit {
    pub closed spec fn spec_bytes(&self) -> nat {
        self.bytes as nat
    }

    pub fn bytes(&self) -> (r: usize)
        ensures
            r == self.spec_bytes(),
    {
        self.bytes
    }
}

/// A platform message: its channel, payload and one-shot response handle,
/// with the quota share that it holds until it is released.
///
/// A message has no destructor: its buffers return to the pool and its share
/// to the quotas only when it is handed to
/// `PlatformMessageBudget::release_message`, which every holder must do once
/// the message has been delivered.
#[derive(Debug)]
pub struct PlatformMessage {
    pub channel: String,
    pub data: Vec<u8>,
    response_handle: usize,
    budget: PlatformMessageBudgetPermit,
}

impl PlatformMessage {
    pub closed spec fn spec_response_handle(&self) -> usize {
        self.response_handle
    }

    pub closed spec fn spec_channel(&self) -> Seq<char> {
        self.channel@
    }

    pub closed spec fn spec_data(&self) -> Seq<u8> {
        self.data@
    }

    pub closed spec fn permit_bytes(&self) -> nat {
        self.budget.bytes as nat
    }

    /// Hands out the response handle once: later calls give zero.
    pub fn take_response_handle(&mut self) -> (r: usize)
        ensures
            r == old(self).spec_response_handle(),
            final(self).spec_response_handle() == 0,
            final(self).spec_channel() == old(self).spec_channel(),
            final(self).spec_data() == old(self).spec_data(),
            final(self).permit_bytes() == old(self).permit_bytes(),
    {
        let handle = self.response_handle;
        self.response_handle = 0;
        handle
    }

    pub fn permit_size(&self) -> (r: usize)
        ensures
            r == self.permit_bytes(),
    {
        self.budget.bytes
    }
}

/// The counters of a budget: messages and bytes in flight, cleared buffers
/// pooled and the bytes that the pool retains.
pub struct BudgetView {
    pub messages: nat,
    pub bytes: nat,
    pub pooled: nat,
    pub retained: nat,
}

/// The counters after offering the pool two cleared buffers that retain
/// `held` bytes: they are pooled when there is room for one more entry and
/// the retained total stays within the byte cap.
pub open spec fn pooled(v: BudgetView, held: usize) -> BudgetView {
    if v.pooled < MAX_IN_FLIGHT_PLATFORM_MESSAGES && v.retained + held
        <= MAX_IN_FLIGHT_PLATFORM_MESSAGE_BYTES {
        BudgetView { pooled: v.pooled + 1, retained: v.retained + held as nat, ..v }
    } else {
        v
    }
}

/// Quotas on undelivered platform messages and a bounded pool of cleared
/// channel and payload buffers.
#[derive(Debug)]
pub struct PlatformMessageBudget {
    messages: usize,
    bytes: usize,
    entries: Vec<(String, Vec<u8>)>,
    retained_bytes: usize,
}

impl View for PlatformMessageBudget {
    type V = BudgetView;

    closed spec fn view(&self) -> BudgetView {
        BudgetView {
            messages: self.messages as nat,
            bytes: self.bytes as nat,
            pooled: self.entries@.len(),
            retained: self.retained_bytes as nat,
        }
    }
}

impl Default for PlatformMessageBudget {
    fn default() -> (r: Self)
        ensures
            r.wf(),
            r@ == (BudgetView { messages: 0, bytes: 0, pooled: 0, retained: 0 }),
    {
        PlatformMessageBudget::new()
    }
}

impl PlatformMessageBudget {
    /// The quotas hold and every pooled buffer is empty.
    pub closed spec fn wf(&self) -> bool {
        &&& self.messages <= MAX_IN_FLIGHT_PLATFORM_MESSAGES
        &&& self.bytes <= MAX_IN_FLIGHT_PLATFORM_MESSAGE_BYTES
        &&& self.entries@.len() <= MAX_IN_FLIGHT_PLATFORM_MESSAGES
        &&& self.retained_bytes <= MAX_IN_FLIGHT_PLATFORM_MESSAGE_BYTES
        &&& forall|i: int|
            0 <= i < self.entries@.len() ==> (#[trigger] self.entries@[i]).0@.len() == 0
                && self.entries@[i].1@.len() == 0
    }

    pub fn new() -> (r: Self)
        ensures
            r.wf(),
            r@ == (BudgetView { messages: 0, bytes: 0, pooled: 0, retained: 0 }),
    {
        PlatformMessageBudget { messages: 0, bytes: 0, entries: Vec::new(), retained_bytes: 0 }
    }

    pub fn in_flight_messages(&self) -> (r: usize)
        ensures
            r == self@.messages,
    {
        self.messages
    }

    pub fn in_flight_bytes(&self) -> (r: usize)
        ensures
            r == self@.bytes,
    {
        self.bytes
    }

    /// Takes a share of `bytes` when the message count and the byte total
    /// both stay within their caps; otherwise nothing changes.
    pub fn try_acquire(&mut self, bytes: usize) -> (r: Option<PlatformMessageBudgetPermit>)
        requires
            old(self).wf(),
        ensures
            final(self).wf(),
            r is Some <==> bytes <= MAX_IN_FLIGHT_PLATFORM_MESSAGE_BYTES && old(self)@.messages
                < MAX_IN_FLIGHT_PLATFORM_MESSAGES && old(self)@.bytes + bytes
                <= MAX_IN_FLIGHT_PLATFORM_MESSAGE_BYTES,
            r matches Some(p) ==> p.spec_bytes() == bytes && final(self)@ == (BudgetView {
                messages: old(self)@.messages + 1,
                bytes: old(self)@.bytes + bytes as nat,
                ..old(self)@
            }),
            r is None ==> final(self)@ == old(self)@,
    {
        if bytes > MAX_IN_FLIGHT_PLATFORM_MESSAGE_BYTES {
            return None;
        }
        if self.messages >= MAX_IN_FLIGHT_PLATFORM_MESSAGES {
            return None;
        }
        if bytes > MAX_IN_FLIGHT_PLATFORM_MESSAGE_BYTES - self.bytes {
            return None;
        }
        self.messages = self.messages + 1;
        self.bytes = self.bytes + bytes;
        Some(PlatformMessageBudgetPermit { bytes })
    }

    /// Returns a permit's share to the quotas.
    pub fn release_permit(&mut self, permit: PlatformMessageBudgetPermit)
        requires
            old(self).wf(),
            old(self)@.messages >= 1,
            old(self)@.bytes >= permit.spec_bytes(),
        ensures
            final(self).wf(),
            final(self)@ == (BudgetView {
                messages: (old(self)@.messages - 1) as nat,
                bytes: (old(self)@.bytes - permit.spec_bytes()) as nat,
                ..old(self)@
            }),
    {
        self.bytes = self.bytes - permit.bytes;
        self.messages = self.messages - 1;
    }

    /// Takes the most recently pooled buffers, or fresh empty ones when the
    /// pool is empty.
    pub fn acquire_storage(&mut self) -> (r: (String, Vec<u8>))
        requires
            old(self).wf(),
        ensures
            final(self).wf(),
            r.0@.len() == 0 && r.1@.len() == 0,
            final(self)@.messages == old(self)@.messages,
            final(self)@.bytes == old(self)@.bytes,
            final(self)@.pooled == if old(self)@.pooled > 0 {
                (old(self)@.pooled - 1) as nat
            } else {
                0
            },
            final(self)@.retained <= old(self)@.retained,
    {
        match self.entries.pop() {
            None => (String::new(), Vec::new()),
            Some(entry) => {
                let (channel, payload) = entry;
                let held = string_capacity(&channel).saturating_add(bytes_capacity(&payload));
                self.retained_bytes = self.retained_bytes.saturating_sub(held);
                proof {
                    let n = old(self).entries@.len();
                    assert(old(self).entries@[n - 1] == entry);
                    assert forall|i: int| 0 <= i < self.entries@.len() implies (
                    #[trigger] self.entries@[i]).0@.len() == 0 && self.entries@[i].1@.len() == 0 by {
                        assert(self.entries@[i] == old(self).entries@[i]);
                    }
                }
                (channel, payload)
            },
        }
    }

    /// Clears two buffers and pools them, unless the pool is full or would
    /// retain more than the byte cap; then they are dropped. The buffers'
    /// capacities, which the allocator decides, are what they retain: the
    /// counters end as `pooled` gives for that amount.
    pub fn release_storage(&mut self, channel: String, payload: Vec<u8>)
        requires
            old(self).wf(),
        ensures
            final(self).wf(),
            exists|held: usize| final(self)@ == #[trigger] pooled(old(self)@, held),
            old(self)@.pooled >= MAX_IN_FLIGHT_PLATFORM_MESSAGES ==> final(self)@ == old(self)@,
    {
        let mut channel = channel;
        let mut payload = payload;
        clear_string(&mut channel);
        payload.clear();
        let held = string_capacity(&channel).saturating_add(bytes_capacity(&payload));
        self.pool_cleared_buffers(channel, payload, held);
    }

    /// Pools two cleared buffers that retain `held` bytes, when the pool has
    /// room for one more entry and the retained total stays within the byte
    /// cap; otherwise drops them.
    pub fn pool_cleared_buffers(&mut self, channel: String, payload: Vec<u8>, held: usize)
        requires
            old(self).wf(),
            channel@.len() == 0,
            payload@.len() == 0,
        ensures
            final(self).wf(),
            final(self)@ == pooled(old(self)@, held),
    {
        let next_retained = match self.retained_bytes.checked_add(held) {
            Some(n) => n,
            None => return ,
        };
        if self.entries.len() >= MAX_IN_FLIGHT_PLATFORM_MESSAGES || next_retained
            > MAX_IN_FLIGHT_PLATFORM_MESSAGE_BYTES {
            return ;
        }
        let ghost before = self.entries@;
        self.entries.push((channel, payload));
        self.retained_bytes = next_retained;
        proof {
            assert forall|i: int| 0 <= i < self.entries@.len() implies (
            #[trigger] self.entries@[i]).0@.len() == 0 && self.entries@[i].1@.len() == 0 by {
                if i < before.len() {
                    assert(self.entries@[i] == before[i]);
                }
            }
        }
    }

    /// Gives a delivered message's buffers back to the pool and its share
    /// back to the quotas.
    pub fn release_message(&mut self, message: PlatformMessage)
        requires
            old(self).wf(),
            old(self)@.messages >= 1,
            old(self)@.bytes >= message.permit_bytes(),
        ensures
            final(self).wf(),
            final(self)@.messages == old(self)@.messages - 1,
            final(self)@.bytes == old(self)@.bytes - message.permit_bytes(),
    {
        let PlatformMessage { channel, data, response_handle: _, budget } = message;
        self.release_storage(channel, data);
        self.release_permit(budget);
    }

    /// Builds the message for an engine callback. `channel` is the channel
    /// name's bytes when it could be read within its cap, and `payload` the
    /// payload when its pointer and length passed
    /// `valid_platform_payload_length`. The message is charged the channel's
    /// and payload's lengths, or nothing when either is missing; when the
    /// quota refuses it, there is no message. A message that could not be
    /// decoded keeps its response handle and has an empty channel and
    /// payload. A decodable message with an empty payload always carries its
    /// channel; one with a payload carries both, or neither when the payload's
    /// buffer could not be reserved.
    pub fn receive(
        &mut self,
        channel: Option<&[u8]>,
        payload: Option<&[u8]>,
        response_handle: usize,
    ) -> (r: Option<PlatformMessage>)
        requires
            old(self).wf(),
            payload matches Some(p) ==> p@.len() <= MAX_PLATFORM_MESSAGE_BYTES,
        ensures
            final(self).wf(),
            ({
                let charge: nat = message_charge(channel, payload);
                &&& r is Some <==> old(self)@.messages < MAX_IN_FLIGHT_PLATFORM_MESSAGES
                    && old(self)@.bytes + charge <= MAX_IN_FLIGHT_PLATFORM_MESSAGE_BYTES
                &&& r is None ==> final(self)@ == old(self)@
                &&& r matches Some(m) ==> {
                    &&& m.spec_response_handle() == response_handle
                    &&& m.permit_bytes() == charge
                    &&& final(self)@.messages == old(self)@.messages + 1
                    &&& final(self)@.bytes == old(self)@.bytes + charge
                    &&& (m.spec_channel().len() == 0 && m.spec_data().len() == 0) || (channel matches Some(
                        c,
                    ) && payload matches Some(p) && m.spec_channel() == utf8_lossy(c@) && m.spec_data()
                        == p@)
                    &&& !decodable(channel, payload) ==> m.spec_channel().len() == 0
                        && m.spec_data().len() == 0
                    &&& decodable(channel, payload) && payload->0@.len() == 0 ==> m.spec_channel()
                        == utf8_lossy(channel->0@) && m.spec_data().len() == 0
                }
            }),
    {
        let size: Option<usize> = match (channel, payload) {
            (Some(c), Some(p)) => c.len().checked_add(p.len()),
            _ => None,
        };
        let charge: usize = match size {
            Some(n) => n,
            None => 0,
        };
        let budget = match self.try_acquire(charge) {
            Some(permit) => permit,
            None => return None,
        };
        let (mut decoded_channel, mut data) = self.acquire_storage();
        let mut decoded = false;
        if let (Some(c), Some(p), Some(_)) = (channel, payload, size) {
            clear_string(&mut decoded_channel);
            let text = lossy_string(c);
            append_str(&mut decoded_channel, text.as_str());
            data.clear();
            if p.len() == 0 || reserve_exact(&mut data, p.len()) {
                let mut i: usize = 0;
                while i < p.len()
                    invariant
                        i <= p@.len(),
                        data@ == p@.take(i as int),
                    decreases p@.len() - i,
                {
                    data.push(p[i]);
                    proof {
                        assert(p@.take(i + 1) =~= p@.take(i as int).push(p@[i as int]));
                    }
                    i += 1;
                }
                assert(p@.take(p@.len() as int) =~= p@);
                decoded = true;
            }
        }
        if !decoded {
            clear_string(&mut decoded_channel);
            data.clear();
        }
        Some(PlatformMessage { channel: decoded_channel, data, response_handle, budget })
    }
}

/// Every budget that the operations above produce keeps undelivered
/// messages within the message and byte caps, and its pool within the
/// same caps.
pub proof fn law_budget_stays_within_caps(budget: PlatformMessageBudget)
    requires
        budget.wf(),
    ensures
        budget@.messages <= MAX_IN_FLIGHT_PLATFORM_MESSAGES,
        budget@.bytes <= MAX_IN_FLIGHT_PLATFORM_MESSAGE_BYTES,
        budget@.pooled <= MAX_IN_FLIGHT_PLATFORM_MESSAGES,
        budget@.retained <= MAX_IN_FLIGHT_PLATFORM_MESSAGE_BYTES,
{
}

} // verus!
