//! From keyboard interrupt to key event.
//!
//! The interrupt handler pushes each raw byte into a bounded queue and
//! never waits. The keyboard task takes the bytes out, decodes them, and
//! hands every key to the registered callbacks. Between the two stands the
//! bridge: the queue, and the one slot that says which task to wake when a
//! byte has arrived.

use vstd::prelude::*;
use crossbeam_queue::ArrayQueue;
use pc_keyboard::layouts::Us104Key;
use pc_keyboard::{DecodedKey, HandleControl, KeyCode, KeyEvent, Keyboard, ScancodeSet1};
use crate::text::push_char;
use super::{Poll, TaskId};

verus! {

/// How many bytes the queue holds.
pub const QUEUE_CAPACITY: usize = 100;

/// `crossbeam_queue::ArrayQueue`, the bounded queue, as a value that is
/// not looked into. What it holds goes by the names `queue_bytes` and
/// `queue_capacity`.
#[verifier::external_type_specification]
#[verifier::external_body]
#[verifier::reject_recursive_types(T)]
pub struct ExArrayQueue<T>(ArrayQueue<T>);

/// The bytes that wait in a queue, oldest first.
pub uninterp spec fn queue_bytes(queue: ArrayQueue<u8>) -> Seq<u8>;

/// The capacity that a queue was made with.
pub uninterp spec fn queue_capacity(queue: ArrayQueue<u8>) -> nat;

/// `ArrayQueue::new`: an empty queue of the given capacity. The call panics
/// for a capacity of zero and for one so large that its lap counter does
/// not fit the index type, which the bound here is far below.
#[verifier::external_body]
fn queue_new(capacity: usize) -> (queue: ArrayQueue<u8>)
    requires
        0 < capacity <= 0x4000_0000,
    ensures
        queue_bytes(queue) == Seq::<u8>::empty(),
        queue_capacity(queue) == capacity,
{
    ArrayQueue::new(capacity)
}

/// `ArrayQueue::push`: the byte goes to the back of the queue, unless the
/// queue is full; then the queue stays as it is and the byte comes back as
/// the error.
#[verifier::external_body]
fn queue_push(queue: &mut ArrayQueue<u8>, byte: u8) -> (pushed: Result<(), u8>)
    ensures
        queue_capacity(*final(queue)) == queue_capacity(*old(queue)),
        queue_bytes(*old(queue)).len() < queue_capacity(*old(queue)) ==> pushed is Ok
            && queue_bytes(*final(queue)) == queue_bytes(*old(queue)).push(byte),
        queue_bytes(*old(queue)).len() >= queue_capacity(*old(queue)) ==> pushed is Err
            && pushed->Err_0 == byte && queue_bytes(*final(queue)) == queue_bytes(*old(queue)),
{
    queue.push(byte)
}

/// `ArrayQueue::pop`: the oldest byte leaves the queue, or `None` comes back
/// where the queue is empty.
#[verifier::external_body]
fn queue_pop(queue: &mut ArrayQueue<u8>) -> (popped: Option<u8>)
    ensures
        queue_capacity(*final(queue)) == queue_capacity(*old(queue)),
        queue_bytes(*old(queue)).len() == 0 ==> popped is None && queue_bytes(*final(queue))
            == queue_bytes(*old(queue)),
        queue_bytes(*old(queue)).len() > 0 ==> popped == Some(queue_bytes(*old(queue))[0])
            && queue_bytes(*final(queue)) == queue_bytes(*old(queue)).drop_first(),
{
    queue.pop()
}

/// The one slot that holds whom to wake when new data is there. A new
/// registration replaces the one before: there is one consumer.
pub struct WakeupHandle {
    waiter: Option<TaskId>,
}

impl View for WakeupHandle {
    type V = Option<TaskId>;

    closed spec fn view(&self) -> Option<TaskId> {
        self.waiter
    }
}

impl WakeupHandle {
    /// A handle with nobody registered.
    pub fn new() -> (handle: WakeupHandle)
        ensures
            handle@ is None,
    {
        WakeupHandle { waiter: None }
    }

    /// Registers `task` as the one to wake; who was registered before is
    /// forgotten.
    pub fn register(&mut self, task: TaskId)
        ensures
            final(self)@ == Some(task),
    {
        self.waiter = Some(task);
    }

    /// Takes the registration out.
    pub fn take(&mut self) -> (waiter: Option<TaskId>)
        ensures
            waiter == old(self)@,
            final(self)@ is None,
    {
        let waiter = self.waiter;
        self.waiter = None;
        waiter
    }
}

/// What the bridge holds.
#[verifier::ext_equal]
pub struct BridgeState {
    /// Whether the queue has been made.
    pub initialized: bool,
    /// The bytes that wait, oldest first.
    pub bytes: Seq<u8>,
    /// How many bytes the queue takes.
    pub capacity: nat,
    /// Whom to wake when a byte arrives.
    pub waiter: Option<TaskId>,
}

impl BridgeState {
    /// The bridge after the interrupt side has offered `byte`: it is queued
    /// if there is room, and then nobody is left registered; it is dropped
    /// if there is none, or no queue.
    pub open spec fn pushed(self, byte: u8) -> BridgeState {
        if self.initialized && self.bytes.len() < self.capacity {
            BridgeState { bytes: self.bytes.push(byte), waiter: None, ..self }
        } else {
            self
        }
    }

    /// The bridge after all of `bytes` have been offered, in order.
    pub open spec fn pushed_all(self, bytes: Seq<u8>) -> BridgeState
        decreases bytes.len(),
    {
        if bytes.len() == 0 {
            self
        } else {
            self.pushed(bytes[0]).pushed_all(bytes.drop_first())
        }
    }

    /// The bridge with `task` registered as the one to wake.
    pub open spec fn registered(self, task: TaskId) -> BridgeState {
        BridgeState { waiter: Some(task), ..self }
    }

    /// Whom the interrupt side wakes when it offers a byte: the task that
    /// is registered, if the byte finds room.
    pub open spec fn woken_by_push(self) -> Option<TaskId> {
        if self.initialized && self.bytes.len() < self.capacity {
            self.waiter
        } else {
            None
        }
    }

    /// The byte that a look at the queue finds: the oldest, if one waits.
    pub open spec fn next_byte(self) -> Option<u8> {
        if self.bytes.len() > 0 {
            Some(self.bytes[0])
        } else {
            None
        }
    }

    /// The bridge after a look at the queue: the oldest byte is gone, if
    /// one waited.
    pub open spec fn popped(self) -> BridgeState {
        if self.bytes.len() > 0 {
            BridgeState { bytes: self.bytes.drop_first(), ..self }
        } else {
            self
        }
    }

    /// The bridge after `task` has been registered and the queue has been
    /// looked at once more: a byte that waited is gone, and with it the
    /// registration; where none waited, `task` stays registered.
    pub open spec fn awaited(self, task: TaskId) -> BridgeState {
        if self.bytes.len() > 0 {
            BridgeState { bytes: self.bytes.drop_first(), waiter: None, ..self }
        } else {
            BridgeState { waiter: Some(task), ..self }
        }
    }

    /// The bridge after `task` has polled it: the oldest byte is gone, or,
    /// where none waited, `task` is registered.
    pub open spec fn polled(self, task: TaskId) -> BridgeState {
        if self.bytes.len() > 0 {
            self.popped()
        } else {
            self.popped().awaited(task)
        }
    }
}

impl BridgeState {
    /// The bytes that a consumer gets from at most `polls` polls in a row,
    /// stopping at the first that finds nothing.
    pub open spec fn handed_out(self, task: TaskId, polls: nat) -> Seq<u8>
        decreases polls,
    {
        if polls == 0 || self.bytes.len() == 0 {
            Seq::empty()
        } else {
            seq![self.bytes[0]] + self.polled(task).handed_out(task, (polls - 1) as nat)
        }
    }

    /// Offering bytes adds to the queue, in their order, as many of them as
    /// there is room for, and leaves what waited before in place.
    pub proof fn lemma_pushed_all(self, bytes: Seq<u8>)
        requires
            self.initialized,
            self.bytes.len() <= self.capacity,
        ensures
            self.pushed_all(bytes).initialized,
            self.pushed_all(bytes).capacity == self.capacity,
            bytes.len() <= self.capacity - self.bytes.len() ==> self.pushed_all(bytes).bytes
                == self.bytes + bytes,
            bytes.len() > self.capacity - self.bytes.len() ==> self.pushed_all(bytes).bytes
                == self.bytes + bytes.take(self.capacity - self.bytes.len()),
        decreases bytes.len(),
    {
        if bytes.len() == 0 {
            assert(self.bytes + bytes =~= self.bytes);
        } else {
            let next = self.pushed(bytes[0]);
            let rest = bytes.drop_first();
            next.lemma_pushed_all(rest);
            let room = self.capacity - self.bytes.len();
            if room > 0 {
                assert(self.bytes.push(bytes[0]) + rest =~= self.bytes + bytes);
                if bytes.len() > room {
                    assert(self.bytes.push(bytes[0]) + rest.take(room - 1) =~= self.bytes
                        + bytes.take(room));
                }
            } else {
                assert(self.bytes + rest.take(0) =~= self.bytes + bytes.take(0));
            }
        }
    }

    /// Polling hands out what waits, oldest first.
    pub proof fn lemma_handed_out(self, task: TaskId, polls: nat)
        ensures
            polls <= self.bytes.len() ==> self.handed_out(task, polls) == self.bytes.take(
                polls as int,
            ),
            polls >= self.bytes.len() ==> self.handed_out(task, polls) == self.bytes,
        decreases polls,
    {
        if polls == 0 || self.bytes.len() == 0 {
            assert(self.bytes.take(0) =~= Seq::<u8>::empty());
            if self.bytes.len() == 0 {
                assert(self.bytes =~= Seq::<u8>::empty());
            }
        } else {
            let next = self.polled(task);
            next.lemma_handed_out(task, (polls - 1) as nat);
            if polls <= self.bytes.len() {
                assert(seq![self.bytes[0]] + next.bytes.take(polls - 1) =~= self.bytes.take(
                    polls as int,
                ));
            } else {
                assert(seq![self.bytes[0]] + next.bytes =~= self.bytes);
            }
        }
    }

    /// A byte is not slept through, whenever it arrives while a task
    /// polls the empty bridge. A poll looks at the queue, registers the
    /// task, and looks again. A byte that comes in after the first look
    /// and before the registration is handed out by the second look; one
    /// that comes in between the registration and the second look is
    /// handed out too, and wakes the task besides; one that comes in
    /// after the poll has ended wakes the task.
    pub proof fn lemma_no_lost_wakeup(self, task: TaskId, byte: u8)
        requires
            self.initialized,
            self.bytes.len() == 0,
            self.capacity > 0,
        ensures
            self.popped() == self,
            self.popped().pushed(byte).next_byte() == Some(byte),
            self.popped().pushed(byte).awaited(task).bytes.len() == 0,
            self.registered(task).woken_by_push() == Some(task),
            self.registered(task).pushed(byte).next_byte() == Some(byte),
            self.polled(task) == self.registered(task),
            self.polled(task).woken_by_push() == Some(task),
    {
        assert(self.bytes.push(byte) =~= seq![byte]);
        assert(seq![byte].drop_first() =~= Seq::<u8>::empty());
    }

    /// Bytes that fit the queue, offered to the empty bridge before any
    /// poll, reach the consumer: all of them, in the order of the pushes.
    pub proof fn lemma_delivered_in_order(self, bytes: Seq<u8>, task: TaskId)
        requires
            self.initialized,
            self.bytes.len() == 0,
            bytes.len() <= self.capacity,
        ensures
            self.pushed_all(bytes).handed_out(task, bytes.len()) == bytes,
    {
        self.lemma_pushed_all(bytes);
        self.pushed_all(bytes).lemma_handed_out(task, bytes.len());
        assert(self.bytes + bytes =~= bytes);
    }

    /// Of more bytes than the queue holds, offered to the empty bridge
    /// without a poll between, the consumer gets the first `capacity`, in
    /// the order of the pushes, and none of the rest.
    pub proof fn lemma_overflow_dropped(self, bytes: Seq<u8>, task: TaskId, polls: nat)
        requires
            self.initialized,
            self.bytes.len() == 0,
            bytes.len() > self.capacity,
            polls >= self.capacity,
        ensures
            self.pushed_all(bytes).handed_out(task, polls) == bytes.take(self.capacity as int),
    {
        self.lemma_pushed_all(bytes);
        self.pushed_all(bytes).lemma_handed_out(task, polls);
        assert(self.bytes + bytes.take(self.capacity as int) =~= bytes.take(self.capacity as int));
    }
}

/// What became of a byte that the interrupt side offered.
#[derive(Clone, Copy, Debug, PartialEq, Eq, Structural)]
pub enum PushOutcome {
    /// The byte is in the queue; the task named, if any, is to be woken.
    Queued { wake: Option<TaskId> },
    /// The queue was full: the byte is lost.
    DroppedFull,
    /// There is no queue yet: the byte is lost.
    DroppedUninitialized,
}

/// The bridge between interrupt context and the keyboard task.
pub struct ScancodeBridge {
    queue: Option<ArrayQueue<u8>>,
    waker: WakeupHandle,
}

impl View for ScancodeBridge {
    type V = BridgeState;

    closed spec fn view(&self) -> BridgeState {
        match self.queue {
            Some(queue) => BridgeState {
                initialized: true,
                bytes: queue_bytes(queue),
                capacity: queue_capacity(queue),
                waiter: self.waker@,
            },
            None => BridgeState {
                initialized: false,
                bytes: Seq::empty(),
                capacity: 0,
                waiter: self.waker@,
            },
        }
    }
}

impl ScancodeBridge {
    /// The bridge before its queue is made.
    pub fn new() -> (bridge: ScancodeBridge)
        ensures
            !bridge@.initialized,
            bridge@.bytes.len() == 0,
            bridge@.waiter is None,
    {
        ScancodeBridge { queue: None, waker: WakeupHandle::new() }
    }

    /// Whether the queue has been made.
    pub fn is_initialized(&self) -> (initialized: bool)
        ensures
            initialized == self@.initialized,
    {
        self.queue.is_some()
    }
}

/// The consumer's end of the bridge. There is one: making it makes the
/// queue, and the queue is made once.
pub struct ScancodeStream {
    _private: (),
}

impl ScancodeStream {
    /// Makes the queue of `bridge` and the stream that reads it. The queue
    /// must not have been made before.
    pub fn new(bridge: &mut ScancodeBridge) -> (stream: ScancodeStream)
        requires
            !old(bridge)@.initialized,
        ensures
            final(bridge)@ == (BridgeState {
                initialized: true,
                bytes: Seq::empty(),
                capacity: QUEUE_CAPACITY as nat,
                waiter: old(bridge)@.waiter,
            }),
    {
        bridge.queue = Some(queue_new(QUEUE_CAPACITY));
        ScancodeStream { _private: () }
    }

    /// The first look at the queue: takes the oldest byte out, if one
    /// waits. Nobody is registered by this.
    pub fn try_next(&mut self, bridge: &mut ScancodeBridge) -> (byte: Option<u8>)
        requires
            old(bridge)@.initialized,
        ensures
            byte == old(bridge)@.next_byte(),
            final(bridge)@ == old(bridge)@.popped(),
    {
        match &mut bridge.queue {
            Some(queue) => queue_pop(queue),
            None => None,
        }
    }

    /// Registers `task` as the one to wake, and only then looks at the
    /// queue once more. A byte that has come in since the first look is
    /// handed out, and the registration is taken back; where there is
    /// none, `task` stays registered and the answer is `Pending`.
    pub fn wait_for_next(&mut self, bridge: &mut ScancodeBridge, task: TaskId) -> (polled: Poll<
        Option<u8>,
    >)
        requires
            old(bridge)@.initialized,
        ensures
            final(bridge)@ == old(bridge)@.awaited(task),
            polled == (match old(bridge)@.next_byte() {
                Some(byte) => Poll::Ready(Some(byte)),
                None => Poll::Pending,
            }),
    {
        bridge.waker.register(task);
        match &mut bridge.queue {
            Some(queue) => match queue_pop(queue) {
                Some(scancode) => {
                    bridge.waker.take();
                    Poll::Ready(Some(scancode))
                },
                None => Poll::Pending,
            },
            None => Poll::Pending,
        }
    }

    /// Asks for the next byte on behalf of `task`. A byte that waits is
    /// handed out at once. Otherwise `task` is registered first and the
    /// queue is looked at once more, so that a byte that came in between is
    /// not slept through; only then is the answer `Pending`.
    pub fn poll_next(&mut self, bridge: &mut ScancodeBridge, task: TaskId) -> (polled: Poll<
        Option<u8>,
    >)
        requires
            old(bridge)@.initialized,
        ensures
            final(bridge)@ == old(bridge)@.polled(task),
            old(bridge)@.bytes.len() > 0 ==> polled == Poll::Ready(Some(old(bridge)@.bytes[0])),
            old(bridge)@.bytes.len() == 0 ==> polled == Poll::<Option<u8>>::Pending,
    {
        if let Some(scancode) = self.try_next(bridge) {
            return Poll::Ready(Some(scancode));
        }
        self.wait_for_next(bridge, task)
    }
}

/// Offers a byte from the keyboard to the bridge. Called from the interrupt
/// handler: it does not wait, and where the queue is full or not there the
/// byte is dropped.
pub fn add_scancode(bridge: &mut ScancodeBridge, scancode: u8) -> (outcome: PushOutcome)
    ensures
        final(bridge)@ == old(bridge)@.pushed(scancode),
        outcome == (if !old(bridge)@.initialized {
            PushOutcome::DroppedUninitialized
        } else if old(bridge)@.bytes.len() < old(bridge)@.capacity {
            PushOutcome::Queued { wake: old(bridge)@.woken_by_push() }
        } else {
            PushOutcome::DroppedFull
        }),
{
    match &mut bridge.queue {
        Some(queue) => {
            if queue_push(queue, scancode).is_err() {
                PushOutcome::DroppedFull
            } else {
                PushOutcome::Queued { wake: bridge.waker.take() }
            }
        },
        None => PushOutcome::DroppedUninitialized,
    }
}

/// `pc_keyboard::KeyCode`, the name of a key, carried through as it is.
#[verifier::external_type_specification]
#[verifier::external_body]
pub struct ExKeyCode(KeyCode);

/// `pc_keyboard::KeyEvent`, a key going down or up, carried from one call
/// of the decoder to the next.
#[verifier::external_type_specification]
#[verifier::external_body]
pub struct ExKeyEvent(KeyEvent);

/// `pc_keyboard::Error`, the decoder's complaint about a byte.
#[verifier::external_type_specification]
#[verifier::external_body]
pub struct ExDecodeError(pc_keyboard::Error);

/// A decoded key: a character, or the code of a key that stands for none.
#[derive(Clone, Copy, Debug, PartialEq, Eq)]
pub enum Key {
    Unicode(char),
    RawKey(KeyCode),
}

/// The decoder of the keyboard's byte stream, a `pc_keyboard::Keyboard`
/// for scancode set 1 and the US layout with 104 keys, with control keys
/// passed through. One key event may take several bytes, so the decoder
/// keeps state between them; that state is not looked into here.
#[verifier::external_body]
pub struct KeyDecoder {
    keyboard: Keyboard<Us104Key, ScancodeSet1>,
}

/// `Keyboard::new`, for scancode set 1, the US layout and control keys that
/// are not mapped.
#[verifier::external_body]
fn decoder_new() -> (decoder: KeyDecoder) {
    KeyDecoder { keyboard: Keyboard::new(ScancodeSet1::new(), Us104Key, HandleControl::Ignore) }
}

/// What a decoder answers to a byte: a key event that the byte completes,
/// the news that the key takes more bytes, or a complaint about the byte.
pub uninterp spec fn byte_answer(decoder: KeyDecoder, byte: u8) -> Result<
    Option<KeyEvent>,
    pc_keyboard::Error,
>;

/// The decoder after it has been fed a byte.
pub uninterp spec fn decoder_after_byte(decoder: KeyDecoder, byte: u8) -> KeyDecoder;

/// The key that a decoder makes of a key event, by its layout and the
/// modifier keys that are held.
pub uninterp spec fn event_key(decoder: KeyDecoder, event: KeyEvent) -> Option<Key>;

/// The decoder after it has made a key of a key event.
pub uninterp spec fn decoder_after_event(decoder: KeyDecoder, event: KeyEvent) -> KeyDecoder;

/// The name of a key code, as `Debug` writes it.
pub uninterp spec fn key_code_text(code: KeyCode) -> Seq<char>;

/// `Keyboard::add_byte`: feeds one byte to the decoder. The answer and the
/// decoder afterwards depend on the decoder and the byte alone; they go
/// by the names `byte_answer` and `decoder_after_byte`.
#[verifier::external_body]
fn decoder_add_byte(decoder: &mut KeyDecoder, byte: u8) -> (event: Result<
    Option<KeyEvent>,
    pc_keyboard::Error,
>)
    ensures
        event == byte_answer(*old(decoder), byte),
        *final(decoder) == decoder_after_byte(*old(decoder), byte),
{
    decoder.keyboard.add_byte(byte)
}

/// `Keyboard::process_keyevent`: turns a key event into a key, by the
/// layout and the modifier keys held. The key and the decoder afterwards
/// depend on the decoder and the event alone; they go by the names
/// `event_key` and `decoder_after_event`.
#[verifier::external_body]
fn decoder_process(decoder: &mut KeyDecoder, event: KeyEvent) -> (key: Option<Key>)
    ensures
        key == event_key(*old(decoder), event),
        *final(decoder) == decoder_after_event(*old(decoder), event),
{
    match decoder.keyboard.process_keyevent(event) {
        Some(DecodedKey::Unicode(c)) => Some(Key::Unicode(c)),
        Some(DecodedKey::RawKey(code)) => Some(Key::RawKey(code)),
        None => None,
    }
}

/// The name of a key code, as the derived `Debug` of `KeyCode` writes it;
/// it goes by the name `key_code_text`.
#[verifier::external_body]
fn key_code_name(code: KeyCode) -> (name: String)
    ensures
        name@ == key_code_text(code),
{
    format!("{:?}", code)
}

/// What feeding a byte to a decoder gives: the key, if the byte completes
/// a key event of which the decoder makes a key, and the decoder
/// afterwards. A byte that the decoder rejects, or that leaves a key
/// unfinished, gives no key.
pub open spec fn decoded(decoder: KeyDecoder, byte: u8) -> (Option<Key>, KeyDecoder) {
    let fed = decoder_after_byte(decoder, byte);
    match byte_answer(decoder, byte) {
        Ok(Some(event)) => (event_key(fed, event), decoder_after_event(fed, event)),
        _ => (None, fed),
    }
}

/// The keys that feeding `bytes` to a decoder gives, one byte after the
/// other, in their order.
pub open spec fn keys_of(decoder: KeyDecoder, bytes: Seq<u8>) -> Seq<Key>
    decreases bytes.len(),
{
    if bytes.len() == 0 {
        Seq::empty()
    } else {
        let (key, next) = decoded(decoder, bytes[0]);
        let first = match key {
            Some(key) => seq![key],
            None => Seq::empty(),
        };
        first + keys_of(next, bytes.drop_first())
    }
}

/// The decoder after `bytes` have been fed to it, one after the other.
pub open spec fn decoder_after(decoder: KeyDecoder, bytes: Seq<u8>) -> KeyDecoder
    decreases bytes.len(),
{
    if bytes.len() == 0 {
        decoder
    } else {
        decoder_after(decoded(decoder, bytes[0]).1, bytes.drop_first())
    }
}

/// What is written for a key when keys are echoed: the character itself,
/// or the name of the key.
pub open spec fn key_text_of(key: Key) -> Seq<char> {
    match key {
        Key::Unicode(c) => seq![c],
        Key::RawKey(code) => key_code_text(code),
    }
}

impl KeyDecoder {
    /// Feeds one byte; gives the key that it completes, if the decoder
    /// says that it completes one: see `completed` for when it does not.
    pub fn decode(&mut self, scancode: u8) -> (key: Option<Key>)
        ensures
            key == decoded(*old(self), scancode).0,
            *final(self) == decoded(*old(self), scancode).1,
    {
        match Self::completed(decoder_add_byte(self, scancode)) {
            Some(event) => decoder_process(self, event),
            None => None,
        }
    }

    /// The key event that a byte has completed, from what the decoder
    /// answered to the byte: the event where it answered with one, and
    /// none where it answered that the key takes more bytes, or that the
    /// byte was wrong. Only such an event goes on to become a key.
    pub fn completed(answer: Result<Option<KeyEvent>, pc_keyboard::Error>) -> (event: Option<
        KeyEvent,
    >)
        ensures
            event == (match answer {
                Ok(Some(found)) => Some(found),
                _ => None,
            }),
    {
        match answer {
            Ok(Some(found)) => Some(found),
            _ => None,
        }
    }
}

/// What is written for a key when keys are echoed: the character itself,
/// or the name of the key.
pub fn key_text(key: Key) -> (text: String)
    ensures
        text@ == key_text_of(key),
{
    match key {
        Key::Unicode(c) => {
            let mut text = String::new();
            push_char(&mut text, c);
            text
        },
        Key::RawKey(code) => key_code_name(code),
    }
}

/// The callbacks that are called for every key, in the order in which they
/// were registered. None is ever taken out.
pub struct KeyCallbacks<F> {
    callbacks: Vec<F>,
}

impl<F> View for KeyCallbacks<F> {
    type V = Seq<F>;

    closed spec fn view(&self) -> Seq<F> {
        self.callbacks@
    }
}

impl<F> KeyCallbacks<F> {
    /// No callbacks.
    pub fn new() -> (registry: KeyCallbacks<F>)
        ensures
            registry@.len() == 0,
    {
        KeyCallbacks { callbacks: Vec::new() }
    }
}

/// Adds `callback` behind those that are registered.
pub fn register_key_callback<F>(registry: &mut KeyCallbacks<F>, callback: F)
    ensures
        final(registry)@ == old(registry)@.push(callback),
{
    registry.callbacks.push(callback);
}

/// Calls every registered callback with `key`, in the order of
/// registration, and gives what they returned in that order.
pub fn dispatch_key_event<R, F: Fn(Key) -> R>(registry: &KeyCallbacks<F>, key: Key) -> (results:
    Vec<R>)
    requires
        forall|i: int| 0 <= i < registry@.len() ==> call_requires(registry@[i], (key,)),
    ensures
        results@.len() == registry@.len(),
        forall|i: int|
            0 <= i < registry@.len() ==> call_ensures(registry@[i], (key,), #[trigger] results@[i]),
{
    let mut results: Vec<R> = Vec::new();
    let mut i: usize = 0;
    while i < registry.callbacks.len()
        invariant
            i <= registry@.len(),
            results@.len() == i,
            forall|j: int| 0 <= j < registry@.len() ==> call_requires(registry@[j], (key,)),
            forall|j: int|
                0 <= j < i ==> call_ensures(registry@[j], (key,), #[trigger] results@[j]),
        decreases registry@.len() - i,
    {
        let result = (registry.callbacks[i])(key);
        results.push(result);
        i = i + 1;
    }
    results
}

/// What one key led to.
pub struct KeyOutput<R> {
    /// The key.
    pub key: Key,
    /// What is to be written for it, where keys are echoed.
    pub echo: Option<String>,
    /// What the callbacks returned, in the order of their registration.
    pub results: Vec<R>,
}

/// The keyboard task: it reads the bridge, decodes, and calls the
/// callbacks for every key.
pub struct KeyboardTask {
    scancodes: ScancodeStream,
    keyboard: KeyDecoder,
    echo: bool,
}

/// The keys of `outputs`, in their order.
pub open spec fn output_keys<R>(outputs: Seq<KeyOutput<R>>) -> Seq<Key> {
    outputs.map_values(|output: KeyOutput<R>| output.key)
}

/// `output` is what its key leads to with these callbacks: the text of the
/// key where keys are echoed, and what each callback returned for it.
pub open spec fn is_output_of<R, F: Fn(Key) -> R>(
    output: KeyOutput<R>,
    callbacks: Seq<F>,
    echo: bool,
) -> bool {
    &&& output.echo is Some == echo
    &&& (echo ==> output.echo->Some_0@ == key_text_of(output.key))
    &&& output.results@.len() == callbacks.len()
    &&& forall|i: int|
        0 <= i < callbacks.len() ==> call_ensures(
            callbacks[i],
            (output.key,),
            #[trigger] output.results@[i],
        )
}

/// Makes the keyboard task, and with it the queue of `bridge`, which must
/// not have been made before. The task calls the callbacks for each key
/// and writes nothing itself.
pub fn init(bridge: &mut ScancodeBridge) -> (task: KeyboardTask)
    requires
        !old(bridge)@.initialized,
    ensures
        !task.echoes(),
        final(bridge)@ == (BridgeState {
            initialized: true,
            bytes: Seq::empty(),
            capacity: QUEUE_CAPACITY as nat,
            waiter: old(bridge)@.waiter,
        }),
{
    let scancodes = ScancodeStream::new(bridge);
    KeyboardTask { scancodes, keyboard: decoder_new(), echo: false }
}

/// As `init`, for a task that also hands back, with every key, the text
/// that is to be written for it. Nothing is written here: the caller
/// writes the text of a key, and then does what the callbacks have asked
/// for that key.
pub fn print_keypresses(bridge: &mut ScancodeBridge) -> (task: KeyboardTask)
    requires
        !old(bridge)@.initialized,
    ensures
        task.echoes(),
        final(bridge)@ == (BridgeState {
            initialized: true,
            bytes: Seq::empty(),
            capacity: QUEUE_CAPACITY as nat,
            waiter: old(bridge)@.waiter,
        }),
{
    let scancodes = ScancodeStream::new(bridge);
    KeyboardTask { scancodes, keyboard: decoder_new(), echo: true }
}

impl KeyboardTask {
    /// Whether the task hands back the text of its keys.
    pub closed spec fn echoes(&self) -> bool {
        self.echo
    }

    /// The decoder of the task.
    pub closed spec fn decoder(&self) -> KeyDecoder {
        self.keyboard
    }

    /// Polls the task on behalf of `id`: every byte that waits is decoded,
    /// and for every key that this gives, in the order of the bytes, the
    /// callbacks are called, in the order of registration. When no byte is
    /// left the task is registered with the bridge and waits.
    pub fn poll<R, F: Fn(Key) -> R>(
        &mut self,
        bridge: &mut ScancodeBridge,
        id: TaskId,
        callbacks: &KeyCallbacks<F>,
    ) -> (polled: (Poll<()>, Vec<KeyOutput<R>>))
        requires
            old(bridge)@.initialized,
            forall|key: Key, i: int|
                0 <= i < callbacks@.len() ==> #[trigger] call_requires(callbacks@[i], (key,)),
        ensures
            polled.0 == Poll::<()>::Pending,
            final(self).echoes() == old(self).echoes(),
            final(bridge)@ == (BridgeState {
                bytes: Seq::empty(),
                waiter: Some(id),
                ..old(bridge)@
            }),
            output_keys(polled.1@) == keys_of(old(self).decoder(), old(bridge)@.bytes),
            final(self).decoder() == decoder_after(old(self).decoder(), old(bridge)@.bytes),
            polled.1@.len() <= old(bridge)@.bytes.len(),
            forall|k: int|
                0 <= k < polled.1@.len() ==> is_output_of(
                    #[trigger] polled.1@[k],
                    callbacks@,
                    old(self).echoes(),
                ),
    {
        let mut outputs: Vec<KeyOutput<R>> = Vec::new();
        proof {
            assert(output_keys(outputs@) + keys_of(self.keyboard, bridge@.bytes) =~= keys_of(
                self.keyboard,
                bridge@.bytes,
            ));
        }
        loop
            invariant
                bridge@.initialized,
                old(bridge)@.initialized,
                self.echo == old(self).echo,
                bridge@.capacity == old(bridge)@.capacity,
                bridge@.bytes.len() > 0 ==> bridge@.waiter == old(bridge)@.waiter,
                outputs@.len() + bridge@.bytes.len() <= old(bridge)@.bytes.len(),
                keys_of(old(self).decoder(), old(bridge)@.bytes) == output_keys(outputs@) + keys_of(
                    self.keyboard,
                    bridge@.bytes,
                ),
                decoder_after(old(self).decoder(), old(bridge)@.bytes) == decoder_after(
                    self.keyboard,
                    bridge@.bytes,
                ),
                forall|key: Key, i: int|
                    0 <= i < callbacks@.len() ==> #[trigger] call_requires(callbacks@[i], (key,)),
                forall|k: int|
                    0 <= k < outputs@.len() ==> is_output_of(
                        #[trigger] outputs@[k],
                        callbacks@,
                        self.echo,
                    ),
            decreases bridge@.bytes.len(),
        {
            let ghost waiting = bridge@.bytes;
            let ghost before = self.keyboard;
            let ghost done = outputs@;
            match self.scancodes.poll_next(bridge, id) {
                Poll::Ready(Some(scancode)) => {
                    if let Some(key) = self.keyboard.decode(scancode) {
                        let echo = if self.echo {
                            Some(key_text(key))
                        } else {
                            None
                        };
                        let results = dispatch_key_event(callbacks, key);
                        outputs.push(KeyOutput { key, echo, results });
                        proof {
                            assert(output_keys(outputs@) =~= output_keys(done).push(key));
                        }
                    }
                    proof {
                        let first = match decoded(before, waiting[0]).0 {
                            Some(key) => seq![key],
                            None => Seq::<Key>::empty(),
                        };
                        assert(output_keys(outputs@) =~= output_keys(done) + first);
                        assert(output_keys(done) + (first + keys_of(self.keyboard, bridge@.bytes))
                            =~= (output_keys(done) + first) + keys_of(
                            self.keyboard,
                            bridge@.bytes,
                        ));
                    }
                },
                Poll::Ready(None) => {
                    return (Poll::Ready(()), outputs);
                },
                Poll::Pending => {
                    assert(output_keys(outputs@) + keys_of(self.keyboard, bridge@.bytes)
                        =~= output_keys(outputs@));
                    assert(bridge@ =~= (BridgeState {
                        bytes: Seq::empty(),
                        waiter: Some(id),
                        ..old(bridge)@
                    }));
                    return (Poll::Pending, outputs);
                },
            }
        }
    }
}

} // verus!
