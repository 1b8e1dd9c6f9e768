//! The state word of a mutex.

use vstd::prelude::*;

verus! {

/// The bit that is set while some thread holds the mutex.
pub const MUTEX_LOCK: usize = 1;

/// The bit that is set while some thread takes a waiter off the queue.
pub const QUEUE_LOCK: usize = 2;

/// The bits that hold the address of the first waiter's node.
pub const QUEUE_MASK: usize = !(MUTEX_LOCK | QUEUE_LOCK);

/// Whether the mutex is held.
pub open spec fn is_locked(word: usize) -> bool {
    word % 2 == 1
}

/// Whether the queue is being popped.
pub open spec fn is_queue_locked(word: usize) -> bool {
    (word / 2) % 2 == 1
}

/// The address of the first waiter's node, 0 when nobody waits.
pub open spec fn head_of(word: usize) -> usize {
    (word - word % 4) as usize
}

/// Whether a node may live at this address: the two low bits are free for the flags.
pub open spec fn is_node_address(address: usize) -> bool {
    address != 0 && address % 4 == 0
}

/// The word that holds the given flags and the given head.
pub open spec fn pack(locked: bool, queue_locked: bool, head: usize) -> int {
    head + (if queue_locked { 2int } else { 0int }) + (if locked { 1int } else { 0int })
}

/// A word is its two flags and its head, and nothing else.
pub proof fn law_pack_unpack(word: usize)
    ensures
        pack(is_locked(word), is_queue_locked(word), head_of(word)) == word,
        head_of(word) % 4 == 0,
{
}

/// What is packed into a word is read back from it.
pub proof fn law_unpack_pack(locked: bool, queue_locked: bool, head: usize)
    requires
        head % 4 == 0,
    ensures
        0 <= pack(locked, queue_locked, head) <= usize::MAX,
        is_locked(pack(locked, queue_locked, head) as usize) == locked,
        is_queue_locked(pack(locked, queue_locked, head) as usize) == queue_locked,
        head_of(pack(locked, queue_locked, head) as usize) == head,
{
    lemma_aligned_has_room(head);
}

/// The flags of a word are its two low bits, and the head is all the others.
pub proof fn law_word_is_its_bits(word: usize)
    ensures
        is_locked(word) == (word & 1 != 0),
        is_queue_locked(word) == (word & 2 != 0),
        head_of(word) == word & !3,
        pack(true, is_queue_locked(word), head_of(word)) == word | 1,
        pack(is_locked(word), true, head_of(word)) == word | 2,
        pack(is_locked(word), false, head_of(word)) == word & !2,
        forall|address: usize|
            #![trigger pack(is_locked(word), is_queue_locked(word), address)]
            address % 4 == 0 ==> pack(is_locked(word), is_queue_locked(word), address) == address
                | (word & 3),
{
    assert((word & 1 != 0) == (word % 2 == 1)) by (bit_vector);
    assert((word & 2 != 0) == ((word / 2) % 2 == 1)) by (bit_vector);
    assert(word & !3 == word - word % 4) by (bit_vector);
    assert(word | 1 == (if word % 2 == 1 { word as int } else { word + 1 })) by (bit_vector);
    assert(word | 2 == (if (word / 2) % 2 == 1 { word as int } else { word + 2 })) by (bit_vector);
    assert(word & !2 == (if (word / 2) % 2 == 1 { word - 2 } else { word as int })) by (bit_vector);
    assert forall|address: usize| address % 4 == 0 implies pack(
        is_locked(word),
        is_queue_locked(word),
        address,
    ) == address | (word & 3) by {
        assert(address | (word & 3) == address + word % 4) by (bit_vector)
            requires
                address % 4 == 0,
        ;
    }
}

/// A word is read by testing and masking its bits.
pub proof fn law_word_is_read_by_its_bits(
    word: usize,
    set: bool,
    queue_set: bool,
    address: usize,
)
    requires
        call_ensures(locked, (word,), set),
        call_ensures(queue_locked, (word,), queue_set),
        call_ensures(head, (word,), address),
    ensures
        set == (word & 1 != 0),
        queue_set == (word & 2 != 0),
        address == word & !3,
{
    law_word_is_its_bits(word);
}

/// A word is changed bit by bit: what a change does not name stays as it was.
pub proof fn law_word_is_changed_bit_by_bit(
    word: usize,
    address: usize,
    held: usize,
    queue_held: usize,
    queue_free: usize,
    moved: usize,
)
    requires
        address % 4 == 0,
        call_ensures(with_lock, (word,), held),
        call_ensures(with_queue_lock, (word,), queue_held),
        call_ensures(without_queue_lock, (word,), queue_free),
        call_ensures(with_head, (word, address), moved),
    ensures
        held == word | 1,
        queue_held == word | 2,
        queue_free == word & !2,
        moved == address | (word & 3),
{
    law_word_is_its_bits(word);
}

proof fn lemma_aligned_has_room(address: usize)
    requires
        address % 4 == 0,
    ensures
        address + 3 <= usize::MAX,
{
    assert((address | 3) == address + 3) by (bit_vector)
        requires
            address % 4 == 0,
    ;
}

/// Whether the mutex bit is set.
pub fn locked(word: usize) -> (set: bool)
    ensures
        set == is_locked(word),
    opens_invariants none
    no_unwind
{
    assert((word & MUTEX_LOCK != 0) == (word % 2 == 1)) by (bit_vector);
    (word & MUTEX_LOCK) != 0
}

/// Whether the queue bit is set.
pub fn queue_locked(word: usize) -> (set: bool)
    ensures
        set == is_queue_locked(word),
{
    assert((word & QUEUE_LOCK != 0) == ((word / 2) % 2 == 1)) by (bit_vector);
    (word & QUEUE_LOCK) != 0
}

/// The address of the first waiter's node.
pub fn head(word: usize) -> (address: usize)
    ensures
        address == head_of(word),
{
    assert(word & QUEUE_MASK == word - word % 4) by (bit_vector);
    word & QUEUE_MASK
}

/// The word with the mutex bit set.
pub fn with_lock(word: usize) -> (next: usize)
    ensures
        next == pack(true, is_queue_locked(word), head_of(word)),
{
    assert(word | MUTEX_LOCK == (if word % 2 == 1 { word as int } else { word + 1 })) by (bit_vector);
    word | MUTEX_LOCK
}

/// The word with the queue bit set.
pub fn with_queue_lock(word: usize) -> (next: usize)
    ensures
        next == pack(is_locked(word), true, head_of(word)),
{
    assert(word | QUEUE_LOCK == (if (word / 2) % 2 == 1 { word as int } else { word + 2 })) by (bit_vector);
    word | QUEUE_LOCK
}

/// The word with the queue bit cleared.
pub fn without_queue_lock(word: usize) -> (next: usize)
    ensures
        next == pack(is_locked(word), false, head_of(word)),
{
    proof {
        law_pack_unpack(word);
        if is_queue_locked(word) {
            assert((word & !QUEUE_LOCK) + 2 == word) by (bit_vector)
                requires
                    (word / 2) % 2 == 1,
            ;
        } else {
            assert((word & !QUEUE_LOCK) == word) by (bit_vector)
                requires
                    (word / 2) % 2 != 1,
            ;
        }
    }
    word & !QUEUE_LOCK
}

/// The word with another first waiter.
pub fn with_head(word: usize, address: usize) -> (next: usize)
    requires
        address % 4 == 0,
    ensures
        next == pack(is_locked(word), is_queue_locked(word), address),
{
    assert(address | (word & !QUEUE_MASK) == address + word % 4) by (bit_vector)
        requires
            address % 4 == 0,
    ;
    address | (word & !QUEUE_MASK)
}

} // verus!
