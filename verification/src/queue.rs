//! What the library relies on from the `keyed_priority_queue` crate.
//!
//! Nothing in this file is proved. Each contract restates what the crate's
//! source does, over [`queue_entries`], the map from key to priority that a
//! queue holds.

use keyed_priority_queue::KeyedPriorityQueue;
use std::hash::BuildHasher;
use std::hash::Hash;
use vstd::prelude::*;

verus! {

/// `keyed_priority_queue::KeyedPriorityQueue`, whose inside Verus does not read.
#[verifier::external_type_specification]
#[verifier::external_body]
#[verifier::reject_recursive_types(TKey)]
#[verifier::reject_recursive_types(TPriority)]
#[verifier::reject_recursive_types(S)]
pub struct ExKeyedPriorityQueue<TKey: Hash + Eq, TPriority: Ord, S: BuildHasher>(
    KeyedPriorityQueue<TKey, TPriority, S>,
);

/// The entries of a queue: each key it holds, with that key's priority.
pub uninterp spec fn queue_entries(queue: KeyedPriorityQueue<u64, i32>) -> Map<u64, i32>;

/// `KeyedPriorityQueue::new`: a queue without entries.
#[verifier::external_body]
pub(crate) fn queue_new() -> (fresh: KeyedPriorityQueue<u64, i32>)
    ensures
        queue_entries(fresh) == (Map::<u64, i32>::empty()),
{
    KeyedPriorityQueue::new()
}

/// `KeyedPriorityQueue::push`: files `priority` under `key`, in place of the
/// priority that the key had if it was present, and returns that earlier
/// priority. Other entries stay as they are.
#[verifier::external_body]
pub(crate) fn queue_push(queue: &mut KeyedPriorityQueue<u64, i32>, key: u64, priority: i32) -> (earlier:
    Option<i32>)
    ensures
        queue_entries(*final(queue)) == queue_entries(*old(queue)).insert(key, priority),
        earlier == if queue_entries(*old(queue)).contains_key(key) {
            Some(queue_entries(*old(queue))[key])
        } else {
            None
        },
{
    queue.push(key, priority)
}

/// `KeyedPriorityQueue::remove`: takes the entry of `key` out and returns its
/// priority, or returns `None` and changes nothing where the key is absent.
#[verifier::external_body]
pub(crate) fn queue_remove(queue: &mut KeyedPriorityQueue<u64, i32>, key: u64) -> (removed: Option<i32>)
    ensures
        queue_entries(*final(queue)) == queue_entries(*old(queue)).remove(key),
        removed == if queue_entries(*old(queue)).contains_key(key) {
            Some(queue_entries(*old(queue))[key])
        } else {
            None
        },
{
    queue.remove(&key)
}

/// `KeyedPriorityQueue::peek`: an entry whose priority no other entry
/// exceeds, or `None` for a queue without entries. Among several entries of
/// the highest priority the contract does not say which one is returned.
#[verifier::external_body]
pub(crate) fn queue_peek(queue: &KeyedPriorityQueue<u64, i32>) -> (top: Option<(u64, i32)>)
    ensures
        match top {
            Some((key, priority)) => {
                &&& queue_entries(*queue).contains_key(key)
                &&& queue_entries(*queue)[key] == priority
                &&& forall|other: u64| #[trigger]
                    queue_entries(*queue).contains_key(other) ==> queue_entries(*queue)[other]
                        <= priority
            },
            None => forall|other: u64| !#[trigger] queue_entries(*queue).contains_key(other),
        },
{
    queue.peek().map(|(key, priority)| (*key, *priority))
}

} // verus!
