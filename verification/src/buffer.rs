//! Model of the bounded FIFO history buffers: one insertion step, folds of
//! many insertions, and the law that a buffer always retains exactly the
//! most recent entries, in insertion order.
use vstd::prelude::*;

verus! {

/// One insertion into a bounded FIFO: append, evicting the oldest entry
/// when the buffer is full.
pub open spec fn evict_step<T>(s: Seq<T>, cap: nat, x: T) -> Seq<T> {
    if s.len() < cap {
        s.push(x)
    } else {
        s.skip(1).push(x)
    }
}

/// Fold of `evict_step` over a sequence of insertions.
pub open spec fn insert_all<T>(init: Seq<T>, cap: nat, entries: Seq<T>) -> Seq<T>
    decreases entries.len(),
{
    if entries.len() == 0 {
        init
    } else {
        insert_all(evict_step(init, cap, entries[0]), cap, entries.skip(1))
    }
}

/// After any run of insertions the buffer holds the last `cap` elements of
/// `init + entries` (all of them, while they still fit), in order.
pub proof fn lemma_insert_all_window<T>(init: Seq<T>, cap: nat, entries: Seq<T>)
    requires
        cap >= 1,
        init.len() <= cap,
    ensures
        insert_all(init, cap, entries) == if init.len() + entries.len() <= cap {
            init + entries
        } else {
            (init + entries).skip(init.len() + entries.len() - cap)
        },
    decreases entries.len(),
{
    if entries.len() == 0 {
        assert(init + entries =~= init);
    } else {
        let x = entries[0];
        let stepped = evict_step(init, cap, x);
        assert(stepped.len() <= cap);
        lemma_insert_all_window(stepped, cap, entries.skip(1));
        if init.len() < cap {
            assert(stepped + entries.skip(1) =~= init + entries);
            if stepped.len() + entries.len() - 1 > cap {
                assert(stepped.len() + (entries.len() - 1) == init.len() + entries.len());
            }
        } else {
            assert(stepped =~= (init + seq![x]).skip(1));
            assert(stepped + entries.skip(1) =~= (init + entries).skip(1));
            if stepped.len() + entries.len() - 1 <= cap {
                assert(entries.len() == 1);
                assert((init + entries).skip(init.len() + entries.len() - cap) =~= (init
                    + entries).skip(1));
            } else {
                assert((stepped + entries.skip(1)).skip(
                    stepped.len() + entries.skip(1).len() - cap,
                ) =~= (init + entries).skip(init.len() + entries.len() - cap));
            }
        }
    }
}

/// Filling a buffer from empty with more entries than its capacity leaves
/// exactly the last `cap` entries, in insertion order.
pub proof fn lemma_buffer_retains_last<T>(cap: nat, entries: Seq<T>)
    requires
        cap >= 1,
        entries.len() > cap,
    ensures
        insert_all(Seq::<T>::empty(), cap, entries) == entries.skip(entries.len() - cap),
        insert_all(Seq::<T>::empty(), cap, entries).len() == cap,
    decreases entries.len(),
{
    lemma_insert_all_window(Seq::<T>::empty(), cap, entries);
    assert(Seq::<T>::empty() + entries =~= entries);
}

} // verus!
