//! The adapter table reader: obtains the operating system's current
//! adapter table as one owned buffer, retrying with a larger buffer when
//! the enumeration primitive reports that the buffer was too small, and
//! releasing every buffer it allocated except the one it returns.
//!
//! The primitive itself is operating-system plumbing; here it is a value:
//! the platform layer records what each successive attempt returned, and
//! [`read_table`] runs the size-probe/retry protocol over that record.  The
//! function also returns the exact trace of buffer allocations and
//! releases it performed, so the pairing of allocations with releases is
//! stated in its contract and proved for every outcome.

use vstd::prelude::*;

use crate::ifaddrs::RawAdapter;
use crate::OsError;

verus! {

/// The buffer size the first attempt uses.
pub const INITIAL_BUFFER_SIZE: u32 = 15000;

/// The number of attempts after which the reader gives up, as a guard
/// against a pathological primitive that keeps reporting a too-small
/// buffer.
pub const MAX_ATTEMPTS: usize = 8;

/// What one attempt of the enumeration primitive came to.
pub enum ProbeOutcome {
    /// The buffer for the attempt could not be allocated; the primitive
    /// was not called.
    AllocationFailed,
    /// The primitive succeeded and filled the buffer with these adapters.
    Delivered { adapters: Vec<RawAdapter> },
    /// The primitive reported the buffer too small and the exact size
    /// needed.
    BufferTooSmall { required: u32 },
    /// The primitive failed with this error code.
    Failed { code: u32 },
}

/// The adapter table: the owned result of one successful read.  It is
/// created at the start of an enumeration cycle and discarded at the end
/// of that same cycle, never held across cycles.
pub struct AdapterTable {
    /// The adapter entries, in the order the operating system reported
    /// them.
    pub adapters: Vec<RawAdapter>,
}

/// One buffer event of the reader: an allocation or a release of a buffer
/// of the given size.
#[derive(Clone, Copy, Debug, PartialEq, Eq, Structural)]
pub enum BufferEvent {
    Allocated { size: u32 },
    Released { size: u32 },
}

/// The adapters the protocol returns when the attempts run as `script`
/// says, starting at attempt `attempt`: the adapters of the first
/// delivering attempt, or the error of the first failing one.  A script
/// that ends, or passes the attempt allowance, while the protocol would
/// still retry is read as the retry allowance running out.
pub open spec fn reader_result(script: Seq<ProbeOutcome>, attempt: int) -> Result<
    Seq<RawAdapter>,
    OsError,
>
    decreases MAX_ATTEMPTS - attempt,
{
    if attempt < 0 || attempt >= MAX_ATTEMPTS || attempt >= script.len() {
        Err(OsError::RetryLimitExceeded)
    } else {
        match script[attempt] {
            ProbeOutcome::AllocationFailed => Err(OsError::AllocationFailure),
            ProbeOutcome::Delivered { adapters } => Ok(adapters@),
            ProbeOutcome::Failed { code } => Err(OsError::EnumerationFailure { code }),
            ProbeOutcome::BufferTooSmall { required } => reader_result(script, attempt + 1),
        }
    }
}

/// The buffer events the protocol performs from attempt `attempt` on, when
/// the buffer for that attempt would be `size` bytes: every attempt whose
/// buffer was allocated releases it before retrying or failing, and only a
/// delivering attempt keeps its buffer, which is the one returned.
pub open spec fn reader_events(script: Seq<ProbeOutcome>, attempt: int, size: u32) -> Seq<
    BufferEvent,
>
    decreases MAX_ATTEMPTS - attempt,
{
    if attempt < 0 || attempt >= MAX_ATTEMPTS || attempt >= script.len() {
        Seq::empty()
    } else {
        match script[attempt] {
            ProbeOutcome::AllocationFailed => Seq::empty(),
            ProbeOutcome::Delivered { adapters } => seq![BufferEvent::Allocated { size }],
            ProbeOutcome::Failed { code } => seq![
                BufferEvent::Allocated { size },
                BufferEvent::Released { size },
            ],
            ProbeOutcome::BufferTooSmall { required } => seq![
                BufferEvent::Allocated { size },
                BufferEvent::Released { size },
            ] + reader_events(script, attempt + 1, required),
        }
    }
}

/// How many events of a trace are allocations.
pub open spec fn alloc_count(events: Seq<BufferEvent>) -> int
    decreases events.len(),
{
    if events.len() == 0 {
        0
    } else {
        alloc_count(events.drop_last()) + if events.last() is Allocated {
            1int
        } else {
            0int
        }
    }
}

/// How many events of a trace are releases.
pub open spec fn release_count(events: Seq<BufferEvent>) -> int
    decreases events.len(),
{
    if events.len() == 0 {
        0
    } else {
        release_count(events.drop_last()) + if events.last() is Released {
            1int
        } else {
            0int
        }
    }
}

/// Reads the adapter table by the size-probe/retry protocol, over the
/// recorded outcomes of the successive attempts.  Returns the table or the
/// error, together with the exact trace of buffer allocations and
/// releases: on success the trace ends with the allocation of the returned
/// buffer, which is not released; on every failure each allocation is
/// paired with a release.
pub fn read_table(script: Vec<ProbeOutcome>) -> (out: (
    Result<AdapterTable, OsError>,
    Vec<BufferEvent>,
))
    ensures
        (match out.0 {
            Ok(table) => reader_result(script@, 0) == Ok::<Seq<RawAdapter>, OsError>(
                table.adapters@,
            ),
            Err(e) => reader_result(script@, 0) == Err::<Seq<RawAdapter>, OsError>(e),
        }),
        out.1@ == reader_events(script@, 0, INITIAL_BUFFER_SIZE),
        out.0 is Ok ==> out.1@.len() >= 1 && out.1@.last() is Allocated,
{
    let ghost script0 = script@;
    let mut rest = script;
    let mut attempt: usize = 0;
    let mut size: u32 = INITIAL_BUFFER_SIZE;
    let mut events: Vec<BufferEvent> = Vec::new();
    loop
        invariant
            script0 == script@,
            attempt <= MAX_ATTEMPTS,
            attempt <= script0.len(),
            rest@ == script0.skip(attempt as int),
            reader_result(script0, 0) == reader_result(script0, attempt as int),
            reader_events(script0, 0, INITIAL_BUFFER_SIZE) == events@ + reader_events(
                script0,
                attempt as int,
                size,
            ),
        decreases MAX_ATTEMPTS - attempt,
    {
        if attempt == MAX_ATTEMPTS || rest.len() == 0 {
            proof {
                assert(reader_events(script0, attempt as int, size) =~= Seq::<
                    BufferEvent,
                >::empty());
                assert(events@ + Seq::<BufferEvent>::empty() =~= events@);
            }
            return (Err(OsError::RetryLimitExceeded), events);
        }
        let outcome = rest.remove(0);
        proof {
            assert(script0.skip(attempt as int)[0] == script0[attempt as int]);
            assert(script0.skip(attempt as int).remove(0) =~= script0.skip(attempt + 1));
        }
        match outcome {
            ProbeOutcome::AllocationFailed => {
                proof {
                    assert(events@ + reader_events(script0, attempt as int, size) =~= events@);
                }
                return (Err(OsError::AllocationFailure), events);
            },
            ProbeOutcome::Delivered { adapters } => {
                events.push(BufferEvent::Allocated { size });
                proof {
                    assert(events@ =~= events@.drop_last() + reader_events(
                        script0,
                        attempt as int,
                        size,
                    ));
                }
                return (Ok(AdapterTable { adapters }), events);
            },
            ProbeOutcome::Failed { code } => {
                events.push(BufferEvent::Allocated { size });
                events.push(BufferEvent::Released { size });
                proof {
                    assert(events@ =~= events@.drop_last().drop_last() + reader_events(
                        script0,
                        attempt as int,
                        size,
                    ));
                }
                return (Err(OsError::EnumerationFailure { code }), events);
            },
            ProbeOutcome::BufferTooSmall { required } => {
                events.push(BufferEvent::Allocated { size });
                events.push(BufferEvent::Released { size });
                proof {
                    assert(seq![
                        BufferEvent::Allocated { size },
                        BufferEvent::Released { size },
                    ] + reader_events(script0, attempt + 1, required) == reader_events(
                        script0,
                        attempt as int,
                        size,
                    ));
                    assert(events@ + reader_events(script0, attempt + 1, required) =~= events@.drop_last().drop_last() + reader_events(
                        script0,
                        attempt as int,
                        size,
                    ));
                }
                size = required;
                attempt += 1;
            },
        }
    }
}

/// The counts of the empty trace.
proof fn lemma_counts_empty()
    ensures
        alloc_count(Seq::<BufferEvent>::empty()) == 0,
        release_count(Seq::<BufferEvent>::empty()) == 0,
{
}

/// The counts of a trace of one allocation.
proof fn lemma_counts_alloc_single(size: u32)
    ensures
        alloc_count(seq![BufferEvent::Allocated { size }]) == 1,
        release_count(seq![BufferEvent::Allocated { size }]) == 0,
{
    assert(seq![BufferEvent::Allocated { size }].drop_last() =~= Seq::<BufferEvent>::empty());
    lemma_counts_empty();
}

/// The counts of a trace of one allocation and its release.
proof fn lemma_counts_pair(size: u32)
    ensures
        alloc_count(seq![BufferEvent::Allocated { size }, BufferEvent::Released { size }]) == 1,
        release_count(seq![BufferEvent::Allocated { size }, BufferEvent::Released { size }]) == 1,
{
    let pair = seq![BufferEvent::Allocated { size }, BufferEvent::Released { size }];
    assert(pair.drop_last() =~= seq![BufferEvent::Allocated { size }]);
    assert(pair.last() == BufferEvent::Released { size });
    lemma_counts_alloc_single(size);
}

/// Every buffer the protocol allocates is released exactly once, except
/// the one a successful read returns to the caller, which is not released:
/// on success the allocations outnumber the releases by one and the
/// returned buffer's allocation is the last event; on every failure the
/// counts are equal.  At no point is more than one buffer live.
pub proof fn lemma_buffer_release(script: Seq<ProbeOutcome>, attempt: int, size: u32)
    ensures
        alloc_count(reader_events(script, attempt, size)) == release_count(
            reader_events(script, attempt, size),
        ) + if reader_result(script, attempt) is Ok {
            1int
        } else {
            0int
        },
        forall|n: int|
            0 <= n <= reader_events(script, attempt, size).len() ==> {
                let p = #[trigger] reader_events(script, attempt, size).take(n);
                release_count(p) <= alloc_count(p) <= release_count(p) + 1
            },
    decreases MAX_ATTEMPTS - attempt,
{
    let es = reader_events(script, attempt, size);
    if attempt < 0 || attempt >= MAX_ATTEMPTS || attempt >= script.len() {
        assert forall|n: int| 0 <= n <= es.len() implies {
            let p = #[trigger] es.take(n);
            release_count(p) <= alloc_count(p) <= release_count(p) + 1
        } by {
            assert(es.take(n) =~= es);
        }
    } else {
        match script[attempt] {
            ProbeOutcome::AllocationFailed => {
                assert forall|n: int| 0 <= n <= es.len() implies {
                    let p = #[trigger] es.take(n);
                    release_count(p) <= alloc_count(p) <= release_count(p) + 1
                } by {
                    assert(es.take(n) =~= es);
                }
            },
            ProbeOutcome::Delivered { adapters } => {
                lemma_counts_alloc_single(size);
                assert forall|n: int| 0 <= n <= es.len() implies {
                    let p = #[trigger] es.take(n);
                    release_count(p) <= alloc_count(p) <= release_count(p) + 1
                } by {
                    if n == 0 {
                        assert(es.take(n) =~= Seq::<BufferEvent>::empty());
                    } else {
                        assert(es.take(n) =~= es);
                    }
                }
            },
            ProbeOutcome::Failed { code } => {
                assert(es == seq![
                    BufferEvent::Allocated { size },
                    BufferEvent::Released { size },
                ] + Seq::<BufferEvent>::empty()) by {
                    assert(es =~= seq![
                        BufferEvent::Allocated { size },
                        BufferEvent::Released { size },
                    ] + Seq::<BufferEvent>::empty());
                }
                assert forall|n: int| 0 <= n <= Seq::<BufferEvent>::empty().len() implies {
                    let p = #[trigger] Seq::<BufferEvent>::empty().take(n);
                    release_count(p) <= alloc_count(p) <= release_count(p) + 1
                } by {
                    assert(Seq::<BufferEvent>::empty().take(n) =~= Seq::<BufferEvent>::empty());
                }
                lemma_counts_empty();
                lemma_counts_of_alloc_release_pair(es, Seq::empty(), size);
            },
            ProbeOutcome::BufferTooSmall { required } => {
                lemma_buffer_release(script, attempt + 1, required);
                lemma_counts_of_alloc_release_pair(
                    es,
                    reader_events(script, attempt + 1, required),
                    size,
                );
            },
        }
    }
}

/// Counting helper: a trace that starts with an allocation immediately
/// followed by its release has the counts of its tail shifted up by one
/// each, and its prefixes stay balanced when the tail's prefixes are.
proof fn lemma_counts_of_alloc_release_pair(es: Seq<BufferEvent>, tail: Seq<BufferEvent>, size: u32)
    requires
        es == seq![BufferEvent::Allocated { size }, BufferEvent::Released { size }] + tail,
        forall|n: int|
            0 <= n <= tail.len() ==> {
                let p = #[trigger] tail.take(n);
                release_count(p) <= alloc_count(p) <= release_count(p) + 1
            },
    ensures
        alloc_count(es) == alloc_count(tail) + 1,
        release_count(es) == release_count(tail) + 1,
        forall|n: int|
            0 <= n <= es.len() ==> {
                let p = #[trigger] es.take(n);
                release_count(p) <= alloc_count(p) <= release_count(p) + 1
            },
    decreases tail.len(),
{
    if tail.len() == 0 {
        let alloc_only = seq![BufferEvent::Allocated { size }];
        assert(es =~= seq![BufferEvent::Allocated { size }, BufferEvent::Released { size }]);
        lemma_counts_empty();
        lemma_counts_alloc_single(size);
        lemma_counts_pair(size);
        assert forall|n: int| 0 <= n <= es.len() implies {
            let p = #[trigger] es.take(n);
            release_count(p) <= alloc_count(p) <= release_count(p) + 1
        } by {
            lemma_counts_empty();
            lemma_counts_alloc_single(size);
            lemma_counts_pair(size);
            if n == 0 {
                assert(es.take(n) =~= Seq::<BufferEvent>::empty());
            } else if n == 1 {
                assert(es.take(n) =~= alloc_only);
            } else {
                assert(es.take(n) =~= seq![
                    BufferEvent::Allocated { size },
                    BufferEvent::Released { size },
                ]);
            }
        }
    } else {
        let shorter = seq![BufferEvent::Allocated { size }, BufferEvent::Released { size }]
            + tail.drop_last();
        assert forall|n: int|
            0 <= n <= tail.drop_last().len() implies #[trigger] tail.drop_last().take(n)
            == tail.take(n) by {
            assert(tail.drop_last().take(n) =~= tail.take(n));
        }
        lemma_counts_of_alloc_release_pair(shorter, tail.drop_last(), size);
        assert(es.drop_last() =~= shorter);
        assert(es.last() == tail.last());
        assert(alloc_count(es) == alloc_count(tail) + 1);
        assert(release_count(es) == release_count(tail) + 1);
        assert forall|n: int| 0 <= n <= es.len() implies {
            let p = #[trigger] es.take(n);
            release_count(p) <= alloc_count(p) <= release_count(p) + 1
        } by {
            if n < es.len() {
                assert(es.take(n) =~= shorter.take(n));
                assert(release_count(shorter.take(n)) <= alloc_count(shorter.take(n))
                    <= release_count(shorter.take(n)) + 1);
            } else {
                assert(es.take(n) =~= es);
                assert(tail.take(tail.len() as int) =~= tail);
                assert(release_count(tail) <= alloc_count(tail) <= release_count(tail) + 1);
            }
        }
    }
}

} // verus!
