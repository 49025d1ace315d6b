//! Choosing the TCP port the HTTP surface listens on.
//!
//! Binding a socket is the caller's business: it hands in a binder, a function
//! that tries one port and reports the port it got. Port 0 asks the system
//! for any free port. For another port the search walks upwards from it.

use vstd::prelude::*;
use crate::error::SinkError;

verus! {

/// How many ports above the requested one are probed.
pub const PROBE_SPAN: u16 = 100;

/// The last port the search for `requested` probes.
pub open spec fn last_candidate(requested: u16) -> int {
    if requested == 0 {
        0
    } else if requested + PROBE_SPAN > u16::MAX {
        u16::MAX as int
    } else {
        requested + PROBE_SPAN
    }
}

/// Whether `bind` may refuse every port from `from` up to, but not including, `to`.
pub open spec fn refused_between<B: Fn(u16) -> Option<u16>>(bind: B, from: int, to: int) -> bool {
    forall|d: u16| from <= d < to ==> #[trigger] bind.ensures((d,), None)
}

/// Whether a search for `requested` may end at candidate `c` with `port`:
/// `c` is within the probed range, `bind` granted `port` for it, and it
/// refused every candidate before `c`.
pub open spec fn granted_at<B: Fn(u16) -> Option<u16>>(
    requested: u16,
    bind: B,
    c: u16,
    port: u16,
) -> bool {
    &&& requested <= c <= last_candidate(requested)
    &&& bind.ensures((c,), Some(port))
    &&& refused_between(bind, requested as int, c as int)
}

/// What a search for `requested` through `bind` may return: the answer to the
/// first candidate that was granted, after every candidate before it was
/// refused; or `NoPortAvailable` once all of them were refused.
pub open spec fn search_outcome<B: Fn(u16) -> Option<u16>>(
    requested: u16,
    bind: B,
    r: Result<u16, SinkError>,
) -> bool {
    &&& r is Ok ==> exists|c: u16| #[trigger] granted_at(requested, bind, c, r->Ok_0)
    &&& r is Err ==> {
        &&& r->Err_0 == SinkError::NoPortAvailable
        &&& refused_between(bind, requested as int, last_candidate(requested) + 1)
    }
}

/// Finds a port to listen on, starting at `requested`.
pub fn find_available_port<B: Fn(u16) -> Option<u16>>(requested: u16, bind: B) -> (r: Result<
    u16,
    SinkError,
>)
    requires
        forall|p: u16| bind.requires((p,)),
    ensures
        search_outcome(requested, bind, r),
{
    let last: u16 = if requested == 0 {
        0
    } else if requested > u16::MAX - PROBE_SPAN {
        u16::MAX
    } else {
        requested + PROBE_SPAN
    };
    let mut candidate: u16 = requested;
    loop
        invariant
            forall|p: u16| bind.requires((p,)),
            last == last_candidate(requested),
            requested <= candidate <= last,
            refused_between(bind, requested as int, candidate as int),
        decreases last - candidate,
    {
        match bind(candidate) {
            Some(port) => {
                let found: Result<u16, SinkError> = Ok(port);
                assert(granted_at(requested, bind, candidate, found->Ok_0));
                return found;
            },
            None => {
                if candidate == last {
                    return Err(SinkError::NoPortAvailable);
                }
                candidate += 1;
            },
        }
    }
}

/// Whether `bind` answers for a machine on which exactly the ports in `free`
/// can be bound, and which has a port to give when asked for any: a port
/// other than 0 is granted as itself if it is free and refused if not, and
/// port 0 is granted as some port above 0.
pub open spec fn answers_for<B: Fn(u16) -> Option<u16>>(bind: B, free: Set<u16>) -> bool {
    &&& forall|p: u16, answer: Option<u16>|
        p != 0 && #[trigger] bind.ensures((p,), answer) ==> answer == (if free.contains(p) {
            Some(p)
        } else {
            None
        })
    &&& forall|answer: Option<u16>| #[trigger]
        bind.ensures((0u16,), answer) ==> answer is Some && answer->Some_0 > 0
}

/// What a search returns on a machine whose free ports are known. A free
/// port is taken as it is. An occupied port with a free one among the next
/// hundred gives the lowest of those. Port 0 gives a port above 0. And the
/// search fails only where the port and all the candidates after it are
/// occupied.
pub proof fn lemma_port_acquisition<B: Fn(u16) -> Option<u16>>(
    requested: u16,
    bind: B,
    free: Set<u16>,
    r: Result<u16, SinkError>,
)
    requires
        search_outcome(requested, bind, r),
        answers_for(bind, free),
    ensures
        requested != 0 && free.contains(requested) ==> r == Ok::<u16, SinkError>(requested),
        requested != 0 && !free.contains(requested) && (exists|k: int|
            1 <= k <= PROBE_SPAN && requested + k <= u16::MAX && #[trigger] free.contains(
                (requested + k) as u16,
            )) ==> r is Ok && requested < r->Ok_0 <= requested + PROBE_SPAN,
        requested == 0 ==> r is Ok && r->Ok_0 > 0,
        requested != 0 && r is Ok ==> {
            &&& requested <= r->Ok_0 <= last_candidate(requested)
            &&& free.contains(r->Ok_0)
            &&& forall|d: u16| requested <= d < r->Ok_0 ==> !free.contains(d)
        },
        r is Err ==> requested != 0 && forall|d: u16|
            requested <= d <= last_candidate(requested) ==> !free.contains(d),
{
    if r is Ok {
        let port = r->Ok_0;
        let c = choose|c: u16| #[trigger] granted_at(requested, bind, c, port);
        assert(bind.ensures((c,), Some(port)));
        if requested != 0 {
            assert forall|d: u16| requested <= d < port implies !free.contains(d) by {
                assert(bind.ensures((d,), None));
            }
            if exists|k: int|
                1 <= k <= PROBE_SPAN && requested + k <= u16::MAX && #[trigger] free.contains(
                    (requested + k) as u16,
                ) {
            }
        }
    } else {
        if requested == 0 {
            assert(bind.ensures((0u16,), None));
        }
        assert forall|d: u16| requested <= d <= last_candidate(requested) implies !free.contains(
            d,
        ) by {
            assert(bind.ensures((d,), None));
        }
        if exists|k: int|
            1 <= k <= PROBE_SPAN && requested + k <= u16::MAX && #[trigger] free.contains(
                (requested + k) as u16,
            ) {
            let k = choose|k: int|
                1 <= k <= PROBE_SPAN && requested + k <= u16::MAX && #[trigger] free.contains(
                    (requested + k) as u16,
                );
            assert(!free.contains((requested + k) as u16));
        }
        if requested != 0 && free.contains(requested) {
            assert(bind.ensures((requested,), None));
        }
    }
}

} // verus!
