//! Counting the RTSP clients of a stream.

use vstd::prelude::*;

verus! {

/// The number of clients once another one has come.
pub open spec fn joined(clients: int) -> int {
    clients + 1
}

/// The number of clients once one has gone. It never falls below 0.
pub open spec fn left(clients: int) -> int {
    if clients > 0 {
        clients - 1
    } else {
        0
    }
}

/// The number of clients once another one has come.
pub fn client_joined(clients: usize) -> (r: usize)
    requires
        clients < usize::MAX,
    ensures
        r == joined(clients as int),
{
    clients + 1
}

/// The number of clients once one has gone. It never falls below 0.
pub fn client_left(clients: usize) -> (r: usize)
    ensures
        r == left(clients as int),
{
    clients.saturating_sub(1)
}

/// Is the camera stream to be opened, with this many clients?
pub fn stream_wanted(clients: usize) -> (r: bool)
    ensures
        r == (clients > 0),
{
    clients > 0
}

/// A client comes, or one goes.
pub enum Visit {
    Comes,
    Goes,
}

/// The number of clients that is counted after some visits, from none at first.
pub open spec fn counted(visits: Seq<Visit>) -> int
    decreases visits.len(),
{
    if visits.len() == 0 {
        0
    } else {
        match visits.last() {
            Visit::Comes => joined(counted(visits.drop_last())),
            Visit::Goes => left(counted(visits.drop_last())),
        }
    }
}

/// How many clients have come and not gone.
pub open spec fn present(visits: Seq<Visit>) -> int
    decreases visits.len(),
{
    if visits.len() == 0 {
        0
    } else {
        present(visits.drop_last()) + match visits.last() {
            Visit::Comes => 1int,
            Visit::Goes => -1int,
        }
    }
}

/// A client that goes undoes its coming.
pub proof fn law_leaving_undoes_joining(clients: int)
    requires
        clients >= 0,
    ensures
        left(joined(clients)) == clients,
{
}

/// As long as nobody goes who has not come, the clients that are counted are the clients that
/// are there. So the count is above 0 while any client is there, and the camera stream is
/// kept.
pub proof fn law_the_count_is_right(visits: Seq<Visit>)
    requires
        forall|n: int| 0 <= n <= visits.len() ==> present(#[trigger] visits.take(n)) >= 0,
    ensures
        counted(visits) == present(visits),
    decreases visits.len(),
{
    if visits.len() > 0 {
        let before = visits.drop_last();
        assert forall|n: int| 0 <= n <= before.len() implies present(#[trigger] before.take(n))
            >= 0 by {
            assert(before.take(n) =~= visits.take(n));
        }
        assert(visits.take(visits.len() as int) =~= visits);
        law_the_count_is_right(before);
    }
}

/// Every client that comes counts for one more, every one that goes for one less, and the count
/// never falls below 0.
pub proof fn law_each_client_counts_for_one(clients: int)
    requires
        clients >= 0,
    ensures
        joined(clients) - clients == 1,
        clients > 0 ==> clients - left(clients) == 1,
        clients == 0 ==> left(clients) == 0,
{
}

} // verus!
