//! What the durable ledger of work graphs decides: which write of a graph is
//! committed, which record is trusted, and who wins a claim.

use crate::digest::{file_id_fault, safe_id_filename, text_digest};
use crate::error::{
    fault, invalid, invalid_fault, refused, Fault, OrchError, OrchErrorCode,
};
use crate::order::{order_of, ranks, sorted_order, Rank, SortKey};
use crate::swarm::authority::later;
use crate::swarm::ids::{GrantId, GraphId};
use crate::swarm::state::{graph_record_fault, WorkGraphRecord};
use crate::text::{copy, decimal, decimal_text, join3, join4, str_eq};
use vstd::prelude::*;
use vstd::string::*;

verus! {

/// How a claim that one caller can win came out.
#[derive(Debug, Clone, Copy, PartialEq, Eq, Structural)]
pub enum ClaimOutcome {
    /// This caller won.
    Won,
    /// Somebody already holds it.
    AlreadyHeld,
}

/// One durable claim.
#[derive(Debug)]
pub struct ClaimRecord {
    pub key: String,
    pub holder: String,
    pub claimed_at: i128,
}

/// What a claim of a key comes to.
pub open spec fn claiming(
    key: Seq<char>,
    holder: Seq<char>,
    on_record: bool,
    now: i128,
    r: (ClaimOutcome, Option<ClaimRecord>),
) -> bool {
    if on_record {
        r.0 is AlreadyHeld && r.1 is None
    } else {
        r.0 is Won && match r.1 {
            Some(c) => c.key@ == key && c.holder@ == holder && c.claimed_at == now,
            None => false,
        }
    }
}

/// How the claim of a key comes out, given whether a claim of it is on record.
pub fn claim(key: &str, holder: &str, on_record: bool, now: i128) -> (r: (
    ClaimOutcome,
    Option<ClaimRecord>,
))
    ensures
        claiming(
            key@,
            holder@,
            on_record,
            now,
            r,
        ),
{
    if on_record {
        (ClaimOutcome::AlreadyHeld, None)
    } else {
        (
            ClaimOutcome::Won,
            Some(ClaimRecord { key: copy(key), holder: copy(holder), claimed_at: now }),
        )
    }
}

/// The key under which a grant is consumed in one control epoch.
pub open spec fn grant_key_text(grant_id: Seq<char>, control_epoch: u64) -> Seq<char> {
    grant_id + ":"@ + decimal(control_epoch as nat)
}

/// The key under which a grant is consumed in one control epoch.
pub fn grant_key(grant_id: &GrantId, control_epoch: u64) -> (k: String)
    ensures
        k@ == grant_key_text(grant_id@, control_epoch),
{
    join3(grant_id.as_str(), ":", decimal_text(control_epoch).as_str())
}

/// What is wrong with a record that was loaded under an identity.
pub open spec fn load_fault(record: WorkGraphRecord, graph_id: Seq<char>) -> Option<Fault> {
    match graph_record_fault(record) {
        Some(f) => Some(f),
        None => if record.graph_id@ != graph_id {
            Some(
                fault(
                    OrchErrorCode::Internal,
                    "work graph record does not match the requested id"@,
                ),
            )
        } else {
            None
        },
    }
}

/// What the reading of a stored graph comes to.
pub open spec fn graph_loading(
    record: WorkGraphRecord,
    graph_id: Seq<char>,
    r: Result<WorkGraphRecord, OrchError>,
) -> bool {
    match load_fault(record, graph_id) {
        Some(f) => refused(r, f),
        None => r == Ok::<WorkGraphRecord, OrchError>(record),
    }
}

/// Takes a loaded record if it may be trusted; a malformed one fails closed.
pub fn load_graph(record: WorkGraphRecord, graph_id: &GraphId) -> (r: Result<
    WorkGraphRecord,
    OrchError,
>)
    ensures
        graph_loading(
            record,
            graph_id@,
            r,
        ),
{
    record.validate()?;
    if !record.graph_id.same(graph_id) {
        return Err(
            OrchError::new(
                OrchErrorCode::Internal,
                "work graph record does not match the requested id",
            ),
        );
    }
    Ok(record)
}

/// Why a write is not committed.
pub open spec fn swap_fault(
    current: Option<WorkGraphRecord>,
    expected: u64,
    next: WorkGraphRecord,
) -> Option<Fault> {
    match current {
        None => Some(invalid_fault("work graph does not exist"@)),
        Some(c) => if c.revision != expected {
            Some(
                fault(
                    OrchErrorCode::StaleVersion,
                    "work graph revision moved from "@ + decimal(expected as nat) + " to "@
                        + decimal(c.revision as nat),
                ),
            )
        } else if c.session_id != next.session_id || c.workspace@ != next.workspace@ {
            Some(
                fault(
                    OrchErrorCode::WorkspaceMismatch,
                    "work graph identity cannot be rebound by an update"@,
                ),
            )
        } else if expected == u64::MAX {
            Some(
                fault(
                    OrchErrorCode::CapacityExhausted,
                    "work graph revision space is exhausted"@,
                ),
            )
        } else {
            None
        },
    }
}

/// The record that a write commits.
pub open spec fn committed(expected: u64, next: WorkGraphRecord, now: i128) -> WorkGraphRecord {
    WorkGraphRecord {
        revision: (expected + 1) as u64,
        updated_at: later(next.updated_at, now),
        ..next
    }
}

/// What a write comes to.
pub open spec fn swapped(
    r: Result<WorkGraphRecord, OrchError>,
    current: Option<WorkGraphRecord>,
    expected: u64,
    next: WorkGraphRecord,
    now: i128,
) -> bool {
    match swap_fault(current, expected, next) {
        Some(f) => refused(r, f),
        None => match graph_record_fault(committed(expected, next, now)) {
            Some(f) => refused(r, f),
            None => r == Ok::<WorkGraphRecord, OrchError>(committed(expected, next, now)),
        },
    }
}

/// The record of an optional reference.
pub open spec fn held(current: Option<&WorkGraphRecord>) -> Option<WorkGraphRecord> {
    match current {
        Some(c) => Some(*c),
        None => None,
    }
}

/// Commits a write of a graph if nobody has written since the revision that the
/// caller read.
pub fn compare_and_swap(
    current: Option<&WorkGraphRecord>,
    expected_revision: u64,
    next: WorkGraphRecord,
    now: i128,
) -> (r: Result<WorkGraphRecord, OrchError>)
    ensures
        swapped(r, held(current), expected_revision, next, now),
{
    let current: &WorkGraphRecord = match current {
        Some(current) => current,
        None => {
            return Err(invalid("work graph does not exist"));
        },
    };
    if current.revision != expected_revision {
        return Err(
            OrchError::new(
                OrchErrorCode::StaleVersion,
                join4(
                    "work graph revision moved from ",
                    decimal_text(expected_revision).as_str(),
                    " to ",
                    decimal_text(current.revision).as_str(),
                ).as_str(),
            ),
        );
    }
    if current.session_id != next.session_id || !str_eq(
        current.workspace.as_str(),
        next.workspace.as_str(),
    ) {
        return Err(
            OrchError::new(
                OrchErrorCode::WorkspaceMismatch,
                "work graph identity cannot be rebound by an update",
            ),
        );
    }
    if expected_revision == u64::MAX {
        return Err(
            OrchError::new(
                OrchErrorCode::CapacityExhausted,
                "work graph revision space is exhausted",
            ),
        );
    }
    let mut committed: WorkGraphRecord = next;
    committed.revision = expected_revision + 1;
    if committed.updated_at < now {
        committed.updated_at = now;
    }
    committed.validate()?;
    Ok(committed)
}

/// Of two writers that read the same revision, one commits: once the first has,
/// the second is refused as stale.
pub proof fn one_writer_wins(
    current: WorkGraphRecord,
    expected: u64,
    first: WorkGraphRecord,
    second: WorkGraphRecord,
    r: Result<WorkGraphRecord, OrchError>,
    s: Result<WorkGraphRecord, OrchError>,
    t: i128,
    u: i128,
)
    requires
        swapped(r, Some(current), expected, first, t),
        r is Ok,
        swapped(s, Some(r->Ok_0), expected, second, u),
    ensures
        r->Ok_0.revision == current.revision + 1,
        s is Err,
        s->Err_0.code == OrchErrorCode::StaleVersion,
{
}

/// One file of the graph directory: its name without the extension, and the
/// record it holds if it could be read.
#[derive(Debug)]
pub struct StoredGraph {
    pub stem: String,
    pub record: Option<WorkGraphRecord>,
}

/// The file holds a valid record under the name that belongs to it.
#[verifier::opaque]
pub open spec fn trusted(f: StoredGraph) -> bool {
    match f.record {
        Some(g) => graph_record_fault(g) is None && file_id_fault(g.graph_id@) is None
            && f.stem@ == text_digest(g.graph_id@),
        None => false,
    }
}

fn is_trusted(file: &StoredGraph) -> (r: bool)
    ensures
        r == trusted(*file),
        r ==> file.record is Some,
{
    reveal(trusted);
    match &file.record {
        Some(g) => match g.validate() {
            Ok(()) => match safe_id_filename(g.graph_id.as_str()) {
                Ok(expected) => str_eq(expected.as_str(), file.stem.as_str()),
                Err(_) => false,
            },
            Err(_) => false,
        },
        None => false,
    }
}

/// How many of the first `n` files are not trusted.
pub open spec fn untrusted_count(files: Seq<StoredGraph>, n: int) -> nat
    decreases n,
{
    if n <= 0 {
        0
    } else {
        untrusted_count(files, n - 1) + if trusted(files[n - 1]) {
            0nat
        } else {
            1nat
        }
    }
}

/// The records of those of the first `n` files that are trusted.
pub open spec fn trusted_records(files: Seq<StoredGraph>, n: int) -> Seq<WorkGraphRecord>
    decreases n,
{
    if n <= 0 {
        Seq::empty()
    } else if trusted(files[n - 1]) {
        trusted_records(files, n - 1).push(files[n - 1].record->0)
    } else {
        trusted_records(files, n - 1)
    }
}

/// By identity.
pub open spec fn graph_ranks(graphs: Seq<WorkGraphRecord>) -> Seq<Rank> {
    Seq::new(
        graphs.len(),
        |i: int| Rank { rank: 0, minor: 0, first: graphs[i].graph_id@, second: Seq::empty() },
    )
}

/// How stored graphs are listed.
pub open spec fn graphs_listed(
    files: Seq<StoredGraph>,
    listed: Seq<usize>,
    untrusted: nat,
) -> bool {
    &&& untrusted == untrusted_count(files, files.len() as int)
    &&& listed.len() == trusted_records(files, files.len() as int).len()
    &&& (forall|j: int|
        0 <= j < listed.len() ==> #[trigger] listed[j] < files.len() && files[listed[j] as int].record
            == Some(
            trusted_records(files, files.len() as int)[order_of(
                graph_ranks(trusted_records(files, files.len() as int)),
            )[j] as int],
        ))
}

/// Which of the files of the ledger are trusted, in the order of their
/// identities, and how many are not: a broken ledger must not look healthy.
/// The positions are those of the files.
pub fn list_graphs(files: &Vec<StoredGraph>) -> (r: (Vec<usize>, usize))
    ensures
        graphs_listed(
            files@,
            r.0@,
            r.1 as nat,
        ),
{
    let mut found: Vec<usize> = Vec::new();
    let mut keys: Vec<SortKey> = Vec::new();
    let mut skipped: usize = 0;
    let mut i: usize = 0;
    while i < files.len()
        invariant
            i <= files@.len(),
            skipped <= i,
            skipped == untrusted_count(files@, i as int),
            found@.len() == trusted_records(files@, i as int).len(),
            keys@.len() == found@.len(),
            forall|j: int|
                0 <= j < found@.len() ==> #[trigger] found@[j] < i && files@[found@[j] as int].record
                    == Some(trusted_records(files@, i as int)[j]),
            forall|j: int|
                0 <= j < keys@.len() ==> (#[trigger] keys@[j])@ == graph_ranks(
                    trusted_records(files@, i as int),
                )[j],
        decreases files.len() - i,
    {
        if is_trusted(&files[i]) {
            match &files[i].record {
                Some(g) => {
                    found.push(i);
                    keys.push(
                        SortKey {
                            rank: 0,
                            minor: 0,
                            first: copy(g.graph_id.as_str()),
                            second: String::new(),
                        },
                    );
                    proof {
                        assert(keys@.last().second@ =~= Seq::<char>::empty());
                    }
                },
                None => {},
            }
        } else {
            skipped = skipped + 1;
        }
        i = i + 1;
    }
    let ghost all = trusted_records(files@, files@.len() as int);
    let order: Vec<usize> = sorted_order(&keys);
    proof {
        assert(ranks(keys@) =~= graph_ranks(all));
    }
    let mut list: Vec<usize> = Vec::new();
    let mut k: usize = 0;
    while k < order.len()
        invariant
            k <= order@.len(),
            order@.len() == found@.len(),
            all == trusted_records(files@, files@.len() as int),
            order@ == order_of(graph_ranks(all)),
            found@.len() == all.len(),
            forall|j: int| 0 <= j < order@.len() ==> 0 <= #[trigger] order@[j] < found@.len(),
            forall|j: int|
                0 <= j < found@.len() ==> #[trigger] found@[j] < files@.len()
                    && files@[found@[j] as int].record == Some(all[j]),
            list@.len() == k,
            forall|j: int|
                0 <= j < k ==> #[trigger] list@[j] < files@.len() && files@[list@[j] as int].record
                    == Some(all[order@[j] as int]),
        decreases order.len() - k,
    {
        list.push(found[order[k]]);
        k = k + 1;
    }
    (list, skipped)
}

/// A stored graph is given back as it is, exactly where it is sound and the one
/// that was asked for.
pub proof fn graphs_are_read_as_stored(
    record: WorkGraphRecord,
    graph_id: Seq<char>,
    r: Result<WorkGraphRecord, OrchError>,
)
    requires
        graph_loading(record, graph_id, r),
    ensures
        r is Ok <==> graph_record_fault(record) is None && record.graph_id@ == graph_id,
        r is Ok ==> r->Ok_0 == record,
{
}

} // verus!
