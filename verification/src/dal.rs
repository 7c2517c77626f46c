//! Data-access helpers whose logic does not touch the database: query texts and
//! arguments, status names, row conversions.
use vstd::prelude::*;
use crate::text::{decimal, push_decimal, str_eq};
use vstd::std_specs::convert::FromSpec;
use crate::types::reversed;

verus! {

// ---------------------------------------------------------------------------
// Application monitor

/// Filter of the application-monitor listing: each present field narrows it.
pub struct QueryStatus {
    pub ip: Option<String>,
    pub app_name: Option<String>,
    pub start_time: Option<i64>,
    pub end_time: Option<i64>,
}

/// Access to the `application_monitor` table through a storage handle.
pub struct ApplicationMonitorDal<S> {
    pub storage: S,
}

/// The condition `" AND (<column> $<n>)"` for argument `n`.
pub open spec fn arg_condition(column: Seq<char>, n: nat) -> Seq<char> {
    " AND ("@ + column + " $"@ + decimal(n) + ")"@
}

/// The `WHERE` condition of a filter and the number of the next free query argument:
/// each present field adds a condition on the next argument, in the order
/// ip (prefix match), app name, start-time lower bound, start-time upper bound.
pub open spec fn where_clause(ip: bool, app: bool, start: bool, end: bool) -> (Seq<char>, nat) {
    let n1: nat = 1;
    let c1 = if ip { arg_condition("ip like"@, n1) } else { seq![] };
    let n2: nat = if ip { n1 + 1 } else { n1 };
    let c2 = if app { arg_condition("app_name ="@, n2) } else { seq![] };
    let n3: nat = if app { n2 + 1 } else { n2 };
    let c3 = if start { arg_condition("start_at >="@, n3) } else { seq![] };
    let n4: nat = if start { n3 + 1 } else { n3 };
    let c4 = if end { arg_condition("start_at <="@, n4) } else { seq![] };
    let n5: nat = if end { n4 + 1 } else { n4 };
    ("(1=1)"@ + c1 + c2 + c3 + c4, n5)
}

fn push_arg_condition(out: &mut String, column: &str, n: u8)
    ensures
        final(out)@ == old(out)@ + arg_condition(column@, n as nat),
{
    let ghost start = out@;
    out.append(" AND (");
    out.append(column);
    out.append(" $");
    push_decimal(out, n as u64);
    out.append(")");
    assert(out@ =~= start + arg_condition(column@, n as nat));
}

/// The head of the count query, up to its `WHERE` condition.
pub open spec fn count_query_head() -> Seq<char> { "select count(1) AS \"total\" from (\n            SELECT count(1)  FROM application_monitor\n            WHERE "@ }

/// The tail of the count query, after its `WHERE` condition.
pub open spec fn count_query_tail() -> Seq<char> { "\n            group by ip,app_name) b\n            "@ }

/// The head of the listing query, up to its `where` condition.
pub open spec fn listing_query_head() -> Seq<char> { "WITH Re AS (  \n                SELECT   \n                    app_name, ip, start_at as start_time, heartbeat_update_at,heartbeat_time,\n                    ROW_NUMBER() OVER(PARTITION BY app_name, ip ORDER BY id DESC) as rn  \n                FROM   \n                    application_monitor\n                where "@ }

/// The listing query between its condition and the offset argument number.
pub open spec fn listing_query_middle() -> Seq<char> { "\n            )  \n            SELECT   \n                app_name, ip, start_time, heartbeat_update_at,heartbeat_time\n            FROM   \n                Re  \n            WHERE   \n                rn = 1\n            ORDER BY start_time desc\n            OFFSET $"@ }

/// The listing query between the offset and limit argument numbers.
pub open spec fn listing_query_limit() -> Seq<char> { " LIMIT $"@ }

/// The tail of the listing query.
pub open spec fn listing_query_tail() -> Seq<char> { "\n            "@ }

/// The listing keeps the latest entry of each (app name, ip) pair: its rows are numbered
/// within each pair from the greatest id down, and only the first is selected.
pub proof fn law_listing_keeps_latest_entry()
    ensures
        listing_query_head().subrange(155, 222)
            == "ROW_NUMBER() OVER(PARTITION BY app_name, ip ORDER BY id DESC) as rn"@,
        listing_query_middle().subrange(194, 200) == "rn = 1"@,
{
    reveal_strlit("WITH Re AS (  \n                SELECT   \n                    app_name, ip, start_at as start_time, heartbeat_update_at,heartbeat_time,\n                    ROW_NUMBER() OVER(PARTITION BY app_name, ip ORDER BY id DESC) as rn  \n                FROM   \n                    application_monitor\n                where ");
    reveal_strlit("ROW_NUMBER() OVER(PARTITION BY app_name, ip ORDER BY id DESC) as rn");
    reveal_strlit("\n            )  \n            SELECT   \n                app_name, ip, start_time, heartbeat_update_at,heartbeat_time\n            FROM   \n                Re  \n            WHERE   \n                rn = 1\n            ORDER BY start_time desc\n            OFFSET $");
    reveal_strlit("rn = 1");
    assert(listing_query_middle().subrange(194, 200) =~= "rn = 1"@);
    assert(listing_query_head().subrange(155, 222)
        =~= "ROW_NUMBER() OVER(PARTITION BY app_name, ip ORDER BY id DESC) as rn"@);
}

impl<S> ApplicationMonitorDal<S> {
    /// A data-access object over the storage handle.
    pub fn new(storage: S) -> (r: Self)
        ensures
            r.storage == storage,
    {
        ApplicationMonitorDal { storage }
    }

    /// The `WHERE` condition of the filter and the number of the next free argument.
    pub fn build_where_clause(&self, filter: &QueryStatus) -> (r: (String, u8))
        ensures
            ({
                let (w, n) = where_clause(filter.ip is Some, filter.app_name is Some,
                    filter.start_time is Some, filter.end_time is Some);
                r.0@ == w && r.1 == n
            }),
    {
        let mut arg_index: u8 = 1;
        let mut where_sql = String::new();
        where_sql.append("(1=1)");
        let ghost w0 = where_sql@;
        if filter.ip.is_some() {
            push_arg_condition(&mut where_sql, "ip like", arg_index);
            arg_index = arg_index + 1;
        }
        if filter.app_name.is_some() {
            push_arg_condition(&mut where_sql, "app_name =", arg_index);
            arg_index = arg_index + 1;
        }
        if filter.start_time.is_some() {
            push_arg_condition(&mut where_sql, "start_at >=", arg_index);
            arg_index = arg_index + 1;
        }
        if filter.end_time.is_some() {
            push_arg_condition(&mut where_sql, "start_at <=", arg_index);
            arg_index = arg_index + 1;
        }
        proof {
            let (w, n) = where_clause(filter.ip is Some, filter.app_name is Some,
                filter.start_time is Some, filter.end_time is Some);
            assert(where_sql@ =~= w);
        }
        (where_sql, arg_index)
    }

    /// The query counting the distinct (ip, app name) pairs that match the filter.
    pub fn count_query(&self, filter: &QueryStatus) -> (r: String)
        ensures
            r@ == count_query_head() + where_clause(filter.ip is Some, filter.app_name is Some,
                filter.start_time is Some, filter.end_time is Some).0 + count_query_tail(),
    {
        let (where_sql, _arg_index) = self.build_where_clause(filter);
        let mut q = String::new();
        q.append("select count(1) AS \"total\" from (\n            SELECT count(1)  FROM application_monitor\n            WHERE ");
        q.append(where_sql.as_str());
        q.append("\n            group by ip,app_name) b\n            ");
        q
    }

    /// The query listing the latest entry of each (ip, app name) pair that matches the
    /// filter, newest start first, with the offset and the limit as the two arguments
    /// after the filter's.
    pub fn app_monitors_query(&self, filter: &QueryStatus) -> (r: String)
        ensures
            ({
                let (w, n) = where_clause(filter.ip is Some, filter.app_name is Some,
                    filter.start_time is Some, filter.end_time is Some);
                r@ == listing_query_head() + w + listing_query_middle() + decimal(n)
                    + listing_query_limit() + decimal(n + 1) + listing_query_tail()
            }),
            r@.subrange(155, 222) == "ROW_NUMBER() OVER(PARTITION BY app_name, ip ORDER BY id DESC) as rn"@,
    {
        let (where_sql, arg_index) = self.build_where_clause(filter);
        let mut q = String::new();
        q.append("WITH Re AS (  \n                SELECT   \n                    app_name, ip, start_at as start_time, heartbeat_update_at,heartbeat_time,\n                    ROW_NUMBER() OVER(PARTITION BY app_name, ip ORDER BY id DESC) as rn  \n                FROM   \n                    application_monitor\n                where ");
        q.append(where_sql.as_str());
        q.append("\n            )  \n            SELECT   \n                app_name, ip, start_time, heartbeat_update_at,heartbeat_time\n            FROM   \n                Re  \n            WHERE   \n                rn = 1\n            ORDER BY start_time desc\n            OFFSET $");
        push_decimal(&mut q, arg_index as u64);
        q.append(" LIMIT $");
        push_decimal(&mut q, arg_index as u64 + 1);
        q.append("\n            ");
        proof {
            law_listing_keeps_latest_entry();
            assert(listing_query_head().len() == 311) by {
                reveal_strlit("WITH Re AS (  \n                SELECT   \n                    app_name, ip, start_at as start_time, heartbeat_update_at,heartbeat_time,\n                    ROW_NUMBER() OVER(PARTITION BY app_name, ip ORDER BY id DESC) as rn  \n                FROM   \n                    application_monitor\n                where ");
            }
            assert(q@.subrange(155, 222) =~= listing_query_head().subrange(155, 222));
        }
        q
    }
}

/// The argument bound for the ip condition: the ip followed by `%`, a prefix match.
pub fn ip_like_pattern(ip: &str) -> (r: String)
    ensures
        r@ == ip@ + seq!['%'],
{
    let mut r = ip.to_owned();
    proof {
        reveal_strlit("%");
    }
    r.append("%");
    r
}


// ---------------------------------------------------------------------------
// Assignments

/// Status of a proving assignment.
#[derive(Clone, Copy, Debug, PartialEq, Eq, Structural)]
pub enum ProverResultStatus {
    AssignedNotCertified,
    BePunished,
    PickedByProver,
    Successful,
    Failed,
}

/// The name a status is stored under.
pub open spec fn status_name(s: ProverResultStatus) -> Seq<char> {
    match s {
        ProverResultStatus::AssignedNotCertified => "assigned_not_certified"@,
        ProverResultStatus::BePunished => "be_punished"@,
        ProverResultStatus::PickedByProver => "picked_by_prover"@,
        ProverResultStatus::Successful => "successful"@,
        ProverResultStatus::Failed => "failed"@,
    }
}

/// The status stored under a name, if any.
pub open spec fn status_from_name(n: Seq<char>) -> Option<ProverResultStatus> {
    if n == "assigned_not_certified"@ {
        Some(ProverResultStatus::AssignedNotCertified)
    } else if n == "be_punished"@ {
        Some(ProverResultStatus::BePunished)
    } else if n == "picked_by_prover"@ {
        Some(ProverResultStatus::PickedByProver)
    } else if n == "successful"@ {
        Some(ProverResultStatus::Successful)
    } else if n == "failed"@ {
        Some(ProverResultStatus::Failed)
    } else {
        None
    }
}

impl ProverResultStatus {
    /// The name the status is stored under (its display form).
    pub fn as_str(&self) -> (r: &'static str)
        ensures
            r@ == status_name(*self),
    {
        match self {
            ProverResultStatus::AssignedNotCertified => "assigned_not_certified",
            ProverResultStatus::BePunished => "be_punished",
            ProverResultStatus::PickedByProver => "picked_by_prover",
            ProverResultStatus::Successful => "successful",
            ProverResultStatus::Failed => "failed",
        }
    }

    /// Parses a stored status name.
    pub fn from_str(s: &str) -> (r: Option<ProverResultStatus>)
        ensures
            r == status_from_name(s@),
    {
        if str_eq(s, "assigned_not_certified") {
            Some(ProverResultStatus::AssignedNotCertified)
        } else if str_eq(s, "be_punished") {
            Some(ProverResultStatus::BePunished)
        } else if str_eq(s, "picked_by_prover") {
            Some(ProverResultStatus::PickedByProver)
        } else if str_eq(s, "successful") {
            Some(ProverResultStatus::Successful)
        } else if str_eq(s, "failed") {
            Some(ProverResultStatus::Failed)
        } else {
            None
        }
    }
}

/// Every status name parses back to its status.
pub proof fn law_status_name_round_trip(s: ProverResultStatus)
    ensures
        status_from_name(status_name(s)) == Some(s),
{
    reveal_strlit("assigned_not_certified");
    reveal_strlit("be_punished");
    reveal_strlit("picked_by_prover");
    reveal_strlit("successful");
    reveal_strlit("failed");
    // the names differ in their first character
    assert("assigned_not_certified"@[0] == 'a');
    assert("be_punished"@[0] == 'b');
    assert("picked_by_prover"@[0] == 'p');
    assert("successful"@[0] == 's');
    assert("failed"@[0] == 'f');
}

/// Access to the `assignments` table through a storage handle.
pub struct AssignmentsDal<S> {
    pub storage: S,
}

impl<S> AssignmentsDal<S> {
    /// A data-access object over the storage handle.
    pub fn new(storage: S) -> (r: Self)
        ensures
            r.storage == storage,
    {
        AssignmentsDal { storage }
    }

    /// The last status of an assignment, given the status name of its latest row
    /// (`None` when it has none): an assignment without rows counts as failed.
    pub fn last_status(row_status: Option<&str>) -> (r: ProverResultStatus)
        requires
            row_status is Some ==> status_from_name(row_status->0@) is Some,
        ensures
            r == match row_status {
                Some(n) => status_from_name(n@)->0,
                None => ProverResultStatus::Failed,
            },
    {
        match row_status {
            Some(n) => match ProverResultStatus::from_str(n) {
                Some(st) => st,
                None => ProverResultStatus::Failed,
            },
            None => ProverResultStatus::Failed,
        }
    }
}

/// Access to the `assignment_user_summary` table through a storage handle.
pub struct AssignmentUserSummaryDal<S> {
    pub storage: S,
}

impl<S> AssignmentUserSummaryDal<S> {
    /// A data-access object over the storage handle.
    pub fn new(storage: S) -> (r: Self)
        ensures
            r.storage == storage,
    {
        AssignmentUserSummaryDal { storage }
    }
}

/// Access to the `storage` and `factory_deps` tables through a storage handle.
pub struct StorageDal<S> {
    pub storage: S,
}

impl<S> StorageDal<S> {
    /// A data-access object over the storage handle.
    pub fn new(storage: S) -> (r: Self)
        ensures
            r.storage == storage,
    {
        StorageDal { storage }
    }
}

/// Access to the `storage_logs` table through a storage handle.
pub struct StorageLogsDal<S> {
    pub storage: S,
}

impl<S> StorageLogsDal<S> {
    /// A data-access object over the storage handle.
    pub fn new(storage: S) -> (r: Self)
        ensures
            r.storage == storage,
    {
        StorageLogsDal { storage }
    }
}

// ---------------------------------------------------------------------------
// Application monitor rows

/// A row of the application-monitor listing.
#[derive(Debug, Clone)]
pub struct AppMonitorStatus {
    pub app_name: String,
    pub ip: String,
    pub start_time: i64,
    pub heartbeat_update_at: i64,
    pub heartbeat_time: i32,
}

/// An application's status as shown to clients.
#[derive(Debug, Clone)]
pub struct ShowStatus {
    pub app_name: String,
    pub ip: String,
    pub start_time: i64,
    pub heartbeat_update_at: i64,
    pub heartbeat_time: i32,
}

impl From<AppMonitorStatus> for ShowStatus {
    fn from(tx: AppMonitorStatus) -> (r: ShowStatus)
        ensures
            r.app_name == tx.app_name,
            r.ip == tx.ip,
            r.start_time == tx.start_time,
            r.heartbeat_update_at == tx.heartbeat_update_at,
            r.heartbeat_time == tx.heartbeat_time,
    {
        ShowStatus {
            app_name: tx.app_name,
            ip: tx.ip,
            start_time: tx.start_time,
            heartbeat_update_at: tx.heartbeat_update_at,
            heartbeat_time: tx.heartbeat_time,
        }
    }
}

impl vstd::std_specs::convert::FromSpecImpl<AppMonitorStatus> for ShowStatus {
    open spec fn obeys_from_spec() -> bool {
        true
    }

    open spec fn from_spec(tx: AppMonitorStatus) -> ShowStatus {
        ShowStatus {
            app_name: tx.app_name,
            ip: tx.ip,
            start_time: tx.start_time,
            heartbeat_update_at: tx.heartbeat_update_at,
            heartbeat_time: tx.heartbeat_time,
        }
    }
}

/// A row is shown with every field kept under the same name.
pub proof fn law_show_status_keeps_fields(tx: AppMonitorStatus)
    ensures
        ShowStatus::from_spec(tx).app_name == tx.app_name,
        ShowStatus::from_spec(tx).ip == tx.ip,
        ShowStatus::from_spec(tx).start_time == tx.start_time,
        ShowStatus::from_spec(tx).heartbeat_update_at == tx.heartbeat_update_at,
        ShowStatus::from_spec(tx).heartbeat_time == tx.heartbeat_time,
{
}

/// The rows of a listing, as shown to clients.
pub fn show_statuses(rows: Vec<AppMonitorStatus>) -> (r: Vec<ShowStatus>)
    ensures
        r@.len() == rows@.len(),
        forall|i: int| 0 <= i < r@.len() ==> #[trigger] r@[i] == ShowStatus::from_spec(rows@[i]),
        forall|i: int| 0 <= i < r@.len() ==> {
            &&& (#[trigger] r@[i]).app_name == rows@[i].app_name
            &&& r@[i].ip == rows@[i].ip
            &&& r@[i].start_time == rows@[i].start_time
            &&& r@[i].heartbeat_update_at == rows@[i].heartbeat_update_at
            &&& r@[i].heartbeat_time == rows@[i].heartbeat_time
        },
{
    let ghost all = rows@;
    let n = rows.len();
    let mut rev = reversed(rows);
    let mut out: Vec<ShowStatus> = Vec::new();
    let mut j: usize = n;
    while j > 0
        invariant
            j <= n,
            n == all.len(),
            rev@.len() == j,
            out@.len() == n - j,
            forall|i: int| 0 <= i < j ==> #[trigger] rev@[i] == all[n - 1 - i],
            forall|i: int| 0 <= i < out@.len() ==> #[trigger] out@[i] == ShowStatus::from_spec(all[i]),
        decreases j,
    {
        let row = rev.pop().unwrap();
        out.push(ShowStatus::from(row));
        j = j - 1;
    }
    out
}

// ---------------------------------------------------------------------------
// Health check

/// Health of a component.
#[derive(Clone, Debug, PartialEq, Eq)]
pub enum CheckHealthStatus {
    Ready,
    NotReady(String),
}

/// Checks that the database can be reached through the connection pool.
#[derive(Clone, Debug)]
pub struct ConnectionPoolHealthCheck<P> {
    pub connection_pool: P,
}

impl<P> ConnectionPoolHealthCheck<P> {
    /// A health check over the pool.
    pub fn new(connection_pool: P) -> (r: ConnectionPoolHealthCheck<P>)
        ensures
            r.connection_pool == connection_pool,
    {
        ConnectionPoolHealthCheck { connection_pool }
    }
}

} // verus!
