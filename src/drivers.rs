//! What distinguishes the engines, chosen from the engine kind alone, and
//! the planning of row-update batches.

use vstd::prelude::*;
use vstd::string::*;
use crate::error::DbError;
use crate::models::{ConnectionConfig, DatabaseDriver, RowUpdate, UpdateResult};
use crate::sql_builder::{build_update_sql, update_buildable, update_sql, QuoteStyle};

verus! {

/// The engine-specific choices a driver makes.
#[derive(Debug, Clone, Copy, PartialEq, Eq, Structural)]
pub struct DriverProfile {
    pub driver: DatabaseDriver,
    /// How identifiers are quoted in generated statements.
    pub quote_style: QuoteStyle,
    /// Whether row updates are offered at all.
    pub supports_updates: bool,
    /// Whether a tagged statement can be located and killed server-side.
    pub supports_cancel: bool,
    /// Whether switching the active database tears the session down and
    /// reconnects (rather than only changing a request parameter).
    pub switch_by_reconnect: bool,
}

/// The profile of each engine.
pub open spec fn profile_of(driver: DatabaseDriver) -> DriverProfile {
    match driver {
        DatabaseDriver::Mysql => DriverProfile {
            driver,
            quote_style: QuoteStyle::Backtick,
            supports_updates: true,
            supports_cancel: true,
            switch_by_reconnect: true,
        },
        DatabaseDriver::Postgres => DriverProfile {
            driver,
            quote_style: QuoteStyle::DoubleQuote,
            supports_updates: true,
            supports_cancel: true,
            switch_by_reconnect: true,
        },
        DatabaseDriver::Clickhouse => DriverProfile {
            driver,
            quote_style: QuoteStyle::DoubleQuote,
            supports_updates: false,
            supports_cancel: false,
            switch_by_reconnect: false,
        },
    }
}

/// Chooses a driver from the engine kind; new engines are added here
/// without touching the session registry.
#[derive(Debug, Clone, Copy)]
pub struct DefaultDatabaseServiceFactory;

impl DefaultDatabaseServiceFactory {
    /// The profile of the driver for `driver`.
    pub fn create(&self, driver: &DatabaseDriver) -> (r: DriverProfile)
        ensures
            r == profile_of(*driver),
    {
        match driver {
            DatabaseDriver::Mysql => DriverProfile {
                driver: DatabaseDriver::Mysql,
                quote_style: QuoteStyle::Backtick,
                supports_updates: true,
                supports_cancel: true,
                switch_by_reconnect: true,
            },
            DatabaseDriver::Postgres => DriverProfile {
                driver: DatabaseDriver::Postgres,
                quote_style: QuoteStyle::DoubleQuote,
                supports_updates: true,
                supports_cancel: true,
                switch_by_reconnect: true,
            },
            DatabaseDriver::Clickhouse => DriverProfile {
                driver: DatabaseDriver::Clickhouse,
                quote_style: QuoteStyle::DoubleQuote,
                supports_updates: false,
                supports_cancel: false,
                switch_by_reconnect: false,
            },
        }
    }
}

/// The configuration a session is rebuilt from when the active database
/// changes: the same connection with only the database replaced. Engines
/// that switch by reconnecting tear the old session down and connect
/// again with it, rather than trusting an in-session switch.
pub fn with_database(config: ConnectionConfig, database: String) -> (r: ConnectionConfig)
    ensures
        r == (ConnectionConfig { database, ..config }),
{
    ConnectionConfig { database, ..config }
}

/// The statements of a batch, in order; an entry with no changes yields
/// none.
pub open spec fn batch_sql(updates: Seq<RowUpdate>, q: char) -> Seq<Seq<char>>
    decreases updates.len(),
{
    if updates.len() == 0 {
        Seq::<Seq<char>>::empty()
    } else {
        let rest = batch_sql(updates.drop_last(), q);
        let u = updates.last();
        if u.changes@.len() == 0 {
            rest
        } else {
            rest.push(update_sql(u.table_name@, u.changes@, u.primary_keys@, q))
        }
    }
}

/// Every entry with changes can be built into a statement.
pub open spec fn batch_buildable(updates: Seq<RowUpdate>) -> bool {
    forall|i: int|
        0 <= i < updates.len() ==> (#[trigger] updates[i]).changes@.len() == 0 || update_buildable(
            updates[i].table_name@,
            updates[i].changes@,
            updates[i].primary_keys@,
        )
}

/// Builds the statements of a batch of row updates for an engine. An entry
/// with no changes is skipped; any other entry that cannot be built fails
/// the whole batch before anything runs. Engines without update support
/// refuse every batch.
pub fn plan_updates(driver: DatabaseDriver, updates: &Vec<RowUpdate>) -> (r: Result<Vec<String>, DbError>)
    requires
        forall|i: int| 0 <= i < updates@.len() ==> (#[trigger] updates@[i]).wf(),
    ensures
        !profile_of(driver).supports_updates ==> r is Err && r->Err_0 is Unsupported,
        profile_of(driver).supports_updates ==> (r is Ok <==> batch_buildable(updates@)),
        r is Ok ==> r->Ok_0.deep_view() == batch_sql(updates@, profile_of(driver).quote_style.mark()),
{
    let profile = DefaultDatabaseServiceFactory.create(&driver);
    if !profile.supports_updates {
        return Err(DbError::Unsupported(String::from_str("Updates are not supported for ClickHouse")));
    }
    let ghost q = profile.quote_style.mark();
    let mut out: Vec<String> = Vec::new();
    let mut i: usize = 0;
    while i < updates.len()
        invariant
            i <= updates.len(),
            q == profile.quote_style.mark(),
            profile == profile_of(driver),
            profile.supports_updates,
            forall|k: int| 0 <= k < updates@.len() ==> (#[trigger] updates@[k]).wf(),
            batch_buildable(updates@.subrange(0, i as int)),
            out.deep_view() == batch_sql(updates@.subrange(0, i as int), q),
        decreases updates.len() - i,
    {
        assert(updates@.subrange(0, i as int + 1).drop_last() =~= updates@.subrange(0, i as int));
        let u = &updates[i];
        if u.changes.len() > 0 {
            match build_update_sql(u.table_name.as_str(), &u.changes, &u.primary_keys, profile.quote_style) {
                Ok(sql) => {
                    out.push(sql);
                },
                Err(e) => {
                    assert(!batch_buildable(updates@)) by {
                        assert(updates@[i as int] == *u);
                    }
                    return Err(e);
                },
            }
        }
        assert(out.deep_view() =~= batch_sql(updates@.subrange(0, i as int + 1), q));
        assert forall|j: int| 0 <= j < i + 1 implies (#[trigger] updates@.subrange(0, i as int + 1)[j]).changes@.len() == 0
            || update_buildable(
                updates@.subrange(0, i as int + 1)[j].table_name@,
                updates@.subrange(0, i as int + 1)[j].changes@,
                updates@.subrange(0, i as int + 1)[j].primary_keys@,
            ) by {
            if j < i {
                assert(updates@.subrange(0, i as int + 1)[j] == updates@.subrange(0, i as int)[j]);
            }
        }
        i = i + 1;
    }
    assert(updates@.subrange(0, updates.len() as int) =~= updates@);
    Ok(out)
}

/// An entry with no changes contributes nothing to a batch: the batch
/// without it builds the same statements, and succeeds or fails alike, so
/// the rows affected come from the other entries alone.
pub proof fn law_empty_change_set_is_skipped(updates: Seq<RowUpdate>, k: int, q: char)
    requires
        0 <= k < updates.len(),
        updates[k].changes@.len() == 0,
    ensures
        batch_sql(updates.remove(k), q) == batch_sql(updates, q),
        batch_buildable(updates.remove(k)) == batch_buildable(updates),
    decreases updates.len(),
{
    if k == updates.len() - 1 {
        assert(updates.remove(k) =~= updates.drop_last());
    } else {
        law_empty_change_set_is_skipped(updates.drop_last(), k, q);
        assert(updates.remove(k).drop_last() =~= updates.drop_last().remove(k));
        assert(updates.remove(k).last() == updates.last());
    }
    let removed = updates.remove(k);
    assert(batch_buildable(removed) == batch_buildable(updates)) by {
        if batch_buildable(updates) {
            assert forall|i: int| 0 <= i < removed.len() implies (#[trigger] removed[i]).changes@.len() == 0
                || update_buildable(removed[i].table_name@, removed[i].changes@, removed[i].primary_keys@) by {
                if i < k {
                    assert(removed[i] == updates[i]);
                } else {
                    assert(removed[i] == updates[i + 1]);
                }
            }
        }
        if batch_buildable(removed) {
            assert forall|i: int| 0 <= i < updates.len() implies (#[trigger] updates[i]).changes@.len() == 0
                || update_buildable(updates[i].table_name@, updates[i].changes@, updates[i].primary_keys@) by {
                if i < k {
                    assert(removed[i] == updates[i]);
                } else if i > k {
                    assert(removed[i - 1] == updates[i]);
                }
            }
        }
    }
}

/// The sum of a sequence of row counts.
pub open spec fn count_sum(counts: Seq<u64>) -> nat
    decreases counts.len(),
{
    if counts.len() == 0 {
        0
    } else {
        count_sum(counts.drop_last()) + counts.last() as nat
    }
}

/// The result of a batch whose statements changed `counts` rows each; the
/// total saturates at the largest `u64`.
pub fn finish_updates(counts: &Vec<u64>) -> (r: UpdateResult)
    ensures
        r.success,
        r.error is None,
        r.affected_rows == if count_sum(counts@) <= u64::MAX { count_sum(counts@) } else { u64::MAX as nat },
{
    let mut total: u64 = 0;
    let mut saturated = false;
    let mut i: usize = 0;
    while i < counts.len()
        invariant
            i <= counts.len(),
            !saturated ==> total == count_sum(counts@.subrange(0, i as int)),
            saturated ==> total == u64::MAX && count_sum(counts@.subrange(0, i as int)) > u64::MAX,
        decreases counts.len() - i,
    {
        assert(counts@.subrange(0, i as int + 1).drop_last() =~= counts@.subrange(0, i as int));
        if !saturated {
            if total > u64::MAX - counts[i] {
                saturated = true;
                total = u64::MAX;
            } else {
                total = total + counts[i];
            }
        }
        i = i + 1;
    }
    assert(counts@.subrange(0, counts.len() as int) =~= counts@);
    UpdateResult::success(total)
}

} // verus!
