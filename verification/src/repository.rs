//! The repository facade: the decision core behind the two operations of
//! the store — insert-and-return a record, and list the hot records.
//!
//! The facade owns the catalog (the cached strategy: cheaper per read than
//! re-querying the engine's live metadata, at the price of recording every
//! successful attach) and turns each operation into the exact statement
//! text the engine must run. The surrounding application executes that text
//! on its single serialized connection, binds record fields strictly as
//! parameters, and reports back which attaches succeeded.

use crate::catalog::Catalog;
use crate::date::Date;
use crate::entity::User;
use crate::partition::{
    identifier_of, key_of, parse_identifier, spec_key_of, spec_parse, PartitionKey,
};
use crate::statements::{
    attach_seq, attach_statement, date_literal, date_seq, hot_keys, insert_seq, insert_statement,
    merged_query, union_seq,
};
use crate::window::{hot_window, spec_window};
use vstd::prelude::*;

verus! {

/// The statements that store one record: an attach to run first when the
/// record's partition is not yet attached, then the parameterized insert,
/// whose third parameter is the record's date as the given literal.
pub struct CreatePlan {
    pub attach: Option<String>,
    pub insert: String,
    pub date_param: String,
}

/// The partition-management core, composed of the catalog of attached
/// partitions and the pure policies around it.
pub struct Repository {
    catalog: Catalog,
}

impl Repository {
    /// The owned catalog, as a specification value.
    pub closed spec fn catalog_spec(self) -> Catalog {
        self.catalog
    }

    /// The recorded partition keys, in ascending month order.
    pub open spec fn attached(self) -> Seq<PartitionKey> {
        self.catalog_spec()@
    }

    /// The catalog invariant: valid keys, strictly ascending months.
    pub open spec fn wf(self) -> bool {
        self.catalog_spec().wf()
    }

    /// Whether `k`'s partition is recorded as attached.
    pub open spec fn has(self, k: PartitionKey) -> bool {
        self.catalog_spec().has(k)
    }

    /// A fresh repository: nothing attached yet. The application follows
    /// this with one `ensure_plan`/`record_attached` round per partition
    /// file found on disk, skipping entries whose name does not parse.
    pub fn new() -> (r: Repository)
        ensures
            r.wf(),
            r.attached() == Seq::<PartitionKey>::empty(),
    {
        Repository { catalog: Catalog::new() }
    }

    /// How many partitions are recorded as attached.
    pub fn attached_count(&self) -> (n: usize)
        ensures
            n == self.attached().len(),
    {
        self.catalog.len()
    }

    /// The attach statement to run before touching `d`'s partition: the
    /// partition's backing file and table, both "if not exists", so that a
    /// lost race repeats harmlessly. Nothing when the partition is already
    /// recorded as attached.
    pub fn ensure_plan(&self, d: &Date) -> (p: Option<String>)
        requires
            self.wf(),
            d.valid(),
        ensures
            match p {
                None => self.has(spec_key_of(*d)),
                Some(s) => !self.has(spec_key_of(*d)) && s@ == attach_seq(spec_key_of(*d)),
            },
    {
        let k = key_of(*d);
        if self.catalog.contains(&k) {
            None
        } else {
            Some(attach_statement(&identifier_of(&k)))
        }
    }

    /// Record that `d`'s partition is attached, once its attach statement
    /// has succeeded. Recording an already-recorded partition changes
    /// nothing; otherwise membership grows by exactly this month's key.
    pub fn record_attached(&mut self, d: &Date)
        requires
            old(self).wf(),
            d.valid(),
        ensures
            final(self).wf(),
            final(self).has(spec_key_of(*d)),
            forall|x: PartitionKey| #[trigger]
                final(self).has(x) <==> old(self).has(x) || x == spec_key_of(*d),
            old(self).has(spec_key_of(*d)) ==> final(self).attached() == old(self).attached(),
    {
        self.catalog.insert(key_of(*d));
    }

    /// One step of the startup scan: given the name stem of a file found in
    /// the partitions directory, the date and attach statement for it — or
    /// nothing, either because the stem is no canonical identifier (such
    /// entries are ignored, never fatal) or because that month is already
    /// recorded.
    pub fn adopt_plan(&self, stem: &str) -> (p: Option<(Date, String)>)
        requires
            self.wf(),
        ensures
            match p {
                None => match spec_parse(stem@) {
                    None => true,
                    Some(k) => self.has(k),
                },
                Some((d, s)) => {
                    &&& spec_parse(stem@) == Some(spec_key_of(d))
                    &&& d.valid()
                    &&& !self.has(spec_key_of(d))
                    &&& s@ == attach_seq(spec_key_of(d))
                },
            },
    {
        let k = parse_identifier(stem)?;
        let d = Date { year: k.year, month: k.month, day: k.day };
        let stmt = self.ensure_plan(&d)?;
        Some((d, stmt))
    }

    /// The statements that store `user`: the attach for its month exactly
    /// when that partition is not yet attached, and the insert into its
    /// month's table, returning the stored row. Record fields travel as
    /// parameters; only the policy-built identifier stands in the text.
    pub fn create_plan(&self, user: &User) -> (p: CreatePlan)
        requires
            self.wf(),
            user.valid(),
        ensures
            (p.attach is Some) <==> !self.has(spec_key_of(user.registered_date)),
            p.attach matches Some(s) ==> s@ == attach_seq(spec_key_of(user.registered_date)),
            p.insert@ == insert_seq(spec_key_of(user.registered_date)),
            p.date_param@ == date_seq(user.registered_date),
    {
        let attach = self.ensure_plan(&user.registered_date);
        let k = key_of(user.registered_date);
        let insert = insert_statement(&identifier_of(&k));
        let date_param = date_literal(&user.registered_date);
        CreatePlan { attach, insert, date_param }
    }

    /// The merged read for the hot window around `now`: one query over
    /// every recorded partition whose month is hot, in ascending key order.
    /// Nothing when no recorded partition is hot — then no query reaches
    /// the engine and the record list is empty.
    pub fn list_plan(&self, now: &Date) -> (q: Option<String>)
        requires
            self.wf(),
            now.valid(),
            now.year >= 2,
        ensures
            match q {
                None => hot_keys(self.attached(), spec_window(*now)) == Seq::<
                    PartitionKey,
                >::empty(),
                Some(s) => hot_keys(self.attached(), spec_window(*now)).len() > 0 && s@
                    == union_seq(hot_keys(self.attached(), spec_window(*now))),
            },
    {
        let w = hot_window(*now);
        merged_query(&self.catalog, &w)
    }
}

/// The chosen read-failure policy: a merged read that fails at the engine
/// degrades to an empty record list instead of surfacing the error. This is
/// the one place that policy is encoded; flip it to propagation by having
/// the caller return its error instead of this value.
pub fn degraded_read_result() -> (r: Vec<User>)
    ensures
        r@ == Seq::<User>::empty(),
{
    Vec::new()
}

/// Ensuring a partition twice is idempotent: after an ensure for `d1` is
/// recorded, any date of the same month is already covered — its plan does
/// no attach work — and recording it again leaves the attached set as it
/// was.
pub proof fn lemma_ensure_idempotent(r0: Repository, r1: Repository, r2: Repository, d1: Date, d2: Date)
    requires
        d1.year == d2.year,
        d1.month == d2.month,
        forall|x: PartitionKey| #[trigger] r1.has(x) <==> r0.has(x) || x == spec_key_of(d1),
        forall|x: PartitionKey| #[trigger] r2.has(x) <==> r1.has(x) || x == spec_key_of(d2),
    ensures
        r1.has(spec_key_of(d2)),
        forall|x: PartitionKey| #[trigger] r2.has(x) <==> r1.has(x),
{
    assert(spec_key_of(d1) == spec_key_of(d2));
}

/// Round trip: after an ensure for `d` is recorded, a merged read whose
/// window contains `d`'s month covers exactly the partition the record was
/// stored in.
pub proof fn lemma_created_partition_is_read(r0: Repository, r1: Repository, d: Date, now: Date)
    requires
        r1.wf(),
        forall|x: PartitionKey| #[trigger] r1.has(x) <==> r0.has(x) || x == spec_key_of(d),
        spec_window(now).spec_is_hot(spec_key_of(d)),
    ensures
        hot_keys(r1.attached(), spec_window(now)).contains(spec_key_of(d)),
{
    assert(r1.has(spec_key_of(d)));
    crate::statements::lemma_hot_keys_membership(r1.attached(), spec_window(now), spec_key_of(d));
}

/// A record of a month outside the window is never covered by the merged
/// read, whatever is attached.
pub proof fn lemma_cold_partition_not_read(r: Repository, d: Date, now: Date)
    requires
        !spec_window(now).spec_is_hot(spec_key_of(d)),
    ensures
        !hot_keys(r.attached(), spec_window(now)).contains(spec_key_of(d)),
{
    crate::statements::lemma_hot_keys_membership(r.attached(), spec_window(now), spec_key_of(d));
}

/// The empty case: with no partition ever recorded, the merged read covers
/// nothing, so a list yields the empty record list without touching the
/// engine.
pub proof fn lemma_empty_catalog_lists_nothing(r: Repository, now: Date)
    requires
        r.attached() == Seq::<PartitionKey>::empty(),
    ensures
        hot_keys(r.attached(), spec_window(now)) == Seq::<PartitionKey>::empty(),
{
}

} // verus!
