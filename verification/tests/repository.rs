//! The repository facade: attach plans, insert statements, and the merged
//! read over the hot window.

use partition_store::date::Date;
use partition_store::entity::User;
use partition_store::repository::{degraded_read_result, Repository};

fn user(id: i64, name: &str, year: u32, month: u32, day: u32) -> User {
    User { id, name: name.to_string(), registered_date: Date { year, month, day } }
}

#[test]
fn attach_statement_is_if_not_exists_under_the_canonical_name() {
    let repo = Repository::new();
    let d = Date { year: 2024, month: 1, day: 10 };
    let stmt = repo.ensure_plan(&d).expect("fresh repository must plan an attach");
    assert_eq!(
        stmt,
        "attach if not exists 'repositories/202401.db' as \"202401\"; create table if not exists \"202401\".users (id bigint, name text not null, registered_date date not null);"
    );
}

#[test]
fn ensure_is_idempotent_within_a_month() {
    let mut repo = Repository::new();
    let d1 = Date { year: 2024, month: 3, day: 5 };
    let d2 = Date { year: 2024, month: 3, day: 28 };
    assert!(repo.ensure_plan(&d1).is_some());
    repo.record_attached(&d1);
    assert_eq!(repo.attached_count(), 1);
    assert!(repo.ensure_plan(&d2).is_none());
    repo.record_attached(&d2);
    assert_eq!(repo.attached_count(), 1);
    let other = Date { year: 2024, month: 4, day: 1 };
    assert!(repo.ensure_plan(&other).is_some());
}

#[test]
fn create_plan_targets_the_records_own_month() {
    let mut repo = Repository::new();
    let alice = user(1, "Alice", 2024, 1, 10);
    assert!(alice.is_valid());
    let plan = repo.create_plan(&alice);
    let attach = plan.attach.expect("first write to a month must attach");
    assert!(attach.contains("'repositories/202401.db'"));
    assert_eq!(
        plan.insert,
        "insert into \"202401\".users values (?, ?, ?) returning *"
    );
    assert_eq!(plan.date_param, "2024-01-10");
    repo.record_attached(&alice.registered_date);
    let again = repo.create_plan(&alice);
    assert!(again.attach.is_none());
    assert_eq!(again.insert, plan.insert);
}

#[test]
fn create_plan_pads_short_years_and_months() {
    let repo = Repository::new();
    let early = user(7, "Avitus", 476, 9, 4);
    let plan = repo.create_plan(&early);
    assert_eq!(
        plan.insert,
        "insert into \"047609\".users values (?, ?, ?) returning *"
    );
    assert_eq!(plan.date_param, "0476-09-04");
}

#[test]
fn list_covers_exactly_the_hot_partitions() {
    let mut repo = Repository::new();
    let alice = user(1, "Alice", 2024, 1, 10);
    let bob = user(2, "Bob", 2022, 1, 10);
    let alice_plan = repo.create_plan(&alice);
    assert!(alice_plan.attach.is_some());
    repo.record_attached(&alice.registered_date);
    let bob_plan = repo.create_plan(&bob);
    assert!(bob_plan.attach.is_some());
    repo.record_attached(&bob.registered_date);
    assert_eq!(repo.attached_count(), 2);
    let now = Date { year: 2024, month: 6, day: 1 };
    let query = repo.list_plan(&now).expect("one partition is hot");
    assert_eq!(query, "select * from \"202401\".users");
}

#[test]
fn list_merges_hot_partitions_in_ascending_key_order() {
    let mut repo = Repository::new();
    for d in [
        Date { year: 2024, month: 3, day: 1 },
        Date { year: 2023, month: 11, day: 12 },
        Date { year: 2024, month: 1, day: 31 },
        Date { year: 2020, month: 1, day: 1 },
    ] {
        repo.record_attached(&d);
    }
    let now = Date { year: 2024, month: 6, day: 1 };
    let query = repo.list_plan(&now).expect("three partitions are hot");
    assert_eq!(
        query,
        "select * from \"202311\".users union all select * from \"202401\".users union all select * from \"202403\".users"
    );
}

#[test]
fn list_of_empty_catalog_plans_no_query() {
    let repo = Repository::new();
    let now = Date { year: 2024, month: 6, day: 1 };
    assert_eq!(repo.list_plan(&now), None);
    assert!(degraded_read_result().is_empty());
}

#[test]
fn list_of_only_cold_partitions_plans_no_query() {
    let mut repo = Repository::new();
    repo.record_attached(&Date { year: 2020, month: 5, day: 2 });
    repo.record_attached(&Date { year: 2023, month: 5, day: 31 });
    let now = Date { year: 2024, month: 6, day: 1 };
    assert_eq!(repo.list_plan(&now), None);
}

#[test]
fn repeated_same_month_creates_attach_once() {
    let mut repo = Repository::new();
    let mut attaches = 0;
    for i in 0..5i64 {
        let u = user(i, "Worker", 2024, 2, 1 + i as u32);
        let plan = repo.create_plan(&u);
        if plan.attach.is_some() {
            attaches += 1;
        }
        assert_eq!(
            plan.insert,
            "insert into \"202402\".users values (?, ?, ?) returning *"
        );
        repo.record_attached(&u.registered_date);
    }
    assert_eq!(attaches, 1);
    assert_eq!(repo.attached_count(), 1);
}

#[test]
fn startup_scan_adopts_only_canonical_stems() {
    let mut repo = Repository::new();
    assert!(repo.adopt_plan("journal").is_none());
    assert!(repo.adopt_plan("202313").is_none());
    assert!(repo.adopt_plan("2023121").is_none());
    let (date, attach) = repo.adopt_plan("202312").expect("a canonical stem is adopted");
    assert_eq!(date, Date { year: 2023, month: 12, day: 1 });
    assert!(attach.contains("'repositories/202312.db'"));
    repo.record_attached(&date);
    assert!(repo.adopt_plan("202312").is_none());
    assert_eq!(repo.attached_count(), 1);
}

#[test]
fn records_with_empty_names_are_rejected_up_front() {
    let nameless = user(3, "", 2024, 1, 1);
    assert!(!nameless.is_valid());
    let impossible = user(4, "Eve", 2023, 2, 29);
    assert!(!impossible.is_valid());
    let fine = user(5, "Eve", 2023, 2, 28);
    assert!(fine.is_valid());
}
