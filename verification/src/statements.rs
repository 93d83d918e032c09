//! Builders for the statement text the storage engine executes: attaching a
//! partition with its table, inserting one record, and the merged read over
//! all hot partitions. Partition names inside the text come only from
//! `PartitionId`, never from raw input, so the interpolation is safe by
//! construction; record fields are always bound as parameters.

use crate::catalog::Catalog;
use crate::date::Date;
use crate::partition::{digit_char, id_seq, identifier_of, PartitionId, PartitionKey};
use crate::window::HotWindow;
use vstd::prelude::*;

verus! {

/// The text that attaches the partition's backing file under its canonical
/// name and creates the record table, both phrased as "if not exists" so a
/// repeat is harmless.
pub open spec fn attach_seq(k: PartitionKey) -> Seq<char> {
    "attach if not exists 'repositories/"@ + id_seq(k) + ".db' as \""@ + id_seq(k)
        + "\"; create table if not exists \""@ + id_seq(k)
        + "\".users (id bigint, name text not null, registered_date date not null);"@
}

/// The parameterized insert into the partition's record table.
pub open spec fn insert_seq(k: PartitionKey) -> Seq<char> {
    "insert into \""@ + id_seq(k) + "\".users values (?, ?, ?) returning *"@
}

/// The read of one partition's whole record table.
pub open spec fn select_fragment_seq(k: PartitionKey) -> Seq<char> {
    "select * from \""@ + id_seq(k) + "\".users"@
}

/// The glue between two per-partition reads.
pub open spec fn separator_seq() -> Seq<char> {
    " union all "@
}

/// The union of the per-partition reads of `keys`, in the order given.
pub open spec fn union_seq(keys: Seq<PartitionKey>) -> Seq<char>
    decreases keys.len(),
{
    if keys.len() == 0 {
        Seq::<char>::empty()
    } else if keys.len() == 1 {
        select_fragment_seq(keys[0])
    } else {
        union_seq(keys.drop_last()) + separator_seq() + select_fragment_seq(keys.last())
    }
}

/// The keys of `keys` that fall inside the window, in their original order.
pub open spec fn hot_keys(keys: Seq<PartitionKey>, w: HotWindow) -> Seq<PartitionKey>
    decreases keys.len(),
{
    if keys.len() == 0 {
        Seq::<PartitionKey>::empty()
    } else if w.spec_is_hot(keys.last()) {
        hot_keys(keys.drop_last(), w).push(keys.last())
    } else {
        hot_keys(keys.drop_last(), w)
    }
}

/// Window inclusion: the merged read covers exactly the recorded keys whose
/// month lies inside the hot window.
pub proof fn lemma_hot_keys_membership(keys: Seq<PartitionKey>, w: HotWindow, k: PartitionKey)
    ensures
        hot_keys(keys, w).contains(k) <==> keys.contains(k) && w.spec_is_hot(k),
    decreases keys.len(),
{
    if keys.len() > 0 {
        let front = keys.drop_last();
        let last = keys.last();
        lemma_hot_keys_membership(front, w, k);
        assert(keys.contains(k) <==> front.contains(k) || last == k) by {
            if keys.contains(k) {
                let i = choose|i: int| 0 <= i < keys.len() && keys[i] == k;
                if i < keys.len() - 1 {
                    assert(front[i] == k);
                }
            }
            if front.contains(k) {
                let i = choose|i: int| 0 <= i < front.len() && front[i] == k;
                assert(keys[i] == k);
            }
            if last == k {
                assert(keys[keys.len() - 1] == k);
            }
        };
        if w.spec_is_hot(last) {
            let h = hot_keys(front, w);
            assert(hot_keys(keys, w) == h.push(last));
            assert(h.push(last).contains(k) <==> h.contains(k) || last == k) by {
                if h.push(last).contains(k) {
                    let i = choose|i: int| 0 <= i < h.push(last).len() && h.push(last)[i] == k;
                    if i < h.len() {
                        assert(h[i] == k);
                    }
                }
                if h.contains(k) {
                    let i = choose|i: int| 0 <= i < h.len() && h[i] == k;
                    assert(h.push(last)[i] == k);
                }
                assert(h.push(last)[h.len() as int] == last);
            };
        }
    }
}

/// Deterministic ordering: filtering a catalog that ascends strictly on the
/// month scale down to its hot keys keeps that ascent, so the merged read
/// names its partitions in ascending key order.
#[verifier::rlimit(50)]
pub proof fn lemma_hot_keys_sorted(keys: Seq<PartitionKey>, w: HotWindow)
    requires
        forall|i: int, j: int|
            0 <= i < j < keys.len() ==> (#[trigger] keys[i]).month_index() < (
            #[trigger] keys[j]).month_index(),
    ensures
        forall|i: int, j: int|
            0 <= i < j < hot_keys(keys, w).len() ==> (#[trigger] hot_keys(keys, w)[i]).month_index()
                < (#[trigger] hot_keys(keys, w)[j]).month_index(),
    decreases keys.len(),
{
    if keys.len() > 0 {
        let front = keys.drop_last();
        let last = keys.last();
        assert forall|i: int, j: int| 0 <= i < j < front.len() implies (
        #[trigger] front[i]).month_index() < (#[trigger] front[j]).month_index() by {
            assert(front[i] == keys[i] && front[j] == keys[j]);
        };
        lemma_hot_keys_sorted(front, w);
        if w.spec_is_hot(last) {
            let h = hot_keys(front, w);
            assert(hot_keys(keys, w) == h.push(last));
            assert forall|i: int| 0 <= i < h.len() implies (#[trigger] h[i]).month_index()
                < last.month_index() by {
                assert(h.contains(h[i]));
                lemma_hot_keys_membership(front, w, h[i]);
                let j = choose|j: int| 0 <= j < front.len() && front[j] == h[i];
                assert(keys[j] == h[i]);
                assert(keys[keys.len() - 1] == last);
            };
            assert forall|i: int, j: int| 0 <= i < j < h.push(last).len() implies (
            #[trigger] h.push(last)[i]).month_index() < (#[trigger] h.push(last)[j]).month_index()
                by {
                if j < h.len() {
                    assert(h.push(last)[i] == h[i] && h.push(last)[j] == h[j]);
                } else {
                    assert(h.push(last)[j] == last);
                    assert(h.push(last)[i] == h[i]);
                }
            };
        } else {
            assert(hot_keys(keys, w) == hot_keys(front, w));
        }
    }
}

/// The attach-and-create-table statement for one partition.
pub fn attach_statement(id: &PartitionId) -> (s: String)
    requires
        id.wf(),
    ensures
        s@ == attach_seq(id.key()),
{
    let mut s = String::from_str("attach if not exists 'repositories/");
    s.append(id.as_str());
    s.append(".db' as \"");
    s.append(id.as_str());
    s.append("\"; create table if not exists \"");
    s.append(id.as_str());
    s.append("\".users (id bigint, name text not null, registered_date date not null);");
    proof {
        assert(s@ =~= attach_seq(id.key()));
    }
    s
}

/// The parameterized insert statement for one partition.
pub fn insert_statement(id: &PartitionId) -> (s: String)
    requires
        id.wf(),
    ensures
        s@ == insert_seq(id.key()),
{
    let mut s = String::from_str("insert into \"");
    s.append(id.as_str());
    s.append("\".users values (?, ?, ?) returning *");
    proof {
        assert(s@ =~= insert_seq(id.key()));
    }
    s
}

/// The merged read over every hot partition of the catalog, in ascending
/// key order; nothing when no recorded partition is hot, so no query needs
/// to reach the engine at all.
pub fn merged_query(c: &Catalog, w: &HotWindow) -> (r: Option<String>)
    requires
        c.wf(),
        w.wf(),
    ensures
        match r {
            None => hot_keys(c@, *w) == Seq::<PartitionKey>::empty(),
            Some(s) => hot_keys(c@, *w).len() > 0 && s@ == union_seq(hot_keys(c@, *w)),
        },
{
    let mut text = String::new();
    let mut any = false;
    let n = c.len();
    let mut i: usize = 0;
    while i < n
        invariant
            c.wf(),
            w.wf(),
            n == c@.len(),
            i <= n,
            any ==> hot_keys(c@.take(i as int), *w).len() > 0 && text@ == union_seq(
                hot_keys(c@.take(i as int), *w),
            ),
            !any ==> hot_keys(c@.take(i as int), *w) == Seq::<PartitionKey>::empty() && text@
                == Seq::<char>::empty(),
        decreases n - i,
    {
        let k = c.key_at(i);
        let ghost before = hot_keys(c@.take(i as int), *w);
        proof {
            assert(c@.take(i + 1).drop_last() =~= c@.take(i as int));
            assert(c@.take(i + 1).last() == c@[i as int]);
        }
        if crate::window::is_hot(w, &k) {
            let id = identifier_of(&k);
            if any {
                text.append(" union all ");
            }
            let fragment = select_fragment(&id);
            text.append(fragment.as_str());
            proof {
                let now = hot_keys(c@.take(i + 1), *w);
                assert(now == before.push(k));
                assert(now.drop_last() =~= before);
                assert(now.last() == k);
                if before.len() == 0 {
                    assert(now.len() == 1 && now[0] == k);
                    assert(union_seq(now) == select_fragment_seq(k));
                    assert(text@ =~= select_fragment_seq(k));
                } else {
                    assert(union_seq(now) == union_seq(before) + separator_seq()
                        + select_fragment_seq(k));
                    assert(text@ == union_seq(before) + " union all "@ + select_fragment_seq(k));
                }
            }
            any = true;
        }
        i += 1;
    }
    proof {
        assert(c@.take(n as int) =~= c@);
    }
    if any {
        Some(text)
    } else {
        None
    }
}

/// The read of one partition's record table, as one leg of the union.
pub fn select_fragment(id: &PartitionId) -> (s: String)
    requires
        id.wf(),
    ensures
        s@ == select_fragment_seq(id.key()),
{
    let mut s = String::from_str("select * from \"");
    s.append(id.as_str());
    s.append("\".users");
    proof {
        assert(s@ =~= select_fragment_seq(id.key()));
    }
    s
}

/// The `YYYY-MM-DD` literal of a date, for binding a date as a textual
/// parameter.
pub open spec fn date_seq(d: Date) -> Seq<char> {
    seq![
        digit_char(d.year as int / 1000),
        digit_char((d.year as int / 100) % 10),
        digit_char((d.year as int / 10) % 10),
        digit_char(d.year as int % 10),
        '-',
        digit_char(d.month as int / 10),
        digit_char(d.month as int % 10),
        '-',
        digit_char(d.day as int / 10),
        digit_char(d.day as int % 10),
    ]
}

/// The `YYYY-MM-DD` text of a date.
pub fn date_literal(d: &Date) -> (s: String)
    requires
        d.valid(),
    ensures
        s@ == date_seq(*d),
{
    let mut s = String::new();
    s.append(crate::partition::digit_str(d.year / 1000));
    s.append(crate::partition::digit_str((d.year / 100) % 10));
    s.append(crate::partition::digit_str((d.year / 10) % 10));
    s.append(crate::partition::digit_str(d.year % 10));
    s.append("-");
    s.append(crate::partition::digit_str(d.month / 10));
    s.append(crate::partition::digit_str(d.month % 10));
    s.append("-");
    s.append(crate::partition::digit_str(d.day / 10));
    s.append(crate::partition::digit_str(d.day % 10));
    proof {
        reveal_strlit("-");
        assert(s@ =~= date_seq(*d));
    }
    s
}

} // verus!
