//! The retention evaluator: a single newest-first sweep that hands entries to
//! keep-last and then to the daily, weekly, monthly and yearly quotas.
use vstd::prelude::*;
use std::collections::{HashSet, VecDeque};
use vstd::multiset::Multiset;

use crate::pattern::RetentionFile;
use crate::timestamp::{earlier, is_earlier, Timestamp};

verus! {

broadcast use vstd::seq_lib::group_seq_properties, vstd::std_specs::hash::group_hash_axioms;

/// The periods by which entries are grouped into buckets.
#[derive(Clone, Copy, Debug, PartialEq, Eq, Structural)]
pub enum Granularity {
    Daily,
    Weekly,
    Monthly,
    Yearly,
}

/// The bucket of a timestamp at a granularity. A day is its date, a week its
/// ISO week number together with its ISO week-year, a month its number alone
/// (without the year) and a year its number.
pub open spec fn bucket_key(g: Granularity, t: Timestamp) -> int {
    match g {
        Granularity::Daily => t.year as int * 10000 + t.month as int * 100 + t.day as int,
        Granularity::Weekly => t.iso_week_spec().0 * 100 + t.iso_week_spec().1,
        Granularity::Monthly => t.month as int,
        Granularity::Yearly => t.year as int,
    }
}

/// Computes the bucket of a well-formed timestamp.
pub fn bucket_of(g: Granularity, t: &Timestamp) -> (r: i64)
    requires
        t.wf(),
    ensures
        r as int == bucket_key(g, *t),
{
    match g {
        Granularity::Daily => t.year as i64 * 10000 + t.month as i64 * 100 + t.day as i64,
        Granularity::Weekly => {
            let (year, week) = t.iso_week();
            year as i64 * 100 + week as i64
        },
        Granularity::Monthly => t.month as i64,
        Granularity::Yearly => t.year as i64,
    }
}

/// Some entry of `keep` falls in bucket `k`.
pub open spec fn has_bucket(g: Granularity, keep: Seq<RetentionFile>, k: int) -> bool {
    exists|j: int| 0 <= j < keep.len() && bucket_key(g, #[trigger] keep[j].date) == k
}

/// One granularity's walk over the unclassified entries `rest`: an entry whose
/// bucket is already held by a kept entry is dropped, any other is kept and
/// uses up one of `quota`. The walk stops when the quota is spent or nothing
/// is left. The result is the new keep list, drop list and unclassified rest.
pub open spec fn sweep(
    g: Granularity,
    quota: nat,
    rest: Seq<RetentionFile>,
    keep: Seq<RetentionFile>,
    drop: Seq<RetentionFile>,
) -> (Seq<RetentionFile>, Seq<RetentionFile>, Seq<RetentionFile>)
    decreases rest.len(),
{
    if quota == 0 || rest.len() == 0 {
        (keep, drop, rest)
    } else if has_bucket(g, keep, bucket_key(g, rest[0].date)) {
        sweep(g, quota, rest.drop_first(), keep, drop.push(rest[0]))
    } else {
        sweep(g, (quota - 1) as nat, rest.drop_first(), keep.push(rest[0]), drop)
    }
}

/// Runs one granularity's walk when its quota is configured.
pub open spec fn stage(
    q: Option<usize>,
    g: Granularity,
    s: (Seq<RetentionFile>, Seq<RetentionFile>, Seq<RetentionFile>),
) -> (Seq<RetentionFile>, Seq<RetentionFile>, Seq<RetentionFile>) {
    match q {
        Some(n) => sweep(g, n as nat, s.2, s.0, s.1),
        None => s,
    }
}

/// Per-granularity quotas. An unset quota takes no part; all unset keeps
/// everything.
#[derive(Clone, Copy, Debug, PartialEq, Eq, Structural)]
pub struct RetentionPolicy {
    pub keep_last: Option<usize>,
    pub keep_hourly: Option<usize>,
    pub keep_daily: Option<usize>,
    pub keep_weekly: Option<usize>,
    pub keep_monthly: Option<usize>,
    pub keep_yearly: Option<usize>,
}

impl Default for RetentionPolicy {
    fn default() -> (r: Self)
        ensures
            r.is_identity_spec(),
    {
        RetentionPolicy {
            keep_last: None,
            keep_hourly: None,
            keep_daily: None,
            keep_weekly: None,
            keep_monthly: None,
            keep_yearly: None,
        }
    }
}

impl RetentionPolicy {
    pub open spec fn is_identity_spec(self) -> bool {
        &&& self.keep_last is None
        &&& self.keep_hourly is None
        &&& self.keep_daily is None
        &&& self.keep_weekly is None
        &&& self.keep_monthly is None
        &&& self.keep_yearly is None
    }

    /// True when no quota is set, so that every entry is kept.
    pub fn is_identity(&self) -> (r: bool)
        ensures
            r == self.is_identity_spec(),
    {
        self.keep_last.is_none() && self.keep_hourly.is_none() && self.keep_daily.is_none()
            && self.keep_weekly.is_none() && self.keep_monthly.is_none()
            && self.keep_yearly.is_none()
    }

    /// The (keep, drop) split of a newest-first entry list. Keep-last takes the
    /// first entries unconditionally; daily, weekly, monthly and yearly then
    /// continue the same sweep in that order; what no step reached is dropped.
    pub open spec fn retained(self, files: Seq<RetentionFile>) -> (Seq<RetentionFile>, Seq<RetentionFile>) {
        if self.is_identity_spec() {
            (files, Seq::empty())
        } else {
            let last: int = match self.keep_last {
                Some(n) => if n as int <= files.len() { n as int } else { files.len() as int },
                None => 0,
            };
            let s0 = (files.take(last), Seq::<RetentionFile>::empty(), files.skip(last));
            let s1 = stage(self.keep_daily, Granularity::Daily, s0);
            let s2 = stage(self.keep_weekly, Granularity::Weekly, s1);
            let s3 = stage(self.keep_monthly, Granularity::Monthly, s2);
            let s4 = stage(self.keep_yearly, Granularity::Yearly, s3);
            (s4.0, s4.1 + s4.2)
        }
    }

    /// Splits `files`, newest first, into the entries to keep and those to drop.
    pub fn retain(&self, files: Vec<RetentionFile>) -> (r: (Vec<RetentionFile>, Vec<RetentionFile>))
        requires
            forall|i: int| 0 <= i < files@.len() ==> (#[trigger] files@[i]).date.wf(),
        ensures
            (r.0@, r.1@) == self.retained(files@),
    {
        if self.is_identity() {
            return (files, Vec::new());
        }
        let mut files = files;
        let ghost all = files@;
        let mut rest: VecDeque<RetentionFile> = VecDeque::new();
        while files.len() > 0
            invariant
                files@ + rest@ == all,
            decreases files@.len(),
        {
            let f = files.pop().unwrap();
            rest.push_front(f);
        }
        assert(rest@ == all);
        let mut keep: Vec<RetentionFile> = Vec::new();
        let mut drop: Vec<RetentionFile> = Vec::new();
        let ghost last: int = match self.keep_last {
            Some(n) => if n as int <= all.len() { n as int } else { all.len() as int },
            None => 0,
        };
        if let Some(n) = self.keep_last {
            let mut i: usize = 0;
            while i < n && rest.len() > 0
                invariant
                    i <= n,
                    i <= all.len(),
                    keep@ == all.take(i as int),
                    rest@ == all.skip(i as int),
                    n == self.keep_last->0,
                decreases n - i,
            {
                let f = rest.pop_front().unwrap();
                keep.push(f);
                i = i + 1;
            }
            assert(i as int == last);
        }
        assert(keep@ == all.take(last) && rest@ == all.skip(last) && drop@ == Seq::<RetentionFile>::empty());
        if let Some(n) = self.keep_daily {
            retain_items(&mut rest, &mut keep, &mut drop, n, Granularity::Daily);
        }
        if let Some(n) = self.keep_weekly {
            retain_items(&mut rest, &mut keep, &mut drop, n, Granularity::Weekly);
        }
        if let Some(n) = self.keep_monthly {
            retain_items(&mut rest, &mut keep, &mut drop, n, Granularity::Monthly);
        }
        if let Some(n) = self.keep_yearly {
            retain_items(&mut rest, &mut keep, &mut drop, n, Granularity::Yearly);
        }
        let ghost dropped = drop@;
        let ghost remaining = rest@;
        while rest.len() > 0
            invariant
                drop@ + rest@ == dropped + remaining,
            decreases rest@.len(),
        {
            let f = rest.pop_front().unwrap();
            drop.push(f);
        }
        (keep, drop)
    }
}

proof fn lemma_has_bucket_push(g: Granularity, s: Seq<RetentionFile>, x: RetentionFile, k: int)
    ensures
        has_bucket(g, s.push(x), k) <==> has_bucket(g, s, k) || bucket_key(g, x.date) == k,
{
    if has_bucket(g, s.push(x), k) {
        let j = choose|j: int| 0 <= j < s.push(x).len() && bucket_key(g, #[trigger] s.push(x)[j].date) == k;
        if j < s.len() {
            assert(s.push(x)[j] == s[j]);
        }
    }
    if has_bucket(g, s, k) {
        let j = choose|j: int| 0 <= j < s.len() && bucket_key(g, #[trigger] s[j].date) == k;
        assert(s.push(x)[j] == s[j]);
    }
    if bucket_key(g, x.date) == k {
        assert(s.push(x)[s.len() as int] == x);
    }
}

/// Moves entries from the front of `files` into `keep` or `drop` by one
/// granularity's walk, until `count` new buckets have been kept or `files`
/// is empty.
pub fn retain_items(
    files: &mut VecDeque<RetentionFile>,
    keep: &mut Vec<RetentionFile>,
    drop: &mut Vec<RetentionFile>,
    count: usize,
    g: Granularity,
)
    requires
        forall|i: int| 0 <= i < old(files)@.len() ==> (#[trigger] old(files)@[i]).date.wf(),
        forall|i: int| 0 <= i < old(keep)@.len() ==> (#[trigger] old(keep)@[i]).date.wf(),
    ensures
        (final(keep)@, final(drop)@, final(files)@) == sweep(g, count as nat, old(files)@, old(keep)@, old(drop)@),
        forall|i: int| 0 <= i < final(files)@.len() ==> (#[trigger] final(files)@[i]).date.wf(),
        forall|i: int| 0 <= i < final(keep)@.len() ==> (#[trigger] final(keep)@[i]).date.wf(),
{
    let mut seen: HashSet<i64> = HashSet::new();
    let mut j: usize = 0;
    while j < keep.len()
        invariant
            j <= keep@.len(),
            keep@ == old(keep)@,
            forall|i: int| 0 <= i < keep@.len() ==> (#[trigger] keep@[i]).date.wf(),
            forall|k: i64| seen@.contains(k) <==> has_bucket(g, keep@.take(j as int), k as int),
        decreases keep@.len() - j,
    {
        let k = bucket_of(g, &keep[j].date);
        proof {
            assert(keep@.take(j + 1) == keep@.take(j as int).push(keep@[j as int]));
            assert forall|k2: i64| has_bucket(g, keep@.take(j + 1), k2 as int)
                <==> has_bucket(g, keep@.take(j as int), k2 as int) || k2 == k by {
                lemma_has_bucket_push(g, keep@.take(j as int), keep@[j as int], k2 as int);
            }
        }
        seen.insert(k);
        j = j + 1;
    }
    assert(keep@.take(keep@.len() as int) == keep@);
    let mut remaining: usize = count;
    while remaining > 0 && files.len() > 0
        invariant
            sweep(g, remaining as nat, files@, keep@, drop@) == sweep(g, count as nat, old(files)@, old(keep)@, old(drop)@),
            forall|k: i64| seen@.contains(k) <==> has_bucket(g, keep@, k as int),
            forall|i: int| 0 <= i < files@.len() ==> (#[trigger] files@[i]).date.wf(),
            forall|i: int| 0 <= i < keep@.len() ==> (#[trigger] keep@[i]).date.wf(),
        decreases files@.len(),
    {
        let f = files.pop_front().unwrap();
        let k = bucket_of(g, &f.date);
        let found = seen.contains(&k);
        proof {
            assert forall|k2: i64| has_bucket(g, keep@.push(f), k2 as int)
                <==> has_bucket(g, keep@, k2 as int) || k2 == k by {
                lemma_has_bucket_push(g, keep@, f, k2 as int);
            }
        }
        if found {
            drop.push(f);
        } else {
            seen.insert(k);
            keep.push(f);
            remaining = remaining - 1;
        }
    }
}

/// One walk neither loses nor invents entries: what it returns holds the same
/// entries as what it was given.
pub proof fn lemma_sweep_conserves(
    g: Granularity,
    quota: nat,
    rest: Seq<RetentionFile>,
    keep: Seq<RetentionFile>,
    drop: Seq<RetentionFile>,
)
    ensures
        ({
            let r = sweep(g, quota, rest, keep, drop);
            &&& r.0.len() + r.1.len() + r.2.len() == keep.len() + drop.len() + rest.len()
            &&& r.0.to_multiset().add(r.1.to_multiset()).add(r.2.to_multiset())
                == keep.to_multiset().add(drop.to_multiset()).add(rest.to_multiset())
        }),
    decreases rest.len(),
{
    if quota == 0 || rest.len() == 0 {
    } else {
        let x = rest[0];
        let tail = rest.drop_first();
        assert(rest == seq![x] + tail);
        vstd::seq_lib::lemma_multiset_commutative(seq![x], tail);
        assert(seq![x].to_multiset() =~= Multiset::empty().insert(x)) by {
            assert(seq![x] == Seq::<RetentionFile>::empty().push(x));
        }
        if has_bucket(g, keep, bucket_key(g, x.date)) {
            lemma_sweep_conserves(g, quota, tail, keep, drop.push(x));
            assert(drop.push(x).to_multiset() == drop.to_multiset().insert(x));
        } else {
            lemma_sweep_conserves(g, (quota - 1) as nat, tail, keep.push(x), drop);
            assert(keep.push(x).to_multiset() == keep.to_multiset().insert(x));
        }
        let r = sweep(g, quota, rest, keep, drop);
        assert(r.0.to_multiset().add(r.1.to_multiset()).add(r.2.to_multiset())
            =~= keep.to_multiset().add(drop.to_multiset()).add(rest.to_multiset()));
    }
}

proof fn lemma_stage_conserves(
    q: Option<usize>,
    g: Granularity,
    s: (Seq<RetentionFile>, Seq<RetentionFile>, Seq<RetentionFile>),
)
    ensures
        ({
            let r = stage(q, g, s);
            &&& r.0.len() + r.1.len() + r.2.len() == s.0.len() + s.1.len() + s.2.len()
            &&& r.0.to_multiset().add(r.1.to_multiset()).add(r.2.to_multiset())
                == s.0.to_multiset().add(s.1.to_multiset()).add(s.2.to_multiset())
        }),
{
    if let Some(n) = q {
        lemma_sweep_conserves(g, n as nat, s.2, s.0, s.1);
    }
}

/// Under the policy with no quota set, every entry is kept, in input order,
/// and nothing is dropped.
pub proof fn lemma_identity_keeps_all(p: RetentionPolicy, files: Seq<RetentionFile>)
    requires
        p.is_identity_spec(),
    ensures
        p.retained(files) == (files, Seq::<RetentionFile>::empty()),
{
}

/// Every policy partitions its input: keep and drop together hold each input
/// entry exactly as often as the input does, so their lengths add up to the
/// input's.
pub proof fn lemma_retain_partitions(p: RetentionPolicy, files: Seq<RetentionFile>)
    ensures
        p.retained(files).0.len() + p.retained(files).1.len() == files.len(),
        p.retained(files).0.to_multiset().add(p.retained(files).1.to_multiset()) == files.to_multiset(),
{
    if !p.is_identity_spec() {
        let last: int = match p.keep_last {
            Some(n) => if n as int <= files.len() { n as int } else { files.len() as int },
            None => 0,
        };
        let s0 = (files.take(last), Seq::<RetentionFile>::empty(), files.skip(last));
        assert(files == s0.0 + s0.2);
        vstd::seq_lib::lemma_multiset_commutative(s0.0, s0.2);
        let s1 = stage(p.keep_daily, Granularity::Daily, s0);
        let s2 = stage(p.keep_weekly, Granularity::Weekly, s1);
        let s3 = stage(p.keep_monthly, Granularity::Monthly, s2);
        let s4 = stage(p.keep_yearly, Granularity::Yearly, s3);
        lemma_stage_conserves(p.keep_daily, Granularity::Daily, s0);
        lemma_stage_conserves(p.keep_weekly, Granularity::Weekly, s1);
        lemma_stage_conserves(p.keep_monthly, Granularity::Monthly, s2);
        lemma_stage_conserves(p.keep_yearly, Granularity::Yearly, s3);
        vstd::seq_lib::lemma_multiset_commutative(s4.1, s4.2);
        assert(s0.0.to_multiset().add(s0.1.to_multiset()).add(s0.2.to_multiset()) =~= files.to_multiset());
        assert(s4.0.to_multiset().add((s4.1 + s4.2).to_multiset())
            =~= s4.0.to_multiset().add(s4.1.to_multiset()).add(s4.2.to_multiset()));
    } else {
        assert(Seq::<RetentionFile>::empty().to_multiset() =~= Multiset::empty());
        assert(files.to_multiset().add(Multiset::empty()) =~= files.to_multiset());
    }
}

/// With keep-last as the only quota, set to `n` and given at least `n`
/// entries, the first `n` entries are kept and the rest dropped.
pub proof fn lemma_keep_last_only(p: RetentionPolicy, files: Seq<RetentionFile>, n: usize)
    requires
        p.keep_last == Some(n),
        p.keep_hourly is None,
        p.keep_daily is None,
        p.keep_weekly is None,
        p.keep_monthly is None,
        p.keep_yearly is None,
        n <= files.len(),
    ensures
        p.retained(files) == (files.take(n as int), files.skip(n as int)),
{
    assert(Seq::<RetentionFile>::empty() + files.skip(n as int) == files.skip(n as int));
}

/// No entry lies before a later one in the list.
pub open spec fn newest_first_order(s: Seq<RetentionFile>) -> bool {
    forall|i: int, j: int| 0 <= i < j < s.len() ==> !earlier(#[trigger] s[i].date, #[trigger] s[j].date)
}

proof fn lemma_insert_to_multiset(s: Seq<RetentionFile>, p: int, x: RetentionFile)
    requires
        0 <= p <= s.len(),
    ensures
        s.insert(p, x).to_multiset() == s.to_multiset().insert(x),
{
    let a = s.take(p);
    let b = s.skip(p);
    assert(s == a + b);
    assert(s.insert(p, x) == a + (seq![x] + b));
    vstd::seq_lib::lemma_multiset_commutative(a, b);
    vstd::seq_lib::lemma_multiset_commutative(a, seq![x] + b);
    vstd::seq_lib::lemma_multiset_commutative(seq![x], b);
    assert(seq![x] == Seq::<RetentionFile>::empty().push(x));
    assert(seq![x].to_multiset() =~= Multiset::empty().insert(x));
    assert(s.insert(p, x).to_multiset() =~= s.to_multiset().insert(x));
}

/// `pos` tells, for each entry of `r`, where it stood in `files`; entries
/// with equal timestamps stand in `r` in the reverse of their input order.
pub open spec fn ties_reversed(files: Seq<RetentionFile>, r: Seq<RetentionFile>, pos: Seq<int>) -> bool {
    &&& pos.len() == r.len()
    &&& forall|k: int| 0 <= k < r.len() ==> 0 <= #[trigger] pos[k] < files.len() && r[k] == files[pos[k]]
    &&& forall|i: int, j: int| 0 <= i < j < r.len() && !earlier(r[j].date, r[i].date)
            ==> #[trigger] pos[i] > #[trigger] pos[j]
}

/// Orders entries newest first. Among entries with equal timestamps the one
/// that came later in the input comes first.
pub fn newest_first(files: Vec<RetentionFile>) -> (r: Vec<RetentionFile>)
    ensures
        r@.to_multiset() == files@.to_multiset(),
        r@.len() == files@.len(),
        newest_first_order(r@),
        exists|pos: Seq<int>| ties_reversed(files@, r@, pos),
{
    let mut files = files;
    let ghost all = files@;
    let ghost mut pos: Seq<int> = Seq::empty();
    let mut out: Vec<RetentionFile> = Vec::new();
    while files.len() > 0
        invariant
            out@.to_multiset().add(files@.to_multiset()) == all.to_multiset(),
            out@.len() + files@.len() == all.len(),
            files@ == all.take(files@.len() as int),
            newest_first_order(out@),
            ties_reversed(all, out@, pos),
            forall|k: int| 0 <= k < pos.len() ==> #[trigger] pos[k] >= files@.len(),
        decreases files@.len(),
    {
        let ghost before = files@;
        let x = files.pop().unwrap();
        let ghost q = files@.len() as int;
        assert(before == files@.push(x));
        assert(x == all[q]);
        assert(files@ == all.take(q));
        let mut p: usize = 0;
        while p < out.len() && !is_earlier(&out[p].date, &x.date)
            invariant
                p <= out@.len(),
                forall|i: int| 0 <= i < p ==> !earlier(#[trigger] out@[i].date, x.date),
            decreases out@.len() - p,
        {
            p = p + 1;
        }
        let ghost prev = out@;
        let ghost prev_pos = pos;
        proof {
            lemma_insert_to_multiset(prev, p as int, x);
            pos = prev_pos.insert(p as int, q);
        }
        out.insert(p, x);
        assert(newest_first_order(out@)) by {
            assert forall|i: int, j: int| 0 <= i < j < out@.len() implies !earlier(#[trigger] out@[i].date, #[trigger] out@[j].date) by {
                if j < p {
                    assert(out@[i] == prev[i] && out@[j] == prev[j]);
                } else if j == p {
                    assert(out@[i] == prev[i]);
                } else if i == p {
                    assert(out@[j] == prev[j - 1]);
                    assert(earlier(prev[p as int].date, x.date));
                    assert(!earlier(prev[p as int].date, prev[j - 1].date) || j - 1 == p);
                } else if i < p {
                    assert(out@[i] == prev[i] && out@[j] == prev[j - 1]);
                } else {
                    assert(out@[i] == prev[i - 1] && out@[j] == prev[j - 1]);
                }
            }
        }
        assert(ties_reversed(all, out@, pos)) by {
            assert forall|k: int| 0 <= k < out@.len() implies 0 <= #[trigger] pos[k] < all.len() && out@[k] == all[pos[k]] by {
                if k < p {
                    assert(pos[k] == prev_pos[k] && out@[k] == prev[k]);
                } else if k > p {
                    assert(pos[k] == prev_pos[k - 1] && out@[k] == prev[k - 1]);
                }
            }
            assert forall|i: int, j: int| 0 <= i < j < out@.len() && !earlier(out@[j].date, out@[i].date)
                implies #[trigger] pos[i] > #[trigger] pos[j] by {
                if j < p {
                    assert(out@[i] == prev[i] && out@[j] == prev[j]);
                    assert(pos[i] == prev_pos[i] && pos[j] == prev_pos[j]);
                } else if j == p {
                    assert(pos[i] == prev_pos[i]);
                    assert(prev_pos[i] >= q + 1);
                } else if i == p {
                    assert(out@[j] == prev[j - 1]);
                    assert(earlier(prev[p as int].date, x.date));
                    assert(!earlier(prev[p as int].date, prev[j - 1].date) || j - 1 == p);
                } else if i < p {
                    assert(out@[i] == prev[i] && out@[j] == prev[j - 1]);
                    assert(pos[i] == prev_pos[i] && pos[j] == prev_pos[j - 1]);
                } else {
                    assert(out@[i] == prev[i - 1] && out@[j] == prev[j - 1]);
                    assert(pos[i] == prev_pos[i - 1] && pos[j] == prev_pos[j - 1]);
                }
            }
        }
        assert forall|k: int| 0 <= k < pos.len() implies #[trigger] pos[k] >= files@.len() by {
            if k < p {
                assert(pos[k] == prev_pos[k]);
            } else if k > p {
                assert(pos[k] == prev_pos[k - 1]);
            }
        }
    }
    out
}

/// Two well-formed timestamps share a daily bucket exactly when they fall on
/// the same calendar date.
pub proof fn lemma_daily_bucket_is_date(a: Timestamp, b: Timestamp)
    requires
        a.wf(),
        b.wf(),
    ensures
        bucket_key(Granularity::Daily, a) == bucket_key(Granularity::Daily, b)
            <==> (a.year == b.year && a.month == b.month && a.day == b.day),
{
    let (ya, ma, da) = (a.year as int, a.month as int, a.day as int);
    let (yb, mb, db) = (b.year as int, b.month as int, b.day as int);
    if ya * 10000 + ma * 100 + da == yb * 10000 + mb * 100 + db {
        assert(ya == yb) by (nonlinear_arith)
            requires
                ya * 10000 + ma * 100 + da == yb * 10000 + mb * 100 + db,
                1 <= ma <= 12, 1 <= mb <= 12, 1 <= da <= 31, 1 <= db <= 31;
        assert(ma == mb) by (nonlinear_arith)
            requires
                ma * 100 + da == mb * 100 + db,
                1 <= da <= 31, 1 <= db <= 31;
    }
}

/// Two well-formed timestamps share a monthly bucket exactly when their
/// month numbers agree, whatever their years.
pub proof fn lemma_monthly_bucket_ignores_year(a: Timestamp, b: Timestamp)
    ensures
        bucket_key(Granularity::Monthly, a) == bucket_key(Granularity::Monthly, b) <==> a.month == b.month,
{
}

/// With one daily bucket as the only quota, of two entries on the same
/// calendar date the first is kept and the second dropped.
pub proof fn lemma_same_day_keeps_first(p: RetentionPolicy, a: RetentionFile, b: RetentionFile)
    requires
        p.keep_daily == Some(1usize),
        p.keep_last is None,
        p.keep_hourly is None,
        p.keep_weekly is None,
        p.keep_monthly is None,
        p.keep_yearly is None,
        a.date.year == b.date.year,
        a.date.month == b.date.month,
        a.date.day == b.date.day,
    ensures
        p.retained(seq![a, b]) == (seq![a], seq![b]),
{
    let files = seq![a, b];
    let e = Seq::<RetentionFile>::empty();
    assert(files.take(0) == e);
    assert(files.skip(0) == files);
    assert(files.drop_first() == seq![b]);
    assert(!has_bucket(Granularity::Daily, e, bucket_key(Granularity::Daily, a.date)));
    assert(e.push(a) == seq![a]);
    assert(sweep(Granularity::Daily, 1, files, e, e) == sweep(Granularity::Daily, 0, seq![b], seq![a], e));
    assert(e + seq![b] == seq![b]);
}

/// With two monthly buckets as the only quota, of two entries in the same
/// month of different years the first is kept and the second dropped: the
/// monthly bucket does not tell the years apart.
pub proof fn lemma_same_month_collides(p: RetentionPolicy, a: RetentionFile, b: RetentionFile)
    requires
        p.keep_monthly == Some(2usize),
        p.keep_last is None,
        p.keep_hourly is None,
        p.keep_daily is None,
        p.keep_weekly is None,
        p.keep_yearly is None,
        a.date.month == b.date.month,
    ensures
        p.retained(seq![a, b]) == (seq![a], seq![b]),
{
    let files = seq![a, b];
    let e = Seq::<RetentionFile>::empty();
    assert(files.take(0) == e);
    assert(files.skip(0) == files);
    assert(files.drop_first() == seq![b]);
    assert(!has_bucket(Granularity::Monthly, e, bucket_key(Granularity::Monthly, a.date)));
    assert(e.push(a) == seq![a]);
    assert(seq![a][0] == a);
    assert(has_bucket(Granularity::Monthly, seq![a], bucket_key(Granularity::Monthly, b.date)));
    assert(seq![b].drop_first() == e);
    assert(e.push(b) == seq![b]);
    assert(sweep(Granularity::Monthly, 2, files, e, e) == sweep(Granularity::Monthly, 1, seq![b], seq![a], e));
    assert(sweep(Granularity::Monthly, 1, seq![b], seq![a], e) == sweep(Granularity::Monthly, 1, e, seq![a], seq![b]));
    assert(seq![b] + e == seq![b]);
}

/// With two weekly buckets as the only quota, two entries with the same ISO
/// week number in different ISO week-years are both kept.
pub proof fn lemma_week_years_kept_apart(p: RetentionPolicy, a: RetentionFile, b: RetentionFile)
    requires
        p.keep_weekly == Some(2usize),
        p.keep_last is None,
        p.keep_hourly is None,
        p.keep_daily is None,
        p.keep_monthly is None,
        p.keep_yearly is None,
        a.date.iso_week_spec().1 == b.date.iso_week_spec().1,
        a.date.iso_week_spec().0 != b.date.iso_week_spec().0,
    ensures
        p.retained(seq![a, b]) == (seq![a, b], Seq::<RetentionFile>::empty()),
{
    let g = Granularity::Weekly;
    let files = seq![a, b];
    let e = Seq::<RetentionFile>::empty();
    assert(files.take(0) == e);
    assert(files.skip(0) == files);
    assert(files.drop_first() == seq![b]);
    assert(!has_bucket(g, e, bucket_key(g, a.date)));
    assert(e.push(a) == seq![a]);
    assert(bucket_key(g, a.date) != bucket_key(g, b.date));
    assert(!has_bucket(g, seq![a], bucket_key(g, b.date))) by {
        assert forall|j: int| 0 <= j < seq![a].len() implies bucket_key(g, #[trigger] seq![a][j].date) != bucket_key(g, b.date) by {
            assert(seq![a][j] == a);
        }
    }
    assert(seq![b].drop_first() == e);
    assert(seq![a].push(b) == files);
    assert(sweep(g, 2, files, e, e) == sweep(g, 1, seq![b], seq![a], e));
    assert(sweep(g, 1, seq![b], seq![a], e) == sweep(g, 0, e, files, e));
    assert(e + e == e);
}

/// Two timestamps share a weekly bucket exactly when their ISO week-years
/// and week numbers agree, week numbers lying between 1 and 53.
pub proof fn lemma_weekly_bucket_is_iso_week(a: Timestamp, b: Timestamp)
    requires
        1 <= a.iso_week_spec().1 <= 53,
        1 <= b.iso_week_spec().1 <= 53,
    ensures
        bucket_key(Granularity::Weekly, a) == bucket_key(Granularity::Weekly, b)
            <==> a.iso_week_spec() == b.iso_week_spec(),
{
    let (ya, wa) = a.iso_week_spec();
    let (yb, wb) = b.iso_week_spec();
    if ya * 100 + wa == yb * 100 + wb {
        assert(ya == yb) by (nonlinear_arith)
            requires
                ya * 100 + wa == yb * 100 + wb,
                1 <= wa <= 53, 1 <= wb <= 53;
    }
}

} // verus!
