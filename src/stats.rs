use crate::crawl::CrawlResult;
use vstd::prelude::*;
use vstd::multiset::Multiset;
use vstd::seq_lib::{group_to_multiset_ensures, to_multiset_build, to_multiset_insert};

verus! {

/// The totals over the crawled servers, with the servers themselves.
pub struct TotalStats {
    pub crawled_instances: usize,
    pub total_users: i64,
    pub users_active_day: i64,
    pub users_active_week: i64,
    pub users_active_month: i64,
    pub users_active_halfyear: i64,
    pub instance_details: Vec<CrawlResult>,
}

/// Which of a site's user counts to add up.
pub enum UserCount {
    Total,
    ActiveDay,
    ActiveWeek,
    ActiveMonth,
    ActiveHalfYear,
}

/// The chosen user count of one result.
pub open spec fn count_of(r: CrawlResult, which: UserCount) -> i64 {
    let c = r.site_info.counts();
    match which {
        UserCount::Total => c.users,
        UserCount::ActiveDay => c.users_active_day,
        UserCount::ActiveWeek => c.users_active_week,
        UserCount::ActiveMonth => c.users_active_month,
        UserCount::ActiveHalfYear => c.users_active_half_year,
    }
}

/// The sum of the chosen count over all results.
pub open spec fn total_of(results: Seq<CrawlResult>, which: UserCount) -> int
    decreases results.len(),
{
    if results.len() == 0 {
        0
    } else {
        total_of(results.drop_last(), which) + count_of(results.last(), which)
    }
}

pub open spec fn fits_i64(x: int) -> bool {
    i64::MIN <= x <= i64::MAX
}

/// Each of `k` counts lies within the range of `i64`, so their sum lies
/// within `k` times that range.
proof fn lemma_total_bound(results: Seq<CrawlResult>, which: UserCount)
    ensures
        -results.len() * 0x8000_0000_0000_0000 <= total_of(results, which) <= results.len()
            * 0x8000_0000_0000_0000,
    decreases results.len(),
{
    if results.len() > 0 {
        lemma_total_bound(results.drop_last(), which);
    }
}

fn count_in(r: &CrawlResult, which: &UserCount) -> (c: i64)
    ensures
        c == count_of(*r, *which),
{
    match which {
        UserCount::Total => r.site_info.total_users(),
        UserCount::ActiveDay => r.site_info.users_active_day(),
        UserCount::ActiveWeek => r.site_info.users_active_week(),
        UserCount::ActiveMonth => r.site_info.users_active_month(),
        UserCount::ActiveHalfYear => r.site_info.users_active_half_year(),
    }
}

/// The sum of the chosen count over all results, where it fits an `i64`.
pub fn sum_counts(results: &Vec<CrawlResult>, which: UserCount) -> (r: Option<i64>)
    ensures
        match r {
            Some(t) => t == total_of(results@, which),
            None => !fits_i64(total_of(results@, which)),
        },
{
    let mut sum: i128 = 0;
    let mut i: usize = 0;
    while i < results.len()
        invariant
            i <= results@.len(),
            sum == total_of(results@.take(i as int), which),
        decreases results@.len() - i,
    {
        proof {
            lemma_total_bound(results@.take(i as int), which);
            assert(results@.take(i + 1).drop_last() =~= results@.take(i as int));
            assert(i * 0x8000_0000_0000_0000 < 0x7fff_ffff_ffff_ffff_ffff_ffff_ffff_ffff) by (nonlinear_arith)
                requires
                    i < 0x1_0000_0000_0000_0000,
            ;
        }
        let c = count_in(&results[i], &which);
        sum = sum + c as i128;
        i = i + 1;
    }
    assert(results@.take(results@.len() as int) =~= results@);
    if sum < i64::MIN as i128 || sum > i64::MAX as i128 {
        None
    } else {
        Some(sum as i64)
    }
}

/// Adds up the user counts of all crawled servers. Nothing where a total
/// does not fit an `i64`.
pub fn aggregate(instance_details: Vec<CrawlResult>) -> (r: Option<TotalStats>)
    ensures
        match r {
            Some(t) => {
                &&& t.crawled_instances == instance_details@.len()
                &&& t.total_users == total_of(instance_details@, UserCount::Total)
                &&& t.users_active_day == total_of(instance_details@, UserCount::ActiveDay)
                &&& t.users_active_week == total_of(instance_details@, UserCount::ActiveWeek)
                &&& t.users_active_month == total_of(instance_details@, UserCount::ActiveMonth)
                &&& t.users_active_halfyear == total_of(
                    instance_details@,
                    UserCount::ActiveHalfYear,
                )
                &&& t.instance_details@ == instance_details@
            },
            None => !fits_i64(total_of(instance_details@, UserCount::Total)) || !fits_i64(
                total_of(instance_details@, UserCount::ActiveDay),
            ) || !fits_i64(total_of(instance_details@, UserCount::ActiveWeek)) || !fits_i64(
                total_of(instance_details@, UserCount::ActiveMonth),
            ) || !fits_i64(total_of(instance_details@, UserCount::ActiveHalfYear)),
        },
{
    let total_users = match sum_counts(&instance_details, UserCount::Total) {
        Some(t) => t,
        None => return None,
    };
    let users_active_day = match sum_counts(&instance_details, UserCount::ActiveDay) {
        Some(t) => t,
        None => return None,
    };
    let users_active_week = match sum_counts(&instance_details, UserCount::ActiveWeek) {
        Some(t) => t,
        None => return None,
    };
    let users_active_month = match sum_counts(&instance_details, UserCount::ActiveMonth) {
        Some(t) => t,
        None => return None,
    };
    let users_active_halfyear = match sum_counts(&instance_details, UserCount::ActiveHalfYear) {
        Some(t) => t,
        None => return None,
    };
    Some(
        TotalStats {
            crawled_instances: instance_details.len(),
            total_users,
            users_active_day,
            users_active_week,
            users_active_month,
            users_active_halfyear,
            instance_details,
        },
    )
}

/// The monthly active users of a result.
pub open spec fn active_month(r: CrawlResult) -> i64 {
    r.site_info.counts().users_active_month
}

/// Most monthly active users first.
pub open spec fn sorted_by_active_month(s: Seq<CrawlResult>) -> bool {
    forall|i: int, j: int|
        0 <= i < j < s.len() ==> active_month(#[trigger] s[i]) >= active_month(#[trigger] s[j])
}

/// Listed on join-lemmy: sign-ups need an application, and more than five
/// users were active in the last month.
pub open spec fn joinlemmy_listed(r: CrawlResult) -> bool {
    r.site_info.registration_mode_view() == "RequireApplication"@ && active_month(r) > 5
}

/// The results to list on join-lemmy, in their order.
pub fn joinlemmy_instances(results: Vec<CrawlResult>) -> (r: Vec<CrawlResult>)
    ensures
        r@ == results@.filter(|x: CrawlResult| joinlemmy_listed(x)),
{
    let ghost all = results@;
    let mut out: Vec<CrawlResult> = Vec::new();
    for x in it: results.into_iter()
        invariant
            it.seq() == all,
            out@ == all.take(it.index() as int).filter(|x: CrawlResult| joinlemmy_listed(x)),
    {
        proof {
            reveal(Seq::filter);
            assert(all.take(it.index() + 1).drop_last() =~= all.take(it.index() as int));
        }
        if x.site_info.requires_application() && x.site_info.users_active_month() > 5 {
            out.push(x);
        }
    }
    assert(all.take(all.len() as int) =~= all);
    out
}

/// Orders results by monthly active users, most first; the same results,
/// each as often as before.
pub fn sort_by_active_month(results: Vec<CrawlResult>) -> (r: Vec<CrawlResult>)
    ensures
        sorted_by_active_month(r@),
        r@.to_multiset() == results@.to_multiset(),
{
    broadcast use group_to_multiset_ensures;

    let mut input = results;
    let mut out: Vec<CrawlResult> = Vec::new();
    while input.len() > 0
        invariant
            sorted_by_active_month(out@),
            out@.to_multiset().add(input@.to_multiset()) == results@.to_multiset(),
        decreases input@.len(),
    {
        let ghost before = input@;
        let x = input.pop().unwrap();
        assert(before == input@.push(x));
        let month = x.site_info.users_active_month();
        let mut pos: usize = 0;
        while pos < out.len() && out[pos].site_info.users_active_month() >= month
            invariant
                pos <= out@.len(),
                forall|k: int| 0 <= k < pos ==> active_month(#[trigger] out@[k]) >= month,
            decreases out@.len() - pos,
        {
            pos = pos + 1;
        }
        let ghost old_out = out@;
        out.insert(pos, x);
        proof {
            to_multiset_insert(old_out, pos as int, x);
            to_multiset_build(input@, x);
        }
        assert(out@ == old_out.insert(pos as int, x));
        assert(out@.to_multiset().add(input@.to_multiset()) =~= old_out.to_multiset().add(
            before.to_multiset(),
        ));
        assert forall|i: int, j: int| 0 <= i < j < out@.len() implies active_month(
            #[trigger] out@[i],
        ) >= active_month(#[trigger] out@[j]) by {
            if j < pos {
                assert(out@[i] == old_out[i] && out@[j] == old_out[j]);
            } else if j == pos {
                assert(out@[i] == old_out[i]);
            } else if i < pos {
                assert(out@[i] == old_out[i] && out@[j] == old_out[j - 1]);
            } else if i == pos {
                assert(out@[j] == old_out[j - 1]);
                assert(active_month(old_out[pos as int]) < month);
            } else {
                assert(out@[i] == old_out[i - 1] && out@[j] == old_out[j - 1]);
            }
        }
    }
    assert(input@.to_multiset() =~= Multiset::empty());
    out
}

} // verus!
