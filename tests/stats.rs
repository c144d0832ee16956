use lemmy_stats_crawler::crawl::{CrawlJob, InstanceResponses, NodeInfoFetch};
use lemmy_stats_crawler::scheduler::{Crawler, Poll};
use lemmy_stats_crawler::stats::{
    aggregate, joinlemmy_instances, sort_by_active_month, sum_counts, UserCount,
};
use lemmy_stats_crawler::structs::{NodeInfo, NodeInfoSoftware, NodeInfoUsage, NodeInfoUsers};
use lemmy_stats_crawler::version::min_lemmy_version;
use lemmy_stats_crawler::crawl::{CrawlParams, CrawlResult};

fn site(host: &str, users: i64, month: i64, mode: &str) -> Vec<u8> {
    format!(
        r#"{{"site_view":{{"site":{{"id":1,"name":"n","published":"2024-01-01T00:00:00Z","actor_id":"https://{host}/","last_refreshed_at":"2024-01-01T00:00:00Z","inbox_url":"https://{host}/inbox","public_key":"key","instance_id":1}},"local_site":{{"id":1,"site_id":1,"site_setup":true,"enable_downvotes":true,"enable_nsfw":false,"community_creation_admin_only":false,"require_email_verification":false,"private_instance":false,"default_theme":"browser","default_post_listing_type":"All","hide_modlog_mod_names":true,"application_email_admins":false,"actor_name_max_length":20,"federation_enabled":true,"captcha_enabled":false,"captcha_difficulty":"medium","published":"2024-01-01T00:00:00Z","registration_mode":"{mode}","reports_email_admins":false,"federation_signed_fetch":false,"default_post_listing_mode":"List","default_sort_type":"Active"}},"local_site_rate_limit":{{"local_site_id":1,"message":1,"message_per_second":1,"post":1,"post_per_second":1,"register":1,"register_per_second":1,"image":1,"image_per_second":1,"comment":1,"comment_per_second":1,"search":1,"search_per_second":1,"published":"2024-01-01T00:00:00Z","import_user_settings":1,"import_user_settings_per_second":1}},"counts":{{"site_id":1,"users":{users},"posts":20,"comments":30,"communities":4,"users_active_day":1,"users_active_week":2,"users_active_month":{month},"users_active_half_year":5}}}},"admins":[],"version":"0.19.5","all_languages":[],"discussion_languages":[],"taglines":[],"custom_emojis":[],"blocked_urls":[]}}"#
    )
    .into_bytes()
}

fn node_info() -> NodeInfo {
    NodeInfo {
        version: "2.0".to_string(),
        software: NodeInfoSoftware { name: "lemmy".to_string(), version: "0.19.5".to_string() },
        protocols: vec![],
        usage: NodeInfoUsage {
            users: NodeInfoUsers { total: 0, active_halfyear: 0, active_month: 0 },
            posts: 0,
            comments: 0,
        },
        open_registrations: false,
    }
}

/// Results for the given hosts, each with its total and monthly users.
fn results(servers: &[(&str, i64, i64)]) -> Vec<CrawlResult> {
    results_with_mode(servers, "Open")
}

fn results_with_mode(servers: &[(&str, i64, i64)], mode: &str) -> Vec<CrawlResult> {
    let seeds: Vec<String> = servers.iter().map(|s| s.0.to_string()).collect();
    let params = CrawlParams::new(min_lemmy_version("0.19.5").unwrap(), vec![], 0);
    let mut crawler = Crawler::new(&seeds, params);
    while let Poll::Fetch(job) = crawler.next_job() {
        let (_, users, month) = *servers.iter().find(|s| s.0 == job.domain).unwrap();
        let responses = InstanceResponses {
            node_info_20: NodeInfoFetch::Decoded(node_info()),
            node_info_21: NodeInfoFetch::Unreachable,
            site_info: Some(site(&job.domain, users, month, mode)),
            federated_instances: Some(b"{}".to_vec()),
        };
        crawler.finish_job(&CrawlJob::new(job.domain.clone(), 0), responses);
    }
    crawler.into_results()
}

#[test]
fn aggregate_adds_up_counts() {
    let r = results(&[("a.example", 10, 3), ("b.example", 100, 40), ("c.example", 1, 0)]);
    let t = aggregate(r).unwrap();
    assert_eq!(t.crawled_instances, 3);
    assert_eq!(t.total_users, 111);
    assert_eq!(t.users_active_month, 43);
    assert_eq!(t.users_active_day, 3);
    assert_eq!(t.users_active_week, 6);
    assert_eq!(t.users_active_halfyear, 15);
    assert_eq!(t.instance_details.len(), 3);
}

#[test]
fn aggregate_of_nothing_is_zero() {
    let t = aggregate(vec![]).unwrap();
    assert_eq!(t.crawled_instances, 0);
    assert_eq!(t.total_users, 0);
    assert_eq!(t.users_active_month, 0);
}

#[test]
fn aggregate_refuses_overflowing_totals() {
    let r = results(&[("a.example", i64::MAX, 1), ("b.example", 1, 1)]);
    assert_eq!(sum_counts(&r, UserCount::Total), None);
    assert_eq!(sum_counts(&r, UserCount::ActiveMonth), Some(2));
    assert!(aggregate(r).is_none());
    let r = results(&[("a.example", i64::MAX, 1), ("b.example", -5, 1)]);
    assert_eq!(sum_counts(&r, UserCount::Total), Some(i64::MAX - 5));
}

#[test]
fn sorts_by_monthly_active_users() {
    let r = results(&[("a.example", 1, 5), ("b.example", 1, 50), ("c.example", 1, 0), ("d.example", 1, 50)]);
    let sorted = sort_by_active_month(r);
    let months: Vec<i64> = sorted.iter().map(|r| r.site_info.users_active_month()).collect();
    assert_eq!(months, vec![50, 50, 5, 0]);
    let mut hosts: Vec<String> = sorted.iter().map(|r| r.domain.clone()).collect();
    hosts.sort();
    assert_eq!(hosts, vec!["a.example", "b.example", "c.example", "d.example"]);
    assert!(sort_by_active_month(vec![]).is_empty());
}

#[test]
fn joinlemmy_lists_application_sites_with_active_users() {
    let mut r = results_with_mode(&[("a.example", 1, 6), ("b.example", 1, 5)], "RequireApplication");
    r.extend(results_with_mode(&[("c.example", 1, 100)], "Open"));
    r.extend(results_with_mode(&[("d.example", 1, 100)], "Closed"));
    r.extend(results_with_mode(&[("e.example", 1, 9)], "RequireApplication"));
    let listed: Vec<String> = joinlemmy_instances(r).into_iter().map(|r| r.domain).collect();
    assert_eq!(listed, vec!["a.example".to_string(), "e.example".to_string()]);
    assert!(joinlemmy_instances(vec![]).is_empty());
}
