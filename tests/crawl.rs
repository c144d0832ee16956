use lemmy_stats_crawler::crawl::{
    CrawlError, CrawlJob, CrawlParams, CrawlResult, InstanceResponses, NodeInfoFetch,
};
use lemmy_stats_crawler::scheduler::{Crawler, JobOutcome, Poll};
use lemmy_stats_crawler::structs::{
    GetFederatedInstancesResponse, GetSiteResponse, NodeInfo, NodeInfoSoftware, NodeInfoUsage,
    NodeInfoUsers,
};
use lemmy_stats_crawler::version::min_lemmy_version;
use lemmy_stats_crawler::visited::VisitedSet;

const LOCAL_SITE: &str = r#"{"id":1,"site_id":1,"site_setup":true,"enable_downvotes":true,"enable_nsfw":false,"community_creation_admin_only":false,"require_email_verification":false,"private_instance":false,"default_theme":"browser","default_post_listing_type":"All","hide_modlog_mod_names":true,"application_email_admins":false,"actor_name_max_length":20,"federation_enabled":true,"captcha_enabled":false,"captcha_difficulty":"medium","published":"2024-01-01T00:00:00Z","registration_mode":"Open","reports_email_admins":false,"federation_signed_fetch":false,"default_post_listing_mode":"List","default_sort_type":"Active"}"#;

const RATE_LIMIT: &str = r#"{"local_site_id":1,"message":1,"message_per_second":1,"post":1,"post_per_second":1,"register":1,"register_per_second":1,"image":1,"image_per_second":1,"comment":1,"comment_per_second":1,"search":1,"search_per_second":1,"published":"2024-01-01T00:00:00Z","import_user_settings":1,"import_user_settings_per_second":1}"#;

fn site_json(actor_host: &str, version: &str, month: i64) -> Vec<u8> {
    let site = format!(
        r#"{{"id":1,"name":"{actor_host} site","published":"2024-01-01T00:00:00Z","actor_id":"https://{actor_host}/","last_refreshed_at":"2024-01-01T00:00:00Z","inbox_url":"https://{actor_host}/inbox","public_key":"key","instance_id":1}}"#
    );
    let counts = format!(
        r#"{{"site_id":1,"users":10,"posts":20,"comments":30,"communities":4,"users_active_day":1,"users_active_week":2,"users_active_month":{month},"users_active_half_year":5}}"#
    );
    format!(
        r#"{{"site_view":{{"site":{site},"local_site":{LOCAL_SITE},"local_site_rate_limit":{RATE_LIMIT},"counts":{counts}}},"admins":[],"version":"{version}","all_languages":[],"discussion_languages":[],"taglines":[],"custom_emojis":[],"blocked_urls":[]}}"#
    )
    .into_bytes()
}

fn federated_json(peers: &[&str]) -> Vec<u8> {
    let linked: Vec<String> = peers
        .iter()
        .enumerate()
        .map(|(i, p)| format!(r#"{{"id":{i},"domain":"{p}","published":"2024-01-01T00:00:00Z"}}"#))
        .collect();
    format!(
        r#"{{"federated_instances":{{"linked":[{}],"allowed":[],"blocked":[{{"id":99,"domain":"blocked.example","published":"2024-01-01T00:00:00Z"}}]}}}}"#,
        linked.join(",")
    )
    .into_bytes()
}

fn node_info(software: &str) -> NodeInfo {
    NodeInfo {
        version: "2.0".to_string(),
        software: NodeInfoSoftware { name: software.to_string(), version: "0.19.5".to_string() },
        protocols: vec!["activitypub".to_string()],
        usage: NodeInfoUsage {
            users: NodeInfoUsers { total: 10, active_halfyear: 5, active_month: 3 },
            posts: 20,
            comments: 30,
        },
        open_registrations: true,
    }
}

fn answering(host: &str, peers: &[&str]) -> InstanceResponses {
    InstanceResponses {
        node_info_20: NodeInfoFetch::Decoded(node_info("lemmy")),
        node_info_21: NodeInfoFetch::Undecodable,
        site_info: Some(site_json(host, "0.19.5", 7)),
        federated_instances: Some(federated_json(peers)),
    }
}

fn offline() -> InstanceResponses {
    InstanceResponses {
        node_info_20: NodeInfoFetch::Unreachable,
        node_info_21: NodeInfoFetch::Unreachable,
        site_info: None,
        federated_instances: None,
    }
}

fn params(exclude: &[&str], max_distance: u8) -> CrawlParams {
    CrawlParams::new(
        min_lemmy_version("0.19.5").unwrap(),
        exclude.iter().map(|s| s.to_string()).collect(),
        max_distance,
    )
}

/// Runs a crawl one job at a time against a table of answers; returns the
/// results and the hosts handed out for fetching, in order.
fn drive(
    seeds: &[&str],
    exclude: &[&str],
    max_distance: u8,
    network: &dyn Fn(&str) -> InstanceResponses,
) -> (Vec<CrawlResult>, Vec<(String, u8)>) {
    let seeds: Vec<String> = seeds.iter().map(|s| s.to_string()).collect();
    let mut crawler = Crawler::new(&seeds, params(exclude, max_distance));
    let mut fetched = vec![];
    for _ in 0..1000 {
        match crawler.next_job() {
            Poll::Fetch(job) => {
                fetched.push((job.domain.clone(), job.current_distance));
                crawler.finish_job(&job, network(&job.domain));
            }
            Poll::Wait => panic!("a sequential run never waits"),
            Poll::Finished => {
                assert!(crawler.is_finished());
                return (crawler.into_results(), fetched);
            }
        }
    }
    panic!("the run did not end")
}

fn domains(results: &[CrawlResult]) -> Vec<String> {
    let mut d: Vec<String> = results.iter().map(|r| r.domain.clone()).collect();
    d.sort();
    d
}

#[test]
fn decodes_site_response() {
    let site = GetSiteResponse::decode(&site_json("lemmy.ml", "0.19.5", 42)).unwrap();
    assert_eq!(site.version(), "0.19.5");
    assert_eq!(site.total_users(), 10);
    assert_eq!(site.users_active_day(), 1);
    assert_eq!(site.users_active_week(), 2);
    assert_eq!(site.users_active_month(), 42);
    assert_eq!(site.users_active_half_year(), 5);
    assert_eq!(site.actor_id(), "https://lemmy.ml/");
    assert!(site.actor_matches(&"lemmy.ml".to_string()));
    assert!(!site.actor_matches(&"other.ml".to_string()));
    assert!(GetSiteResponse::decode(b"{\"version\":\"0.19.5\"}").is_none());
    assert!(GetSiteResponse::decode(b"not json").is_none());
}

#[test]
fn decodes_federated_instances() {
    let f = GetFederatedInstancesResponse::decode(&federated_json(&["b.example", "c.example"]))
        .unwrap();
    let peers = f.federated_instances().unwrap();
    assert_eq!(peers.linked, vec!["b.example".to_string(), "c.example".to_string()]);
    assert!(peers.allowed.is_empty());
    assert_eq!(peers.blocked, vec!["blocked.example".to_string()]);
    assert_eq!(f.linked().len(), 2);
    let disabled = GetFederatedInstancesResponse::decode(b"{}").unwrap();
    assert!(disabled.federated_instances().is_none());
    assert!(disabled.linked().is_empty());
    assert!(GetFederatedInstancesResponse::decode(b"[1,2]").is_none());
}

#[test]
fn instance_details_checks() {
    let job = CrawlJob::new("a.example".to_string(), 0);
    assert!(job.instance_details(answering("a.example", &[])).is_ok());

    let mut r = answering("a.example", &[]);
    r.node_info_20 = NodeInfoFetch::Decoded(node_info("mastodon"));
    assert_eq!(job.instance_details(r).err(), Some(CrawlError::WrongSoftware));

    let mut r = answering("a.example", &[]);
    r.node_info_20 = NodeInfoFetch::Decoded(node_info("lemmybb"));
    assert!(job.instance_details(r).is_ok());

    let mut r = answering("a.example", &[]);
    r.node_info_20 = NodeInfoFetch::Undecodable;
    r.node_info_21 = NodeInfoFetch::Decoded(node_info("lemmy"));
    assert!(job.instance_details(r).is_ok());

    let mut r = answering("a.example", &[]);
    r.node_info_20 = NodeInfoFetch::Undecodable;
    assert_eq!(job.instance_details(r).err(), Some(CrawlError::Undecodable));

    let mut r = answering("a.example", &[]);
    r.node_info_20 = NodeInfoFetch::Unreachable;
    r.node_info_21 = NodeInfoFetch::Decoded(node_info("lemmy"));
    assert_eq!(job.instance_details(r).err(), Some(CrawlError::Unreachable));

    let mut r = answering("a.example", &[]);
    r.site_info = None;
    assert_eq!(job.instance_details(r).err(), Some(CrawlError::Unreachable));

    let mut r = answering("a.example", &[]);
    r.site_info = Some(b"<html></html>".to_vec());
    assert_eq!(job.instance_details(r).err(), Some(CrawlError::Undecodable));

    let r = answering("evil.example", &[]);
    assert_eq!(job.instance_details(r).err(), Some(CrawlError::WrongDomain));

    let mut r = answering("a.example", &[]);
    r.federated_instances = Some(b"".to_vec());
    assert_eq!(job.instance_details(r).err(), Some(CrawlError::Undecodable));

    let mut r = answering("a.example", &[]);
    r.federated_instances = None;
    assert_eq!(job.instance_details(r).err(), Some(CrawlError::Unreachable));
}

#[test]
fn crawl_checks_version_and_makes_children() {
    let p = params(&["x.example"], 2);
    let mut visited = VisitedSet::new();
    assert!(visited.claim("a.example"));
    assert!(!visited.claim("a.example"));
    assert!(visited.contains("a.example"));
    let job = CrawlJob::new("a.example".to_string(), 1);
    let details = job
        .instance_details(answering(
            "a.example",
            &["b.example", "a.example", "!!bad", "x.example", "c.example"],
        ))
        .unwrap();
    let (children, result) = job.crawl(&p, &visited, details).unwrap();
    let hosts: Vec<(String, u8)> =
        children.iter().map(|j| (j.domain.clone(), j.current_distance)).collect();
    assert_eq!(hosts, vec![("b.example".to_string(), 2), ("c.example".to_string(), 2)]);
    assert_eq!(result.domain, "a.example");
    assert_eq!(result.distance, 1);

    let at_bound = CrawlJob::new("a.example".to_string(), 2);
    let details = at_bound.instance_details(answering("a.example", &["b.example"])).unwrap();
    let (children, _) = at_bound.crawl(&p, &visited, details).unwrap();
    assert!(children.is_empty());

    let mut old = answering("a.example", &["b.example"]);
    old.site_info = Some(site_json("a.example", "0.18.4", 7));
    let details = job.instance_details(old).unwrap();
    assert_eq!(job.crawl(&p, &visited, details).err(), Some(CrawlError::TooOldVersion));

    let mut odd = answering("a.example", &["b.example"]);
    odd.site_info = Some(site_json("a.example", "unknown", 7));
    let details = job.instance_details(odd).unwrap();
    assert_eq!(job.crawl(&p, &visited, details).err(), Some(CrawlError::InvalidVersion));

    let mut accepted = answering("a.example", &[]);
    accepted.site_info = Some(site_json("a.example", "0.18.5", 7));
    let details = job.instance_details(accepted).unwrap();
    assert!(job.crawl(&p, &visited, details).is_ok());
}

#[test]
fn single_seed_without_peers_gives_one_result() {
    let seeds = vec!["a.example".to_string()];
    let mut crawler = Crawler::new(&seeds, params(&[], 3));
    let job = match crawler.next_job() {
        Poll::Fetch(job) => job,
        _ => panic!("the seed must be handed out"),
    };
    assert_eq!(job.domain, "a.example");
    assert_eq!(job.current_distance, 0);
    assert!(!crawler.is_finished());
    assert_eq!(crawler.finish_job(&job, answering("a.example", &[])), JobOutcome::Accepted);
    assert!(matches!(crawler.next_job(), Poll::Finished));
    let results = crawler.into_results();
    assert_eq!(results.len(), 1);
    assert_eq!(results[0].domain, "a.example");
}

#[test]
fn self_reference_and_bad_peer_are_dropped() {
    let network = |host: &str| match host {
        "a.example" => answering("a.example", &["b.example", "a.example", "!!bad"]),
        _ => offline(),
    };
    let (results, fetched) = drive(&["a.example"], &[], 1, &network);
    assert_eq!(fetched, vec![("a.example".to_string(), 0), ("b.example".to_string(), 1)]);
    assert_eq!(domains(&results), vec!["a.example".to_string()]);
}

#[test]
fn mutual_peers_terminate_with_two_results() {
    let network = |host: &str| match host {
        "a.example" => answering("a.example", &["b.example"]),
        "b.example" => answering("b.example", &["a.example"]),
        _ => offline(),
    };
    let (results, fetched) = drive(&["a.example", "b.example"], &[], 10, &network);
    assert_eq!(fetched.len(), 2);
    assert_eq!(domains(&results), vec!["a.example".to_string(), "b.example".to_string()]);
}

#[test]
fn no_host_is_fetched_twice() {
    let network = |host: &str| match host {
        "a.example" => answering("a.example", &["c.example", "b.example", "c.example"]),
        "b.example" => answering("b.example", &["c.example", "a.example"]),
        "c.example" => answering("c.example", &["a.example", "b.example"]),
        _ => offline(),
    };
    let (results, fetched) = drive(&["a.example", "a.example", "b.example"], &[], 5, &network);
    assert_eq!(fetched.len(), 3);
    assert_eq!(
        domains(&results),
        vec!["a.example".to_string(), "b.example".to_string(), "c.example".to_string()]
    );
}

#[test]
fn distance_bound_is_kept() {
    let network = |host: &str| match host {
        "a.example" => answering("a.example", &["b.example"]),
        "b.example" => answering("b.example", &["c.example"]),
        "c.example" => answering("c.example", &["d.example"]),
        "d.example" => answering("d.example", &[]),
        _ => offline(),
    };
    let (results, fetched) = drive(&["a.example"], &[], 2, &network);
    assert_eq!(
        fetched,
        vec![
            ("a.example".to_string(), 0),
            ("b.example".to_string(), 1),
            ("c.example".to_string(), 2)
        ]
    );
    assert!(results.iter().all(|r| r.distance <= 2));
    assert_eq!(results.len(), 3);

    let (results, fetched) = drive(&["a.example"], &[], 0, &network);
    assert_eq!(fetched.len(), 1);
    assert_eq!(results.len(), 1);
}

#[test]
fn excluded_hosts_are_never_fetched() {
    let network = |host: &str| match host {
        "a.example" => answering("a.example", &["c.example", "b.example"]),
        "b.example" => answering("b.example", &["c.example", "x.example"]),
        "c.example" => answering("c.example", &[]),
        "x.example" => answering("x.example", &[]),
        _ => offline(),
    };
    let (results, fetched) =
        drive(&["a.example", "x.example"], &["x.example", "c.example"], 5, &network);
    let hosts: Vec<String> = fetched.into_iter().map(|(h, _)| h).collect();
    assert_eq!(hosts, vec!["a.example".to_string(), "b.example".to_string()]);
    assert_eq!(domains(&results), vec!["a.example".to_string(), "b.example".to_string()]);
}

#[test]
fn finishing_an_unknown_job_changes_nothing() {
    let seeds = vec!["a.example".to_string()];
    let mut crawler = Crawler::new(&seeds, params(&[], 1));
    let stranger = CrawlJob::new("z.example".to_string(), 0);
    assert_eq!(crawler.finish_job(&stranger, answering("z.example", &[])), JobOutcome::NotRunning);
    let job = match crawler.next_job() {
        Poll::Fetch(job) => job,
        _ => panic!("the seed must be handed out"),
    };
    assert!(matches!(crawler.next_job(), Poll::Wait));
    assert_eq!(
        crawler.finish_job(&job, offline()),
        JobOutcome::Failed(CrawlError::Unreachable)
    );
    assert!(matches!(crawler.next_job(), Poll::Finished));
    assert!(crawler.into_results().is_empty());
}
