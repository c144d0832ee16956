use crate::domain::{is_domain_name, is_valid_domain};
use crate::structs::{GetFederatedInstancesResponse, GetSiteResponse, NodeInfo};
use crate::version::{accepts, semver_parse, version_accepted, Version, VersionView};
use crate::visited::VisitedSet;
use vstd::hash_set::StringHashSet;
use vstd::prelude::*;

verus! {

/// One unit of work: a host and its hop distance from a seed.
pub struct CrawlJob {
    pub domain: String,
    pub current_distance: u8,
}

/// The settings of one run, fixed once it starts.
pub struct CrawlParams {
    pub min_lemmy_version: Version,
    pub exclude_domains: StringHashSet,
    pub max_distance: u8,
}

/// The view of the settings of a run.
pub struct ParamsView {
    pub min_version: VersionView,
    pub excluded: Set<Seq<char>>,
    pub max_distance: u8,
}

impl View for CrawlParams {
    type V = ParamsView;

    open spec fn view(&self) -> ParamsView {
        ParamsView {
            min_version: self.min_lemmy_version@,
            excluded: self.exclude_domains@,
            max_distance: self.max_distance,
        }
    }
}

/// The hosts named in a list.
pub open spec fn host_set(hosts: Seq<String>) -> Set<Seq<char>> {
    Set::new(|d: Seq<char>| exists|i: int| 0 <= i < hosts.len() && #[trigger] hosts[i]@ == d)
}

impl CrawlParams {
    pub fn new(min_lemmy_version: Version, exclude_domains: Vec<String>, max_distance: u8) -> (r:
        CrawlParams)
        ensures
            r@ == (ParamsView {
                min_version: min_lemmy_version@,
                excluded: host_set(exclude_domains@),
                max_distance,
            }),
    {
        let mut set = StringHashSet::new();
        let mut i: usize = 0;
        while i < exclude_domains.len()
            invariant
                i <= exclude_domains@.len(),
                set@ == host_set(exclude_domains@.take(i as int)),
            decreases exclude_domains@.len() - i,
        {
            let ghost t0 = exclude_domains@.take(i as int);
            let ghost t1 = exclude_domains@.take(i + 1);
            set.insert(exclude_domains[i].clone());
            assert forall|d: Seq<char>|
                #![auto]
                host_set(t1).contains(d) <==> host_set(t0).insert(exclude_domains@[i as int]@).contains(
                    d,
                ) by {
                if host_set(t1).contains(d) {
                    let k = choose|k: int| 0 <= k < t1.len() && #[trigger] t1[k]@ == d;
                    if k < i {
                        assert(t0[k] == t1[k]);
                    }
                }
                if host_set(t0).contains(d) {
                    let k = choose|k: int| 0 <= k < t0.len() && #[trigger] t0[k]@ == d;
                    assert(t1[k] == t0[k]);
                }
                if d == exclude_domains@[i as int]@ {
                    assert(t1[i as int] == exclude_domains@[i as int]);
                }
            }
            assert(host_set(t1) =~= host_set(t0).insert(exclude_domains@[i as int]@));
            i = i + 1;
        }
        assert(exclude_domains@.take(exclude_domains@.len() as int) =~= exclude_domains@);
        CrawlParams { min_lemmy_version, exclude_domains: set, max_distance }
    }
}

/// The record of one server that was fetched and accepted.
pub struct CrawlResult {
    pub domain: String,
    pub distance: u8,
    pub node_info: NodeInfo,
    pub site_info: GetSiteResponse,
    pub federated_instances: GetFederatedInstancesResponse,
}

/// What came back from one nodeinfo request.
pub enum NodeInfoFetch {
    /// The request failed in transport.
    Unreachable,
    /// A body came back that is no nodeinfo document.
    Undecodable,
    Decoded(NodeInfo),
}

/// What came back from the requests that describe one server. A body is
/// absent where its request failed in transport.
pub struct InstanceResponses {
    pub node_info_20: NodeInfoFetch,
    pub node_info_21: NodeInfoFetch,
    pub site_info: Option<Vec<u8>>,
    pub federated_instances: Option<Vec<u8>>,
}

/// The checked description of one server.
pub struct InstanceDetails {
    pub node_info: NodeInfo,
    pub site_info: GetSiteResponse,
    pub federated_instances: GetFederatedInstancesResponse,
}

/// Why a job produced no result.
#[derive(Debug, PartialEq, Eq, Structural)]
pub enum CrawlError {
    /// A request failed in transport.
    Unreachable,
    /// A response fits no known schema.
    Undecodable,
    /// The server runs other software than lemmy.
    WrongSoftware,
    /// The server names another host as its identity.
    WrongDomain,
    /// The reported version is no semantic version.
    InvalidVersion,
    /// The reported version is below the minimum.
    TooOldVersion,
}

/// The software names of the lemmy family.
pub open spec fn is_lemmy_software(name: Seq<char>) -> bool {
    name == "lemmy"@ || name == "lemmybb"@
}

/// The nodeinfo document that counts: the 2.0 one where it decodes, else the
/// 2.1 one. A transport failure of the 2.0 request fails the job.
pub open spec fn chosen_node_info(n20: NodeInfoFetch, n21: NodeInfoFetch) -> Result<NodeInfo, CrawlError> {
    match n20 {
        NodeInfoFetch::Unreachable => Err(CrawlError::Unreachable),
        NodeInfoFetch::Decoded(n) => Ok(n),
        NodeInfoFetch::Undecodable => match n21 {
            NodeInfoFetch::Unreachable => Err(CrawlError::Unreachable),
            NodeInfoFetch::Undecodable => Err(CrawlError::Undecodable),
            NodeInfoFetch::Decoded(n) => Ok(n),
        },
    }
}

/// The checked description of the server at `domain`, or the first check
/// that failed: nodeinfo, software family, site response, identity,
/// federated instances.
pub open spec fn details_of(domain: Seq<char>, r: InstanceResponses) -> Result<InstanceDetails, CrawlError> {
    match chosen_node_info(r.node_info_20, r.node_info_21) {
        Err(e) => Err(e),
        Ok(node_info) => if !is_lemmy_software(node_info.software.name@) {
            Err(CrawlError::WrongSoftware)
        } else {
            match r.site_info {
                None => Err(CrawlError::Unreachable),
                Some(body) => match GetSiteResponse::decoded(body@) {
                    None => Err(CrawlError::Undecodable),
                    Some(site_info) => if !(site_info.site().actor_domain matches Some(d) && d@
                        == domain) {
                        Err(CrawlError::WrongDomain)
                    } else {
                        match r.federated_instances {
                            None => Err(CrawlError::Unreachable),
                            Some(body) => match GetFederatedInstancesResponse::decoded(body@) {
                                None => Err(CrawlError::Undecodable),
                                Some(federated_instances) => Ok(
                                    InstanceDetails { node_info, site_info, federated_instances },
                                ),
                            },
                        }
                    },
                },
            }
        },
    }
}

/// Whether a peer host may become a job: not excluded, not claimed yet, and
/// shaped like a host name.
pub open spec fn admissible_peer(p: Seq<char>, params: ParamsView, visited: Set<Seq<char>>) -> bool {
    !params.excluded.contains(p) && !visited.contains(p) && is_domain_name(p)
}

/// The jobs made from a peer list, in order, at the given distance.
pub open spec fn peer_jobs(
    peers: Seq<String>,
    distance: u8,
    params: ParamsView,
    visited: Set<Seq<char>>,
) -> Seq<CrawlJob>
    decreases peers.len(),
{
    if peers.len() == 0 {
        Seq::empty()
    } else {
        let rest = peer_jobs(peers.drop_last(), distance, params, visited);
        let p = peers.last();
        if admissible_peer(p@, params, visited) {
            rest.push(CrawlJob { domain: p, current_distance: distance })
        } else {
            rest
        }
    }
}

/// The children of an accepted job: its admissible linked peers one hop
/// further, and none at the distance bound.
pub open spec fn children_of(
    job: CrawlJob,
    params: ParamsView,
    visited: Set<Seq<char>>,
    peers: GetFederatedInstancesResponse,
) -> Seq<CrawlJob> {
    if job.current_distance < params.max_distance {
        peer_jobs(peers.linked_view(), (job.current_distance + 1) as u8, params, visited)
    } else {
        Seq::empty()
    }
}

/// What a job does with the checked description of its server: check the
/// version, then emit its children and its result.
pub open spec fn crawl_outcome(
    job: CrawlJob,
    params: ParamsView,
    visited: Set<Seq<char>>,
    details: InstanceDetails,
) -> Result<(Seq<CrawlJob>, CrawlResult), CrawlError> {
    match semver_parse(details.site_info.version_view()) {
        None => Err(CrawlError::InvalidVersion),
        Some(v) => if !version_accepted(v, params.min_version) {
            Err(CrawlError::TooOldVersion)
        } else {
            Ok(
                (
                    children_of(job, params, visited, details.federated_instances),
                    CrawlResult {
                        domain: job.domain,
                        distance: job.current_distance,
                        node_info: details.node_info,
                        site_info: details.site_info,
                        federated_instances: details.federated_instances,
                    },
                ),
            )
        },
    }
}

/// Whether `name` is one of the lemmy family's software names.
fn is_lemmy(name: &String) -> (r: bool)
    ensures
        r == is_lemmy_software(name@),
{
    name.eq(&"lemmy".to_owned()) || name.eq(&"lemmybb".to_owned())
}

impl CrawlJob {
    pub fn new(domain: String, current_distance: u8) -> (r: CrawlJob)
        ensures
            r == (CrawlJob { domain, current_distance }),
    {
        CrawlJob { domain, current_distance }
    }

    /// A copy of this job.
    pub fn copy(&self) -> (r: CrawlJob)
        ensures
            r == *self,
    {
        CrawlJob { domain: self.domain.clone(), current_distance: self.current_distance }
    }

    /// Checks what the server at this job's host answered: picks the nodeinfo
    /// document, requires lemmy software, decodes the site response, requires
    /// that the site names this host as itself, and decodes the peers.
    pub fn instance_details(&self, responses: InstanceResponses) -> (r: Result<
        InstanceDetails,
        CrawlError,
    >)
        ensures
            r == details_of(self.domain@, responses),
    {
        let InstanceResponses { node_info_20, node_info_21, site_info, federated_instances } =
            responses;
        let node_info = match node_info_20 {
            NodeInfoFetch::Unreachable => return Err(CrawlError::Unreachable),
            NodeInfoFetch::Decoded(n) => n,
            NodeInfoFetch::Undecodable => match node_info_21 {
                NodeInfoFetch::Unreachable => return Err(CrawlError::Unreachable),
                NodeInfoFetch::Undecodable => return Err(CrawlError::Undecodable),
                NodeInfoFetch::Decoded(n) => n,
            },
        };
        if !is_lemmy(&node_info.software.name) {
            return Err(CrawlError::WrongSoftware);
        }
        let site_info = match site_info {
            None => return Err(CrawlError::Unreachable),
            Some(body) => match GetSiteResponse::decode(body.as_slice()) {
                None => return Err(CrawlError::Undecodable),
                Some(s) => s,
            },
        };
        if !site_info.actor_matches(&self.domain) {
            return Err(CrawlError::WrongDomain);
        }
        let federated_instances = match federated_instances {
            None => return Err(CrawlError::Unreachable),
            Some(body) => match GetFederatedInstancesResponse::decode(body.as_slice()) {
                None => return Err(CrawlError::Undecodable),
                Some(f) => f,
            },
        };
        Ok(InstanceDetails { node_info, site_info, federated_instances })
    }

    /// Checks the server's version against the minimum; where it passes, makes
    /// the jobs for its admissible linked peers (unless this job is at the
    /// distance bound) and the result for this host.
    pub fn crawl(&self, params: &CrawlParams, visited: &VisitedSet, details: InstanceDetails) -> (r:
        Result<(Vec<CrawlJob>, CrawlResult), CrawlError>)
        ensures
            match r {
                Ok((jobs, result)) => crawl_outcome(*self, params@, visited@, details) == Ok::<
                    _,
                    CrawlError,
                >((jobs@, result)),
                Err(e) => crawl_outcome(*self, params@, visited@, details) == Err::<
                    (Seq<CrawlJob>, CrawlResult),
                    _,
                >(e),
            },
    {
        let version = match Version::parse(details.site_info.version().as_str()) {
            None => return Err(CrawlError::InvalidVersion),
            Some(v) => v,
        };
        if !accepts(&version, &params.min_lemmy_version) {
            return Err(CrawlError::TooOldVersion);
        }
        let mut jobs: Vec<CrawlJob> = Vec::new();
        if self.current_distance < params.max_distance {
            let distance = self.current_distance + 1;
            let peers = details.federated_instances.linked();
            let mut i: usize = 0;
            while i < peers.len()
                invariant
                    i <= peers@.len(),
                    peers@ == details.federated_instances.linked_view(),
                    jobs@ == peer_jobs(peers@.take(i as int), distance, params@, visited@),
                decreases peers@.len() - i,
            {
                assert(peers@.take(i + 1).drop_last() =~= peers@.take(i as int));
                let p = &peers[i];
                if !params.exclude_domains.contains(p.as_str()) && !visited.contains(p.as_str())
                    && is_valid_domain(p.as_str()) {
                    jobs.push(CrawlJob { domain: p.clone(), current_distance: distance });
                }
                i = i + 1;
            }
            assert(peers@.take(peers@.len() as int) =~= peers@);
        }
        let result = CrawlResult {
            domain: self.domain.clone(),
            distance: self.current_distance,
            node_info: details.node_info,
            site_info: details.site_info,
            federated_instances: details.federated_instances,
        };
        Ok((jobs, result))
    }
}

} // verus!
