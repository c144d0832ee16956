use lemmy_api_common::site;
use vstd::prelude::*;

verus! {

/// A server's nodeinfo document: which software it runs, and its usage.
pub struct NodeInfo {
    pub version: String,
    pub software: NodeInfoSoftware,
    pub protocols: Vec<String>,
    pub usage: NodeInfoUsage,
    pub open_registrations: bool,
}

pub struct NodeInfoSoftware {
    pub name: String,
    pub version: String,
}

pub struct NodeInfoUsage {
    pub users: NodeInfoUsers,
    pub posts: i64,
    pub comments: i64,
}

pub struct NodeInfoUsers {
    pub total: i64,
    pub active_halfyear: i64,
    pub active_month: i64,
}

/// The counts a site reports about itself.
pub struct SiteAggregates {
    pub users: i64,
    pub posts: i64,
    pub comments: i64,
    pub communities: i64,
    pub users_active_day: i64,
    pub users_active_week: i64,
    pub users_active_month: i64,
    pub users_active_half_year: i64,
}

/// A site's identity: its name, its actor URL, and the host of that URL.
pub struct Site {
    pub name: String,
    pub actor_id: String,
    pub actor_domain: Option<String>,
}

pub struct SiteView {
    pub site: Site,
    pub counts: SiteAggregates,
    /// How new users may sign up, as lemmy names the mode (`Open`,
    /// `RequireApplication`, `Closed`).
    pub registration_mode: String,
}

/// The site response in the 0.19 schema.
pub struct SiteResponseV019 {
    pub version: String,
    pub site_view: SiteView,
}

/// A site response in whichever known schema the server answered with.
pub enum GetSiteResponse {
    V019(SiteResponseV019),
}

/// Peer hosts, split into linked, allowed and blocked.
pub struct FederatedInstances {
    pub linked: Vec<String>,
    pub allowed: Vec<String>,
    pub blocked: Vec<String>,
}

/// The federated-instances response in the 0.19 schema; the list is absent
/// where federation is disabled.
pub struct FederatedInstancesResponseV019 {
    pub federated_instances: Option<FederatedInstances>,
}

/// A federated-instances response in whichever known schema matched.
pub enum GetFederatedInstancesResponse {
    V019(FederatedInstancesResponseV019),
}

/// What `serde_json` decodes from a body as lemmy 0.19's site response, or
/// nothing where the body does not fit that schema.
pub uninterp spec fn site_v019_of(body: Seq<u8>) -> Option<SiteResponseV019>;

/// What `serde_json` decodes from a body as lemmy 0.19's federated-instances
/// response, or nothing where the body does not fit that schema.
pub uninterp spec fn federated_v019_of(body: Seq<u8>) -> Option<FederatedInstancesResponseV019>;

/// Relies on `serde_json::from_slice` into `lemmy_api_common::site::GetSiteResponse`
/// (0.19): the result depends on the bytes alone. `Url::domain` gives the
/// actor's host, and the registration mode is kept by its `Display` name.
#[verifier::external_body]
fn decode_site_v019(body: &[u8]) -> (r: Option<SiteResponseV019>)
    ensures
        r == site_v019_of(body@),
{
    let s = serde_json::from_slice::<site::GetSiteResponse>(body).ok()?;
    let (site, c, local) = (s.site_view.site, s.site_view.counts, s.site_view.local_site);
    let actor_domain = site.actor_id.domain().map(|d| d.to_string());
    let site = Site { name: site.name, actor_id: site.actor_id.to_string(), actor_domain };
    let counts = SiteAggregates { users: c.users, posts: c.posts, comments: c.comments,
        communities: c.communities, users_active_day: c.users_active_day,
        users_active_week: c.users_active_week, users_active_month: c.users_active_month,
        users_active_half_year: c.users_active_half_year };
    let registration_mode = local.registration_mode.to_string();
    Some(SiteResponseV019 { version: s.version, site_view: SiteView { site, counts, registration_mode } })
}

/// Relies on `serde_json::from_slice` into
/// `lemmy_api_common::site::GetFederatedInstancesResponse` (0.19): the result
/// depends on the bytes alone; each peer is kept as its host name.
#[verifier::external_body]
fn decode_federated_v019(body: &[u8]) -> (r: Option<FederatedInstancesResponseV019>)
    ensures
        r == federated_v019_of(body@),
{
    let f = serde_json::from_slice::<site::GetFederatedInstancesResponse>(body).ok()?;
    let hosts = |l: Vec<site::InstanceWithFederationState>| {
        l.into_iter().map(|i| i.instance.domain).collect()
    };
    let federated_instances = f.federated_instances.map(|f| FederatedInstances {
        linked: hosts(f.linked), allowed: hosts(f.allowed), blocked: hosts(f.blocked) });
    Some(FederatedInstancesResponseV019 { federated_instances })
}

/// A copy of a list of strings with the same contents.
pub fn copy_strings(v: &Vec<String>) -> (r: Vec<String>)
    ensures
        r@ == v@,
{
    let r = v.clone();
    assert(r@ =~= v@);
    r
}

impl GetSiteResponse {
    /// The counts of whichever schema matched.
    pub open spec fn counts(self) -> SiteAggregates {
        match self {
            GetSiteResponse::V019(s) => s.site_view.counts,
        }
    }

    /// The reported software version of whichever schema matched.
    pub open spec fn version_view(self) -> Seq<char> {
        match self {
            GetSiteResponse::V019(s) => s.version@,
        }
    }

    /// The registration mode of whichever schema matched.
    pub open spec fn registration_mode_view(self) -> Seq<char> {
        match self {
            GetSiteResponse::V019(s) => s.site_view.registration_mode@,
        }
    }

    /// The site identity of whichever schema matched.
    pub open spec fn site(self) -> Site {
        match self {
            GetSiteResponse::V019(s) => s.site_view.site,
        }
    }

    /// The schemas tried newest first; the first that decodes is taken.
    pub open spec fn decoded(body: Seq<u8>) -> Option<GetSiteResponse> {
        match site_v019_of(body) {
            Some(s) => Some(GetSiteResponse::V019(s)),
            None => None,
        }
    }

    /// Decodes a site response body, trying the known schemas newest first;
    /// the first that decodes is taken.
    pub fn decode(body: &[u8]) -> (r: Option<GetSiteResponse>)
        ensures
            r == Self::decoded(body@),
    {
        match decode_site_v019(body) {
            Some(s) => Some(GetSiteResponse::V019(s)),
            None => None,
        }
    }

    pub fn version(&self) -> (r: String)
        ensures
            r@ == self.version_view(),
    {
        match self {
            GetSiteResponse::V019(s) => s.version.clone(),
        }
    }

    pub fn total_users(&self) -> (r: i64)
        ensures
            r == self.counts().users,
    {
        match self {
            GetSiteResponse::V019(s) => s.site_view.counts.users,
        }
    }

    pub fn users_active_day(&self) -> (r: i64)
        ensures
            r == self.counts().users_active_day,
    {
        match self {
            GetSiteResponse::V019(s) => s.site_view.counts.users_active_day,
        }
    }

    pub fn users_active_week(&self) -> (r: i64)
        ensures
            r == self.counts().users_active_week,
    {
        match self {
            GetSiteResponse::V019(s) => s.site_view.counts.users_active_week,
        }
    }

    pub fn users_active_month(&self) -> (r: i64)
        ensures
            r == self.counts().users_active_month,
    {
        match self {
            GetSiteResponse::V019(s) => s.site_view.counts.users_active_month,
        }
    }

    pub fn users_active_half_year(&self) -> (r: i64)
        ensures
            r == self.counts().users_active_half_year,
    {
        match self {
            GetSiteResponse::V019(s) => s.site_view.counts.users_active_half_year,
        }
    }

    /// Whether new users must apply before they may sign up.
    pub fn requires_application(&self) -> (r: bool)
        ensures
            r == (self.registration_mode_view() == "RequireApplication"@),
    {
        match self {
            GetSiteResponse::V019(s) => s.site_view.registration_mode.eq(
                &"RequireApplication".to_owned(),
            ),
        }
    }

    /// The site's actor URL.
    pub fn actor_id(&self) -> (r: String)
        ensures
            r@ == self.site().actor_id@,
    {
        match self {
            GetSiteResponse::V019(s) => s.site_view.site.actor_id.clone(),
        }
    }

    /// Whether the host of the site's actor URL is `domain`: a server that
    /// names another host as itself is misconfigured or spoofing.
    pub fn actor_matches(&self, domain: &String) -> (r: bool)
        ensures
            r == (self.site().actor_domain matches Some(d) && d@ == domain@),
    {
        let site = match self {
            GetSiteResponse::V019(s) => &s.site_view.site,
        };
        match &site.actor_domain {
            Some(d) => d.eq(domain),
            None => false,
        }
    }
}

impl GetFederatedInstancesResponse {
    /// The peer lists of whichever schema matched.
    pub open spec fn peers(self) -> Option<FederatedInstances> {
        match self {
            GetFederatedInstancesResponse::V019(f) => f.federated_instances,
        }
    }

    /// The linked peers, or none where federation is disabled.
    pub open spec fn linked_view(self) -> Seq<String> {
        match self.peers() {
            Some(f) => f.linked@,
            None => Seq::empty(),
        }
    }

    /// The schemas tried newest first; the first that decodes is taken.
    pub open spec fn decoded(body: Seq<u8>) -> Option<GetFederatedInstancesResponse> {
        match federated_v019_of(body) {
            Some(f) => Some(GetFederatedInstancesResponse::V019(f)),
            None => None,
        }
    }

    /// Decodes a federated-instances body, trying the known schemas newest
    /// first; the first that decodes is taken.
    pub fn decode(body: &[u8]) -> (r: Option<GetFederatedInstancesResponse>)
        ensures
            r == Self::decoded(body@),
    {
        match decode_federated_v019(body) {
            Some(f) => Some(GetFederatedInstancesResponse::V019(f)),
            None => None,
        }
    }

    /// A copy of the peer lists.
    pub fn federated_instances(&self) -> (r: Option<FederatedInstances>)
        ensures
            match (r, self.peers()) {
                (Some(a), Some(b)) => a.linked@ == b.linked@ && a.allowed@ == b.allowed@
                    && a.blocked@ == b.blocked@,
                (None, None) => true,
                _ => false,
            },
    {
        let f = match self {
            GetFederatedInstancesResponse::V019(f) => &f.federated_instances,
        };
        match f {
            Some(f) => Some(
                FederatedInstances {
                    linked: copy_strings(&f.linked),
                    allowed: copy_strings(&f.allowed),
                    blocked: copy_strings(&f.blocked),
                },
            ),
            None => None,
        }
    }

    /// The linked peers, borrowed; empty where federation is disabled.
    pub fn linked(&self) -> (r: &[String])
        ensures
            r@ == self.linked_view(),
    {
        let f = match self {
            GetFederatedInstancesResponse::V019(f) => &f.federated_instances,
        };
        match f {
            Some(f) => f.linked.as_slice(),
            None => &[],
        }
    }
}

} // verus!
