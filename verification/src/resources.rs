//! The remaining resources the tool lists: tenants, dedicated
//! servers and load balancers. They are plain data fetched for
//! display; the load balancer creation body is framed here because
//! its bytes are covered by the request signature.

use vstd::prelude::*;
use crate::json::json_string;
use crate::json::append_json_string;

verus! {

/// A billing/project scope instances live under.
pub struct Tenant {
    pub project_id: String,
    pub description: String,
    pub plan_code: String,
    pub unleash: bool,
    pub status: String,
    pub access: String,
}

/// A dedicated (bare-metal) server.
pub struct Server {
    pub reverse: String,
    pub state: String,
    pub monitoring: bool,
    pub data_center: String,
    pub rack: String,
    pub os: String,
    pub name: String,
    pub link_speed: i64,
    pub ip: String,
    pub server_id: i64,
}

/// The configuration state of a load balancer.
pub struct ConfigurationState {
    pub applied: i64,
    pub latest: i64,
}

/// The addresses of a load balancer.
pub struct Address {
    pub ip_v4: String,
    pub ip_v6: Option<String>,
}

/// A cloud load balancer.
pub struct LoadBalancer {
    pub id: Option<String>,
    pub name: Option<String>,
    pub description: Option<String>,
    pub region: String,
    pub status: String,
    pub address: Address,
    pub configuration: ConfigurationState,
}

/// What a load balancer is created from: the region it lives in.
pub struct LoadBalancerCreation {
    pub region: String,
}

impl From<String> for LoadBalancerCreation {
    fn from(region: String) -> (r: LoadBalancerCreation) {
        LoadBalancerCreation { region }
    }
}

impl vstd::std_specs::convert::FromSpecImpl<String> for LoadBalancerCreation {
    open spec fn obeys_from_spec() -> bool {
        true
    }

    open spec fn from_spec(region: String) -> LoadBalancerCreation {
        LoadBalancerCreation { region }
    }
}

/// The body posted to create a load balancer.
pub open spec fn loadbalancer_creation_json(region: Seq<char>) -> Seq<char> {
    seq!['{', '"', 'r', 'e', 'g', 'i', 'o', 'n', '"', ':'] + json_string(region) + seq!['}']
}

impl LoadBalancerCreation {
    /// Serialize the creation request.
    pub fn to_json(&self) -> (out: String)
        ensures
            out@ == loadbalancer_creation_json(self.region@),
    {
        proof {
            reveal_strlit("{\"region\":");
            reveal_strlit("}");
        }
        let mut out = String::new();
        out.append("{\"region\":");
        append_json_string(&mut out, self.region.as_str());
        out.append("}");
        proof {
            assert(out@ =~= loadbalancer_creation_json(self.region@));
        }
        out
    }
}

} // verus!
