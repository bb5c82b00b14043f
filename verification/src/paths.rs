//! Request paths of the API.
//!
//! Every collector fetches a list of identifiers first and each
//! object second; the paths of those calls, and of the record
//! mutations, are assembled here with their exact text.

use vstd::prelude::*;
use crate::num::dec_int;
use crate::num::i64_to_string;

verus! {

/// The path listing the tenant identifiers.
pub fn tenant_list_path() -> (r: String)
    ensures
        r@ == "cloud/project"@,
{
    String::from_str("cloud/project")
}

/// The path of one tenant.
pub fn tenant_path(id: &str) -> (r: String)
    ensures
        r@ == "cloud/project/"@ + id@,
{
    let mut r = String::from_str("cloud/project/");
    r.append(id);
    r
}

/// The path listing the instances of a tenant.
pub fn instance_list_path(tenant: &str) -> (r: String)
    ensures
        r@ == "cloud/project/"@ + tenant@ + "/instance"@,
{
    let mut r = String::from_str("cloud/project/");
    r.append(tenant);
    r.append("/instance");
    r
}

/// The path listing the load balancer identifiers of a tenant.
pub fn loadbalancer_list_path(tenant: &str) -> (r: String)
    ensures
        r@ == "cloud/project/"@ + tenant@ + "/loadbalancer"@,
{
    let mut r = String::from_str("cloud/project/");
    r.append(tenant);
    r.append("/loadbalancer");
    r
}

/// The path of one load balancer.
pub fn loadbalancer_path(tenant: &str, id: &str) -> (r: String)
    ensures
        r@ == "cloud/project/"@ + tenant@ + "/loadbalancer/"@ + id@,
{
    let mut r = String::from_str("cloud/project/");
    r.append(tenant);
    r.append("/loadbalancer/");
    r.append(id);
    r
}

/// The path listing the dedicated server identifiers.
pub fn server_list_path() -> (r: String)
    ensures
        r@ == "dedicated/server"@,
{
    String::from_str("dedicated/server")
}

/// The path of one dedicated server.
pub fn server_path(id: &str) -> (r: String)
    ensures
        r@ == "dedicated/server/"@ + id@,
{
    let mut r = String::from_str("dedicated/server/");
    r.append(id);
    r
}

/// The path listing the zone names.
pub fn zone_list_path() -> (r: String)
    ensures
        r@ == "domain/zone"@,
{
    String::from_str("domain/zone")
}

/// The path of one zone.
pub fn zone_path(zone: &str) -> (r: String)
    ensures
        r@ == "domain/zone/"@ + zone@,
{
    let mut r = String::from_str("domain/zone/");
    r.append(zone);
    r
}

/// The path listing the record identifiers of a zone, also the path
/// records are created under.
pub fn record_list_path(zone: &str) -> (r: String)
    ensures
        r@ == "domain/zone/"@ + zone@ + "/record"@,
{
    let mut r = String::from_str("domain/zone/");
    r.append(zone);
    r.append("/record");
    r
}

/// The path of one record of a zone.
pub fn record_path(zone: &str, id: i64) -> (r: String)
    ensures
        r@ == "domain/zone/"@ + zone@ + "/record/"@ + dec_int(id as int),
{
    let mut r = String::from_str("domain/zone/");
    r.append(zone);
    r.append("/record/");
    let d = i64_to_string(id);
    r.append(d.as_str());
    r
}

/// The path publishing the pending changes of a zone.
pub fn refresh_path(zone: &str) -> (r: String)
    ensures
        r@ == "domain/zone/"@ + zone@ + "/refresh"@,
{
    let mut r = String::from_str("domain/zone/");
    r.append(zone);
    r.append("/refresh");
    r
}

/// The path of the login bootstrap call.
pub fn credential_path() -> (r: String)
    ensures
        r@ == "auth/credential"@,
{
    String::from_str("auth/credential")
}

} // verus!
