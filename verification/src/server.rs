//! Transport-server decisions: what to advertise on the local network,
//! how a request path maps to an asset, and the health reply.
//!
//! Listening, serving and the advertisement daemon run outside the
//! library; they follow the plans made here.

use vstd::prelude::*;

verus! {

/// What the server advertises on the local network when it can.
pub struct ServicePlan {
    pub service_type: String,
    pub instance_name: String,
    pub host_name: String,
    pub port: u16,
}

/// The advertisement to register for a host address: nothing without a
/// usable IPv4 address, else the fixed service name and type bound to
/// the listening port. Best effort: a skipped advertisement never stops
/// the server.
pub fn advertisement_plan(local_ip: Option<[u8; 4]>, port: u16) -> (r: Option<ServicePlan>)
    ensures
        match r {
            Some(plan) => {
                &&& match local_ip {
                    Some(ip) => !(ip[0] == 0 && ip[1] == 0 && ip[2] == 0 && ip[3] == 0),
                    None => false,
                }
                &&& plan.service_type@ == "_http._tcp.local."@
                &&& plan.instance_name@ == "eazycontroller"@
                &&& plan.host_name@ == "eazycontroller.local."@
                &&& plan.port == port
            },
            None => match local_ip {
                Some(ip) => ip[0] == 0 && ip[1] == 0 && ip[2] == 0 && ip[3] == 0,
                None => true,
            },
        },
{
    match local_ip {
        None => None,
        Some(ip) => {
            if ip[0] == 0 && ip[1] == 0 && ip[2] == 0 && ip[3] == 0 {
                None
            } else {
                Some(
                    ServicePlan {
                        service_type: String::from_str("_http._tcp.local."),
                        instance_name: String::from_str("eazycontroller"),
                        host_name: String::from_str("eazycontroller.local."),
                        port,
                    },
                )
            }
        },
    }
}

/// The health reply.
pub fn health_response() -> (r: String)
    ensures
        r@ == "OK"@,
{
    String::from_str("OK")
}

/// A request path without its leading slashes.
pub open spec fn spec_trim_slashes(path: Seq<char>) -> Seq<char>
    decreases path.len(),
{
    if path.len() > 0 && path[0] == '/' {
        spec_trim_slashes(path.drop_first())
    } else {
        path
    }
}

/// The asset a request path asks for: the path without its leading
/// slashes, or the entry document when nothing is left.
pub open spec fn spec_asset_path(path: Seq<char>) -> Seq<char> {
    if spec_trim_slashes(path).len() == 0 {
        "index.html"@
    } else {
        spec_trim_slashes(path)
    }
}

/// The asset a request path asks for.
pub fn resolve_asset_path(path: &str) -> (r: String)
    ensures
        r@ == spec_asset_path(path@),
{
    let n = path.unicode_len();
    let mut k: usize = 0;
    proof {
        assert(path@.skip(0) =~= path@);
    }
    while k < n && path.get_char(k) == '/'
        invariant
            n == path@.len(),
            k <= n,
            forall|j: int| 0 <= j < k ==> (#[trigger] path@[j]) == '/',
            spec_trim_slashes(path@) == spec_trim_slashes(path@.skip(k as int)),
        decreases n - k,
    {
        proof {
            assert(path@.skip(k as int)[0] == path@[k as int]);
            assert(path@.skip(k as int).drop_first() =~= path@.skip(k + 1));
        }
        k += 1;
    }
    proof {
        if k < n {
            assert(path@.skip(k as int)[0] == path@[k as int]);
            assert(spec_trim_slashes(path@.skip(k as int)) == path@.skip(k as int));
        } else {
            assert(path@.skip(k as int) =~= Seq::<char>::empty());
        }
    }
    let rest = path.substring_char(k, n);
    proof {
        assert(rest@ =~= path@.skip(k as int));
    }
    if rest.is_empty() {
        String::from_str("index.html")
    } else {
        rest.to_owned()
    }
}

/// Where an unmatched asset request falls back to: the entry document,
/// unless the request already asked for it — then nothing is left but a
/// plain not-found reply.
pub fn asset_fallback(asset_path: &str) -> (r: Option<String>)
    ensures
        match r {
            Some(f) => asset_path@ != "index.html"@ && f@ == "index.html"@,
            None => asset_path@ == "index.html"@,
        },
{
    let this = asset_path.to_owned();
    let index = String::from_str("index.html");
    if this == index {
        None
    } else {
        Some(String::from_str("index.html"))
    }
}

} // verus!
