//! Addresses of the server's introspection endpoints, as the
//! command-line client builds them.

use vstd::prelude::*;

use crate::text::{push_decimal, spec_decimal};

verus! {

/// Where the route-listing client connects.
pub struct RoutesConfig {
    pub host: String,
    pub port: u16,
}

/// The address of the route-listing endpoint on a host and port.
pub fn build_routes_url(host: &str, port: u16) -> (r: String)
    ensures
        r@ == "http://"@ + host@ + ":"@ + spec_decimal(port as int) + "/__rapina/routes"@,
{
    let mut out = String::new();
    out.append("http://");
    out.append(host);
    out.append(":");
    push_decimal(&mut out, port as u64);
    out.append("/__rapina/routes");
    proof {
        assert(out@ =~= "http://"@ + host@ + ":"@ + spec_decimal(port as int)
            + "/__rapina/routes"@);
    }
    out
}

/// The address of the API description endpoint on a host and port.
pub fn build_openapi_url(host: &String, port: &u16) -> (r: String)
    ensures
        r@ == "http://"@ + host@ + ":"@ + spec_decimal(*port as int) + "/__rapina/openapi.json"@,
{
    let mut out = String::new();
    out.append("http://");
    out.append(host.as_str());
    out.append(":");
    push_decimal(&mut out, *port as u64);
    out.append("/__rapina/openapi.json");
    proof {
        assert(out@ =~= "http://"@ + host@ + ":"@ + spec_decimal(*port as int)
            + "/__rapina/openapi.json"@);
    }
    out
}

} // verus!
