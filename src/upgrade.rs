//! The admission decision for an upgrade request, from the request's facts to
//! a tunnel plan or a rejection.

use vstd::prelude::*;
use crate::admission::{
    destination_allowed, opt_texts, path_allowed, validate_destination, validate_url,
};
use crate::tunnel::{
    kind_of, parsed_host, plan_for, run_tunnel, JwtTunnelConfig, TunnelError, TunnelPlan,
};

verus! {

/// The body of every rejection; it does not tell which rule failed.
pub const REJECTION_BODY: &'static str = "Invalid upgrade request";

/// The HTTP status of every rejection.
pub const REJECTION_STATUS: u16 = 400;

/// The server's admission policy.
pub struct ServerPolicy {
    /// When set, the first path segment must be one of these.
    pub restrict_http_upgrade_path_prefix: Option<Vec<String>>,
    /// When set, `host:port` must be one of these.
    pub restrict_to: Option<Vec<String>>,
}

/// Why an upgrade request was refused.
#[derive(Clone, Copy, Debug, PartialEq, Eq, Structural)]
pub enum Rejection {
    NotUpgrade,
    BadPath,
    BadToken,
    ForbiddenDestination,
    Tunnel(TunnelError),
}

impl Rejection {
    /// The HTTP status of the response: always 400.
    pub fn status(&self) -> (r: u16)
        ensures
            r == 400,
    {
        REJECTION_STATUS
    }

    /// The body of the response, the same for every reason.
    pub fn body(&self) -> (r: String)
        ensures
            r@ == REJECTION_BODY@,
    {
        String::from_str(REJECTION_BODY)
    }
}

/// Decides an upgrade request, in order: it must be a WebSocket upgrade, its
/// path must pass the path policy, it must carry valid claims, their
/// destination must pass the allow-list, and the claims must be served.
/// `claims` is `None` when the request carried no token that verified.
pub fn admit_upgrade(
    policy: &ServerPolicy,
    is_upgrade: bool,
    path: &str,
    claims: Option<&JwtTunnelConfig>,
) -> (r: Result<TunnelPlan, Rejection>)
    ensures
        claims is None ==> r is Err,
        !is_upgrade ==> r == Err::<TunnelPlan, Rejection>(Rejection::NotUpgrade),
        is_upgrade && !path_allowed(path@, opt_texts(policy.restrict_http_upgrade_path_prefix))
            ==> r == Err::<TunnelPlan, Rejection>(Rejection::BadPath),
        is_upgrade && path_allowed(path@, opt_texts(policy.restrict_http_upgrade_path_prefix))
            && claims is None ==> r == Err::<TunnelPlan, Rejection>(Rejection::BadToken),
        claims matches Some(c) ==> (is_upgrade && path_allowed(
            path@,
            opt_texts(policy.restrict_http_upgrade_path_prefix),
        ) ==> {
            if !destination_allowed(c.r@, c.rp, opt_texts(policy.restrict_to)) {
                r == Err::<TunnelPlan, Rejection>(Rejection::ForbiddenDestination)
            } else if kind_of(c.p) is None {
                r == Err::<TunnelPlan, Rejection>(
                    Rejection::Tunnel(TunnelError::UnsupportedProtocol),
                )
            } else if parsed_host(c.r@) is None {
                r == Err::<TunnelPlan, Rejection>(Rejection::Tunnel(TunnelError::InvalidHost))
            } else {
                r matches Ok(plan) && plan_for(*c, plan)
            }
        }),
{
    if !is_upgrade {
        return Err(Rejection::NotUpgrade);
    }
    if !validate_url(path, &policy.restrict_http_upgrade_path_prefix) {
        return Err(Rejection::BadPath);
    }
    let c = match claims {
        None => {
            return Err(Rejection::BadToken);
        },
        Some(c) => c,
    };
    if !validate_destination(c.r.as_str(), c.rp, &policy.restrict_to) {
        return Err(Rejection::ForbiddenDestination);
    }
    match run_tunnel(c) {
        Ok(plan) => Ok(plan),
        Err(e) => Err(Rejection::Tunnel(e)),
    }
}

} // verus!
