//! The decisions of the control operations, free of transport and process
//! concerns: a create request turns into a registry add plus an ordered batch
//! of mutation descriptors, a remove request into a registry remove plus the
//! uninstall batch or a not-found outcome.

use vstd::prelude::*;

use crate::registry::{remove_endpoint, route_at, spec_add, AppState, RemoveRequest};
use crate::route::{spec_install_args, spec_uninstall_args, ForwardingRoute, RouteView};

verus! {

/// A request to create a forwarding route at a public port.
pub struct CreateRequest {
    pub public_port: u16,
    pub inner_port: u16,
    pub inner_ip: String,
    pub protocol: String,
}

/// The route a create request asks for, under the configured public address.
pub open spec fn requested_route(public_ip: Seq<char>, req: CreateRequest) -> RouteView {
    RouteView {
        pub_ip: public_ip,
        pub_port: req.public_port,
        dest_ip: req.inner_ip@,
        dest_port: req.inner_port,
        protocol: req.protocol@,
    }
}

impl AppState {
    /// Handles a create request: registers the requested route, evicting any
    /// route at the same public endpoint, and returns the mutation
    /// descriptors to execute, in order — the evicted route's uninstall
    /// descriptors first, then the new route's install descriptors.
    pub fn create_route(&mut self, req: &CreateRequest) -> (descs: Vec<Vec<String>>)
        requires
            old(self).wf(),
        ensures
            final(self).wf(),
            final(self)@.routes == spec_add(
                old(self)@.routes,
                requested_route(old(self)@.public_ip, *req),
            ),
            descs.deep_view() == (match route_at(
                old(self)@.routes,
                old(self)@.public_ip,
                req.public_port,
            ) {
                Some(r0) => spec_uninstall_args(r0) + spec_install_args(
                    requested_route(old(self)@.public_ip, *req),
                ),
                None => spec_install_args(requested_route(old(self)@.public_ip, *req)),
            }),
            final(self)@.public_ip == old(self)@.public_ip,
            final(self)@.dry_run == old(self)@.dry_run,
    {
        let route = ForwardingRoute::new(
            (self.public_ip.clone(), req.public_port),
            (req.inner_ip.clone(), req.inner_port),
            req.protocol.clone(),
        );
        let mut install = route.register_args();
        match self.add(route) {
            Some(old_route) => {
                let mut descs = old_route.deregister_args();
                let ghost uninstall_part = descs.deep_view();
                let ghost install_part = install.deep_view();
                descs.append(&mut install);
                proof {
                    assert(descs.deep_view() =~= uninstall_part + install_part);
                }
                descs
            },
            None => install,
        }
    }

    /// Handles a remove request: deregisters the route at the requested
    /// public port and returns its uninstall descriptors, in order; with no
    /// active route there, the registry is untouched and nothing is returned
    /// — a not-found outcome with zero mutation commands.
    pub fn remove_route(&mut self, req: &RemoveRequest) -> (descs: Option<Vec<Vec<String>>>)
        requires
            old(self).wf(),
        ensures
            final(self).wf(),
            final(self)@.routes == remove_endpoint(
                old(self)@.routes,
                old(self)@.public_ip,
                req.public_port,
            ),
            match route_at(old(self)@.routes, old(self)@.public_ip, req.public_port) {
                Some(r0) => descs matches Some(d) && d.deep_view() == spec_uninstall_args(r0),
                None => descs is None && final(self)@.routes == old(self)@.routes,
            },
            final(self)@.public_ip == old(self)@.public_ip,
            final(self)@.dry_run == old(self)@.dry_run,
    {
        match self.remove(req) {
            Some(old_route) => Some(old_route.deregister_args()),
            None => None,
        }
    }
}

} // verus!
