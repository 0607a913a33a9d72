//! A forwarding route and the rule compiler: each route compiles to a fixed,
//! ordered sequence of three firewall mutation descriptors, for the install
//! direction and for the uninstall direction.

use vstd::prelude::*;

use crate::strutil::{dec_digits, join_spaces, u16_to_dec};

verus! {

/// One active forwarding intent: traffic arriving at the public endpoint is
/// redirected to the destination endpoint. Identity for registry purposes is
/// the public endpoint alone.
pub struct ForwardingRoute {
    pub pub_ip: String,
    pub pub_port: u16,
    pub dest_ip: String,
    pub dest_port: u16,
    pub protocol: String,
}

/// The mathematical model of a route: the same fields, with the addresses and
/// the protocol token as character sequences.
pub ghost struct RouteView {
    pub pub_ip: Seq<char>,
    pub pub_port: u16,
    pub dest_ip: Seq<char>,
    pub dest_port: u16,
    pub protocol: Seq<char>,
}

impl View for ForwardingRoute {
    type V = RouteView;

    open spec fn view(&self) -> RouteView {
        RouteView {
            pub_ip: self.pub_ip@,
            pub_port: self.pub_port,
            dest_ip: self.dest_ip@,
            dest_port: self.dest_port,
            protocol: self.protocol@,
        }
    }
}

impl DeepView for ForwardingRoute {
    type V = RouteView;

    open spec fn deep_view(&self) -> RouteView {
        self.view()
    }
}

/// The forward-accept rule for inbound traffic that was already rewritten
/// toward the internal host. `action` is the table operation: insert or delete.
pub open spec fn spec_accept_inbound(r: RouteView, action: Seq<char>) -> Seq<Seq<char>> {
    seq![
        action,
        "FORWARD"@,
        "-d"@,
        r.dest_ip,
        "-m"@,
        "comment"@,
        "--comment"@,
        "\"Accept to forward traffic\""@,
        "-m"@,
        "tcp"@,
        "-p"@,
        r.protocol,
        "--dport"@,
        dec_digits(r.pub_port as int),
        "-j"@,
        "ACCEPT"@,
    ]
}

/// The forward-accept rule for return traffic from the internal host.
pub open spec fn spec_accept_return(r: RouteView, action: Seq<char>) -> Seq<Seq<char>> {
    seq![
        action,
        "FORWARD"@,
        "-m"@,
        "comment"@,
        "--comment"@,
        "\"Accept to forward return traffic\""@,
        "-s"@,
        r.dest_ip,
        "-m"@,
        "tcp"@,
        "-p"@,
        r.protocol,
        "--sport"@,
        dec_digits(r.dest_port as int),
        "-j"@,
        "ACCEPT"@,
    ]
}

/// The destination-NAT rule in the pre-routing chain. The action stands third,
/// after the table selector.
pub open spec fn spec_nat_redirect(r: RouteView, action: Seq<char>) -> Seq<Seq<char>> {
    seq![
        "-t"@,
        "nat"@,
        action,
        "PREROUTING"@,
        "-m"@,
        "tcp"@,
        "-p"@,
        r.protocol,
        "--dport"@,
        dec_digits(r.pub_port as int),
        "-m"@,
        "comment"@,
        "--comment"@,
        "\"redirect pkts to homeserver\""@,
        "-j"@,
        "DNAT"@,
        "--to-destination"@,
        r.dest_ip + ":"@ + dec_digits(r.dest_port as int),
    ]
}

/// The three install descriptors of a route, in the fixed order the firewall
/// needs: both forward-accept rules before the NAT redirect.
pub open spec fn spec_install_args(r: RouteView) -> Seq<Seq<Seq<char>>> {
    seq![
        spec_accept_inbound(r, "-I"@),
        spec_accept_return(r, "-I"@),
        spec_nat_redirect(r, "-I"@),
    ]
}

/// The three uninstall descriptors: the same selector fields in the same
/// order, with the insert action replaced by delete-matching-rule.
pub open spec fn spec_uninstall_args(r: RouteView) -> Seq<Seq<Seq<char>>> {
    seq![
        spec_accept_inbound(r, "-D"@),
        spec_accept_return(r, "-D"@),
        spec_nat_redirect(r, "-D"@),
    ]
}

impl ForwardingRoute {
    pub fn new(public: (String, u16), dest: (String, u16), protocol: String) -> (r: Self)
        ensures
            r@.pub_ip == public.0@,
            r@.pub_port == public.1,
            r@.dest_ip == dest.0@,
            r@.dest_port == dest.1,
            r@.protocol == protocol@,
    {
        Self {
            pub_ip: public.0,
            pub_port: public.1,
            dest_ip: dest.0,
            dest_port: dest.1,
            protocol,
        }
    }

    pub fn public_ip(&self) -> (r: &str)
        ensures
            r@ == self@.pub_ip,
    {
        self.pub_ip.as_str()
    }

    pub fn public_port(&self) -> (r: u16)
        ensures
            r == self@.pub_port,
    {
        self.pub_port
    }

    fn accept_inbound_args(&self, action: &str) -> (v: Vec<String>)
        ensures
            v.deep_view() == spec_accept_inbound(self@, action@),
    {
        let mut v: Vec<String> = Vec::new();
        v.push(action.to_owned());
        v.push("FORWARD".to_owned());
        v.push("-d".to_owned());
        v.push(self.dest_ip.clone());
        v.push("-m".to_owned());
        v.push("comment".to_owned());
        v.push("--comment".to_owned());
        v.push("\"Accept to forward traffic\"".to_owned());
        v.push("-m".to_owned());
        v.push("tcp".to_owned());
        v.push("-p".to_owned());
        v.push(self.protocol.clone());
        v.push("--dport".to_owned());
        v.push(u16_to_dec(self.pub_port));
        v.push("-j".to_owned());
        v.push("ACCEPT".to_owned());
        proof {
            assert(v.deep_view() =~= spec_accept_inbound(self@, action@));
        }
        v
    }

    fn accept_return_args(&self, action: &str) -> (v: Vec<String>)
        ensures
            v.deep_view() == spec_accept_return(self@, action@),
    {
        let mut v: Vec<String> = Vec::new();
        v.push(action.to_owned());
        v.push("FORWARD".to_owned());
        v.push("-m".to_owned());
        v.push("comment".to_owned());
        v.push("--comment".to_owned());
        v.push("\"Accept to forward return traffic\"".to_owned());
        v.push("-s".to_owned());
        v.push(self.dest_ip.clone());
        v.push("-m".to_owned());
        v.push("tcp".to_owned());
        v.push("-p".to_owned());
        v.push(self.protocol.clone());
        v.push("--sport".to_owned());
        v.push(u16_to_dec(self.dest_port));
        v.push("-j".to_owned());
        v.push("ACCEPT".to_owned());
        proof {
            assert(v.deep_view() =~= spec_accept_return(self@, action@));
        }
        v
    }

    fn nat_redirect_args(&self, action: &str) -> (v: Vec<String>)
        ensures
            v.deep_view() == spec_nat_redirect(self@, action@),
    {
        let mut v: Vec<String> = Vec::new();
        v.push("-t".to_owned());
        v.push("nat".to_owned());
        v.push(action.to_owned());
        v.push("PREROUTING".to_owned());
        v.push("-m".to_owned());
        v.push("tcp".to_owned());
        v.push("-p".to_owned());
        v.push(self.protocol.clone());
        v.push("--dport".to_owned());
        v.push(u16_to_dec(self.pub_port));
        v.push("-m".to_owned());
        v.push("comment".to_owned());
        v.push("--comment".to_owned());
        v.push("\"redirect pkts to homeserver\"".to_owned());
        v.push("-j".to_owned());
        v.push("DNAT".to_owned());
        v.push("--to-destination".to_owned());
        let mut target = self.dest_ip.clone();
        target.append(":");
        let port = u16_to_dec(self.dest_port);
        target.append(port.as_str());
        v.push(target);
        proof {
            assert(v.deep_view() =~= spec_nat_redirect(self@, action@));
        }
        v
    }

    fn compile_args(&self, insert: bool) -> (r: Vec<Vec<String>>)
        ensures
            insert ==> r.deep_view() == spec_install_args(self@),
            !insert ==> r.deep_view() == spec_uninstall_args(self@),
    {
        let action: &str = if insert {
            "-I"
        } else {
            "-D"
        };
        let mut r: Vec<Vec<String>> = Vec::new();
        r.push(self.accept_inbound_args(action));
        r.push(self.accept_return_args(action));
        r.push(self.nat_redirect_args(action));
        proof {
            if insert {
                assert(r.deep_view() =~= spec_install_args(self@));
            } else {
                assert(r.deep_view() =~= spec_uninstall_args(self@));
            }
        }
        r
    }

    /// The ordered install descriptors of this route, each an argument list
    /// for the firewall tool.
    pub fn register_args(&self) -> (r: Vec<Vec<String>>)
        ensures
            r.deep_view() == spec_install_args(self@),
    {
        self.compile_args(true)
    }

    /// The ordered uninstall descriptors of this route: the install
    /// descriptors with the insert action replaced by delete.
    pub fn deregister_args(&self) -> (r: Vec<Vec<String>>)
        ensures
            r.deep_view() == spec_uninstall_args(self@),
    {
        self.compile_args(false)
    }

    /// Dry-run install: the (program, argument-string) pair of each install
    /// descriptor, in order.
    pub fn dry_register(&self) -> (r: Vec<(String, String)>)
        ensures
            r@.len() == 3,
            forall|i: int|
                0 <= i < 3 ==> (#[trigger] r@[i]).0@ == "iptables"@ && r@[i].1@ == join_spaces(
                    spec_install_args(self@)[i],
                ),
    {
        let args = self.register_args();
        let r = crate::strutil::dry_run_batch(&args);
        proof {
            assert(args.deep_view().len() == 3);
            assert forall|i: int|
                0 <= i < 3 implies (#[trigger] r@[i]).0@ == "iptables"@ && r@[i].1@ == join_spaces(
                spec_install_args(self@)[i],
            ) by {
                assert(r@[i].0@ == "iptables"@ && r@[i].1@ == join_spaces(args@[i].deep_view()));
                assert(args.deep_view()[i] == args@[i].deep_view());
            }
        }
        r
    }

    /// Dry-run uninstall: the (program, argument-string) pair of each
    /// uninstall descriptor, in order.
    pub fn dry_deregister(&self) -> (r: Vec<(String, String)>)
        ensures
            r@.len() == 3,
            forall|i: int|
                0 <= i < 3 ==> (#[trigger] r@[i]).0@ == "iptables"@ && r@[i].1@ == join_spaces(
                    spec_uninstall_args(self@)[i],
                ),
    {
        let args = self.deregister_args();
        let r = crate::strutil::dry_run_batch(&args);
        proof {
            assert(args.deep_view().len() == 3);
            assert forall|i: int|
                0 <= i < 3 implies (#[trigger] r@[i]).0@ == "iptables"@ && r@[i].1@ == join_spaces(
                spec_uninstall_args(self@)[i],
            ) by {
                assert(r@[i].0@ == "iptables"@ && r@[i].1@ == join_spaces(args@[i].deep_view()));
                assert(args.deep_view()[i] == args@[i].deep_view());
            }
        }
        r
    }
}

/// Uninstall mirrors install: both sequences have length three, and each
/// uninstall descriptor equals the corresponding install descriptor with only
/// the action field changed from insert to delete — same relative order, not
/// reversed.
pub proof fn lemma_uninstall_mirrors_install(r: RouteView)
    ensures
        spec_install_args(r).len() == 3,
        spec_uninstall_args(r).len() == 3,
        spec_install_args(r)[0][0] == "-I"@,
        spec_install_args(r)[1][0] == "-I"@,
        spec_install_args(r)[2][2] == "-I"@,
        spec_uninstall_args(r)[0] == spec_install_args(r)[0].update(0, "-D"@),
        spec_uninstall_args(r)[1] == spec_install_args(r)[1].update(0, "-D"@),
        spec_uninstall_args(r)[2] == spec_install_args(r)[2].update(2, "-D"@),
{
    assert(spec_accept_inbound(r, "-D"@) =~= spec_accept_inbound(r, "-I"@).update(0, "-D"@));
    assert(spec_accept_return(r, "-D"@) =~= spec_accept_return(r, "-I"@).update(0, "-D"@));
    assert(spec_nat_redirect(r, "-D"@) =~= spec_nat_redirect(r, "-I"@).update(2, "-D"@));
}

} // verus!
