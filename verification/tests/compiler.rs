// The rule compiler and the dry-run executor, checked on concrete routes
// against the exact command lines the firewall tool must see.

use iptables_proxy::ForwardingRoute;
use iptables_proxy::dry_run_batch;

fn sample_route() -> ForwardingRoute {
    ForwardingRoute::new(
        ("203.0.113.1".to_string(), 8080),
        ("10.0.0.5".to_string(), 80),
        "tcp".to_string(),
    )
}

fn joined(args: &[String]) -> String {
    args.join(" ")
}

#[test]
fn install_descriptors_exact() {
    let r = sample_route();
    let descs = r.register_args();
    assert_eq!(descs.len(), 3);
    assert_eq!(
        joined(&descs[0]),
        "-I FORWARD -d 10.0.0.5 -m comment --comment \"Accept to forward traffic\" -m tcp -p tcp --dport 8080 -j ACCEPT"
    );
    assert_eq!(
        joined(&descs[1]),
        "-I FORWARD -m comment --comment \"Accept to forward return traffic\" -s 10.0.0.5 -m tcp -p tcp --sport 80 -j ACCEPT"
    );
    assert_eq!(
        joined(&descs[2]),
        "-t nat -I PREROUTING -m tcp -p tcp --dport 8080 -m comment --comment \"redirect pkts to homeserver\" -j DNAT --to-destination 10.0.0.5:80"
    );
}

#[test]
fn uninstall_mirrors_install() {
    let r = sample_route();
    let ins = r.register_args();
    let uns = r.deregister_args();
    assert_eq!(ins.len(), 3);
    assert_eq!(uns.len(), 3);
    // Same relative order, identical selector fields; only the action token
    // changes from insert to delete. It stands at the head of the two
    // forward-accept rules and third in the NAT rule, after the table flag.
    let action_pos = [0usize, 0, 2];
    for k in 0..3 {
        assert_eq!(ins[k].len(), uns[k].len());
        for j in 0..ins[k].len() {
            if j == action_pos[k] {
                assert_eq!(ins[k][j], "-I");
                assert_eq!(uns[k][j], "-D");
            } else {
                assert_eq!(ins[k][j], uns[k][j]);
            }
        }
    }
}

#[test]
fn dry_register_renders_pairs() {
    let r = sample_route();
    let pairs = r.dry_register();
    let descs = r.register_args();
    assert_eq!(pairs.len(), 3);
    for k in 0..3 {
        assert_eq!(pairs[k].0, "iptables");
        assert_eq!(pairs[k].1, joined(&descs[k]));
    }
}

#[test]
fn dry_deregister_renders_pairs() {
    let r = sample_route();
    let pairs = r.dry_deregister();
    let descs = r.deregister_args();
    assert_eq!(pairs.len(), 3);
    for k in 0..3 {
        assert_eq!(pairs[k].0, "iptables");
        assert_eq!(pairs[k].1, joined(&descs[k]));
    }
}

#[test]
fn dry_run_batch_keeps_order_and_count() {
    let descs = vec![
        vec!["-A".to_string(), "x".to_string()],
        vec!["lone".to_string()],
        vec![],
        vec!["-D".to_string(), "y".to_string(), "z".to_string()],
    ];
    let pairs = dry_run_batch(&descs);
    assert_eq!(pairs.len(), 4);
    assert_eq!(pairs[0], ("iptables".to_string(), "-A x".to_string()));
    assert_eq!(pairs[1], ("iptables".to_string(), "lone".to_string()));
    assert_eq!(pairs[2], ("iptables".to_string(), "".to_string()));
    assert_eq!(pairs[3], ("iptables".to_string(), "-D y z".to_string()));
}

#[test]
fn dry_run_batch_empty() {
    let pairs = dry_run_batch(&Vec::new());
    assert!(pairs.is_empty());
}

#[test]
fn port_rendering_edges() {
    let r = ForwardingRoute::new(
        ("198.51.100.9".to_string(), 0),
        ("192.168.1.1".to_string(), 65535),
        "udp".to_string(),
    );
    let descs = r.register_args();
    assert_eq!(
        joined(&descs[0]),
        "-I FORWARD -d 192.168.1.1 -m comment --comment \"Accept to forward traffic\" -m tcp -p udp --dport 0 -j ACCEPT"
    );
    assert_eq!(
        joined(&descs[1]),
        "-I FORWARD -m comment --comment \"Accept to forward return traffic\" -s 192.168.1.1 -m tcp -p udp --sport 65535 -j ACCEPT"
    );
    assert_eq!(
        joined(&descs[2]),
        "-t nat -I PREROUTING -m tcp -p udp --dport 0 -m comment --comment \"redirect pkts to homeserver\" -j DNAT --to-destination 192.168.1.1:65535"
    );
}

#[test]
fn route_accessors() {
    let r = sample_route();
    assert_eq!(r.public_ip(), "203.0.113.1");
    assert_eq!(r.public_port(), 8080);
}
