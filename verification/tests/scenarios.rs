// The registry operations and the end-to-end control scenarios, run in
// dry-run mode against the exact descriptor batches they must produce.

use iptables_proxy::{AppState, CreateRequest, ForwardingRoute, RemoveRequest};

const PUBLIC_IP: &str = "203.0.113.1";

fn fresh_state() -> AppState {
    AppState::new(PUBLIC_IP.to_string(), true)
}

fn route(public_port: u16, inner_ip: &str, inner_port: u16) -> ForwardingRoute {
    ForwardingRoute::new(
        (PUBLIC_IP.to_string(), public_port),
        (inner_ip.to_string(), inner_port),
        "tcp".to_string(),
    )
}

#[test]
fn add_distinct_endpoints_keeps_both() {
    let mut st = fresh_state();
    assert!(st.add(route(8080, "10.0.0.5", 80)).is_none());
    assert!(st.add(route(8081, "10.0.0.6", 81)).is_none());
    assert_eq!(st.routes.len(), 2);
    let ports: Vec<u16> = st.routes.iter().map(|r| r.public_port()).collect();
    assert!(ports.contains(&8080));
    assert!(ports.contains(&8081));
}

#[test]
fn add_repeated_endpoint_replaces() {
    let mut st = fresh_state();
    assert!(st.add(route(8080, "10.0.0.5", 80)).is_none());
    let evicted = st.add(route(8080, "10.0.0.9", 90));
    let evicted = evicted.expect("the colliding route must be handed back");
    assert_eq!(evicted.public_port(), 8080);
    assert_eq!(evicted.dest_ip, "10.0.0.5");
    assert_eq!(st.routes.len(), 1);
    assert_eq!(st.routes[0].dest_ip, "10.0.0.9");
    assert_eq!(st.routes[0].dest_port, 90);
}

#[test]
fn remove_missing_endpoint_returns_nothing() {
    let mut st = fresh_state();
    assert!(st.add(route(8080, "10.0.0.5", 80)).is_none());
    let got = st.remove(&RemoveRequest { public_port: 9999 });
    assert!(got.is_none());
    assert_eq!(st.routes.len(), 1);
}

#[test]
fn remove_returns_the_route() {
    let mut st = fresh_state();
    assert!(st.add(route(8080, "10.0.0.5", 80)).is_none());
    let got = st.remove(&RemoveRequest { public_port: 8080 });
    let got = got.expect("the active route must be handed back");
    assert_eq!(got.public_port(), 8080);
    assert_eq!(got.dest_ip, "10.0.0.5");
    assert!(st.routes.is_empty());
}

#[test]
fn create_scenario_exact_descriptors() {
    let mut st = fresh_state();
    let descs = st.create_route(&CreateRequest {
        public_port: 8080,
        inner_port: 80,
        inner_ip: "10.0.0.5".to_string(),
        protocol: "tcp".to_string(),
    });
    assert_eq!(st.routes.len(), 1);
    assert_eq!(st.routes[0].public_ip(), PUBLIC_IP);
    assert_eq!(st.routes[0].public_port(), 8080);
    assert_eq!(st.routes[0].dest_ip, "10.0.0.5");
    assert_eq!(st.routes[0].dest_port, 80);
    assert_eq!(st.routes[0].protocol, "tcp");
    let lines: Vec<String> = descs.iter().map(|d| d.join(" ")).collect();
    assert_eq!(
        lines,
        vec![
            "-I FORWARD -d 10.0.0.5 -m comment --comment \"Accept to forward traffic\" -m tcp -p tcp --dport 8080 -j ACCEPT".to_string(),
            "-I FORWARD -m comment --comment \"Accept to forward return traffic\" -s 10.0.0.5 -m tcp -p tcp --sport 80 -j ACCEPT".to_string(),
            "-t nat -I PREROUTING -m tcp -p tcp --dport 8080 -m comment --comment \"redirect pkts to homeserver\" -j DNAT --to-destination 10.0.0.5:80".to_string(),
        ]
    );
}

#[test]
fn create_collision_uninstalls_old_first() {
    let mut st = fresh_state();
    st.create_route(&CreateRequest {
        public_port: 8080,
        inner_port: 80,
        inner_ip: "10.0.0.5".to_string(),
        protocol: "tcp".to_string(),
    });
    let descs = st.create_route(&CreateRequest {
        public_port: 8080,
        inner_port: 80,
        inner_ip: "10.0.0.7".to_string(),
        protocol: "tcp".to_string(),
    });
    assert_eq!(descs.len(), 6);
    // The displaced route's uninstall descriptors come first.
    let old_uninstall = route(8080, "10.0.0.5", 80).deregister_args();
    let new_install = route(8080, "10.0.0.7", 80).register_args();
    assert_eq!(&descs[..3], &old_uninstall[..]);
    assert_eq!(&descs[3..], &new_install[..]);
    // The registry afterwards holds only the new route at the endpoint.
    assert_eq!(st.routes.len(), 1);
    assert_eq!(st.routes[0].dest_ip, "10.0.0.7");
}

#[test]
fn remove_scenario_not_found() {
    let mut st = fresh_state();
    let got = st.remove_route(&RemoveRequest { public_port: 9999 });
    assert!(got.is_none());
    assert!(st.routes.is_empty());
}

#[test]
fn create_then_remove_mirrors() {
    let mut st = fresh_state();
    let install = st.create_route(&CreateRequest {
        public_port: 8080,
        inner_port: 80,
        inner_ip: "10.0.0.5".to_string(),
        protocol: "tcp".to_string(),
    });
    let uninstall = st
        .remove_route(&RemoveRequest { public_port: 8080 })
        .expect("the route just created must be removable");
    assert!(st.routes.is_empty());
    assert_eq!(install.len(), 3);
    assert_eq!(uninstall.len(), 3);
    let action_pos = [0usize, 0, 2];
    for k in 0..3 {
        assert_eq!(install[k].len(), uninstall[k].len());
        for j in 0..install[k].len() {
            if j == action_pos[k] {
                assert_eq!(install[k][j], "-I");
                assert_eq!(uninstall[k][j], "-D");
            } else {
                assert_eq!(install[k][j], uninstall[k][j]);
            }
        }
    }
}

#[test]
fn config_load_has_no_static_routes() {
    let c = iptables_proxy::Config::load();
    assert!(c.static_routes.is_empty());
}
