//! Port resolution: which port a chosen node is reached on, and whether the
//! port contradicts the TLS class of the node.

use crate::pool::{Node, NodeView, SelectedNodeView};
use crate::random::random_below;
use crate::text::{ends_with, has_suffix, text_eq};
use vstd::prelude::*;

verus! {

/// The port settled for one attempt. `retry_needed` says that the port
/// belongs to the other TLS class than the node, so another node has to be
/// drawn.
#[derive(Debug, Clone, Copy, PartialEq, Eq, Structural)]
pub struct PortDecision {
    pub port: u16,
    pub retry_needed: bool,
}

/// The host suffix of an edge that terminates TLS itself, so that the inner
/// protocol runs without TLS.
pub open spec fn plaintext_suffix() -> Seq<char> {
    "workers.dev"@
}

/// The kinds whose TLS class follows from the host.
pub open spec fn host_decides(kind: Seq<char>) -> bool {
    kind == "vless"@ || kind == "trojan"@ || kind == "vmess"@
}

/// Whether a node runs without TLS: by its host for the kinds whose host
/// decides, by its own switch for the others.
pub open spec fn plaintext_eligible(kind: Seq<char>, host: Seq<char>, tls_flag: bool) -> bool {
    if host_decides(kind) {
        has_suffix(host, plaintext_suffix())
    } else {
        !tls_flag
    }
}

/// The TLS switch of a node; a node that does not say runs with TLS.
pub open spec fn tls_flag_of(tls: Option<bool>) -> bool {
    match tls {
        Some(flag) => flag,
        None => true,
    }
}

/// The ports a random port is drawn from: the node's own list where it has
/// one, else the ports of the node's TLS class.
pub open spec fn primary_ports(
    explicit: Option<Seq<u16>>,
    plaintext: bool,
    http_ports: Seq<u16>,
    https_ports: Seq<u16>,
) -> Seq<u16> {
    match explicit {
        Some(ports) => ports,
        None => if plaintext {
            http_ports
        } else {
            https_ports
        },
    }
}

/// The ports of the other TLS class.
pub open spec fn secondary_ports(
    plaintext: bool,
    http_ports: Seq<u16>,
    https_ports: Seq<u16>,
) -> Seq<u16> {
    if plaintext {
        https_ports
    } else {
        http_ports
    }
}

/// The decision for one attempt. With no port asked for by either side the
/// port at `draw` of the primary ports is taken, if there is one. Otherwise
/// the caller's port wins over the source's, and a retry is needed when
/// only one side named a port and that port is of the other class.
pub open spec fn port_decision(
    primary: Seq<u16>,
    secondary: Seq<u16>,
    caller_port: u16,
    source_port: u16,
    draw: nat,
) -> Option<PortDecision> {
    if caller_port == 0 && source_port == 0 {
        if draw < primary.len() {
            Some(PortDecision { port: primary[draw as int], retry_needed: false })
        } else {
            None
        }
    } else if caller_port == 0 {
        Some(PortDecision { port: source_port, retry_needed: secondary.contains(source_port) })
    } else if source_port == 0 {
        Some(PortDecision { port: caller_port, retry_needed: secondary.contains(caller_port) })
    } else {
        Some(PortDecision { port: caller_port, retry_needed: false })
    }
}

/// The ports a random port is drawn from for a node of `kind`.
pub open spec fn node_primary(
    kind: Seq<char>,
    node: NodeView,
    http_ports: Seq<u16>,
    https_ports: Seq<u16>,
) -> Seq<u16> {
    primary_ports(
        node.random_ports,
        plaintext_eligible(kind, node.host, tls_flag_of(node.tls)),
        http_ports,
        https_ports,
    )
}

/// The ports of the other TLS class than a node of `kind`.
pub open spec fn node_secondary(
    kind: Seq<char>,
    node: NodeView,
    http_ports: Seq<u16>,
    https_ports: Seq<u16>,
) -> Seq<u16> {
    secondary_ports(
        plaintext_eligible(kind, node.host, tls_flag_of(node.tls)),
        http_ports,
        https_ports,
    )
}

/// The decision for a node of `kind`, with `draw` as the position of the
/// random port.
pub open spec fn node_decision(
    kind: Seq<char>,
    node: NodeView,
    caller_port: u16,
    source_port: u16,
    draw: nat,
    http_ports: Seq<u16>,
    https_ports: Seq<u16>,
) -> Option<PortDecision> {
    port_decision(
        node_primary(kind, node, http_ports, https_ports),
        node_secondary(kind, node, http_ports, https_ports),
        caller_port,
        source_port,
        draw,
    )
}

/// Whether a port can be settled for a node of `kind`: a port is asked
/// for, or there is a port to draw.
pub open spec fn can_decide(
    kind: Seq<char>,
    node: NodeView,
    caller_port: u16,
    source_port: u16,
    http_ports: Seq<u16>,
    https_ports: Seq<u16>,
) -> bool {
    caller_port != 0 || source_port != 0 || node_primary(kind, node, http_ports, https_ports).len()
        > 0
}

/// Whether a node of `kind` can be used as it is: with no port asked for
/// there is a port to draw, and a port that only one side asks for is not
/// of the other TLS class.
pub open spec fn port_fits(
    kind: Seq<char>,
    node: NodeView,
    caller_port: u16,
    source_port: u16,
    http_ports: Seq<u16>,
    https_ports: Seq<u16>,
) -> bool {
    if caller_port == 0 && source_port == 0 {
        node_primary(kind, node, http_ports, https_ports).len() > 0
    } else if caller_port == 0 {
        !node_secondary(kind, node, http_ports, https_ports).contains(source_port)
    } else if source_port == 0 {
        !node_secondary(kind, node, http_ports, https_ports).contains(caller_port)
    } else {
        true
    }
}

/// Whether every candidate can be used as it is, so that the first attempt
/// gives an entry.
pub open spec fn always_fits(
    candidates: Seq<SelectedNodeView>,
    csv_port: u16,
    uri_port: u16,
    http_ports: Seq<u16>,
    https_ports: Seq<u16>,
) -> bool {
    forall|i: int|
        0 <= i < candidates.len() ==> port_fits(
            (#[trigger] candidates[i]).node_type,
            candidates[i].node,
            uri_port,
            csv_port,
            http_ports,
            https_ports,
        )
}

/// A node can be used as it is exactly when the decision for it, with a
/// position that can be drawn, asks for no retry.
pub proof fn lemma_port_fits(
    kind: Seq<char>,
    node: NodeView,
    caller_port: u16,
    source_port: u16,
    draw: nat,
    http_ports: Seq<u16>,
    https_ports: Seq<u16>,
)
    requires
        caller_port != 0 || source_port != 0 || draw < node_primary(
            kind,
            node,
            http_ports,
            https_ports,
        ).len(),
    ensures
        node_decision(kind, node, caller_port, source_port, draw, http_ports, https_ports) is Some,
        port_fits(kind, node, caller_port, source_port, http_ports, https_ports)
            <==> !node_decision(
            kind,
            node,
            caller_port,
            source_port,
            draw,
            http_ports,
            https_ports,
        )->0.retry_needed,
{
}

/// Whether `kind` is one of the kinds whose TLS class follows from the host.
pub fn host_decides_class(kind: &str) -> (decides: bool)
    ensures
        decides == host_decides(kind@),
{
    text_eq(kind, "vless") || text_eq(kind, "trojan") || text_eq(kind, "vmess")
}

/// Whether a node of `kind` with this host and TLS switch runs without TLS.
pub fn is_plaintext(kind: &str, host: &str, tls_flag: bool) -> (plaintext: bool)
    ensures
        plaintext == plaintext_eligible(kind@, host@, tls_flag),
{
    if host_decides_class(kind) {
        ends_with(host, "workers.dev")
    } else {
        !tls_flag
    }
}

/// Whether `port` is one of `ports`.
pub fn has_port(ports: &[u16], port: u16) -> (found: bool)
    ensures
        found == ports@.contains(port),
{
    let mut i: usize = 0;
    while i < ports.len()
        invariant
            i <= ports.len(),
            forall|j: int| 0 <= j < i ==> ports@[j] != port,
        decreases ports.len() - i,
    {
        if ports[i] == port {
            return true;
        }
        i += 1;
    }
    false
}

/// Settles the port from the two port sets, the ports asked for and the
/// position drawn.
pub fn decide_port(
    primary: &[u16],
    secondary: &[u16],
    caller_port: u16,
    source_port: u16,
    draw: usize,
) -> (decision: Option<PortDecision>)
    ensures
        decision == port_decision(primary@, secondary@, caller_port, source_port, draw as nat),
{
    if caller_port == 0 && source_port == 0 {
        if draw < primary.len() {
            Some(PortDecision { port: primary[draw], retry_needed: false })
        } else {
            None
        }
    } else if caller_port == 0 {
        Some(PortDecision { port: source_port, retry_needed: has_port(secondary, source_port) })
    } else if source_port == 0 {
        Some(PortDecision { port: caller_port, retry_needed: has_port(secondary, caller_port) })
    } else {
        Some(PortDecision { port: caller_port, retry_needed: false })
    }
}

/// Settles the port for a node of `kind`, with `draw` as the position of
/// the random port.
pub fn resolve_with_draw(
    node: &Node,
    caller_port: u16,
    source_port: u16,
    kind: &str,
    http_ports: &[u16],
    https_ports: &[u16],
    draw: usize,
) -> (decision: Option<PortDecision>)
    ensures
        decision == node_decision(
            kind@,
            node@,
            caller_port,
            source_port,
            draw as nat,
            http_ports@,
            https_ports@,
        ),
{
    let tls_flag = match node.tls {
        Some(flag) => flag,
        None => true,
    };
    let plaintext = is_plaintext(kind, node.host.as_str(), tls_flag);
    let secondary = if plaintext {
        https_ports
    } else {
        http_ports
    };
    match &node.random_ports {
        Some(ports) => decide_port(ports.as_slice(), secondary, caller_port, source_port, draw),
        None => {
            let primary = if plaintext {
                http_ports
            } else {
                https_ports
            };
            decide_port(primary, secondary, caller_port, source_port, draw)
        },
    }
}

/// How many ports a random port is drawn from for this node.
pub fn primary_count(node: &Node, kind: &str, http_ports: &[u16], https_ports: &[u16]) -> (count:
    usize)
    ensures
        count == node_primary(kind@, node@, http_ports@, https_ports@).len(),
{
    let tls_flag = match node.tls {
        Some(flag) => flag,
        None => true,
    };
    match &node.random_ports {
        Some(ports) => ports.len(),
        None => if is_plaintext(kind, node.host.as_str(), tls_flag) {
            http_ports.len()
        } else {
            https_ports.len()
        },
    }
}

/// Settles the port for a node of `kind`.
///
/// With no port asked for, a port is drawn at random from the primary
/// ports; there is no decision only when there is no port to draw. With a
/// port asked for, the decision does not depend on chance.
pub fn resolve(
    node: &Node,
    caller_port: u16,
    source_port: u16,
    kind: &str,
    http_ports: &[u16],
    https_ports: &[u16],
) -> (decision: Option<PortDecision>)
    ensures
        decision is Some <==> can_decide(
            kind@,
            node@,
            caller_port,
            source_port,
            http_ports@,
            https_ports@,
        ),
        exists|draw: nat|
            decision == #[trigger] node_decision(
                kind@,
                node@,
                caller_port,
                source_port,
                draw,
                http_ports@,
                https_ports@,
            ),
        caller_port == 0 && source_port == 0 ==> (decision matches Some(d) ==> node_primary(
            kind@,
            node@,
            http_ports@,
            https_ports@,
        ).contains(d.port) && !d.retry_needed),
        caller_port != 0 || source_port != 0 ==> decision == node_decision(
            kind@,
            node@,
            caller_port,
            source_port,
            0,
            http_ports@,
            https_ports@,
        ),
{
    let count = primary_count(node, kind, http_ports, https_ports);
    let draw = if caller_port == 0 && source_port == 0 && count > 0 {
        random_below(count)
    } else {
        0
    };
    let decision = resolve_with_draw(
        node,
        caller_port,
        source_port,
        kind,
        http_ports,
        https_ports,
        draw,
    );
    decision
}

/// With no port asked for, the port decided on is one of the primary ports
/// and no retry is needed.
pub proof fn lemma_random_port_is_primary(primary: Seq<u16>, secondary: Seq<u16>, draw: nat)
    ensures
        port_decision(primary, secondary, 0, 0, draw) matches Some(d) ==> primary.contains(d.port)
            && !d.retry_needed,
        port_decision(primary, secondary, 0, 0, draw) is Some <==> draw < primary.len(),
{
}

/// When both sides name a port, the caller's port is taken and no retry is
/// needed, whatever class it belongs to.
pub proof fn lemma_caller_port_wins(
    primary: Seq<u16>,
    secondary: Seq<u16>,
    caller_port: u16,
    source_port: u16,
    draw: nat,
)
    requires
        caller_port != 0,
    ensures
        port_decision(primary, secondary, caller_port, source_port, draw) matches Some(d)
            && d.port == caller_port && (d.retry_needed <==> source_port == 0 && secondary.contains(
            caller_port,
        )),
{
}

} // verus!
