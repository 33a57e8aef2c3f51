//! The node pool: credentials grouped by protocol kind, and the choice of
//! one node from it by kind and position.

use crate::random::random_below;
use crate::text::{opt_text, text_eq};
use vstd::prelude::*;

verus! {

/// One proxy credential entry of the configuration.
#[derive(Debug, Default, PartialEq, Eq)]
pub struct Node {
    pub remarks_prefix: String,
    /// Credential of `vless` and `vmess` nodes.
    pub uuid: Option<String>,
    /// Credential of `trojan` and `ss` nodes.
    pub password: Option<String>,
    /// TLS switch, read for `ss` nodes only.
    pub tls: Option<bool>,
    pub host: String,
    pub server_name: Option<String>,
    pub path: String,
    /// Ports to draw from in place of the port class of the node.
    pub random_ports: Option<Vec<u16>>,
}

/// The nodes of the configuration, one ordered list per protocol kind.
#[derive(Debug, Default, PartialEq, Eq)]
pub struct Proxy {
    pub vless: Option<Vec<Node>>,
    pub trojan: Option<Vec<Node>>,
    pub ss: Option<Vec<Node>>,
    pub vmess: Option<Vec<Node>>,
}

/// The parsed configuration.
#[derive(Debug, Default, PartialEq, Eq)]
pub struct Config {
    pub proxies: Proxy,
}

/// A node together with the protocol kind of the list it was taken from.
#[derive(Debug, Default, PartialEq, Eq)]
pub struct SelectedNode {
    pub node_type: String,
    pub node: Node,
}

/// Why no node could be selected.
#[derive(Debug, Clone, Copy, PartialEq, Eq)]
pub enum SelectError {
    /// The kind asked for, or the whole pool when any kind will do, holds no node.
    EmptyPool,
}

/// What a node holds, over texts as sequences of characters.
pub ghost struct NodeView {
    pub remarks_prefix: Seq<char>,
    pub uuid: Option<Seq<char>>,
    pub password: Option<Seq<char>>,
    pub tls: Option<bool>,
    pub host: Seq<char>,
    pub server_name: Option<Seq<char>>,
    pub path: Seq<char>,
    pub random_ports: Option<Seq<u16>>,
}

/// What a selected node holds: its kind and its node.
pub ghost struct SelectedNodeView {
    pub node_type: Seq<char>,
    pub node: NodeView,
}

/// The pool as a mapping from kind to ordered nodes; a kind without a list
/// has no nodes.
pub ghost struct ProxyView {
    pub vless: Seq<NodeView>,
    pub trojan: Seq<NodeView>,
    pub ss: Seq<NodeView>,
    pub vmess: Seq<NodeView>,
}

/// The ports of a list that may be absent.
pub open spec fn opt_ports(ports: Option<Vec<u16>>) -> Option<Seq<u16>> {
    match ports {
        Some(p) => Some(p@),
        None => None,
    }
}

/// The views of nodes, in order.
pub open spec fn node_views(nodes: Seq<Node>) -> Seq<NodeView> {
    nodes.map_values(|n: Node| n@)
}

/// The nodes of one kind, in order; none where the kind has no list.
pub open spec fn kind_views(list: Option<Vec<Node>>) -> Seq<NodeView> {
    match list {
        Some(nodes) => node_views(nodes@),
        None => Seq::empty(),
    }
}

/// The views of selected nodes, in order.
pub open spec fn selected_views(nodes: Seq<SelectedNode>) -> Seq<SelectedNodeView> {
    nodes.map_values(|s: SelectedNode| s@)
}

impl View for Node {
    type V = NodeView;

    open spec fn view(&self) -> NodeView {
        NodeView {
            remarks_prefix: self.remarks_prefix@,
            uuid: opt_text(self.uuid),
            password: opt_text(self.password),
            tls: self.tls,
            host: self.host@,
            server_name: opt_text(self.server_name),
            path: self.path@,
            random_ports: opt_ports(self.random_ports),
        }
    }
}

impl View for SelectedNode {
    type V = SelectedNodeView;

    open spec fn view(&self) -> SelectedNodeView {
        SelectedNodeView { node_type: self.node_type@, node: self.node@ }
    }
}

impl View for Proxy {
    type V = ProxyView;

    open spec fn view(&self) -> ProxyView {
        ProxyView {
            vless: kind_views(self.vless),
            trojan: kind_views(self.trojan),
            ss: kind_views(self.ss),
            vmess: kind_views(self.vmess),
        }
    }
}

/// Each node of `nodes`, in order, marked with `kind`.
pub open spec fn tagged(kind: Seq<char>, nodes: Seq<NodeView>) -> Seq<SelectedNodeView> {
    nodes.map_values(|n: NodeView| SelectedNodeView { node_type: kind, node: n })
}

impl ProxyView {
    /// The list that `kind` names, if it names one of the four kinds.
    pub open spec fn named(self, kind: Seq<char>) -> Option<Seq<NodeView>> {
        if kind == "vless"@ {
            Some(self.vless)
        } else if kind == "trojan"@ {
            Some(self.trojan)
        } else if kind == "ss"@ {
            Some(self.ss)
        } else if kind == "vmess"@ {
            Some(self.vmess)
        } else {
            None
        }
    }

    /// Every node of the pool in the fixed order of the kinds: `trojan`,
    /// `vless`, `ss`, `vmess`; within a kind, the order of its list.
    pub open spec fn all_nodes(self) -> Seq<SelectedNodeView> {
        tagged("trojan"@, self.trojan) + tagged("vless"@, self.vless) + tagged("ss"@, self.ss)
            + tagged("vmess"@, self.vmess)
    }

    /// The nodes a request for `kind` chooses among: the list of that kind
    /// when `kind` names one, every node of the pool otherwise.
    pub open spec fn candidates(self, kind: Seq<char>) -> Seq<SelectedNodeView> {
        match self.named(kind) {
            Some(nodes) => tagged(kind, nodes),
            None => self.all_nodes(),
        }
    }
}

/// `kind` names one of the four protocol kinds.
pub open spec fn known_kind(kind: Seq<char>) -> bool {
    kind == "vless"@ || kind == "vmess"@ || kind == "trojan"@ || kind == "ss"@
}

/// `position` counts from one and addresses one of `count` nodes.
pub open spec fn position_in_range(position: u8, count: nat) -> bool {
    1 <= position && position as nat <= count
}

/// What a selection yields: the node at `position` where that addresses
/// one, else the node at `draw` where that addresses one, else nothing.
pub open spec fn selection(candidates: Seq<SelectedNodeView>, position: u8, draw: nat) -> Result<
    SelectedNodeView,
    SelectError,
> {
    if position_in_range(position, candidates.len()) {
        Ok(candidates[position - 1])
    } else if draw < candidates.len() {
        Ok(candidates[draw as int])
    } else {
        Err(SelectError::EmptyPool)
    }
}

/// The view of the outcome of a selection.
pub open spec fn selection_view(outcome: Result<SelectedNode, SelectError>) -> Result<
    SelectedNodeView,
    SelectError,
> {
    match outcome {
        Ok(s) => Ok(s@),
        Err(e) => Err(e),
    }
}

fn clone_opt_text(text: &Option<String>) -> (copy: Option<String>)
    ensures
        opt_text(copy) == opt_text(*text),
{
    match text {
        Some(t) => Some(t.clone()),
        None => None,
    }
}

fn clone_opt_ports(ports: &Option<Vec<u16>>) -> (copy: Option<Vec<u16>>)
    ensures
        opt_ports(copy) == opt_ports(*ports),
{
    match ports {
        Some(p) => {
            let copy = p.clone();
            assert(copy@ =~= p@);
            Some(copy)
        },
        None => None,
    }
}

impl Clone for Node {
    fn clone(&self) -> (copy: Self)
        ensures
            copy@ == self@,
    {
        Node {
            remarks_prefix: self.remarks_prefix.clone(),
            uuid: clone_opt_text(&self.uuid),
            password: clone_opt_text(&self.password),
            tls: self.tls,
            host: self.host.clone(),
            server_name: clone_opt_text(&self.server_name),
            path: self.path.clone(),
            random_ports: clone_opt_ports(&self.random_ports),
        }
    }
}

impl Clone for SelectedNode {
    fn clone(&self) -> (copy: Self)
        ensures
            copy@ == self@,
    {
        SelectedNode { node_type: self.node_type.clone(), node: self.node.clone() }
    }
}

/// Appends the nodes of `list`, each marked with `kind`, to `out`.
fn push_tagged(out: &mut Vec<SelectedNode>, kind: &str, list: &Option<Vec<Node>>)
    ensures
        selected_views(final(out)@) == selected_views(old(out)@) + tagged(
            kind@,
            kind_views(*list),
        ),
{
    match list {
        Some(nodes) => {
            let mut i: usize = 0;
            while i < nodes.len()
                invariant
                    i <= nodes.len(),
                    selected_views(out@) == selected_views(old(out)@) + tagged(
                        kind@,
                        node_views(nodes@),
                    ).subrange(0, i as int),
                decreases nodes.len() - i,
            {
                let ghost before = out@;
                let chosen = SelectedNode {
                    node_type: String::from_str(kind),
                    node: nodes[i].clone(),
                };
                out.push(chosen);
                proof {
                    let marked = tagged(kind@, node_views(nodes@));
                    assert(chosen@ == marked[i as int]);
                    assert(selected_views(out@) =~= selected_views(before).push(chosen@));
                    assert(marked.subrange(0, i + 1) =~= marked.subrange(0, i as int).push(
                        marked[i as int],
                    ));
                }
                i += 1;
            }
            assert(selected_views(out@) =~= selected_views(old(out)@) + tagged(
                kind@,
                kind_views(*list),
            ));
        },
        None => {
            assert(selected_views(out@) =~= selected_views(old(out)@) + tagged(
                kind@,
                kind_views(*list),
            ));
        },
    }
}

/// Every node of the pool, marked with its kind, in the fixed order of the
/// kinds: `trojan`, `vless`, `ss`, `vmess`.
pub fn extend_all_nodes(proxies: &Proxy) -> (all: Vec<SelectedNode>)
    ensures
        selected_views(all@) == proxies@.all_nodes(),
{
    let mut all: Vec<SelectedNode> = Vec::new();
    assert(selected_views(all@) =~= Seq::empty());
    push_tagged(&mut all, "trojan", &proxies.trojan);
    push_tagged(&mut all, "vless", &proxies.vless);
    push_tagged(&mut all, "ss", &proxies.ss);
    push_tagged(&mut all, "vmess", &proxies.vmess);
    assert(selected_views(all@) =~= proxies@.all_nodes());
    all
}

/// The nodes that a request for `kind` chooses among.
pub fn candidates_of(proxies: &Proxy, kind: &str) -> (found: Vec<SelectedNode>)
    ensures
        selected_views(found@) == proxies@.candidates(kind@),
{
    let mut found: Vec<SelectedNode> = Vec::new();
    assert(selected_views(found@) =~= Seq::empty());
    if text_eq(kind, "vless") {
        push_tagged(&mut found, "vless", &proxies.vless);
    } else if text_eq(kind, "trojan") {
        push_tagged(&mut found, "trojan", &proxies.trojan);
    } else if text_eq(kind, "ss") {
        push_tagged(&mut found, "ss", &proxies.ss);
    } else if text_eq(kind, "vmess") {
        push_tagged(&mut found, "vmess", &proxies.vmess);
    } else {
        return extend_all_nodes(proxies);
    }
    assert(selected_views(found@) =~= proxies@.candidates(kind@));
    found
}

/// Picks among `candidates`: the node at `node_id`, counted from one, where
/// that addresses a node; else the node at `draw`, counted from zero, where
/// that addresses a node; else nothing.
pub fn select_from(candidates: &Vec<SelectedNode>, node_id: u8, draw: usize) -> (outcome: Result<
    SelectedNode,
    SelectError,
>)
    ensures
        selection_view(outcome) == selection(selected_views(candidates@), node_id, draw as nat),
{
    if 1 <= node_id && (node_id as usize) <= candidates.len() {
        Ok(candidates[node_id as usize - 1].clone())
    } else if draw < candidates.len() {
        Ok(candidates[draw].clone())
    } else {
        Err(SelectError::EmptyPool)
    }
}

/// Selects a node for a request.
///
/// `proxy_type` names a kind, or is any other text when every kind will do;
/// `node_id` is a position counted from one. A position that addresses a
/// candidate selects it; any other position has one candidate drawn at
/// random. The selection fails exactly when there is no candidate.
pub fn selecting_config_of_node(proxies: &Proxy, proxy_type: String, node_id: u8) -> (outcome:
    Result<SelectedNode, SelectError>)
    ensures
        outcome is Err <==> proxies@.candidates(proxy_type@).len() == 0,
        outcome matches Err(e) ==> e == SelectError::EmptyPool,
        outcome matches Ok(chosen) ==> proxies@.candidates(proxy_type@).contains(chosen@),
        position_in_range(node_id, proxies@.candidates(proxy_type@).len()) ==> selection_view(
            outcome,
        ) == Ok::<SelectedNodeView, SelectError>(
            proxies@.candidates(proxy_type@)[node_id - 1],
        ),
        exists|draw: nat|
            selection_view(outcome) == #[trigger] selection(
                proxies@.candidates(proxy_type@),
                node_id,
                draw,
            ),
{
    let candidates = candidates_of(proxies, proxy_type.as_str());
    let draw = if 1 <= node_id && (node_id as usize) <= candidates.len() || candidates.len() == 0 {
        0
    } else {
        random_below(candidates.len())
    };
    let outcome = select_from(&candidates, node_id, draw);
    assert(selection_view(outcome) == selection(
        proxies@.candidates(proxy_type@),
        node_id,
        draw as nat,
    ));
    outcome
}

/// A position within the list of a named kind selects the node at that
/// place of the list, marked with the kind, whatever is drawn.
pub proof fn lemma_position_selects_in_declared_order(
    pool: ProxyView,
    kind: Seq<char>,
    position: u8,
    draw: nat,
)
    requires
        pool.named(kind) is Some,
        position_in_range(position, pool.named(kind).unwrap().len()),
    ensures
        selection(pool.candidates(kind), position, draw) == Ok::<SelectedNodeView, SelectError>(
            SelectedNodeView { node_type: kind, node: pool.named(kind).unwrap()[position - 1] },
        ),
{
}

/// When no kind is named, positions count through the `trojan` nodes first,
/// then the `vless`, the `ss` and the `vmess` nodes.
pub proof fn lemma_any_kind_position_order(pool: ProxyView, kind: Seq<char>, index: int)
    requires
        pool.named(kind) is None,
        0 <= index < pool.candidates(kind).len(),
    ensures
        pool.candidates(kind).len() == pool.trojan.len() + pool.vless.len() + pool.ss.len()
            + pool.vmess.len(),
        pool.candidates(kind)[index] == (if index < pool.trojan.len() {
            SelectedNodeView { node_type: "trojan"@, node: pool.trojan[index] }
        } else if index < pool.trojan.len() + pool.vless.len() {
            SelectedNodeView { node_type: "vless"@, node: pool.vless[index - pool.trojan.len()] }
        } else if index < pool.trojan.len() + pool.vless.len() + pool.ss.len() {
            SelectedNodeView {
                node_type: "ss"@,
                node: pool.ss[index - pool.trojan.len() - pool.vless.len()],
            }
        } else {
            SelectedNodeView {
                node_type: "vmess"@,
                node: pool.vmess[index - pool.trojan.len() - pool.vless.len() - pool.ss.len()],
            }
        }),
{
}

/// Every candidate is of one of the four kinds, whatever kind is asked
/// for.
pub proof fn lemma_candidates_are_of_known_kinds(pool: ProxyView, kind: Seq<char>, index: int)
    requires
        0 <= index < pool.candidates(kind).len(),
    ensures
        known_kind(pool.candidates(kind)[index].node_type),
{
}

/// A selection that succeeds yields one of the candidates, and it fails
/// only where the draw addresses none.
pub proof fn lemma_selection_stays_within(
    candidates: Seq<SelectedNodeView>,
    position: u8,
    draw: nat,
)
    ensures
        selection(candidates, position, draw) matches Ok(chosen) ==> candidates.contains(chosen),
        selection(candidates, position, draw) is Err ==> draw >= candidates.len(),
{
}

} // verus!
