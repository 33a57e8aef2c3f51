//! A plain pool of two kinds, `vless` and `trojan`, with every field of a
//! node present.

use crate::pool::SelectError;
use crate::random::random_below;
use crate::text::text_eq;
use vstd::prelude::*;

verus! {

/// One proxy credential entry with every field present.
#[derive(Debug, Default, PartialEq, Eq)]
pub struct Node {
    pub remarks_prefix: String,
    pub uuid: String,
    pub password: String,
    pub host: String,
    pub server_name: String,
    pub random_ports: Vec<u16>,
    pub path: String,
}

/// The nodes of the two kinds, each in its order.
#[derive(Debug, Default, PartialEq, Eq)]
pub struct ProxyType {
    pub vless: Vec<Node>,
    pub trojan: Vec<Node>,
}

/// The parsed configuration.
#[derive(Debug, Default, PartialEq, Eq)]
pub struct Config {
    pub proxies: ProxyType,
}

/// What a node holds, over texts as sequences of characters.
pub ghost struct NodeView {
    pub remarks_prefix: Seq<char>,
    pub uuid: Seq<char>,
    pub password: Seq<char>,
    pub host: Seq<char>,
    pub server_name: Seq<char>,
    pub random_ports: Seq<u16>,
    pub path: Seq<char>,
}

impl View for Node {
    type V = NodeView;

    open spec fn view(&self) -> NodeView {
        NodeView {
            remarks_prefix: self.remarks_prefix@,
            uuid: self.uuid@,
            password: self.password@,
            host: self.host@,
            server_name: self.server_name@,
            random_ports: self.random_ports@,
            path: self.path@,
        }
    }
}

impl Clone for Node {
    fn clone(&self) -> (copy: Self)
        ensures
            copy@ == self@,
    {
        let random_ports = self.random_ports.clone();
        assert(random_ports@ =~= self.random_ports@);
        Node {
            remarks_prefix: self.remarks_prefix.clone(),
            uuid: self.uuid.clone(),
            password: self.password.clone(),
            host: self.host.clone(),
            server_name: self.server_name.clone(),
            random_ports,
            path: self.path.clone(),
        }
    }
}

/// The views of nodes, in order.
pub open spec fn node_views(nodes: Seq<Node>) -> Seq<NodeView> {
    nodes.map_values(|n: Node| n@)
}

impl Config {
    /// The nodes a choice for `kind` is made among: the nodes of that kind
    /// where it names one of the two; otherwise all nodes, the `trojan`
    /// nodes first and the `vless` nodes after them.
    pub open spec fn candidates(&self, kind: Seq<char>) -> Seq<NodeView> {
        if kind == "vless"@ {
            node_views(self.proxies.vless@)
        } else if kind == "trojan"@ {
            node_views(self.proxies.trojan@)
        } else {
            node_views(self.proxies.trojan@) + node_views(self.proxies.vless@)
        }
    }

    /// What a choice yields: the candidate at `pos`, counted from one,
    /// where that addresses one; else the candidate at `draw`, counted from
    /// zero, where that addresses one; else nothing.
    pub open spec fn chosen(&self, pos: usize, kind: Seq<char>, draw: nat) -> Result<
        NodeView,
        SelectError,
    > {
        if 1 <= pos <= self.candidates(kind).len() {
            Ok(self.candidates(kind)[pos - 1])
        } else if draw < self.candidates(kind).len() {
            Ok(self.candidates(kind)[draw as int])
        } else {
            Err(SelectError::EmptyPool)
        }
    }
}

/// The view of the outcome of a choice.
pub open spec fn choice_view(outcome: Result<Node, SelectError>) -> Result<NodeView, SelectError> {
    match outcome {
        Ok(node) => Ok(node@),
        Err(e) => Err(e),
    }
}

/// The path of a node that names none.
pub fn path_empty() -> (path: String)
    ensures
        path@ == "/"@,
{
    String::from_str("/")
}

/// The candidate at `index`, counted from zero, among those that a choice
/// for `proxy_type` is made among.
pub fn candidate_at(config: &Config, proxy_type: &str, index: usize) -> (found: Option<Node>)
    ensures
        match found {
            Some(node) => index < config.candidates(proxy_type@).len() && node@
                == config.candidates(proxy_type@)[index as int],
            None => index >= config.candidates(proxy_type@).len(),
        },
{
    let vless = &config.proxies.vless;
    let trojan = &config.proxies.trojan;
    if text_eq(proxy_type, "vless") {
        if index < vless.len() {
            Some(vless[index].clone())
        } else {
            None
        }
    } else if text_eq(proxy_type, "trojan") {
        if index < trojan.len() {
            Some(trojan[index].clone())
        } else {
            None
        }
    } else if index < trojan.len() {
        Some(trojan[index].clone())
    } else if index - trojan.len() < vless.len() {
        Some(vless[index - trojan.len()].clone())
    } else {
        None
    }
}

/// Chooses a node with `draw` as the position of the random choice.
pub fn choose_proxy(config: &Config, pos: usize, proxy_type: &str, draw: usize) -> (outcome: Result<
    Node,
    SelectError,
>)
    ensures
        choice_view(outcome) == config.chosen(pos, proxy_type@, draw as nat),
{
    if pos >= 1 {
        match candidate_at(config, proxy_type, pos - 1) {
            Some(node) => {
                return Ok(node);
            },
            None => {},
        }
    }
    match candidate_at(config, proxy_type, draw) {
        Some(node) => Ok(node),
        None => Err(SelectError::EmptyPool),
    }
}

/// How many nodes a choice for `proxy_type` is made among; the greatest
/// count that the machine holds where there are more.
pub fn candidate_count(config: &Config, proxy_type: &str) -> (count: usize)
    ensures
        count <= config.candidates(proxy_type@).len(),
        count == config.candidates(proxy_type@).len() || count == usize::MAX,
{
    let vless = config.proxies.vless.len();
    let trojan = config.proxies.trojan.len();
    if text_eq(proxy_type, "vless") {
        vless
    } else if text_eq(proxy_type, "trojan") {
        trojan
    } else if trojan <= usize::MAX - vless {
        vless + trojan
    } else {
        usize::MAX
    }
}

/// Chooses a node among the nodes of `proxy_type`, or among all nodes,
/// `trojan` before `vless`, where that names neither kind: the one at
/// `pos`, counted from one, where that addresses one; otherwise one drawn
/// at random. The choice fails exactly when there is no node to choose
/// among.
pub fn select_toml_proxy(config: &Config, pos: usize, proxy_type: String) -> (outcome: Result<
    Node,
    SelectError,
>)
    ensures
        outcome is Err <==> config.candidates(proxy_type@).len() == 0,
        outcome matches Err(e) ==> e == SelectError::EmptyPool,
        outcome matches Ok(node) ==> config.candidates(proxy_type@).contains(node@),
        1 <= pos <= config.candidates(proxy_type@).len() ==> choice_view(outcome) == Ok::<
            NodeView,
            SelectError,
        >(config.candidates(proxy_type@)[pos - 1]),
        exists|draw: nat|
            choice_view(outcome) == #[trigger] config.chosen(pos, proxy_type@, draw),
{
    let count = candidate_count(config, proxy_type.as_str());
    let draw = if count == 0 || (1 <= pos && pos <= count) {
        0
    } else {
        random_below(count)
    };
    let outcome = choose_proxy(config, pos, proxy_type.as_str(), draw);
    assert(choice_view(outcome) == config.chosen(pos, proxy_type@, draw as nat));
    outcome
}

} // verus!
