//! The label under which an entry is shown to the user.

use crate::text::{blank, decimal, decimal_text, is_blank};
use vstd::prelude::*;

verus! {

/// `host`, a colon, and the decimal numeral of `port`.
pub open spec fn endpoint_text(host: Seq<char>, port: u16) -> Seq<char> {
    host + seq![':'] + decimal_text(port as nat)
}

/// The label of an entry: the tags that are present, the configured one
/// first and with nothing between them, then a bar and the endpoint; the
/// endpoint alone where neither tag is present. The configured tag is
/// present where it is not empty; the tag that came with the address is
/// present where it holds more than white space, and stands as it came.
pub open spec fn remark_text(
    source_tag: Seq<char>,
    config_tag: Seq<char>,
    host: Seq<char>,
    port: u16,
) -> Seq<char> {
    if is_blank(source_tag) && config_tag.len() == 0 {
        endpoint_text(host, port)
    } else if config_tag.len() == 0 {
        source_tag + seq!['|'] + endpoint_text(host, port)
    } else if is_blank(source_tag) {
        config_tag + seq!['|'] + endpoint_text(host, port)
    } else {
        config_tag + source_tag + seq!['|'] + endpoint_text(host, port)
    }
}

/// Composes the label of an entry from the tag that came with the address,
/// the tag of the configured node, and the endpoint.
pub fn compose(source_tag: &str, config_tag: &str, host: &str, port: u16) -> (label: String)
    ensures
        label@ == remark_text(source_tag@, config_tag@, host@, port),
{
    proof {
        reveal_strlit(":");
        reveal_strlit("|");
    }
    let without_source = blank(source_tag);
    let mut label = String::from_str(config_tag);
    if !without_source {
        label.append(source_tag);
    }
    if !(without_source && config_tag.is_empty()) {
        label.append("|");
    }
    label.append(host);
    label.append(":");
    let numeral = decimal(port as u64);
    label.append(numeral.as_str());
    assert(":"@ =~= seq![':']);
    assert("|"@ =~= seq!['|']);
    assert(label@ =~= remark_text(source_tag@, config_tag@, host@, port));
    label
}

/// A label is never empty: it holds at least the colon of its endpoint.
pub proof fn lemma_remark_nonempty(
    source_tag: Seq<char>,
    config_tag: Seq<char>,
    host: Seq<char>,
    port: u16,
)
    ensures
        remark_text(source_tag, config_tag, host, port).len() > 0,
{
}

} // verus!
