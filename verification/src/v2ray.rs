//! Share links: one node encoded as a URI with its credential, address and
//! port in the authority, its transport settings in the query, and its
//! label in the fragment.

use crate::pool::{
    candidates_of, known_kind, lemma_candidates_are_of_known_kinds, position_in_range,
    select_from, selected_views, Proxy, SelectedNode, SelectedNodeView,
};
use crate::ports::{
    always_fits, is_plaintext, lemma_port_fits, node_decision, plaintext_eligible,
    plaintext_suffix, port_fits, primary_count, resolve_with_draw, tls_flag_of,
};
use crate::random::random_below;
use crate::remark::{compose, remark_text};
use crate::text::{has_suffix, lemma_decimal_is_one_line, one_line};
use crate::text::{decimal, decimal_text, joined, opt_text, pair_views, text_eq};
use vstd::prelude::*;
use vstd::string::StringSliceAdditionalSpecFns;

verus! {

/// The text that `base64::encode` gives for a run of bytes.
pub uninterp spec fn base64_text(bytes: Seq<u8>) -> Seq<char>;

/// Whether a byte is written as it is when a text is percent-encoded: a
/// digit, a letter, or one of `-`, `.`, `_` and `~`.
pub open spec fn is_unreserved(byte: u8) -> bool {
    ||| 0x30 <= byte <= 0x39
    ||| 0x41 <= byte <= 0x5a
    ||| 0x61 <= byte <= 0x7a
    ||| byte == 0x2d
    ||| byte == 0x2e
    ||| byte == 0x5f
    ||| byte == 0x7e
}

/// The hexadecimal digit of a number below sixteen, in upper case.
pub open spec fn hex_digit(n: u8) -> char {
    if n < 10 {
        (0x30 + n) as char
    } else {
        (0x41 + n - 10) as char
    }
}

/// One byte percent-encoded: the byte itself where it is written as it is,
/// else a percent sign and its two hexadecimal digits.
pub open spec fn percent_encoded_byte(byte: u8) -> Seq<char> {
    if is_unreserved(byte) {
        seq![byte as char]
    } else {
        seq!['%', hex_digit(byte / 16), hex_digit(byte % 16)]
    }
}

/// A run of bytes percent-encoded, byte by byte.
pub open spec fn percent_encoded_bytes(bytes: Seq<u8>) -> Seq<char>
    decreases bytes.len(),
{
    if bytes.len() == 0 {
        Seq::empty()
    } else {
        percent_encoded_bytes(bytes.drop_last()) + percent_encoded_byte(bytes.last())
    }
}

/// A text percent-encoded: the bytes of its UTF-8 form, each encoded.
pub open spec fn percent_encoded(text: Seq<char>) -> Seq<char> {
    percent_encoded_bytes(vstd::utf8::encode_utf8(text))
}

/// Whether `a` stands before `b` in the order of texts: at the first place
/// where they differ `a` has the lesser character, or `a` ends there and
/// `b` does not.
pub open spec fn text_less(a: Seq<char>, b: Seq<char>) -> bool
    decreases a.len(),
{
    if b.len() == 0 {
        false
    } else if a.len() == 0 {
        true
    } else if a[0] != b[0] {
        a[0] < b[0]
    } else {
        text_less(a.drop_first(), b.drop_first())
    }
}

/// Whether the names of the parameters stand in strictly ascending order,
/// so that none occurs twice.
pub open spec fn names_ascending(params: Seq<(Seq<char>, Seq<char>)>) -> bool {
    forall|i: int, j: int|
        #![trigger params[i], params[j]]
        0 <= i < j < params.len() ==> text_less(params[i].0, params[j].0)
}

/// Whether a byte is written as it is in a query: a digit, a letter, or
/// one of `*`, `-`, `.` and `_`.
pub open spec fn is_query_safe(byte: u8) -> bool {
    ||| 0x30 <= byte <= 0x39
    ||| 0x41 <= byte <= 0x5a
    ||| 0x61 <= byte <= 0x7a
    ||| byte == 0x2a
    ||| byte == 0x2d
    ||| byte == 0x2e
    ||| byte == 0x5f
}

/// One byte as it is written in a query: the byte itself where it is
/// written as it is, a plus sign for a space, else a percent sign and its
/// two hexadecimal digits.
pub open spec fn query_encoded_byte(byte: u8) -> Seq<char> {
    if is_query_safe(byte) {
        seq![byte as char]
    } else if byte == 0x20 {
        seq!['+']
    } else {
        seq!['%', hex_digit(byte / 16), hex_digit(byte % 16)]
    }
}

/// A run of bytes as it is written in a query, byte by byte.
pub open spec fn query_encoded_bytes(bytes: Seq<u8>) -> Seq<char>
    decreases bytes.len(),
{
    if bytes.len() == 0 {
        Seq::empty()
    } else {
        query_encoded_bytes(bytes.drop_last()) + query_encoded_byte(bytes.last())
    }
}

/// A text as it is written in a query: the bytes of its UTF-8 form, each
/// encoded.
pub open spec fn query_encoded(text: Seq<char>) -> Seq<char> {
    query_encoded_bytes(vstd::utf8::encode_utf8(text))
}

/// One parameter as it is written in a query: its name, an equals sign,
/// and its value.
pub open spec fn query_pair(param: (Seq<char>, Seq<char>)) -> Seq<char> {
    query_encoded(param.0) + seq!['='] + query_encoded(param.1)
}

/// The query of the parameters: each as it is written, in order, with an
/// ampersand between one and the next.
pub open spec fn query_of(params: Seq<(Seq<char>, Seq<char>)>) -> Seq<char>
    decreases params.len(),
{
    if params.len() == 0 {
        Seq::empty()
    } else if params.len() == 1 {
        query_pair(params[0])
    } else {
        query_of(params.drop_last()) + seq!['&'] + query_pair(params.last())
    }
}

/// Calls `base64::encode`, the standard alphabet with padding.
///
/// Trusted: the contract only gives the outcome its name, which claims that
/// the same bytes always give the same text.
#[allow(deprecated)]
#[verifier::external_body]
fn base64_encode(bytes: &[u8]) -> (text: String)
    ensures
        text@ == base64_text(bytes@),
{
    base64::encode(bytes)
}

/// Calls `urlencoding::encode`.
///
/// Trusted: the contract claims what the function is documented to do and
/// its source shows: every byte of the UTF-8 form of the text is written
/// as it is where it is a digit, a letter, or one of `-`, `.`, `_` and
/// `~`, and as a percent sign and two hexadecimal digits in upper case
/// otherwise.
#[verifier::external_body]
fn percent_encode(text: &str) -> (encoded: String)
    ensures
        encoded@ == percent_encoded(text@),
{
    urlencoding::encode(text).into_owned()
}

/// Calls `serde_qs::to_string` on the parameters, collected into a
/// `BTreeMap` from name to value.
///
/// The names are in strictly ascending order, so the map holds the
/// parameters one for one and hands them out in the order given.
///
/// Trusted: the contract claims what the source of the serializer shows
/// for a map of texts. Each entry is written as its name, `=` and its
/// value, with `&` before every entry but the first; in name and value
/// every byte is written as it is where it is a digit, a letter or one of
/// `*`, `-`, `.` and `_`, as `+` where it is a space, and as a percent sign
/// and two hexadecimal digits in upper case otherwise. No step of this
/// reports an error, so a text is always returned.
#[verifier::external_body]
fn query_string(params: &Vec<(String, String)>) -> (text: Option<String>)
    requires
        names_ascending(pair_views(params@)),
    ensures
        opt_text(text) == Some(query_of(pair_views(params@))),
{
    let collected: std::collections::BTreeMap<&str, &str> = params.iter().map(
        |(name, value)| (name.as_str(), value.as_str()),
    ).collect();
    serde_qs::to_string(&collected).ok()
}

/// The parameters whose value is not empty, in order.
pub open spec fn with_value(params: Seq<(Seq<char>, Seq<char>)>) -> Seq<(Seq<char>, Seq<char>)> {
    params.filter(|p: (Seq<char>, Seq<char>)| p.1.len() > 0)
}

/// `"tls"` for a node that runs with TLS, `"none"` for one that does not.
pub open spec fn security_text(plaintext: bool) -> Seq<char> {
    if plaintext {
        "none"@
    } else {
        "tls"@
    }
}

/// The query parameters of a `vless` link, by name in ascending order.
pub open spec fn vless_params(
    security: Seq<char>,
    host: Seq<char>,
    sni: Seq<char>,
    path: Seq<char>,
    fingerprint: Seq<char>,
) -> Seq<(Seq<char>, Seq<char>)> {
    seq![
        ("allowInsecure"@, "1"@),
        ("encryption"@, "none"@),
        ("fp"@, fingerprint),
        ("host"@, host),
        ("path"@, path),
        ("security"@, security),
        ("sni"@, sni),
        ("type"@, "ws"@),
    ]
}

/// The query parameters of a `trojan` link, by name in ascending order.
pub open spec fn trojan_params(
    security: Seq<char>,
    host: Seq<char>,
    sni: Seq<char>,
    path: Seq<char>,
    fingerprint: Seq<char>,
) -> Seq<(Seq<char>, Seq<char>)> {
    seq![
        ("allowInsecure"@, "1"@),
        ("fp"@, fingerprint),
        ("host"@, host),
        ("path"@, path),
        ("security"@, security),
        ("sni"@, sni),
        ("type"@, "ws"@),
    ]
}

/// The query parameters of a `vmess` link, by name in ascending order.
pub open spec fn vmess_params(
    security: Seq<char>,
    host: Seq<char>,
    sni: Seq<char>,
    path: Seq<char>,
    fingerprint: Seq<char>,
) -> Seq<(Seq<char>, Seq<char>)> {
    seq![
        ("allowInsecure"@, "1"@),
        ("alterId"@, "0"@),
        ("encryption"@, "zero"@),
        ("fp"@, fingerprint),
        ("host"@, host),
        ("path"@, path),
        ("security"@, security),
        ("sni"@, sni),
        ("type"@, "ws"@),
    ]
}

/// A link put together from its parts: scheme, credential, `@`, address,
/// `:`, port, `/?`, query, `#`, and the fragment.
pub open spec fn link_text(
    scheme: Seq<char>,
    credential: Seq<char>,
    server: Seq<char>,
    port: u16,
    query: Seq<char>,
    fragment: Seq<char>,
) -> Seq<char> {
    scheme + credential + seq!['@'] + server + seq![':'] + decimal_text(port as nat) + seq![
        '/',
        '?',
    ] + query + seq!['#'] + fragment
}

/// The link of the parameters that have a value: the credential, address
/// and port in the authority, the query of those parameters, and the label
/// percent-encoded as the fragment.
pub open spec fn query_link(
    scheme: Seq<char>,
    credential: Seq<char>,
    server: Seq<char>,
    port: u16,
    params: Seq<(Seq<char>, Seq<char>)>,
    remarks: Seq<char>,
) -> Seq<char> {
    link_text(
        scheme,
        credential,
        server,
        port,
        query_of(with_value(params)),
        percent_encoded(remarks),
    )
}

/// `text` with every `=` written as `%3D`.
pub open spec fn equals_escaped(text: Seq<char>) -> Seq<char>
    decreases text.len(),
{
    if text.len() == 0 {
        Seq::empty()
    } else if text.last() == '=' {
        equals_escaped(text.drop_last()) + seq!['%', '3', 'D']
    } else {
        equals_escaped(text.drop_last()).push(text.last())
    }
}

/// The options of the websocket plugin as one text.
pub open spec fn plugin_options(tls: bool, path: Seq<char>, host: Seq<char>) -> Seq<char> {
    (if tls {
        "tls;mux=0;mode=websocket;path="@
    } else {
        "mux=0;mode=websocket;path="@
    }) + path + ";host="@ + host
}

/// The credential of an `ss` link before it is encoded: the cipher `none`,
/// a colon, and the password.
pub open spec fn ss_credential(password: Seq<char>) -> Seq<char> {
    "none:"@ + password
}

/// An `ss` link put together from its parts: the encoded credential, the
/// endpoint, the plugin and its options with every `=` escaped, and the
/// fragment.
pub open spec fn ss_text(
    credential_code: Seq<char>,
    server: Seq<char>,
    port: u16,
    tls: bool,
    host: Seq<char>,
    path: Seq<char>,
    fragment: Seq<char>,
) -> Seq<char> {
    "ss://"@ + credential_code + seq!['@'] + server + seq![':'] + decimal_text(port as nat)
        + "?plugin="@ + equals_escaped("v2ray-plugin;"@ + plugin_options(tls, path, host)) + seq![
        '#',
    ] + fragment
}

/// An `ss` link: the credential in base64, the endpoint, the plugin and
/// its options with every `=` escaped, and the label percent-encoded.
pub open spec fn ss_link_text(
    remarks: Seq<char>,
    server: Seq<char>,
    port: u16,
    password: Seq<char>,
    tls: bool,
    host: Seq<char>,
    path: Seq<char>,
) -> Seq<char> {
    ss_text(
        base64_text(vstd::utf8::encode_utf8(ss_credential(password))),
        server,
        port,
        tls,
        host,
        path,
        percent_encoded(remarks),
    )
}

/// No parameter that is written has an empty value, and every parameter
/// that has a value is written.
pub proof fn lemma_written_params_have_values(params: Seq<(Seq<char>, Seq<char>)>)
    ensures
        forall|i: int|
            0 <= i < with_value(params).len() ==> (#[trigger] with_value(params)[i]).1.len() > 0,
        forall|i: int|
            0 <= i < with_value(params).len() ==> params.contains(#[trigger] with_value(params)[i]),
        forall|i: int|
            0 <= i < params.len() && params[i].1.len() > 0 ==> with_value(params).contains(
                #[trigger] params[i],
            ),
{
    let has_value = |p: (Seq<char>, Seq<char>)| p.1.len() > 0;
    assert forall|i: int| 0 <= i < with_value(params).len() implies (#[trigger] with_value(
        params,
    )[i]).1.len() > 0 && params.contains(with_value(params)[i]) by {
        params.lemma_filter_pred(has_value, i);
        params.lemma_filter_contains_rev(has_value, with_value(params)[i]);
    }
    assert forall|i: int| 0 <= i < params.len() && params[i].1.len() > 0 implies with_value(
        params,
    ).contains(#[trigger] params[i]) by {
        params.lemma_filter_contains(has_value, i);
    }
}

/// Leaving out the parameters without a value keeps the names in
/// ascending order.
pub proof fn lemma_with_value_keeps_order(params: Seq<(Seq<char>, Seq<char>)>)
    requires
        names_ascending(params),
    ensures
        names_ascending(with_value(params)),
    decreases params.len(),
{
    let has_value = |p: (Seq<char>, Seq<char>)| p.1.len() > 0;
    reveal(Seq::filter);
    if params.len() > 0 {
        let shorter = params.drop_last();
        assert forall|i: int, j: int|
            #![trigger shorter[i], shorter[j]]
            0 <= i < j < shorter.len() implies text_less(shorter[i].0, shorter[j].0) by {
            assert(shorter[i] == params[i] && shorter[j] == params[j]);
        }
        lemma_with_value_keeps_order(shorter);
        let kept = with_value(shorter);
        if has_value(params.last()) {
            let now = with_value(params);
            assert(now == kept.push(params.last()));
            assert forall|i: int, j: int|
                #![trigger now[i], now[j]]
                0 <= i < j < now.len() implies text_less(now[i].0, now[j].0) by {
                if j < kept.len() {
                    assert(now[i] == kept[i] && now[j] == kept[j]);
                } else {
                    assert(now[i] == kept[i]);
                    assert(kept.contains(kept[i]));
                    shorter.lemma_filter_contains_rev(has_value, kept[i]);
                    let k = choose|k: int| 0 <= k < shorter.len() && shorter[k] == kept[i];
                    assert(params[k] == kept[i]);
                    assert(params[params.len() - 1] == now[j]);
                }
            }
        }
    }
}

/// Where no parameter has a value the query is the empty text.
pub proof fn lemma_query_of_no_values(params: Seq<(Seq<char>, Seq<char>)>)
    requires
        forall|i: int| 0 <= i < params.len() ==> (#[trigger] params[i]).1.len() == 0,
    ensures
        query_of(with_value(params)) == Seq::<char>::empty(),
{
    let has_value = |p: (Seq<char>, Seq<char>)| p.1.len() > 0;
    let kept = with_value(params);
    if kept.len() > 0 {
        params.lemma_filter_pred(has_value, 0);
        assert(kept.contains(kept[0]));
        params.lemma_filter_contains_rev(has_value, kept[0]);
    }
}

/// A text that is not empty is not written as the empty text, so that a
/// parameter that is written shows its value.
pub proof fn lemma_query_encoded_nonempty(text: Seq<char>)
    requires
        text.len() > 0,
    ensures
        query_encoded(text).len() > 0,
{
    let bytes = vstd::utf8::encode_utf8(text);
    vstd::utf8::encode_utf8_decode_utf8(text);
    if bytes.len() == 0 {
        assert(vstd::utf8::decode_utf8(bytes) =~= Seq::<char>::empty());
    }
}

/// The query holds the parameters that have a value and no others, each
/// with its value, in the order of the names.
pub proof fn lemma_query_is_of_the_values(params: Seq<(Seq<char>, Seq<char>)>)
    requires
        names_ascending(params),
    ensures
        names_ascending(with_value(params)),
        forall|i: int|
            0 <= i < with_value(params).len() ==> query_encoded(
                (#[trigger] with_value(params)[i]).1,
            ).len() > 0,
{
    lemma_with_value_keeps_order(params);
    lemma_written_params_have_values(params);
    assert forall|i: int| 0 <= i < with_value(params).len() implies query_encoded(
        (#[trigger] with_value(params)[i]).1,
    ).len() > 0 by {
        lemma_query_encoded_nonempty(with_value(params)[i].1);
    }
}

/// A percent-encoded text holds no line feed.
pub proof fn lemma_percent_encoded_is_one_line(bytes: Seq<u8>)
    ensures
        one_line(percent_encoded_bytes(bytes)),
    decreases bytes.len(),
{
    if bytes.len() > 0 {
        lemma_percent_encoded_is_one_line(bytes.drop_last());
        let byte = bytes.last();
        assert(one_line(percent_encoded_byte(byte))) by {
            assert(hex_digit(byte / 16) != '\n' && hex_digit(byte % 16) != '\n');
            if is_unreserved(byte) {
                assert(byte as char != '\n');
            }
        }
    }
}

/// A text as it is written in a query holds no line feed.
pub proof fn lemma_query_encoded_is_one_line(bytes: Seq<u8>)
    ensures
        one_line(query_encoded_bytes(bytes)),
    decreases bytes.len(),
{
    if bytes.len() > 0 {
        lemma_query_encoded_is_one_line(bytes.drop_last());
        let byte = bytes.last();
        assert(one_line(query_encoded_byte(byte))) by {
            assert(hex_digit(byte / 16) != '\n' && hex_digit(byte % 16) != '\n');
            if is_query_safe(byte) {
                assert(byte as char != '\n');
            }
        }
    }
}

/// A query holds no line feed.
pub proof fn lemma_query_is_one_line(params: Seq<(Seq<char>, Seq<char>)>)
    ensures
        one_line(query_of(params)),
    decreases params.len(),
{
    if params.len() > 0 {
        let last = if params.len() == 1 {
            params[0]
        } else {
            params.last()
        };
        lemma_query_encoded_is_one_line(vstd::utf8::encode_utf8(last.0));
        lemma_query_encoded_is_one_line(vstd::utf8::encode_utf8(last.1));
        assert(one_line(query_pair(last)));
        if params.len() > 1 {
            lemma_query_is_one_line(params.drop_last());
        }
    }
}

/// A link with a query stands on one line where its scheme, its credential
/// and its address do: neither the port, the query nor the percent-encoded
/// label holds a line feed.
pub proof fn lemma_query_link_is_one_line(
    scheme: Seq<char>,
    credential: Seq<char>,
    server: Seq<char>,
    port: u16,
    params: Seq<(Seq<char>, Seq<char>)>,
    remarks: Seq<char>,
)
    requires
        one_line(scheme),
        one_line(credential),
        one_line(server),
    ensures
        one_line(query_link(scheme, credential, server, port, params, remarks)),
{
    lemma_decimal_is_one_line(port as nat);
    lemma_query_is_one_line(with_value(params));
    lemma_percent_encoded_is_one_line(vstd::utf8::encode_utf8(remarks));
}

/// Keeps the parameters that have a value.
pub fn keep_with_value(params: Vec<(String, String)>) -> (kept: Vec<(String, String)>)
    ensures
        pair_views(kept@) == with_value(pair_views(params@)),
        names_ascending(pair_views(params@)) ==> names_ascending(pair_views(kept@)),
{
    let ghost all = pair_views(params@);
    let ghost has_value = |p: (Seq<char>, Seq<char>)| p.1.len() > 0;
    let mut kept: Vec<(String, String)> = Vec::new();
    let mut i: usize = 0;
    assert(all.subrange(0, 0) =~= Seq::empty());
    assert(pair_views(kept@) =~= Seq::empty());
    while i < params.len()
        invariant
            i <= params.len(),
            all == pair_views(params@),
            has_value == (|p: (Seq<char>, Seq<char>)| p.1.len() > 0),
            pair_views(kept@) == all.subrange(0, i as int).filter(has_value),
            names_ascending(all) ==> names_ascending(pair_views(kept@)),
            names_ascending(all) ==> forall|a: int, k: int|
                #![trigger pair_views(kept@)[a], all[k]]
                0 <= a < kept.len() && i <= k < all.len() ==> text_less(
                    pair_views(kept@)[a].0,
                    all[k].0,
                ),
        decreases params.len() - i,
    {
        let ghost before = kept@;
        proof {
            assert(all.subrange(0, i + 1).drop_last() =~= all.subrange(0, i as int));
            assert(all.subrange(0, i + 1).last() == all[i as int]);
            reveal(Seq::filter);
        }
        if !params[i].1.as_str().is_empty() {
            let copy = (params[i].0.clone(), params[i].1.clone());
            kept.push(copy);
            assert(pair_views(kept@) =~= pair_views(before).push(all[i as int]));
            proof {
                if names_ascending(all) {
                    let now = pair_views(kept@);
                    assert forall|a: int, b: int|
                        #![trigger now[a], now[b]]
                        0 <= a < b < now.len() implies text_less(now[a].0, now[b].0) by {
                        if b < before.len() {
                            assert(now[a] == pair_views(before)[a]);
                            assert(now[b] == pair_views(before)[b]);
                        } else {
                            assert(now[a] == pair_views(before)[a]);
                            assert(now[b] == all[i as int]);
                        }
                    }
                    assert forall|a: int, k: int|
                        #![trigger now[a], all[k]]
                        0 <= a < now.len() && i + 1 <= k < all.len() implies text_less(
                        now[a].0,
                        all[k].0,
                    ) by {
                        if a < before.len() {
                            assert(now[a] == pair_views(before)[a]);
                        } else {
                            assert(now[a] == all[i as int]);
                        }
                    }
                }
            }
        }
        i += 1;
    }
    assert(all.subrange(0, i as int) =~= all);
    kept
}

/// One parameter.
fn param(name: &str, value: &str) -> (pair: (String, String))
    ensures
        pair.0@ == name@,
        pair.1@ == value@,
{
    (String::from_str(name), String::from_str(value))
}

/// Puts a link together from its parts, the query and the fragment as
/// they are to stand in it.
pub fn assemble_link(
    scheme: &str,
    credential: &str,
    server: &str,
    port: u16,
    query: &str,
    fragment: &str,
) -> (link: String)
    ensures
        link@ == link_text(scheme@, credential@, server@, port, query@, fragment@),
{
    proof {
        reveal_strlit("@");
        reveal_strlit(":");
        reveal_strlit("/?");
        reveal_strlit("#");
    }
    let mut link = String::from_str(scheme);
    link.append(credential);
    link.append("@");
    link.append(server);
    link.append(":");
    link.append(decimal(port as u64).as_str());
    link.append("/?");
    link.append(query);
    link.append("#");
    link.append(fragment);
    assert(link@ =~= link_text(scheme@, credential@, server@, port, query@, fragment@));
    link
}

/// Whether `a` stands before `b` in the order of texts.
pub fn text_before(a: &str, b: &str) -> (before: bool)
    ensures
        before == text_less(a@, b@),
{
    let n = a.unicode_len();
    let m = b.unicode_len();
    let mut i: usize = 0;
    assert(a@.subrange(0, n as int) =~= a@ && b@.subrange(0, m as int) =~= b@);
    while i < n && i < m
        invariant
            i <= n,
            i <= m,
            n == a@.len(),
            m == b@.len(),
            text_less(a@, b@) == text_less(a@.subrange(i as int, n as int), b@.subrange(
                i as int,
                m as int,
            )),
        decreases n - i,
    {
        let ghost rest_a = a@.subrange(i as int, n as int);
        let ghost rest_b = b@.subrange(i as int, m as int);
        let first_a = a.get_char(i);
        let first_b = b.get_char(i);
        assert(rest_a[0] == first_a && rest_b[0] == first_b);
        if first_a != first_b {
            return first_a < first_b;
        }
        assert(rest_a.drop_first() =~= a@.subrange(i + 1, n as int));
        assert(rest_b.drop_first() =~= b@.subrange(i + 1, m as int));
        i += 1;
    }
    i < m
}

/// Whether the names of the parameters stand in strictly ascending order.
pub fn names_in_order(params: &Vec<(String, String)>) -> (ordered: bool)
    ensures
        ordered == names_ascending(pair_views(params@)),
{
    let ghost views = pair_views(params@);
    let mut j: usize = 0;
    while j < params.len()
        invariant
            j <= params.len(),
            views == pair_views(params@),
            forall|i: int, k: int|
                #![trigger views[i], views[k]]
                0 <= i < k < j ==> text_less(views[i].0, views[k].0),
        decreases params.len() - j,
    {
        let mut i: usize = 0;
        while i < j
            invariant
                i <= j < params.len(),
                views == pair_views(params@),
                forall|h: int| 0 <= h < i ==> text_less((#[trigger] views[h]).0, views[j as int].0),
            decreases j - i,
        {
            if !text_before(params[i].0.as_str(), params[j].0.as_str()) {
                assert(!text_less(views[i as int].0, views[j as int].0));
                return false;
            }
            i += 1;
        }
        j += 1;
    }
    true
}

/// Writes a link with a query: the parameters that have a value are kept,
/// their query is written, and the link is put together with the label
/// percent-encoded. There is a link exactly where the names of the
/// parameters are in strictly ascending order.
pub fn build_query_link(
    scheme: &str,
    credential: &str,
    server: &str,
    port: u16,
    params: Vec<(String, String)>,
    remarks: &str,
) -> (link: Option<String>)
    ensures
        link is Some <==> names_ascending(pair_views(params@)),
        link matches Some(text) ==> text@ == query_link(
            scheme@,
            credential@,
            server@,
            port,
            pair_views(params@),
            remarks@,
        ),
{
    if !names_in_order(&params) {
        return None;
    }
    let kept = keep_with_value(params);
    let fragment = percent_encode(remarks);
    match query_string(&kept) {
        Some(query) => Some(
            assemble_link(scheme, credential, server, port, query.as_str(), fragment.as_str()),
        ),
        None => None,
    }
}

/// The link that was written; the empty text where none was.
fn written(link: Option<String>) -> (text: String)
    ensures
        text@ == text_or_empty(opt_text(link)),
{
    match link {
        Some(text) => text,
        None => String::new(),
    }
}

/// The names of the parameters of a `vmess` link are in ascending order;
/// those of a `vless` and of a `trojan` link are among them.
pub proof fn lemma_link_names_ascend(
    security: Seq<char>,
    host: Seq<char>,
    sni: Seq<char>,
    path: Seq<char>,
    fingerprint: Seq<char>,
)
    ensures
        names_ascending(vless_params(security, host, sni, path, fingerprint)),
        names_ascending(trojan_params(security, host, sni, path, fingerprint)),
        names_ascending(vmess_params(security, host, sni, path, fingerprint)),
{
    reveal_strlit("allowInsecure");
    reveal_strlit("alterId");
    reveal_strlit("encryption");
    reveal_strlit("fp");
    reveal_strlit("host");
    reveal_strlit("path");
    reveal_strlit("security");
    reveal_strlit("sni");
    reveal_strlit("type");
    reveal_with_fuel(text_less, 4);
    let a = "allowInsecure"@;
    let b = "alterId"@;
    let e = "encryption"@;
    let f = "fp"@;
    let h = "host"@;
    let p = "path"@;
    let s = "security"@;
    let n = "sni"@;
    let t = "type"@;
    assert(a[0] == 'a' && b[0] == 'a' && e[0] == 'e' && f[0] == 'f' && h[0] == 'h' && p[0] == 'p'
        && s[0] == 's' && n[0] == 's' && t[0] == 't');
    assert(text_less(a, b)) by {
        assert(a.drop_first()[0] == 'l' && b.drop_first()[0] == 'l');
        assert(a.drop_first().drop_first()[0] == 'l' && b.drop_first().drop_first()[0] == 't');
    }
    assert(text_less(s, n)) by {
        assert(s.drop_first()[0] == 'e' && n.drop_first()[0] == 'n');
    }
    assert(text_less(a, e) && text_less(a, f) && text_less(a, h) && text_less(a, p) && text_less(
        a,
        s,
    ) && text_less(a, n) && text_less(a, t));
    assert(text_less(b, e) && text_less(b, f) && text_less(b, h) && text_less(b, p) && text_less(
        b,
        s,
    ) && text_less(b, n) && text_less(b, t));
    assert(text_less(e, f) && text_less(e, h) && text_less(e, p) && text_less(e, s) && text_less(
        e,
        n,
    ) && text_less(e, t));
    assert(text_less(f, h) && text_less(f, p) && text_less(f, s) && text_less(f, n) && text_less(
        f,
        t,
    ));
    assert(text_less(h, p) && text_less(h, s) && text_less(h, n) && text_less(h, t));
    assert(text_less(p, s) && text_less(p, n) && text_less(p, t));
    assert(text_less(s, t) && text_less(n, t));
}

/// Encodes a `vless` node as a link.
pub fn build_vless_link(
    remarks: &str,
    server: String,
    port: u16,
    uuid: String,
    security: &str,
    host: String,
    sni: String,
    path: String,
    fingerprint: String,
) -> (link: String)
    ensures
        link@ == query_link(
            "vless://"@,
            uuid@,
            server@,
            port,
            vless_params(security@, host@, sni@, path@, fingerprint@),
            remarks@,
        ),
{
    let mut params: Vec<(String, String)> = Vec::new();
    params.push(param("allowInsecure", "1"));
    params.push(param("encryption", "none"));
    params.push(param("fp", fingerprint.as_str()));
    params.push(param("host", host.as_str()));
    params.push(param("path", path.as_str()));
    params.push(param("security", security));
    params.push(param("sni", sni.as_str()));
    params.push(param("type", "ws"));
    assert(pair_views(params@) =~= vless_params(security@, host@, sni@, path@, fingerprint@));
    proof {
        lemma_link_names_ascend(security@, host@, sni@, path@, fingerprint@);
    }
    written(build_query_link("vless://", uuid.as_str(), server.as_str(), port, params, remarks))
}

/// Encodes a `trojan` node as a link.
pub fn build_trojan_link(
    remarks: &str,
    server: String,
    port: u16,
    password: String,
    security: &str,
    host: String,
    sni: String,
    path: String,
    fingerprint: String,
) -> (link: String)
    ensures
        link@ == query_link(
            "trojan://"@,
            password@,
            server@,
            port,
            trojan_params(security@, host@, sni@, path@, fingerprint@),
            remarks@,
        ),
{
    let mut params: Vec<(String, String)> = Vec::new();
    params.push(param("allowInsecure", "1"));
    params.push(param("fp", fingerprint.as_str()));
    params.push(param("host", host.as_str()));
    params.push(param("path", path.as_str()));
    params.push(param("security", security));
    params.push(param("sni", sni.as_str()));
    params.push(param("type", "ws"));
    assert(pair_views(params@) =~= trojan_params(security@, host@, sni@, path@, fingerprint@));
    proof {
        lemma_link_names_ascend(security@, host@, sni@, path@, fingerprint@);
    }
    written(build_query_link("trojan://", password.as_str(), server.as_str(), port, params, remarks))
}

/// Encodes a `vmess` node as a link.
pub fn build_vmess_link(
    remarks: &str,
    server: String,
    port: u16,
    uuid: String,
    security: &str,
    host: String,
    sni: String,
    path: String,
    fingerprint: String,
) -> (link: String)
    ensures
        link@ == query_link(
            "vmess://"@,
            uuid@,
            server@,
            port,
            vmess_params(security@, host@, sni@, path@, fingerprint@),
            remarks@,
        ),
{
    let mut params: Vec<(String, String)> = Vec::new();
    params.push(param("allowInsecure", "1"));
    params.push(param("alterId", "0"));
    params.push(param("encryption", "zero"));
    params.push(param("fp", fingerprint.as_str()));
    params.push(param("host", host.as_str()));
    params.push(param("path", path.as_str()));
    params.push(param("security", security));
    params.push(param("sni", sni.as_str()));
    params.push(param("type", "ws"));
    assert(pair_views(params@) =~= vmess_params(security@, host@, sni@, path@, fingerprint@));
    proof {
        lemma_link_names_ascend(security@, host@, sni@, path@, fingerprint@);
    }
    written(build_query_link("vmess://", uuid.as_str(), server.as_str(), port, params, remarks))
}

/// Writes every `=` of `text` as `%3D`.
pub fn escape_equals(text: &str) -> (escaped: String)
    ensures
        escaped@ == equals_escaped(text@),
{
    let n = text.unicode_len();
    let mut escaped = String::new();
    let mut i: usize = 0;
    assert(text@.subrange(0, 0) =~= Seq::empty());
    while i < n
        invariant
            i <= n,
            n == text@.len(),
            escaped@ == equals_escaped(text@.subrange(0, i as int)),
        decreases n - i,
    {
        proof {
            assert(text@.subrange(0, i + 1).drop_last() =~= text@.subrange(0, i as int));
            assert(text@.subrange(0, i + 1).last() == text@[i as int]);
        }
        if text.get_char(i) == '=' {
            escaped.append("%3D");
            proof {
                reveal_strlit("%3D");
            }
            assert("%3D"@ =~= seq!['%', '3', 'D']);
        } else {
            let one = text.substring_char(i, i + 1);
            assert(one@ =~= seq![text@[i as int]]);
            escaped.append(one);
            assert(escaped@ =~= equals_escaped(text@.subrange(0, i as int)).push(text@[i as int]));
        }
        i += 1;
    }
    assert(text@.subrange(0, i as int) =~= text@);
    escaped
}

/// Writes the options of the websocket plugin as one text.
pub fn plugin_options_text(tls: bool, path: &str, host: &str) -> (options: String)
    ensures
        options@ == plugin_options(tls, path@, host@),
{
    let mut options = if tls {
        String::from_str("tls;mux=0;mode=websocket;path=")
    } else {
        String::from_str("mux=0;mode=websocket;path=")
    };
    options.append(path);
    options.append(";host=");
    options.append(host);
    options
}

/// Puts an `ss` link together from its parts, the encoded credential and
/// the fragment as they are to stand in it.
pub fn assemble_ss_link(
    credential_code: &str,
    server: &str,
    port: u16,
    toml_tls: bool,
    host: &str,
    path: &str,
    fragment: &str,
) -> (link: String)
    ensures
        link@ == ss_text(credential_code@, server@, port, toml_tls, host@, path@, fragment@),
{
    proof {
        reveal_strlit("@");
        reveal_strlit(":");
        reveal_strlit("#");
    }
    let options = plugin_options_text(toml_tls, path, host);
    let plugin = joined("v2ray-plugin;", options.as_str());
    let mut link = String::from_str("ss://");
    link.append(credential_code);
    link.append("@");
    link.append(server);
    link.append(":");
    link.append(decimal(port as u64).as_str());
    link.append("?plugin=");
    link.append(escape_equals(plugin.as_str()).as_str());
    link.append("#");
    link.append(fragment);
    assert(link@ =~= ss_text(
        credential_code@,
        server@,
        port,
        toml_tls,
        host@,
        path@,
        fragment@,
    ));
    link
}

/// Encodes an `ss` node as a link for clients that carry the websocket
/// plugin.
pub fn build_ss_link(
    remarks: &str,
    server: String,
    port: u16,
    password: String,
    toml_tls: bool,
    host: String,
    path: String,
) -> (link: String)
    ensures
        link@ == ss_link_text(remarks@, server@, port, password@, toml_tls, host@, path@),
{
    let credential = joined("none:", password.as_str());
    let code = base64_encode(credential.as_str().as_bytes());
    let fragment = percent_encode(remarks);
    assemble_ss_link(
        code.as_str(),
        server.as_str(),
        port,
        toml_tls,
        host.as_str(),
        path.as_str(),
        fragment.as_str(),
    )
}

/// The text of a credential or name that a node may leave out.
pub open spec fn text_or_empty(text: Option<Seq<char>>) -> Seq<char> {
    match text {
        Some(t) => t,
        None => Seq::empty(),
    }
}

/// The password of an `ss` node; `none` where the node has none.
pub open spec fn ss_password(password: Option<Seq<char>>) -> Seq<char> {
    match password {
        Some(p) => p,
        None => "none"@,
    }
}

/// The link of a selected node under a label, on a port already settled.
/// A node of a kind other than the four known ones has no link.
pub open spec fn link_for(
    selected: SelectedNodeView,
    label: Seq<char>,
    server: Seq<char>,
    port: u16,
    fingerprint: Seq<char>,
) -> Option<Seq<char>> {
    let node = selected.node;
    let security = security_text(
        plaintext_eligible(selected.node_type, node.host, tls_flag_of(node.tls)),
    );
    if selected.node_type == "vless"@ {
        Some(
            query_link(
                "vless://"@,
                text_or_empty(node.uuid),
                server,
                port,
                vless_params(
                    security,
                    node.host,
                    text_or_empty(node.server_name),
                    node.path,
                    fingerprint,
                ),
                label,
            ),
        )
    } else if selected.node_type == "vmess"@ {
        Some(
            query_link(
                "vmess://"@,
                text_or_empty(node.uuid),
                server,
                port,
                vmess_params(
                    security,
                    node.host,
                    text_or_empty(node.server_name),
                    node.path,
                    fingerprint,
                ),
                label,
            ),
        )
    } else if selected.node_type == "trojan"@ {
        Some(
            query_link(
                "trojan://"@,
                text_or_empty(node.password),
                server,
                port,
                trojan_params(
                    security,
                    node.host,
                    text_or_empty(node.server_name),
                    node.path,
                    fingerprint,
                ),
                label,
            ),
        )
    } else if selected.node_type == "ss"@ {
        Some(
            ss_link_text(
                label,
                server,
                port,
                ss_password(node.password),
                tls_flag_of(node.tls),
                node.host,
                node.path,
            ),
        )
    } else {
        None
    }
}

/// What one attempt with a selected node gives: its link on the port
/// decided for it, or nothing where no port is decided, the port calls for
/// another node, or the node has no link.
pub open spec fn link_outcome(
    selected: SelectedNodeView,
    port_draw: nat,
    csv_tag: Seq<char>,
    csv_addr: Seq<char>,
    csv_port: u16,
    uri_port: u16,
    fingerprint: Seq<char>,
    http_ports: Seq<u16>,
    https_ports: Seq<u16>,
) -> Option<Seq<char>> {
    match node_decision(
        selected.node_type,
        selected.node,
        uri_port,
        csv_port,
        port_draw,
        http_ports,
        https_ports,
    ) {
        Some(decision) => if decision.retry_needed {
            None
        } else {
            link_for(
                selected,
                remark_text(csv_tag, selected.node.remarks_prefix, csv_addr, decision.port),
                csv_addr,
                decision.port,
                fingerprint,
            )
        },
        None => None,
    }
}

/// A link is never the empty text, so that it is not taken for nothing to
/// emit.
pub proof fn lemma_link_nonempty(
    selected: SelectedNodeView,
    label: Seq<char>,
    server: Seq<char>,
    port: u16,
    fingerprint: Seq<char>,
)
    ensures
        link_for(selected, label, server, port, fingerprint) matches Some(link) ==> link.len() > 0,
{
    reveal_strlit("vless://");
    reveal_strlit("vmess://");
    reveal_strlit("trojan://");
    reveal_strlit("ss://");
}

/// A node of each of the four kinds has a link, and a node of any other
/// kind has none.
pub proof fn lemma_known_kind_has_a_link(
    selected: SelectedNodeView,
    label: Seq<char>,
    server: Seq<char>,
    port: u16,
    fingerprint: Seq<char>,
)
    ensures
        link_for(selected, label, server, port, fingerprint) is Some <==> known_kind(
            selected.node_type,
        ),
{
}

/// A `vless` node whose host ends with the plaintext suffix and that has
/// no ports of its own, with no port asked for: the attempt gives a
/// `vless` link on the port drawn from the ports without TLS. The link
/// says `security=none` and the path of the node among its parameters, and
/// carries the label of the node and the endpoint.
pub proof fn lemma_vless_link_on_a_plaintext_host(
    selected: SelectedNodeView,
    draw: nat,
    csv_tag: Seq<char>,
    csv_addr: Seq<char>,
    fingerprint: Seq<char>,
    http_ports: Seq<u16>,
    https_ports: Seq<u16>,
)
    requires
        selected.node_type == "vless"@,
        has_suffix(selected.node.host, plaintext_suffix()),
        selected.node.random_ports is None,
        draw < http_ports.len(),
    ensures
        ({
            let node = selected.node;
            let port = http_ports[draw as int];
            let params = vless_params(
                "none"@,
                node.host,
                text_or_empty(node.server_name),
                node.path,
                fingerprint,
            );
            &&& link_outcome(
                selected,
                draw,
                csv_tag,
                csv_addr,
                0,
                0,
                fingerprint,
                http_ports,
                https_ports,
            ) == Some(
                link_text(
                    "vless://"@,
                    text_or_empty(node.uuid),
                    csv_addr,
                    port,
                    query_of(with_value(params)),
                    percent_encoded(remark_text(csv_tag, node.remarks_prefix, csv_addr, port)),
                ),
            )
            &&& with_value(params).contains(("security"@, "none"@))
            &&& node.path.len() > 0 ==> with_value(params).contains(("path"@, node.path))
        }),
{
    reveal_strlit("none");
    let node = selected.node;
    let params = vless_params(
        "none"@,
        node.host,
        text_or_empty(node.server_name),
        node.path,
        fingerprint,
    );
    let has_value = |p: (Seq<char>, Seq<char>)| p.1.len() > 0;
    assert(params[5] == ("security"@, "none"@));
    assert(params[4] == ("path"@, node.path));
    params.lemma_filter_contains(has_value, 5);
    if node.path.len() > 0 {
        params.lemma_filter_contains(has_value, 4);
    }
}

/// An attempt with a node of a known kind gives a link exactly when a port
/// is decided for the node that asks for no retry.
pub proof fn lemma_link_outcome(
    selected: SelectedNodeView,
    port_draw: nat,
    csv_tag: Seq<char>,
    csv_addr: Seq<char>,
    csv_port: u16,
    uri_port: u16,
    fingerprint: Seq<char>,
    http_ports: Seq<u16>,
    https_ports: Seq<u16>,
)
    requires
        known_kind(selected.node_type),
    ensures
        link_outcome(
            selected,
            port_draw,
            csv_tag,
            csv_addr,
            csv_port,
            uri_port,
            fingerprint,
            http_ports,
            https_ports,
        ) is Some <==> (node_decision(
            selected.node_type,
            selected.node,
            uri_port,
            csv_port,
            port_draw,
            http_ports,
            https_ports,
        ) matches Some(decision) && !decision.retry_needed),
{
}

/// A copy of a text that a node may leave out; the empty text where it
/// does.
pub fn text_or_default(text: &Option<String>) -> (copy: String)
    ensures
        copy@ == text_or_empty(opt_text(*text)),
{
    match text {
        Some(t) => t.clone(),
        None => String::new(),
    }
}

/// A copy of the password of an `ss` node.
pub fn password_or_none(password: &Option<String>) -> (copy: String)
    ensures
        copy@ == ss_password(opt_text(*password)),
{
    match password {
        Some(p) => p.clone(),
        None => String::from_str("none"),
    }
}

/// The TLS switch of a node; a node that does not say runs with TLS.
pub fn tls_or_default(tls: Option<bool>) -> (flag: bool)
    ensures
        flag == tls_flag_of(tls),
{
    match tls {
        Some(flag) => flag,
        None => true,
    }
}

/// Encodes a selected node as a link under a label, on a port already
/// settled.
pub fn encode_link(
    selected: &SelectedNode,
    label: &str,
    server: &str,
    port: u16,
    fingerprint: &str,
) -> (link: Option<String>)
    ensures
        opt_text(link) == link_for(selected@, label@, server@, port, fingerprint@),
{
    let kind = selected.node_type.as_str();
    let node = &selected.node;
    let tls = tls_or_default(node.tls);
    let security = if is_plaintext(kind, node.host.as_str(), tls) {
        "none"
    } else {
        "tls"
    };
    if text_eq(kind, "vless") {
        Some(
            build_vless_link(
                label,
                String::from_str(server),
                port,
                text_or_default(&node.uuid),
                security,
                node.host.clone(),
                text_or_default(&node.server_name),
                node.path.clone(),
                String::from_str(fingerprint),
            ),
        )
    } else if text_eq(kind, "vmess") {
        Some(
            build_vmess_link(
                label,
                String::from_str(server),
                port,
                text_or_default(&node.uuid),
                security,
                node.host.clone(),
                text_or_default(&node.server_name),
                node.path.clone(),
                String::from_str(fingerprint),
            ),
        )
    } else if text_eq(kind, "trojan") {
        Some(
            build_trojan_link(
                label,
                String::from_str(server),
                port,
                text_or_default(&node.password),
                security,
                node.host.clone(),
                text_or_default(&node.server_name),
                node.path.clone(),
                String::from_str(fingerprint),
            ),
        )
    } else if text_eq(kind, "ss") {
        Some(
            build_ss_link(
                label,
                String::from_str(server),
                port,
                password_or_none(&node.password),
                tls,
                node.host.clone(),
                node.path.clone(),
            ),
        )
    } else {
        None
    }
}

/// Makes one attempt with a selected node: settles its port with
/// `port_draw` as the position of a random port, composes the label, and
/// encodes the link.
pub fn link_attempt(
    selected: &SelectedNode,
    port_draw: usize,
    csv_tag: &str,
    csv_addr: &str,
    csv_port: u16,
    uri_port: u16,
    fingerprint: &str,
    http_ports: &[u16],
    https_ports: &[u16],
) -> (link: Option<String>)
    ensures
        opt_text(link) == link_outcome(
            selected@,
            port_draw as nat,
            csv_tag@,
            csv_addr@,
            csv_port,
            uri_port,
            fingerprint@,
            http_ports@,
            https_ports@,
        ),
{
    match resolve_with_draw(
        &selected.node,
        uri_port,
        csv_port,
        selected.node_type.as_str(),
        http_ports,
        https_ports,
        port_draw,
    ) {
        Some(decision) => {
            if decision.retry_needed {
                None
            } else {
                let label = compose(
                    csv_tag,
                    selected.node.remarks_prefix.as_str(),
                    csv_addr,
                    decision.port,
                );
                encode_link(selected, label.as_str(), csv_addr, decision.port, fingerprint)
            }
        },
        None => None,
    }
}

/// How many nodes are drawn before an entry is given up.
pub const MAX_ATTEMPTS: usize = 100;

/// Builds the share link of one address.
///
/// A node is selected by `uri_proxy_type` and `uri_userid`, its port is
/// settled from `uri_port` and `csv_port`, and the link is encoded; where
/// the port calls for another node one is drawn, up to a hundred times.
/// The empty text is returned where no attempt gives a link.
pub fn build_v2ray_link(
    toml_proxies: &Proxy,
    csv_tag: String,
    csv_addr: String,
    csv_port: u16,
    uri_port: u16,
    uri_userid: u8,
    uri_proxy_type: String,
    fingerprint: String,
    http_ports: &[u16],
    https_ports: &[u16],
) -> (link: String)
    ensures
        ({
            let candidates = toml_proxies@.candidates(uri_proxy_type@);
            &&& candidates.len() == 0 ==> link@.len() == 0
            &&& link@.len() == 0 || exists|i: int, draw: nat|
                0 <= i < candidates.len() && #[trigger] link_outcome(
                    candidates[i],
                    draw,
                    csv_tag@,
                    csv_addr@,
                    csv_port,
                    uri_port,
                    fingerprint@,
                    http_ports@,
                    https_ports@,
                ) == Some(link@)
            &&& candidates.len() > 0 && always_fits(
                candidates,
                csv_port,
                uri_port,
                http_ports@,
                https_ports@,
            ) ==> exists|i: int, draw: nat|
                0 <= i < candidates.len() && #[trigger] link_outcome(
                    candidates[i],
                    draw,
                    csv_tag@,
                    csv_addr@,
                    csv_port,
                    uri_port,
                    fingerprint@,
                    http_ports@,
                    https_ports@,
                ) == Some(link@)
            &&& position_in_range(uri_userid, candidates.len()) ==> link@.len() == 0
                || exists|draw: nat|
                #[trigger] link_outcome(
                    candidates[uri_userid - 1],
                    draw,
                    csv_tag@,
                    csv_addr@,
                    csv_port,
                    uri_port,
                    fingerprint@,
                    http_ports@,
                    https_ports@,
                ) == Some(link@)
            &&& position_in_range(uri_userid, candidates.len()) && port_fits(
                candidates[uri_userid - 1].node_type,
                candidates[uri_userid - 1].node,
                uri_port,
                csv_port,
                http_ports@,
                https_ports@,
            ) ==> exists|draw: nat|
                #[trigger] link_outcome(
                    candidates[uri_userid - 1],
                    draw,
                    csv_tag@,
                    csv_addr@,
                    csv_port,
                    uri_port,
                    fingerprint@,
                    http_ports@,
                    https_ports@,
                ) == Some(link@)
            &&& position_in_range(uri_userid, candidates.len()) && (uri_port != 0
                || csv_port != 0) ==> link@ == text_or_empty(
                link_outcome(
                    candidates[uri_userid - 1],
                    0,
                    csv_tag@,
                    csv_addr@,
                    csv_port,
                    uri_port,
                    fingerprint@,
                    http_ports@,
                    https_ports@,
                ),
            )
        }),
{
    let candidates = candidates_of(toml_proxies, uri_proxy_type.as_str());
    if candidates.len() == 0 {
        return String::new();
    }
    let ghost views = toml_proxies@.candidates(uri_proxy_type@);
    let ghost fixed = position_in_range(uri_userid, views.len()) && (uri_port != 0
        || csv_port != 0);
    let mut attempt: usize = 0;
    while attempt < MAX_ATTEMPTS
        invariant
            candidates.len() > 0,
            views == selected_views(candidates@),
            views == toml_proxies@.candidates(uri_proxy_type@),
            fixed == (position_in_range(uri_userid, views.len()) && (uri_port != 0
                || csv_port != 0)),
            attempt > 0 ==> !always_fits(views, csv_port, uri_port, http_ports@, https_ports@),
            attempt > 0 && position_in_range(uri_userid, views.len()) ==> !port_fits(
                views[uri_userid - 1].node_type,
                views[uri_userid - 1].node,
                uri_port,
                csv_port,
                http_ports@,
                https_ports@,
            ),
            fixed && attempt > 0 ==> link_outcome(
                views[uri_userid - 1],
                0,
                csv_tag@,
                csv_addr@,
                csv_port,
                uri_port,
                fingerprint@,
                http_ports@,
                https_ports@,
            ) is None,
        decreases MAX_ATTEMPTS - attempt,
    {
        let node_draw = if 1 <= uri_userid && (uri_userid as usize) <= candidates.len() {
            0
        } else {
            random_below(candidates.len())
        };
        match select_from(&candidates, uri_userid, node_draw) {
            Ok(selected) => {
                let count = primary_count(
                    &selected.node,
                    selected.node_type.as_str(),
                    http_ports,
                    https_ports,
                );
                let port_draw = if uri_port == 0 && csv_port == 0 && count > 0 {
                    random_below(count)
                } else {
                    0
                };
                let outcome = link_attempt(
                    &selected,
                    port_draw,
                    csv_tag.as_str(),
                    csv_addr.as_str(),
                    csv_port,
                    uri_port,
                    fingerprint.as_str(),
                    http_ports,
                    https_ports,
                );
                proof {
                    let at: int = if position_in_range(uri_userid, views.len()) {
                        uri_userid - 1
                    } else {
                        node_draw as int
                    };
                    assert(selected@ == views[at]);
                    assert(link_outcome(
                        views[at],
                        port_draw as nat,
                        csv_tag@,
                        csv_addr@,
                        csv_port,
                        uri_port,
                        fingerprint@,
                        http_ports@,
                        https_ports@,
                    ) == opt_text(outcome));
                    lemma_candidates_are_of_known_kinds(toml_proxies@, uri_proxy_type@, at);
                    lemma_link_outcome(
                        views[at],
                        port_draw as nat,
                        csv_tag@,
                        csv_addr@,
                        csv_port,
                        uri_port,
                        fingerprint@,
                        http_ports@,
                        https_ports@,
                    );
                    if uri_port != 0 || csv_port != 0 || count > 0 {
                        lemma_port_fits(
                            views[at].node_type,
                            views[at].node,
                            uri_port,
                            csv_port,
                            port_draw as nat,
                            http_ports@,
                            https_ports@,
                        );
                    }
                }
                match outcome {
                    Some(link) => {
                        return link;
                    },
                    None => {},
                }
            },
            Err(_) => {},
        }
        attempt += 1;
    }
    String::new()
}

} // verus!
