//! What a request asks for, and how the named values of a request are read
//! into it.

use crate::text::{pair_views, text_eq};
use vstd::prelude::*;

verus! {

/// What a request asks for.
#[derive(Debug, Default, PartialEq, Eq)]
pub struct Params {
    /// The target: `v2ray`, `singbox` or `clash`.
    pub target: String,
    pub max_node_count: usize,
    /// The port asked for by the caller; zero leaves the choice open.
    pub default_port: u16,
    /// The position of the node to use, counted from one; zero leaves the
    /// choice open.
    pub userid: u8,
    pub column_name: String,
    pub enable_template: bool,
    /// The kind of node to use; any other text leaves the choice open.
    pub proxy_type: String,
    pub tls_mode: bool,
    pub data_source: String,
    /// The page of the candidate addresses, counted from one.
    pub page: usize,
}

/// What a request asks for, over texts as sequences of characters.
pub ghost struct ParamsView {
    pub target: Seq<char>,
    pub max_node_count: usize,
    pub default_port: u16,
    pub userid: u8,
    pub column_name: Seq<char>,
    pub enable_template: bool,
    pub proxy_type: Seq<char>,
    pub tls_mode: bool,
    pub data_source: Seq<char>,
    pub page: usize,
}

impl View for Params {
    type V = ParamsView;

    open spec fn view(&self) -> ParamsView {
        ParamsView {
            target: self.target@,
            max_node_count: self.max_node_count,
            default_port: self.default_port,
            userid: self.userid,
            column_name: self.column_name@,
            enable_template: self.enable_template,
            proxy_type: self.proxy_type@,
            tls_mode: self.tls_mode,
            data_source: self.data_source@,
            page: self.page,
        }
    }
}

impl Clone for Params {
    fn clone(&self) -> (copy: Self)
        ensures
            copy@ == self@,
    {
        Params {
            target: self.target.clone(),
            max_node_count: self.max_node_count,
            default_port: self.default_port,
            userid: self.userid,
            column_name: self.column_name.clone(),
            enable_template: self.enable_template,
            proxy_type: self.proxy_type.clone(),
            tls_mode: self.tls_mode,
            data_source: self.data_source.clone(),
            page: self.page,
        }
    }
}

/// What a request asks for when it says nothing but the target: TLS ports,
/// the template, three hundred nodes, the first page, and the node, its
/// kind and its port left open.
pub open spec fn default_params(target: Seq<char>) -> ParamsView {
    ParamsView {
        target,
        max_node_count: 300,
        default_port: 0,
        userid: 0,
        column_name: "colo"@,
        enable_template: true,
        proxy_type: Seq::empty(),
        tls_mode: true,
        data_source: "./data"@,
        page: 1,
    }
}

impl Params {
    /// What a request asks for when it says nothing but the target.
    pub fn new(target: &str) -> (params: Params)
        ensures
            params@ == default_params(target@),
    {
        Params {
            target: String::from_str(target),
            max_node_count: 300,
            default_port: 0,
            userid: 0,
            column_name: String::from_str("colo"),
            enable_template: true,
            proxy_type: String::new(),
            tls_mode: true,
            data_source: String::from_str("./data"),
            page: 1,
        }
    }
}

/// Reads a switch written as text: `true` and `1` turn it on, `false` and
/// `0` turn it off, and any other text leaves it as it was.
pub open spec fn switch_value(value: Seq<char>, current: bool) -> bool {
    if value == "true"@ || value == "1"@ {
        true
    } else if value == "false"@ || value == "0"@ {
        false
    } else {
        current
    }
}

/// Reads a switch written as text.
pub fn string_to_bool(value: &str, current_bool_value: bool) -> (flag: bool)
    ensures
        flag == switch_value(value@, current_bool_value),
{
    if text_eq(value, "true") || text_eq(value, "1") {
        true
    } else if text_eq(value, "false") || text_eq(value, "0") {
        false
    } else {
        current_bool_value
    }
}

/// Whether a character is one of the ten decimal digits.
pub open spec fn is_digit(c: char) -> bool {
    '0' <= c && c <= '9'
}

/// The number that a run of decimal digits stands for.
pub open spec fn digits_value(digits: Seq<char>) -> nat
    decreases digits.len(),
{
    if digits.len() == 0 {
        0
    } else {
        digits_value(digits.drop_last()) * 10 + (digits.last() as nat - '0' as nat) as nat
    }
}

/// The digits of a numeral: the text without a leading plus sign.
pub open spec fn numeral_digits(text: Seq<char>) -> Seq<char> {
    if text.len() > 0 && text[0] == '+' {
        text.drop_first()
    } else {
        text
    }
}

/// The number that a text stands for, as an unsigned integer up to `max`:
/// an optional plus sign followed by decimal digits and nothing else, at
/// least one digit, and a value that does not exceed `max`.
pub open spec fn parsed_unsigned(text: Seq<char>, max: nat) -> Option<nat> {
    let digits = numeral_digits(text);
    if digits.len() > 0 && (forall|i: int| 0 <= i < digits.len() ==> is_digit(#[trigger] digits[i]))
        && digits_value(digits) <= max {
        Some(digits_value(digits))
    } else {
        None
    }
}

/// The value of a run of digits is at least the value of each of its
/// leading parts.
pub proof fn lemma_digits_value_grows(digits: Seq<char>, len: int)
    requires
        0 <= len <= digits.len(),
        forall|i: int| 0 <= i < digits.len() ==> is_digit(#[trigger] digits[i]),
    ensures
        digits_value(digits.subrange(0, len)) <= digits_value(digits),
    decreases digits.len() - len,
{
    if len == digits.len() {
        assert(digits.subrange(0, len) =~= digits);
    } else {
        lemma_digits_value_grows(digits, len + 1);
        let longer = digits.subrange(0, len + 1);
        assert(longer.drop_last() =~= digits.subrange(0, len));
        assert(is_digit(digits[len]));
        assert(longer.last() == digits[len]);
    }
}

/// Reads a text as an unsigned integer up to `max`.
pub fn parse_unsigned(text: &str, max: u64) -> (number: Option<u64>)
    ensures
        match number {
            Some(n) => parsed_unsigned(text@, max as nat) == Some(n as nat),
            None => parsed_unsigned(text@, max as nat) is None,
        },
{
    let n = text.unicode_len();
    let start: usize = if n > 0 && text.get_char(0) == '+' {
        1
    } else {
        0
    };
    let ghost digits = numeral_digits(text@);
    assert(digits =~= text@.subrange(start as int, n as int));
    if start == n {
        return None;
    }
    let mut value: u64 = 0;
    let mut i: usize = start;
    assert(digits.subrange(0, 0) =~= Seq::empty());
    while i < n
        invariant
            start <= i <= n,
            n == text@.len(),
            start <= 1,
            digits == text@.subrange(start as int, n as int),
            digits == numeral_digits(text@),
            forall|j: int| 0 <= j < i - start ==> is_digit(#[trigger] digits[j]),
            value == digits_value(digits.subrange(0, i - start)),
            value <= max,
        decreases n - i,
    {
        let c = text.get_char(i);
        assert(c == digits[i - start]);
        if !('0' <= c && c <= '9') {
            assert(!is_digit(digits[i - start]));
            return None;
        }
        let d = (c as u64) - ('0' as u64);
        proof {
            let longer = digits.subrange(0, i - start + 1);
            assert(longer.drop_last() =~= digits.subrange(0, i - start));
            assert(longer.last() == c);
            assert(digits_value(longer) == value * 10 + d);
        }
        if d > max || value > (max - d) / 10 {
            proof {
                assert(value * 10 + d > max) by (nonlinear_arith)
                    requires
                        d > max || value > (max - d) / 10,
                        0 <= d <= 9,
                        value >= 0,
                        max >= 0,
                {
                }
                if forall|j: int| 0 <= j < digits.len() ==> is_digit(#[trigger] digits[j]) {
                    lemma_digits_value_grows(digits, i - start + 1);
                    assert(digits_value(digits) >= value * 10 + d);
                }
            }
            return None;
        }
        assert(value * 10 + d <= max) by (nonlinear_arith)
            requires
                value <= (max - d) / 10,
                d <= max,
                0 <= d <= 9,
                value >= 0,
        {
        }
        value = value * 10 + d;
        i += 1;
    }
    assert(digits.subrange(0, i - start) =~= digits);
    Some(value)
}

/// The text that `str::to_lowercase` gives for a text.
pub uninterp spec fn lowercased(text: Seq<char>) -> Seq<char>;

/// Calls `str::to_lowercase`, which writes each character as its lowercase
/// equivalent.
///
/// Trusted: the contract only gives the outcome its name, which claims that
/// the same text always gives the same text.
#[verifier::external_body]
fn lowercase(text: &str) -> (lower: String)
    ensures
        lower@ == lowercased(text@),
{
    text.to_lowercase()
}

/// The number of nodes asked for by `value`; `current` where `value` is
/// not a numeral of the machine's word size.
pub open spec fn count_value(value: Seq<char>, current: usize) -> usize {
    match parsed_unsigned(value, usize::MAX as nat) {
        Some(n) => n as usize,
        None => current,
    }
}

/// The page asked for by `value`, the first page at least; `current`, or
/// the first page, where `value` is not a numeral.
pub open spec fn page_value(value: Seq<char>, current: usize) -> usize {
    if count_value(value, current) < 1 {
        1
    } else {
        count_value(value, current)
    }
}

/// The position asked for by `value`; `current` where `value` is not a
/// numeral up to 255.
pub open spec fn position_value(value: Seq<char>, current: u8) -> u8 {
    match parsed_unsigned(value, u8::MAX as nat) {
        Some(n) => n as u8,
        None => current,
    }
}

/// The port asked for by `value`, where that is a numeral from 80 to
/// 65535; `current` otherwise.
pub open spec fn port_value(value: Seq<char>, current: u16) -> u16 {
    match parsed_unsigned(value, u16::MAX as nat) {
        Some(n) => if n >= 80 {
            n as u16
        } else {
            current
        },
        None => current,
    }
}

/// The request after one named value is read into it. `name` is the name
/// in lowercase; a name that stands for nothing leaves the request as it
/// is.
pub open spec fn applied(params: ParamsView, name: Seq<char>, value: Seq<char>) -> ParamsView {
    if name == "target"@ {
        ParamsView { target: value, ..params }
    } else if name == "template"@ {
        ParamsView { enable_template: switch_value(value, params.enable_template), ..params }
    } else if name == "tls"@ || name == "mode"@ || name == "tls_mode"@ {
        ParamsView { tls_mode: switch_value(value, params.tls_mode), ..params }
    } else if name == "type"@ || name == "proxy"@ || name == "proxytype"@ {
        ParamsView { proxy_type: value, ..params }
    } else if name == "source"@ || name == "datasource"@ {
        ParamsView { data_source: value, ..params }
    } else if name == "column"@ || name == "columnname"@ {
        ParamsView { column_name: value, ..params }
    } else if name == "n"@ || name == "nodesize"@ || name == "nodecount"@ {
        ParamsView { max_node_count: count_value(value, params.max_node_count), ..params }
    } else if name == "page"@ {
        ParamsView { page: page_value(value, params.page), ..params }
    } else if name == "id"@ || name == "userid"@ {
        ParamsView { userid: position_value(value, params.userid), ..params }
    } else if name == "dport"@ || name == "defaultport"@ {
        ParamsView { default_port: port_value(value, params.default_port), ..params }
    } else {
        params
    }
}

/// The request after the first `count` named values are read into it, one
/// after the other, each name taken in lowercase.
pub open spec fn applied_all(
    params: ParamsView,
    pairs: Seq<(Seq<char>, Seq<char>)>,
    count: nat,
) -> ParamsView
    decreases count,
{
    if count == 0 {
        params
    } else {
        applied(
            applied_all(params, pairs, (count - 1) as nat),
            lowercased(pairs[count - 1].0),
            pairs[count - 1].1,
        )
    }
}

/// Reads a number of nodes.
pub fn read_count(value: &str, current: usize) -> (count: usize)
    ensures
        count == count_value(value@, current),
{
    match parse_unsigned(value, usize::MAX as u64) {
        Some(n) => n as usize,
        None => current,
    }
}

/// Reads a position.
pub fn read_position(value: &str, current: u8) -> (position: u8)
    ensures
        position == position_value(value@, current),
{
    match parse_unsigned(value, u8::MAX as u64) {
        Some(n) => n as u8,
        None => current,
    }
}

/// Reads a port.
pub fn read_port(value: &str, current: u16) -> (port: u16)
    ensures
        port == port_value(value@, current),
{
    match parse_unsigned(value, u16::MAX as u64) {
        Some(n) => if n >= 80 {
            n as u16
        } else {
            current
        },
        None => current,
    }
}

impl Params {
    /// Reads one named value into the request, where `name` is the name in
    /// lowercase.
    pub fn apply_named(&mut self, name: &str, value: &str)
        ensures
            final(self)@ == applied(old(self)@, name@, value@),
    {
        if text_eq(name, "target") {
            self.target = String::from_str(value);
        } else if text_eq(name, "template") {
            self.enable_template = string_to_bool(value, self.enable_template);
        } else if text_eq(name, "tls") || text_eq(name, "mode") || text_eq(name, "tls_mode") {
            self.tls_mode = string_to_bool(value, self.tls_mode);
        } else if text_eq(name, "type") || text_eq(name, "proxy") || text_eq(name, "proxytype") {
            self.proxy_type = String::from_str(value);
        } else if text_eq(name, "source") || text_eq(name, "datasource") {
            self.data_source = String::from_str(value);
        } else if text_eq(name, "column") || text_eq(name, "columnname") {
            self.column_name = String::from_str(value);
        } else if text_eq(name, "n") || text_eq(name, "nodesize") || text_eq(name, "nodecount") {
            self.max_node_count = read_count(value, self.max_node_count);
        } else if text_eq(name, "page") {
            let page = read_count(value, self.page);
            self.page = if page < 1 {
                1
            } else {
                page
            };
        } else if text_eq(name, "id") || text_eq(name, "userid") {
            self.userid = read_position(value, self.userid);
        } else if text_eq(name, "dport") || text_eq(name, "defaultport") {
            self.default_port = read_port(value, self.default_port);
        }
    }

    /// Reads one named value into the request; the name counts whatever
    /// its case.
    pub fn apply(&mut self, key: &str, value: &str)
        ensures
            final(self)@ == applied(old(self)@, lowercased(key@), value@),
    {
        let name = lowercase(key);
        self.apply_named(name.as_str(), value);
    }

    /// Reads the named values of a request into it, one after the other.
    pub fn apply_all(&mut self, pairs: &Vec<(String, String)>)
        ensures
            final(self)@ == applied_all(old(self)@, pair_views(pairs@), pairs@.len()),
    {
        let mut i: usize = 0;
        while i < pairs.len()
            invariant
                i <= pairs.len(),
                self@ == applied_all(old(self)@, pair_views(pairs@), i as nat),
            decreases pairs.len() - i,
        {
            self.apply(pairs[i].0.as_str(), pairs[i].1.as_str());
            i += 1;
        }
    }
}

} // verus!
