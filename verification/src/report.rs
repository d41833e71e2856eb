//! What is printed.

use vstd::prelude::*;

use crate::error::{ContextView, Error, ErrorView};
use crate::number::{numeral, IntError};
use crate::outside::{json_array, json_char, json_of_strings, json_string};
use crate::text::{join, strings};

verus! {

/// The line for a set of IPv4 addresses: a JSON object with one list.
pub open spec fn host_ips_text(ips: Seq<Seq<char>>) -> Seq<char> {
    "{\"v4\":"@ + json_array(ips) + "}"@
}

/// The line for a set of IPv4 addresses.
pub fn host_ips_line(v4: &Vec<String>) -> (line: String)
    ensures
        line@ == host_ips_text(strings(v4@)),
{
    "{\"v4\":".to_owned().concat(json_of_strings(v4).unwrap().as_str()).concat("}")
}

/// The line for a command that failed.
pub open spec fn complaint_text(words: Seq<char>) -> Seq<char> {
    "netbox: "@ + words
}

/// The line for a command that failed.
pub fn complaint(e: &Error) -> (line: String)
    ensures
        line@ == complaint_text(e@.words()),
{
    "netbox: ".to_owned().concat(e.text().as_str())
}

/// The line of no addresses is an object with an empty list. One more address is written at the
/// end of the list, as a JSON string, with a comma before it unless it is the first.
pub proof fn law_host_ips_text(ips: Seq<Seq<char>>, ip: Seq<char>)
    ensures
        host_ips_text(Seq::empty()) == "{\"v4\":[]}"@,
        host_ips_text(ips).len() >= 2,
        host_ips_text(ips.push(ip)) == host_ips_text(ips).take(host_ips_text(ips).len() - 2) + (
        if ips.len() == 0 {
            Seq::empty()
        } else {
            seq![',']
        }) + json_string(ip) + seq![']', '}'],
{
    reveal_strlit("{\"v4\":[]}");
    reveal_strlit("{\"v4\":");
    reveal_strlit("}");
    let quote_all = |s: Seq<char>| json_string(s);
    let before = ips.map_values(quote_all);
    let after = ips.push(ip).map_values(quote_all);
    let none = Seq::<Seq<char>>::empty();
    assert(none.map_values(quote_all) =~= none);
    assert(json_array(none) =~= seq!['[', ']']);
    assert(host_ips_text(none) =~= "{\"v4\":[]}"@);
    assert(after =~= before.push(json_string(ip)));
    assert(after.drop_last() =~= before);
    assert(after.last() == json_string(ip));
    let start = host_ips_text(ips).take(host_ips_text(ips).len() - 2);
    assert(start =~= "{\"v4\":"@ + seq!['['] + join(before, ','));
    if ips.len() == 0 {
        assert(before =~= none);
        assert(join(after, ',') == json_string(ip));
    } else {
        assert(join(after, ',') == join(before, ',').push(',') + json_string(ip));
    }
    assert(host_ips_text(ips.push(ip)) =~= start + (if ips.len() == 0 {
        Seq::empty()
    } else {
        seq![',']
    }) + json_string(ip) + seq![']', '}']);
}

/// The line for a command that failed names the program, then what failed, then the cause.
pub proof fn law_complaint(context: ContextView, e: IntError, text: Seq<char>, at: nat)
    ensures
        complaint_text(ErrorView::DeviceNotFound(text).words()) == "netbox: "@ + (
        "device not found: "@ + text),
        complaint_text(ErrorView::BadMac(text, e).words()) == "netbox: "@ + ("bad MAC: "@ + text
            + ": "@ + e.words()),
        complaint_text(ErrorView::MacLength(text).words()) == "netbox: "@ + (
        "MAC must be 6 octets: "@ + text),
        complaint_text(ErrorView::NotCidr(text).words()) == "netbox: "@ + ("not a CIDR: "@ + text),
        complaint_text(ErrorView::BadAddress.words()) == "netbox: "@ + "invalid IP address syntax"@,
        complaint_text(ErrorView::BadPrefix(e).words()) == "netbox: "@ + e.words(),
        complaint_text(ErrorView::TapNameTooLong(text).words()) == "netbox: "@ + (
        "tap name too long: "@ + text),
        complaint_text(ErrorView::NulByte(at).words()) == "netbox: "@ + (
        "nul byte found in provided data at position: "@ + numeral(at, 10)),
        complaint_text(ErrorView::Failed(context, text).words()) == "netbox: "@ + (context.words()
            + ": "@ + text),
        complaint_text(ErrorView::Outside(text).words()) == "netbox: "@ + text,
        ContextView::GetLink(text).words() == "get_link "@ + text,
        IntError::Empty.words() == "cannot parse integer from empty string"@,
        IntError::InvalidDigit.words() == "invalid digit found in string"@,
        IntError::PosOverflow.words() == "number too large to fit in target type"@,
{
}

/// Whether a character stands for itself within a JSON string.
pub open spec fn is_plain(c: char) -> bool {
    c as int >= 32 && c != '"' && c != '\\'
}

/// Text of plain characters is written between quotes as it is.
pub proof fn law_plain_json(s: Seq<char>)
    requires
        forall|i: int| 0 <= i < s.len() ==> is_plain(#[trigger] s[i]),
    ensures
        json_string(s) == seq!['"'] + s + seq!['"'],
{
    lemma_plain_flatten(s);
}

/// Plain characters come out as they are.
proof fn lemma_plain_flatten(s: Seq<char>)
    requires
        forall|i: int| 0 <= i < s.len() ==> is_plain(#[trigger] s[i]),
    ensures
        s.map_values(|c: char| json_char(c)).flatten() == s,
    decreases s.len(),
{
    let pieces = s.map_values(|c: char| json_char(c));
    if s.len() == 0 {
        assert(pieces.flatten() =~= s);
    } else {
        let rest = s.drop_first();
        assert forall|i: int| 0 <= i < rest.len() implies is_plain(#[trigger] rest[i]) by {
            assert(is_plain(s[i + 1]));
        }
        lemma_plain_flatten(rest);
        assert(pieces.drop_first() =~= rest.map_values(|c: char| json_char(c)));
        assert(is_plain(s[0]));
        assert(pieces.first() == seq![s[0]]);
        assert(seq![s[0]] + rest =~= s);
    }
}

} // verus!
