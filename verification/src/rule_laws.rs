//! What is reported of policy routing rules, stated on the fields and attributes of the kernel's
//! messages.

use vstd::prelude::*;

use crate::message::{RuleAttribute, RuleMessage};
use crate::pick::{lemma_last_at, lemma_no_match};
use crate::rules::{input_device, mark, mask, priority, rule_rows_of, table};

verus! {

/// Every rule has one row, in its place. Whether the rule's device is gone is told by the fourth
/// and the fifth flag bit, and whether it looks up a table by its action alone.
pub proof fn law_rule_row(rules: Seq<RuleMessage>, i: int)
    requires
        0 <= i < rules.len(),
    ensures
        rule_rows_of(rules).len() == rules.len(),
        rule_rows_of(rules)[i].detached == (rules[i].flags as int / 8 % 2 == 1
            || rules[i].flags as int / 16 % 2 == 1),
        rule_rows_of(rules)[i].lookup == (rules[i].action is ToTable),
{
    let flags = rules[i].flags;
    assert((flags & 0x18u32 != 0u32) == (flags / 8u32 % 2u32 == 1u32 || flags / 16u32 % 2u32
        == 1u32)) by (bit_vector);
}

/// The priority of a rule is the last that its attributes give, or zero.
pub proof fn law_rule_priority(rules: Seq<RuleMessage>, i: int, k: int, value: u32)
    requires
        0 <= i < rules.len(),
    ensures
        0 <= k < rules[i].attributes@.len() && rules[i].attributes@[k] == RuleAttribute::Priority(
            value,
        ) && (forall|j: int|
            k < j < rules[i].attributes@.len() ==> !(#[trigger] rules[i].attributes@[j] is Priority))
            ==> rule_rows_of(rules)[i].priority == value,
        (forall|j: int|
            0 <= j < rules[i].attributes@.len() ==> !(
            #[trigger] rules[i].attributes@[j] is Priority)) ==> rule_rows_of(rules)[i].priority
            == 0,
{
    let all = rules[i].attributes@;
    if 0 <= k < all.len() && all[k] == RuleAttribute::Priority(value) && (forall|j: int|
        k < j < all.len() ==> !(#[trigger] all[j] is Priority)) {
        lemma_last_at(all, priority(), k);
    }
    if forall|j: int| 0 <= j < all.len() ==> !(#[trigger] all[j] is Priority) {
        lemma_no_match(all, priority());
    }
}

/// The input device of a rule is the last that its attributes give, or none.
pub proof fn law_rule_iif(rules: Seq<RuleMessage>, i: int, k: int, name: String)
    requires
        0 <= i < rules.len(),
    ensures
        0 <= k < rules[i].attributes@.len() && rules[i].attributes@[k] == RuleAttribute::Iifname(
            name,
        ) && (forall|j: int|
            k < j < rules[i].attributes@.len() ==> !(#[trigger] rules[i].attributes@[j] is Iifname))
            ==> rule_rows_of(rules)[i].iif == Some(name@),
        (forall|j: int|
            0 <= j < rules[i].attributes@.len() ==> !(#[trigger] rules[i].attributes@[j] is Iifname))
            ==> rule_rows_of(rules)[i].iif is None,
{
    let all = rules[i].attributes@;
    if 0 <= k < all.len() && all[k] == RuleAttribute::Iifname(name) && (forall|j: int|
        k < j < all.len() ==> !(#[trigger] all[j] is Iifname)) {
        lemma_last_at(all, input_device(), k);
    }
    if forall|j: int| 0 <= j < all.len() ==> !(#[trigger] all[j] is Iifname) {
        lemma_no_match(all, input_device());
    }
}

/// The table of a rule is the last that its attributes give, whatever table its header has. Only
/// where they give none is it that of the header.
pub proof fn law_rule_table(rules: Seq<RuleMessage>, i: int, k: int, value: u32)
    requires
        0 <= i < rules.len(),
    ensures
        0 <= k < rules[i].attributes@.len() && rules[i].attributes@[k] == RuleAttribute::Table(
            value,
        ) && (forall|j: int|
            k < j < rules[i].attributes@.len() ==> !(#[trigger] rules[i].attributes@[j] is Table))
            ==> rule_rows_of(rules)[i].table == value,
        (forall|j: int|
            0 <= j < rules[i].attributes@.len() ==> !(#[trigger] rules[i].attributes@[j] is Table))
            ==> rule_rows_of(rules)[i].table == rules[i].table,
{
    let all = rules[i].attributes@;
    if 0 <= k < all.len() && all[k] == RuleAttribute::Table(value) && (forall|j: int|
        k < j < all.len() ==> !(#[trigger] all[j] is Table)) {
        lemma_last_at(all, table(), k);
    }
    if forall|j: int| 0 <= j < all.len() ==> !(#[trigger] all[j] is Table) {
        lemma_no_match(all, table());
    }
}

/// The firewall mark of a rule is the last that its attributes give, or none.
pub proof fn law_rule_mark(rules: Seq<RuleMessage>, i: int, k: int, value: u32)
    requires
        0 <= i < rules.len(),
    ensures
        0 <= k < rules[i].attributes@.len() && rules[i].attributes@[k] == RuleAttribute::FwMark(
            value,
        ) && (forall|j: int|
            k < j < rules[i].attributes@.len() ==> !(#[trigger] rules[i].attributes@[j] is FwMark))
            ==> rule_rows_of(rules)[i].fwmark == Some(value),
        (forall|j: int|
            0 <= j < rules[i].attributes@.len() ==> !(#[trigger] rules[i].attributes@[j] is FwMark))
            ==> rule_rows_of(rules)[i].fwmark is None,
{
    let all = rules[i].attributes@;
    if 0 <= k < all.len() && all[k] == RuleAttribute::FwMark(value) && (forall|j: int|
        k < j < all.len() ==> !(#[trigger] all[j] is FwMark)) {
        lemma_last_at(all, mark(), k);
    }
    if forall|j: int| 0 <= j < all.len() ==> !(#[trigger] all[j] is FwMark) {
        lemma_no_match(all, mark());
    }
}

/// The mask of a rule's firewall mark is the last that its attributes give, or none.
pub proof fn law_rule_mask(rules: Seq<RuleMessage>, i: int, k: int, value: u32)
    requires
        0 <= i < rules.len(),
    ensures
        0 <= k < rules[i].attributes@.len() && rules[i].attributes@[k] == RuleAttribute::FwMask(
            value,
        ) && (forall|j: int|
            k < j < rules[i].attributes@.len() ==> !(#[trigger] rules[i].attributes@[j] is FwMask))
            ==> rule_rows_of(rules)[i].fwmask == Some(value),
        (forall|j: int|
            0 <= j < rules[i].attributes@.len() ==> !(#[trigger] rules[i].attributes@[j] is FwMask))
            ==> rule_rows_of(rules)[i].fwmask is None,
{
    let all = rules[i].attributes@;
    if 0 <= k < all.len() && all[k] == RuleAttribute::FwMask(value) && (forall|j: int|
        k < j < all.len() ==> !(#[trigger] all[j] is FwMask)) {
        lemma_last_at(all, mask(), k);
    }
    if forall|j: int| 0 <= j < all.len() ==> !(#[trigger] all[j] is FwMask) {
        lemma_no_match(all, mask());
    }
}

} // verus!
