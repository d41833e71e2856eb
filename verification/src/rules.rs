//! Policy routing rules: the rows that are reported of them.

use vstd::prelude::*;

use crate::message::{RuleAction, RuleAttribute, RuleMessage};
use crate::outside::{is_detached, FIB_RULE_DETACHED};
use crate::pick::{last_match, lemma_pick_next, value_or};
use crate::rows::{rule_row_views, RuleRow, RuleRowView};

verus! {

/// The priority that an attribute gives.
pub open spec fn priority() -> spec_fn(RuleAttribute) -> Option<u32> {
    |a: RuleAttribute|
        match a {
            RuleAttribute::Priority(p) => Some(p),
            _ => None,
        }
}

/// The input device that an attribute gives.
pub open spec fn input_device() -> spec_fn(RuleAttribute) -> Option<Seq<char>> {
    |a: RuleAttribute|
        match a {
            RuleAttribute::Iifname(name) => Some(name@),
            _ => None,
        }
}

/// The table that an attribute gives.
pub open spec fn table() -> spec_fn(RuleAttribute) -> Option<u32> {
    |a: RuleAttribute|
        match a {
            RuleAttribute::Table(t) => Some(t),
            _ => None,
        }
}

/// The firewall mark that an attribute gives.
pub open spec fn mark() -> spec_fn(RuleAttribute) -> Option<u32> {
    |a: RuleAttribute|
        match a {
            RuleAttribute::FwMark(v) => Some(v),
            _ => None,
        }
}

/// The mask of a firewall mark that an attribute gives.
pub open spec fn mask() -> spec_fn(RuleAttribute) -> Option<u32> {
    |a: RuleAttribute|
        match a {
            RuleAttribute::FwMask(v) => Some(v),
            _ => None,
        }
}

/// What is reported of a rule. Of an attribute that comes more than once, the last counts; a
/// table that no attribute gives is the one of the header.
pub open spec fn rule_row(m: RuleMessage) -> RuleRowView {
    RuleRowView {
        priority: value_or(last_match(m.attributes@, priority()), 0),
        iif: last_match(m.attributes@, input_device()),
        table: value_or(last_match(m.attributes@, table()), m.table as u32),
        fwmark: last_match(m.attributes@, mark()),
        fwmask: last_match(m.attributes@, mask()),
        detached: m.flags & FIB_RULE_DETACHED != 0,
        lookup: m.action is ToTable,
    }
}

/// The rows of some rules: one for each, in their order.
pub open spec fn rule_rows_of(rules: Seq<RuleMessage>) -> Seq<RuleRowView> {
    rules.map_values(|m: RuleMessage| rule_row(m))
}

/// What is reported of one rule.
fn one_rule_row(m: &RuleMessage) -> (row: RuleRow)
    ensures
        row@ == rule_row(*m),
{
    let mut priority_value: u32 = 0;
    let mut iif: Option<String> = None;
    let mut table_value: u32 = m.table as u32;
    let mut fwmark: Option<u32> = None;
    let mut fwmask: Option<u32> = None;
    let ghost all = m.attributes@;
    let mut i: usize = 0;
    while i < m.attributes.len()
        invariant
            i <= m.attributes.len(),
            all == m.attributes@,
            priority_value == value_or(last_match(all.take(i as int), priority()), 0),
            last_match(all.take(i as int), input_device()) == match iif {
                Some(name) => Some(name@),
                None => None,
            },
            table_value == value_or(last_match(all.take(i as int), table()), m.table as u32),
            fwmark == last_match(all.take(i as int), mark()),
            fwmask == last_match(all.take(i as int), mask()),
        decreases m.attributes.len() - i,
    {
        proof {
            lemma_pick_next(all, i as int, priority());
            lemma_pick_next(all, i as int, input_device());
            lemma_pick_next(all, i as int, table());
            lemma_pick_next(all, i as int, mark());
            lemma_pick_next(all, i as int, mask());
        }
        match &m.attributes[i] {
            RuleAttribute::Priority(p) => {
                priority_value = *p;
            },
            RuleAttribute::Iifname(name) => {
                iif = Some(name.clone());
            },
            RuleAttribute::Table(t) => {
                table_value = *t;
            },
            RuleAttribute::FwMark(v) => {
                fwmark = Some(*v);
            },
            RuleAttribute::FwMask(v) => {
                fwmask = Some(*v);
            },
            RuleAttribute::Other => {},
        }
        i = i + 1;
    }
    assert(all.take(all.len() as int) =~= all);
    let lookup = match m.action {
        RuleAction::ToTable => true,
        _ => false,
    };
    RuleRow {
        priority: priority_value,
        iif,
        table: table_value,
        fwmark,
        fwmask,
        detached: is_detached(m.flags),
        lookup,
    }
}

/// The rows of some rules.
pub fn rule_rows(rules: &Vec<RuleMessage>) -> (rows: Vec<RuleRow>)
    ensures
        rule_row_views(rows@) == rule_rows_of(rules@),
{
    let mut rows: Vec<RuleRow> = Vec::new();
    let mut i: usize = 0;
    while i < rules.len()
        invariant
            i <= rules.len(),
            rows.len() == i,
            forall|j: int| 0 <= j < i ==> (#[trigger] rows@[j])@ == rule_row(rules@[j]),
        decreases rules.len() - i,
    {
        rows.push(one_rule_row(&rules[i]));
        i = i + 1;
    }
    assert(rule_row_views(rows@) =~= rule_rows_of(rules@));
    rows
}

} // verus!
