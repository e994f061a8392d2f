use vstd::prelude::*;

use crate::machine::{AppModel, InputForm};
use crate::portfolio::{
    MessageModel, PortfolioModel, Screen, ERROR_NO_ACTIVE_INPUT, ERROR_OUT_OF_SEQUENCE,
};
use crate::security::{
    invested_sum, lemma_invested_bound, quantity_sum, EntryModel, SecurityModel, PRICE_MAX,
};

verus! {

/// The portfolio after one `AddSecurity` message per name, in order.
pub open spec fn add_securities(p: PortfolioModel, names: Seq<Seq<char>>) -> PortfolioModel
    decreases names.len(),
{
    if names.len() == 0 {
        p
    } else {
        add_securities(p, names.drop_last()).step(MessageModel::AddSecurity(names.last())).0
    }
}

/// The security after `add_entry` with each entry, in order.
pub open spec fn add_entries(s: SecurityModel, es: Seq<EntryModel>) -> SecurityModel
    decreases es.len(),
{
    if es.len() == 0 {
        s
    } else {
        add_entries(s, es.drop_last()).with_entry(es.last())
    }
}

/// Securities added one after another to an empty portfolio get the
/// identifiers 0, 1, 2, ... in the order they were created, whatever their
/// names, as long as identifiers are left.
pub proof fn law_ids_in_creation_order(names: Seq<Seq<char>>)
    requires
        names.len() <= u8::MAX + 1,
    ensures
        add_securities(PortfolioModel::empty(), names).securities.len() == names.len(),
        forall|i: int|
            0 <= i < names.len() ==> (#[trigger] add_securities(
                PortfolioModel::empty(),
                names,
            ).securities[i]).id == i && add_securities(PortfolioModel::empty(), names).securities[i].name
                == names[i],
    decreases names.len(),
{
    if names.len() > 0 {
        law_ids_in_creation_order(names.drop_last());
        lemma_last_id(names.drop_last());
        let p = add_securities(PortfolioModel::empty(), names.drop_last());
        let q = add_securities(PortfolioModel::empty(), names);
        assert(q == p.add_security(names.last())->0);
        assert forall|i: int| 0 <= i < names.len() implies (#[trigger] q.securities[i]).id == i
            && q.securities[i].name == names[i] by {
            if i < names.len() - 1 {
                assert(q.securities[i] == p.securities[i]);
            }
        }
    }
}

proof fn lemma_last_id(names: Seq<Seq<char>>)
    requires
        names.len() <= u8::MAX + 1,
    ensures
        names.len() > 0 ==> add_securities(PortfolioModel::empty(), names).last_security_id
            == names.len() - 1,
        add_securities(PortfolioModel::empty(), names).securities.len() == names.len(),
    decreases names.len(),
{
    if names.len() > 0 {
        lemma_last_id(names.drop_last());
    }
}

/// Entries added one after another to a security, followed by a recompute of
/// the invested value: the entries are appended in order, the quantity grows
/// by the sum of their quantities, and the invested value is the sum of
/// quantity times price over all entries. For a new security the quantity is
/// then the sum of the quantities of its entries.
pub proof fn law_invested_value_after_entries(s: SecurityModel, es: Seq<EntryModel>)
    requires
        s.wf(),
        s.quantity + quantity_sum(es) <= u8::MAX,
    ensures
        add_entries(s, es).with_invested_recomputed().entries == s.entries + es,
        add_entries(s, es).with_invested_recomputed().quantity == s.quantity + quantity_sum(es),
        add_entries(s, es).with_invested_recomputed().current_total_invested_value as nat
            == invested_sum(s.entries + es),
        s.entries.len() == 0 && s.quantity == 0 ==> add_entries(
            s,
            es,
        ).with_invested_recomputed().quantity == quantity_sum(es),
{
    lemma_add_entries(s, es);
    let t = add_entries(s, es);
    lemma_invested_bound(t.entries);
    assert(quantity_sum(t.entries) * PRICE_MAX as nat <= u8::MAX as nat * PRICE_MAX as nat)
        by (nonlinear_arith)
        requires
            quantity_sum(t.entries) <= u8::MAX,
    ;
    if s.entries.len() == 0 {
        assert(s.entries + es =~= es);
    }
}

proof fn lemma_add_entries(s: SecurityModel, es: Seq<EntryModel>)
    requires
        s.wf(),
        s.quantity + quantity_sum(es) <= u8::MAX,
    ensures
        add_entries(s, es).entries == s.entries + es,
        add_entries(s, es).quantity == s.quantity + quantity_sum(es),
        add_entries(s, es).wf(),
    decreases es.len(),
{
    if es.len() > 0 {
        lemma_add_entries(s, es.drop_last());
        let t = add_entries(s, es.drop_last());
        assert(s.entries + es =~= (s.entries + es.drop_last()).push(es.last()));
        assert(t.entries.push(es.last()).drop_last() =~= t.entries);
    } else {
        assert(s.entries + es =~= s.entries);
    }
}

/// A field edit while no form is open shows the no-active-input error and
/// changes neither form nor anything else.
pub proof fn law_edit_without_form(a: AppModel, key: Seq<char>, value: Seq<char>)
    requires
        a.current_input is None,
    ensures
        a.step(MessageModel::NewInput(key, value)) == (AppModel {
            screen: Screen::Error(ERROR_NO_ACTIVE_INPUT),
            ..a
        }),
        a.step(MessageModel::NewInput(key, value)).security_inputs == a.security_inputs,
        a.step(MessageModel::NewInput(key, value)).entry_inputs == a.entry_inputs,
{
}

/// Confirming an entry while the entry form is not the open one shows the
/// out-of-sequence error and leaves the portfolio, and so every security, as
/// it was.
pub proof fn law_entry_confirm_out_of_sequence(
    a: AppModel,
    date: Seq<char>,
    amount: Seq<char>,
    price: Seq<char>,
)
    requires
        a.current_input != Some(InputForm::NewEntry),
    ensures
        a.step(MessageModel::AddEntry(date, amount, price)).screen == Screen::Error(
            ERROR_OUT_OF_SEQUENCE,
        ),
        a.step(MessageModel::AddEntry(date, amount, price)).portfolio == a.portfolio,
{
}

} // verus!
