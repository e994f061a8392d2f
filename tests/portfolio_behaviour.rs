use portfolio::parse::{parse_amount, parse_price};
use portfolio::portfolio::{
    ERROR_INVALID_ENTRY, ERROR_NO_ACTIVE_INPUT, ERROR_NO_FREE_ID, ERROR_OUT_OF_SEQUENCE,
    ERROR_UNHANDLED,
};
use portfolio::{App, Entry, InputForm, Message, Overview, Screen, Security};

fn s(t: &str) -> String {
    t.to_string()
}

fn app_with_security(name: &str) -> App {
    let mut app = App::new();
    app.update(Message::NewPortfolio);
    app.update(Message::OpenSecurityNameInput);
    app.update(Message::NewInput(s("Security Name"), s(name)));
    app.update(Message::AddSecurity(s("")));
    app
}

fn confirm_entry(app: &mut App, date: &str, amount: &str, price: &str) {
    app.update(Message::OpenEntryInput);
    app.update(Message::NewInput(s("Date"), s(date)));
    app.update(Message::NewInput(s("Amount"), s(amount)));
    app.update(Message::NewInput(s("Price per Unit"), s(price)));
    app.update(Message::AddEntry(s(""), s(""), s("")));
}

#[test]
fn apple_scenario() {
    let mut app = App::new();
    assert_eq!(app.screen(), Screen::MainMenu);
    app.update(Message::NewPortfolio);
    assert_eq!(app.screen(), Screen::Overview(false));
    app.update(Message::OpenSecurityNameInput);
    assert_eq!(app.screen(), Screen::Overview(true));
    app.update(Message::NewInput(s("Security Name"), s("Apple")));
    app.update(Message::AddSecurity(s("")));
    assert_eq!(app.screen(), Screen::Overview(false));
    {
        let secs = app.portfolio().get_securities();
        assert_eq!(secs.len(), 1);
        assert_eq!(secs[0].get_id(), 0);
        assert_eq!(secs[0].get_name(), "Apple");
        assert_eq!(secs[0].get_quantity(), 0);
    }
    app.update(Message::OpenSecurity(0));
    assert_eq!(app.portfolio().get_open_security(), Some(0));
    confirm_entry(&mut app, "2024-01-01", "10", "5,50");
    assert_eq!(app.screen(), Screen::Overview(false));
    let sec = &app.portfolio().get_securities()[0];
    assert_eq!(sec.get_entries(), vec![(s("2024-01-01"), 10u8, 5_500_000u64)]);
    assert_eq!(sec.get_quantity(), 10);
    assert_eq!(sec.get_total_invested_value(), 55_000_000);
}

#[test]
fn malformed_amount_is_a_recoverable_error() {
    let mut app = app_with_security("Apple");
    app.update(Message::OpenSecurity(0));
    confirm_entry(&mut app, "2024-01-01", "abc", "5,50");
    assert_eq!(app.screen(), Screen::Error(ERROR_INVALID_ENTRY));
    assert_eq!(app.portfolio().get_securities()[0].get_entries().len(), 0);
    assert_eq!(app.portfolio().get_securities()[0].get_quantity(), 0);
    // the machine goes on after the error
    confirm_entry(&mut app, "2024-01-02", "3", "2");
    assert_eq!(app.screen(), Screen::Overview(false));
    assert_eq!(app.portfolio().get_securities()[0].get_quantity(), 3);
    assert_eq!(app.portfolio().get_securities()[0].get_total_invested_value(), 6_000_000);
}

#[test]
fn malformed_price_is_a_recoverable_error() {
    let mut app = app_with_security("Apple");
    app.update(Message::OpenSecurity(0));
    confirm_entry(&mut app, "2024-01-01", "1", "five");
    assert_eq!(app.screen(), Screen::Error(ERROR_INVALID_ENTRY));
    assert_eq!(app.portfolio().get_securities()[0].get_entries().len(), 0);
}

#[test]
fn ids_follow_creation_order() {
    let mut ov = Overview::new();
    for name in ["A", "B", "", "A"] {
        assert_eq!(ov.update(Message::AddSecurity(s(name))), Screen::Overview(false));
    }
    let ids: Vec<u8> = ov.get_securities().iter().map(|x| x.get_id()).collect();
    assert_eq!(ids, vec![0, 1, 2, 3]);
    assert_eq!(ov.get_last_security_id(), 3);
}

#[test]
fn ids_run_out_after_the_largest() {
    let mut ov = Overview::new();
    for _ in 0..256 {
        assert_eq!(ov.update(Message::AddSecurity(s("x"))), Screen::Overview(false));
    }
    assert_eq!(ov.get_securities()[255].get_id(), 255);
    assert_eq!(ov.update(Message::AddSecurity(s("y"))), Screen::Error(ERROR_NO_FREE_ID));
    assert_eq!(ov.get_securities().len(), 256);
}

#[test]
fn first_security_resets_the_counter() {
    let ov = Overview::from_parts(Vec::new(), None, 9).unwrap();
    let mut ov = ov;
    ov.update(Message::AddSecurity(s("A")));
    assert_eq!(ov.get_securities()[0].get_id(), 0);
    assert_eq!(ov.get_last_security_id(), 0);
}

#[test]
fn invested_value_sums_entries() {
    let mut sec = Security::new(0, s("X"), 0);
    sec.add_entry(s("d1"), 2, 1_500_000);
    sec.add_entry(s("d2"), 3, 250_000);
    assert_eq!(sec.get_quantity(), 5);
    // the cache is only refreshed on request
    assert_eq!(sec.get_total_invested_value(), 0);
    sec.calculate_total_invested_value();
    assert_eq!(sec.get_total_invested_value(), 3_750_000);
    assert_eq!(
        sec.get_entries(),
        vec![(s("d1"), 2, 1_500_000), (s("d2"), 3, 250_000)]
    );
}

#[test]
fn invested_value_of_large_prices() {
    let mut sec = Security::new(1, s("Big"), 0);
    sec.add_entry(s("d"), 255, u64::MAX);
    sec.calculate_total_invested_value();
    assert_eq!(sec.get_total_invested_value(), 255u128 * u64::MAX as u128);
}

#[test]
fn current_value_is_price_times_quantity() {
    let mut sec = Security::new(0, s("X"), 0);
    sec.add_entry(s("d"), 5, 1);
    sec.update_current_price(2_000_000);
    assert_eq!(sec.get_current_price_per_unit(), 2_000_000);
    assert_eq!(sec.get_total_current_value(), 0);
    sec.calculate_total_current_value();
    assert_eq!(sec.get_total_current_value(), 10_000_000);
}

#[test]
fn edit_without_open_form_is_error_three() {
    let mut app = App::new();
    app.update(Message::NewPortfolio);
    let before_sec = app.inputs(InputForm::SecurityName).clone();
    let before_entry = app.inputs(InputForm::NewEntry).clone();
    app.update(Message::NewInput(s("Date"), s("2024-01-01")));
    assert_eq!(app.screen(), Screen::Error(ERROR_NO_ACTIVE_INPUT));
    assert_eq!(app.inputs(InputForm::SecurityName), &before_sec);
    assert_eq!(app.inputs(InputForm::NewEntry), &before_entry);
}

#[test]
fn entry_confirm_out_of_sequence_is_error_two() {
    let mut app = app_with_security("Apple");
    app.update(Message::OpenSecurity(0));
    app.update(Message::OpenSecurityNameInput);
    app.update(Message::AddEntry(s("2024-01-01"), s("1"), s("1")));
    assert_eq!(app.screen(), Screen::Error(ERROR_OUT_OF_SEQUENCE));
    assert_eq!(app.portfolio().get_securities()[0].get_entries().len(), 0);
    assert_eq!(app.portfolio().get_securities().len(), 1);
}

#[test]
fn security_confirm_out_of_sequence_is_error_two() {
    let mut app = App::new();
    app.update(Message::NewPortfolio);
    app.update(Message::AddSecurity(s("Apple")));
    assert_eq!(app.screen(), Screen::Error(ERROR_OUT_OF_SEQUENCE));
    assert_eq!(app.portfolio().get_securities().len(), 0);
}

#[test]
fn unknown_field_is_dropped_and_inputs_persist() {
    let mut app = App::new();
    app.update(Message::NewPortfolio);
    app.update(Message::OpenEntryInput);
    assert_eq!(app.current_input(), Some(InputForm::NewEntry));
    app.update(Message::NewInput(s("Colour"), s("red")));
    app.update(Message::NewInput(s("Amount"), s("7")));
    assert_eq!(app.screen(), Screen::Overview(true));
    let form = app.inputs(InputForm::NewEntry);
    assert_eq!(form.len(), 3);
    assert_eq!(form[1], (s("Amount"), s("7")));
    // no security open: the confirm is absorbed, the text stays
    app.update(Message::AddEntry(s(""), s(""), s("")));
    assert_eq!(app.screen(), Screen::Overview(false));
    assert_eq!(app.current_input(), None);
    assert_eq!(app.inputs(InputForm::NewEntry)[1], (s("Amount"), s("7")));
}

#[test]
fn entry_for_unknown_security_is_absorbed() {
    let mut app = app_with_security("Apple");
    app.update(Message::OpenSecurity(7));
    confirm_entry(&mut app, "d", "1", "1");
    assert_eq!(app.screen(), Screen::Overview(false));
    assert_eq!(app.portfolio().get_securities()[0].get_entries().len(), 0);
}

#[test]
fn quantity_overflow_is_rejected() {
    let mut app = app_with_security("Apple");
    app.update(Message::OpenSecurity(0));
    confirm_entry(&mut app, "d1", "200", "1");
    assert_eq!(app.portfolio().get_securities()[0].get_quantity(), 200);
    confirm_entry(&mut app, "d2", "56", "1");
    assert_eq!(app.screen(), Screen::Error(ERROR_INVALID_ENTRY));
    assert_eq!(app.portfolio().get_securities()[0].get_quantity(), 200);
}

#[test]
fn main_menu_rules() {
    let mut menu = portfolio::MainMenu::new();
    assert_eq!(menu.update(Message::NewPortfolio), Screen::Overview(false));
    assert_eq!(menu.update(Message::LoadPortfolio), Screen::Overview(false));
    assert_eq!(menu.update(Message::SavePortfolio), Screen::Overview(false));
    assert_eq!(menu.update(Message::Settings), Screen::Settings);
    assert_eq!(menu.update(Message::Debug), Screen::Error(ERROR_UNHANDLED));
    assert_eq!(menu.update(Message::SavePortfolioAs), Screen::Error(ERROR_UNHANDLED));
    assert_eq!(menu.update(Message::OpenSecurity(0)), Screen::Error(ERROR_UNHANDLED));
    assert_eq!(
        menu.update(Message::AddSecurity(s("x"))),
        Screen::Error(ERROR_UNHANDLED)
    );
}

#[test]
fn start_screen_forwards_to_the_portfolio() {
    let mut app = App::new();
    app.update(Message::Settings);
    assert_eq!(app.screen(), Screen::Settings);
    let mut app = App::new();
    app.update(Message::OpenSecurityNameInput);
    assert_eq!(app.screen(), Screen::Overview(true));
    assert_eq!(app.current_input(), Some(InputForm::SecurityName));
    let mut app = App::new();
    app.update(Message::OpenSecurity(2));
    assert_eq!(app.screen(), Screen::Overview(false));
    assert_eq!(app.portfolio().get_open_security(), Some(2));
}

#[test]
fn unhandled_messages_on_overview() {
    let mut app = App::new();
    app.update(Message::NewPortfolio);
    app.update(Message::SavePortfolioAs);
    assert_eq!(app.screen(), Screen::Error(ERROR_UNHANDLED));
    // the error screen is not a dead end
    app.update(Message::SavePortfolio);
    assert_eq!(app.screen(), Screen::Overview(false));
}

#[test]
fn update_current_value_recomputes_every_security() {
    let mut a = Security::new(0, s("A"), 0);
    a.add_entry(s("d"), 4, 1_000_000);
    a.update_current_price(2_500_000);
    let mut b = Security::new(1, s("B"), 0);
    b.add_entry(s("d"), 3, 1_000_000);
    b.update_current_price(1);
    let ov = Overview::from_parts(vec![a, b], None, 1).unwrap();
    let mut app = App::new();
    app.replace_portfolio(ov);
    assert_eq!(app.portfolio().get_securities()[0].get_total_current_value(), 0);
    app.update(Message::UpdateCurrentValue);
    assert_eq!(app.screen(), Screen::Overview(false));
    assert_eq!(app.portfolio().get_securities()[0].get_total_current_value(), 10_000_000);
    assert_eq!(app.portfolio().get_securities()[1].get_total_current_value(), 3);
    // invested values are untouched
    assert_eq!(app.portfolio().get_securities()[0].get_total_invested_value(), 0);
}

#[test]
fn from_parts_checks_identifiers() {
    let two = |x: u8, y: u8| vec![Security::new(x, s("A"), 0), Security::new(y, s("B"), 0)];
    assert!(Overview::from_parts(two(0, 1), None, 1).is_some());
    assert!(Overview::from_parts(two(1, 1), None, 1).is_none());
    assert!(Overview::from_parts(two(0, 2), None, 1).is_none());
    let bad = Security::restore(0, s("A"), 0, vec![Entry::new(s("d"), 1, 1)], 0, 0, 0);
    assert!(bad.is_none());
}

#[test]
fn replace_portfolio_shows_it() {
    let mut app = App::new();
    let mut sec = Security::new(4, s("Kept"), 0);
    sec.add_entry(s("d"), 1, 1);
    let ov = Overview::from_parts(vec![sec], Some(4), 4).unwrap();
    app.replace_portfolio(ov);
    assert_eq!(app.screen(), Screen::Overview(false));
    assert_eq!(app.portfolio().get_securities()[0].get_id(), 4);
    assert_eq!(app.portfolio().get_open_security(), Some(4));
}

#[test]
fn restore_checks_quantities() {
    let entries = vec![Entry::new(s("d"), 3, 10), Entry::new(s("e"), 2, 10)];
    let sec = Security::restore(1, s("A"), 5, entries, 7, 50, 35).unwrap();
    assert_eq!(sec.get_quantity(), 5);
    assert_eq!(sec.get_total_invested_value(), 50);
    assert_eq!(sec.get_total_current_value(), 35);
    assert_eq!(sec.get_current_price_per_unit(), 7);
    assert!(sec.is_consistent());
    let entries = vec![Entry::new(s("d"), 3, 10), Entry::new(s("e"), 3, 10)];
    assert!(Security::restore(1, s("A"), 5, entries, 7, 50, 35).is_none());
}

#[test]
fn title_is_portfolio() {
    assert_eq!(App::title(), "Portfolio");
}

#[test]
fn amounts_read_like_u8() {
    assert_eq!(parse_amount("10"), Some(10));
    assert_eq!(parse_amount(" +10\t"), Some(10));
    assert_eq!(parse_amount("255"), Some(255));
    assert_eq!(parse_amount("0255"), Some(255));
    assert_eq!(parse_amount("256"), None);
    assert_eq!(parse_amount(""), None);
    assert_eq!(parse_amount("+"), None);
    assert_eq!(parse_amount("-1"), None);
    assert_eq!(parse_amount("abc"), None);
    assert_eq!(parse_amount("1 0"), None);
    assert_eq!(parse_amount("\u{a0}7\u{3000}"), Some(7));
}

#[test]
fn prices_read_in_millionths() {
    assert_eq!(parse_price("5,50"), Some(5_500_000));
    assert_eq!(parse_price("5.5"), Some(5_500_000));
    assert_eq!(parse_price(" 12 "), Some(12_000_000));
    assert_eq!(parse_price("0.000001"), Some(1));
    assert_eq!(parse_price(".25"), Some(250_000));
    assert_eq!(parse_price("3."), Some(3_000_000));
    assert_eq!(parse_price("+1,5"), Some(1_500_000));
    assert_eq!(parse_price("18446744073709.551615"), Some(u64::MAX));
    assert_eq!(parse_price("18446744073709.551616"), None);
    assert_eq!(parse_price("1.0000001"), None);
    assert_eq!(parse_price("."), None);
    assert_eq!(parse_price(""), None);
    assert_eq!(parse_price("1.2.3"), None);
    assert_eq!(parse_price("1,2.3"), None);
    assert_eq!(parse_price("abc"), None);
    assert_eq!(parse_price("-1"), None);
}
