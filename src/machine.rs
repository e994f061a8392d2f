use vstd::prelude::*;
use vstd::string::StringExecFns;

use crate::portfolio::{
    Message, MessageModel, Overview, PortfolioModel, Screen,
    ERROR_NO_ACTIVE_INPUT, ERROR_OUT_OF_SEQUENCE,
};

verus! {

/// The two forms that collect text before it is confirmed.
#[derive(Debug, Clone, Copy, PartialEq, Eq, Structural)]
pub enum InputForm {
    /// One field: the name of a new security.
    SecurityName,
    /// Three fields: date, amount and price per unit of a new entry.
    NewEntry,
}

/// A form: (field name, text typed so far) pairs.
pub type FormModel = Seq<(Seq<char>, Seq<char>)>;

pub open spec fn security_name_key() -> Seq<char> {
    "Security Name"@
}

pub open spec fn date_key() -> Seq<char> {
    "Date"@
}

pub open spec fn amount_key() -> Seq<char> {
    "Amount"@
}

pub open spec fn price_key() -> Seq<char> {
    "Price per Unit"@
}

/// Index of the first field at or after `i` named `key`, or the length.
pub open spec fn field_from(form: FormModel, key: Seq<char>, i: int) -> int
    decreases form.len() - i,
{
    if i >= form.len() {
        form.len() as int
    } else if form[i].0 == key {
        i
    } else {
        field_from(form, key, i + 1)
    }
}

/// The text of the first field named `key`, if there is one.
pub open spec fn field_value(form: FormModel, key: Seq<char>) -> Option<Seq<char>> {
    let i = field_from(form, key, 0);
    if i < form.len() {
        Some(form[i].1)
    } else {
        None
    }
}

/// The text of the first field named `key`, or the empty text.
pub open spec fn field_text(form: FormModel, key: Seq<char>) -> Seq<char> {
    match field_value(form, key) {
        Some(v) => v,
        None => Seq::empty(),
    }
}

/// The form with the text of its first field named `key` set to `value`; a
/// form without such a field is left as it is.
pub open spec fn set_field(form: FormModel, key: Seq<char>, value: Seq<char>) -> FormModel {
    let i = field_from(form, key, 0);
    if i < form.len() {
        form.update(i, (form[i].0, value))
    } else {
        form
    }
}

/// What the application holds: the screen, the portfolio, both forms and the
/// form being filled in.
pub struct AppModel {
    pub screen: Screen,
    pub portfolio: PortfolioModel,
    pub security_inputs: FormModel,
    pub entry_inputs: FormModel,
    pub current_input: Option<InputForm>,
}

impl AppModel {
    pub open spec fn wf(self) -> bool {
        self.portfolio.wf()
    }

    /// Hands a message to the portfolio, whatever the screen, and shows the
    /// screen it returns.
    pub open spec fn dispatch(self, m: MessageModel) -> AppModel {
        AppModel { screen: self.portfolio.step(m).1, portfolio: self.portfolio.step(m).0, ..self }
    }

    /// The application after a message: forms are opened, filled and
    /// confirmed here, and the message, rewritten on a confirm, is then
    /// dispatched. A confirm out of sequence or an edit with no open form
    /// shows an error and is not dispatched.
    pub open spec fn step(self, m: MessageModel) -> AppModel {
        match m {
            MessageModel::NewInput(k, v) => match self.current_input {
                None => AppModel { screen: Screen::Error(ERROR_NO_ACTIVE_INPUT), ..self },
                Some(InputForm::SecurityName) => AppModel {
                    security_inputs: set_field(self.security_inputs, k, v),
                    ..self
                }.dispatch(m),
                Some(InputForm::NewEntry) => AppModel {
                    entry_inputs: set_field(self.entry_inputs, k, v),
                    ..self
                }.dispatch(m),
            },
            MessageModel::OpenSecurityNameInput => AppModel {
                current_input: Some(InputForm::SecurityName),
                ..self
            }.dispatch(m),
            MessageModel::AddSecurity(_) => if self.current_input == Some(InputForm::SecurityName) {
                match field_value(self.security_inputs, security_name_key()) {
                    Some(name) => AppModel { current_input: None, ..self }.dispatch(
                        MessageModel::AddSecurity(name),
                    ),
                    None => AppModel { screen: Screen::Error(ERROR_OUT_OF_SEQUENCE), ..self },
                }
            } else {
                AppModel { screen: Screen::Error(ERROR_OUT_OF_SEQUENCE), ..self }
            },
            MessageModel::OpenEntryInput => AppModel {
                current_input: Some(InputForm::NewEntry),
                ..self
            }.dispatch(m),
            MessageModel::AddEntry(_, _, _) => if self.current_input == Some(InputForm::NewEntry) {
                AppModel { current_input: None, ..self }.dispatch(
                    MessageModel::AddEntry(
                        field_text(self.entry_inputs, date_key()),
                        field_text(self.entry_inputs, amount_key()),
                        field_text(self.entry_inputs, price_key()),
                    ),
                )
            } else {
                AppModel { screen: Screen::Error(ERROR_OUT_OF_SEQUENCE), ..self }
            },
            _ => self.dispatch(m),
        }
    }
}

/// Index of the first field named `key`, or the count of fields.
fn find_field(form: &Vec<(String, String)>, key: &String) -> (r: usize)
    ensures
        r as int == field_from(form_view(form), key@, 0),
        r <= form@.len(),
{
    let n = form.len();
    let mut i: usize = 0;
    while i < n && !(form[i].0 == *key)
        invariant
            i <= n == form@.len(),
            field_from(form_view(form), key@, 0) == field_from(form_view(form), key@, i as int),
        decreases n - i,
    {
        i = i + 1;
    }
    i
}

pub open spec fn form_view(form: &Vec<(String, String)>) -> FormModel {
    form@.map_values(|p: (String, String)| (p.0@, p.1@))
}

/// Sets the text of the first field named `key`, if the form has one.
fn write_field(form: &mut Vec<(String, String)>, key: &String, value: String)
    ensures
        form_view(final(form)) == set_field(form_view(old(form)), key@, value@),
{
    let i = find_field(form, key);
    if i < form.len() {
        let ghost before = form_view(form);
        form[i].1 = value;
        assert(form_view(form) =~= set_field(before, key@, value@));
    }
}

/// The text of the first field named `key`, if the form has one.
fn read_field(form: &Vec<(String, String)>, key: &String) -> (r: Option<String>)
    ensures
        r matches Some(v) ==> field_value(form_view(form), key@) == Some(v@),
        r is None ==> field_value(form_view(form), key@) is None,
{
    let i = find_field(form, key);
    if i < form.len() {
        Some(form[i].1.clone())
    } else {
        None
    }
}

/// The text of the first field named `key`, or the empty text.
fn read_field_or_empty(form: &Vec<(String, String)>, key: &String) -> (r: String)
    ensures
        r@ == field_text(form_view(form), key@),
{
    match read_field(form, key) {
        Some(v) => v,
        None => String::new(),
    }
}

fn security_name_string() -> (r: String)
    ensures
        r@ == security_name_key(),
{
    String::from_str("Security Name")
}

fn date_string() -> (r: String)
    ensures
        r@ == date_key(),
{
    String::from_str("Date")
}

fn amount_string() -> (r: String)
    ensures
        r@ == amount_key(),
{
    String::from_str("Amount")
}

fn price_string() -> (r: String)
    ensures
        r@ == price_key(),
{
    String::from_str("Price per Unit")
}

/// The application: what is on screen, the portfolio, and the two forms.
#[derive(Debug)]
pub struct App {
    current_screen: Screen,
    overview: Overview,
    security_inputs: Vec<(String, String)>,
    entry_inputs: Vec<(String, String)>,
    current_input: Option<InputForm>,
}

impl View for App {
    type V = AppModel;

    closed spec fn view(&self) -> AppModel {
        AppModel {
            screen: self.current_screen,
            portfolio: self.overview@,
            security_inputs: form_view(&self.security_inputs),
            entry_inputs: form_view(&self.entry_inputs),
            current_input: self.current_input,
        }
    }
}

impl App {
    pub fn title() -> (r: String)
        ensures
            r@ == "Portfolio"@,
    {
        String::from_str("Portfolio")
    }

    /// The main menu, an empty portfolio, both forms with empty fields, and
    /// no form open.
    pub fn new() -> (r: App)
        ensures
            r@ == (AppModel {
                screen: Screen::MainMenu,
                portfolio: PortfolioModel::empty(),
                security_inputs: seq![(security_name_key(), Seq::empty())],
                entry_inputs: seq![
                    (date_key(), Seq::empty()),
                    (amount_key(), Seq::empty()),
                    (price_key(), Seq::empty()),
                ],
                current_input: None,
            }),
            r@.wf(),
    {
        let r = App {
            current_screen: Screen::MainMenu,
            overview: Overview::new(),
            security_inputs: vec![(security_name_string(), String::new())],
            entry_inputs: vec![
                (date_string(), String::new()),
                (amount_string(), String::new()),
                (price_string(), String::new()),
            ],
            current_input: None,
        };
        assert(r@.security_inputs =~= seq![(security_name_key(), Seq::<char>::empty())]);
        assert(r@.entry_inputs =~= seq![
            (date_key(), Seq::<char>::empty()),
            (amount_key(), Seq::<char>::empty()),
            (price_key(), Seq::<char>::empty()),
        ]);
        r
    }

    fn dispatch(&mut self, message: Message)
        requires
            old(self)@.wf(),
        ensures
            final(self)@ == old(self)@.dispatch(message@),
            final(self)@.wf(),
    {
        self.current_screen = self.overview.update(message);
    }

    /// Handles one message from the user interface.
    pub fn update(&mut self, message: Message)
        requires
            old(self)@.wf(),
        ensures
            final(self)@ == old(self)@.step(message@),
            final(self)@.wf(),
    {
        match message {
            Message::NewInput(key, value) => {
                match self.current_input {
                    None => {
                        self.current_screen = Screen::Error(ERROR_NO_ACTIVE_INPUT);
                        return ;
                    },
                    Some(InputForm::SecurityName) => {
                        write_field(&mut self.security_inputs, &key, value.clone());
                    },
                    Some(InputForm::NewEntry) => {
                        write_field(&mut self.entry_inputs, &key, value.clone());
                    },
                }
                self.dispatch(Message::NewInput(key, value));
            },
            Message::OpenSecurityNameInput => {
                self.current_input = Some(InputForm::SecurityName);
                self.dispatch(Message::OpenSecurityNameInput);
            },
            Message::AddSecurity(_) => {
                if self.current_input == Some(InputForm::SecurityName) {
                    match read_field(&self.security_inputs, &security_name_string()) {
                        Some(name) => {
                            self.current_input = None;
                            self.dispatch(Message::AddSecurity(name));
                        },
                        None => {
                            self.current_screen = Screen::Error(ERROR_OUT_OF_SEQUENCE);
                        },
                    }
                } else {
                    self.current_screen = Screen::Error(ERROR_OUT_OF_SEQUENCE);
                }
            },
            Message::OpenEntryInput => {
                self.current_input = Some(InputForm::NewEntry);
                self.dispatch(Message::OpenEntryInput);
            },
            Message::AddEntry(_, _, _) => {
                if self.current_input == Some(InputForm::NewEntry) {
                    let date = read_field_or_empty(&self.entry_inputs, &date_string());
                    let amount = read_field_or_empty(&self.entry_inputs, &amount_string());
                    let price = read_field_or_empty(&self.entry_inputs, &price_string());
                    self.current_input = None;
                    self.dispatch(Message::AddEntry(date, amount, price));
                } else {
                    self.current_screen = Screen::Error(ERROR_OUT_OF_SEQUENCE);
                }
            },
            other => {
                self.dispatch(other);
            },
        }
    }

    /// Puts a portfolio read from elsewhere in place of the current one and
    /// shows it.
    pub fn replace_portfolio(&mut self, overview: Overview)
        requires
            overview@.wf(),
        ensures
            final(self)@ == (AppModel {
                screen: Screen::Overview(false),
                portfolio: overview@,
                ..old(self)@
            }),
            final(self)@.wf(),
    {
        self.overview = overview;
        self.current_screen = Screen::Overview(false);
    }

    pub fn screen(&self) -> (r: Screen)
        ensures
            r == self@.screen,
    {
        self.current_screen
    }

    pub fn portfolio(&self) -> (r: &Overview)
        ensures
            r@ == self@.portfolio,
    {
        &self.overview
    }

    pub fn current_input(&self) -> (r: Option<InputForm>)
        ensures
            r == self@.current_input,
    {
        self.current_input
    }

    /// The fields of a form, in order.
    pub fn inputs(&self, form: InputForm) -> (r: &Vec<(String, String)>)
        ensures
            form_view(r) == (match form {
                InputForm::SecurityName => self@.security_inputs,
                InputForm::NewEntry => self@.entry_inputs,
            }),
    {
        match form {
            InputForm::SecurityName => &self.security_inputs,
            InputForm::NewEntry => &self.entry_inputs,
        }
    }
}

} // verus!
