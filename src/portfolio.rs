use vstd::prelude::*;

use crate::parse::{amount_of, parse_amount, parse_price, price_of};
use crate::security::{EntryModel, Security, SecurityModel};

verus! {

/// A message that reached the top level without a handler.
pub const ERROR_UNHANDLED: u8 = 1;

/// A confirm arrived while its form was not the one being filled in.
pub const ERROR_OUT_OF_SEQUENCE: u8 = 2;

/// A field was edited while no form was being filled in.
pub const ERROR_NO_ACTIVE_INPUT: u8 = 3;

/// An entry was confirmed with an amount or a price that does not read as
/// one, or with an amount that the security's total cannot take.
pub const ERROR_INVALID_ENTRY: u8 = 4;

/// A security was added after every identifier had been given out.
pub const ERROR_NO_FREE_ID: u8 = 5;

/// What is on screen.
#[derive(Debug, Clone, Copy, PartialEq, Eq, Structural)]
pub enum Screen {
    MainMenu,
    /// The portfolio; `true` while a form is shown over it.
    Overview(bool),
    Settings,
    Error(u8),
}

/// The events that the user interface sends.
#[derive(Debug, Clone)]
pub enum Message {
    NewPortfolio,
    LoadPortfolio,
    SavePortfolio,
    SavePortfolioAs,
    Settings,
    Debug,
    OpenSecurityNameInput,
    AddSecurity(String),
    OpenSecurity(u8),
    OpenEntryInput,
    AddEntry(String, String, String),
    NewInput(String, String),
    UpdateCurrentValue,
}

/// What a message carries, with its texts as character sequences.
pub enum MessageModel {
    NewPortfolio,
    LoadPortfolio,
    SavePortfolio,
    SavePortfolioAs,
    Settings,
    Debug,
    OpenSecurityNameInput,
    AddSecurity(Seq<char>),
    OpenSecurity(u8),
    OpenEntryInput,
    AddEntry(Seq<char>, Seq<char>, Seq<char>),
    NewInput(Seq<char>, Seq<char>),
    UpdateCurrentValue,
}

impl View for Message {
    type V = MessageModel;

    open spec fn view(&self) -> MessageModel {
        match self {
            Message::NewPortfolio => MessageModel::NewPortfolio,
            Message::LoadPortfolio => MessageModel::LoadPortfolio,
            Message::SavePortfolio => MessageModel::SavePortfolio,
            Message::SavePortfolioAs => MessageModel::SavePortfolioAs,
            Message::Settings => MessageModel::Settings,
            Message::Debug => MessageModel::Debug,
            Message::OpenSecurityNameInput => MessageModel::OpenSecurityNameInput,
            Message::AddSecurity(name) => MessageModel::AddSecurity(name@),
            Message::OpenSecurity(id) => MessageModel::OpenSecurity(*id),
            Message::OpenEntryInput => MessageModel::OpenEntryInput,
            Message::AddEntry(d, a, p) => MessageModel::AddEntry(d@, a@, p@),
            Message::NewInput(k, v) => MessageModel::NewInput(k@, v@),
            Message::UpdateCurrentValue => MessageModel::UpdateCurrentValue,
        }
    }
}

/// The screen that the main menu shows after a message.
pub open spec fn main_menu_screen(m: MessageModel) -> Screen {
    match m {
        MessageModel::NewPortfolio => Screen::Overview(false),
        MessageModel::LoadPortfolio => Screen::Overview(false),
        MessageModel::SavePortfolio => Screen::Overview(false),
        MessageModel::Settings => Screen::Settings,
        _ => Screen::Error(ERROR_UNHANDLED),
    }
}

/// What a portfolio holds: its securities in the order they were created, the
/// one that is open, and the last identifier given out.
pub struct PortfolioModel {
    pub securities: Seq<SecurityModel>,
    pub open_security: Option<u8>,
    pub last_security_id: u8,
}

/// Index of the first security at or after `i` with identifier `id`, or the length.
pub open spec fn index_from(secs: Seq<SecurityModel>, id: u8, i: int) -> int
    decreases secs.len() - i,
{
    if i >= secs.len() {
        secs.len() as int
    } else if secs[i].id == id {
        i
    } else {
        index_from(secs, id, i + 1)
    }
}

/// Identifiers are pairwise distinct and none is past `last`.
pub open spec fn ids_valid(secs: Seq<SecurityModel>, last: u8) -> bool {
    &&& forall|i: int| 0 <= i < secs.len() ==> (#[trigger] secs[i]).id <= last
    &&& forall|i: int, j: int|
        0 <= i < j < secs.len() ==> (#[trigger] secs[i]).id != (#[trigger] secs[j]).id
}

impl PortfolioModel {
    /// Every security is consistent, and identifiers are pairwise distinct
    /// and none is past the last one given out.
    pub open spec fn wf(self) -> bool {
        &&& forall|i: int| 0 <= i < self.securities.len() ==> (#[trigger] self.securities[i]).wf()
        &&& ids_valid(self.securities, self.last_security_id)
    }

    /// The portfolio with the current value of every security recomputed.
    pub open spec fn with_current_values(self) -> PortfolioModel {
        PortfolioModel {
            securities: self.securities.map_values(|s: SecurityModel| s.with_current_recomputed()),
            ..self
        }
    }

    /// The portfolio that nothing has been added to.
    pub open spec fn empty() -> PortfolioModel {
        PortfolioModel { securities: Seq::empty(), open_security: None, last_security_id: 0 }
    }

    /// The identifier that the next security gets: 0 for the first, else one
    /// past the last; none once the last is the largest.
    pub open spec fn next_id(self) -> Option<u8> {
        if self.securities.len() == 0 {
            Some(0u8)
        } else if self.last_security_id < u8::MAX {
            Some((self.last_security_id + 1) as u8)
        } else {
            None
        }
    }

    /// The portfolio after a security named `name` is added, if an identifier is free.
    pub open spec fn add_security(self, name: Seq<char>) -> Option<PortfolioModel> {
        match self.next_id() {
            Some(id) => Some(
                PortfolioModel {
                    securities: self.securities.push(
                        SecurityModel {
                            id,
                            name,
                            quantity: 0,
                            entries: Seq::empty(),
                            current_price_per_unit: 0,
                            current_total_invested_value: 0,
                            current_total_current_value: 0,
                        },
                    ),
                    last_security_id: id,
                    ..self
                },
            ),
            None => None,
        }
    }

    /// The result of confirming an entry: `None` where nothing is open or
    /// the open identifier names no security; otherwise the new portfolio, or
    /// `Err` where the amount or price does not read or the total would overflow.
    pub open spec fn add_entry(self, date: Seq<char>, amount: Seq<char>, price: Seq<char>) -> Option<
        Result<PortfolioModel, ()>,
    > {
        match self.open_security {
            None => None,
            Some(id) => {
                let i = index_from(self.securities, id, 0);
                if i >= self.securities.len() {
                    None
                } else {
                    let s = self.securities[i];
                    match (amount_of(amount), price_of(price)) {
                        (Some(q), Some(p)) => if s.quantity + q <= u8::MAX {
                            Some(
                                Ok(
                                    PortfolioModel {
                                        securities: self.securities.update(
                                            i,
                                            s.with_entry(
                                                EntryModel { date, quantity: q, price_per_unit: p },
                                            ).with_invested_recomputed(),
                                        ),
                                        ..self
                                    },
                                ),
                            )
                        } else {
                            Some(Err(()))
                        },
                        _ => Some(Err(())),
                    }
                }
            },
        }
    }

    /// The portfolio and the screen after the portfolio handles a message.
    pub open spec fn step(self, m: MessageModel) -> (PortfolioModel, Screen) {
        match m {
            MessageModel::NewPortfolio => (self, Screen::Overview(false)),
            MessageModel::LoadPortfolio => (self, Screen::Overview(false)),
            MessageModel::SavePortfolio => (self, Screen::Overview(false)),
            MessageModel::Settings => (self, Screen::Settings),
            MessageModel::OpenSecurityNameInput => (self, Screen::Overview(true)),
            MessageModel::AddSecurity(name) => match self.add_security(name) {
                Some(p) => (p, Screen::Overview(false)),
                None => (self, Screen::Error(ERROR_NO_FREE_ID)),
            },
            MessageModel::NewInput(_, _) => (self, Screen::Overview(true)),
            MessageModel::OpenSecurity(id) => (
                PortfolioModel { open_security: Some(id), ..self },
                Screen::Overview(false),
            ),
            MessageModel::OpenEntryInput => (self, Screen::Overview(true)),
            MessageModel::AddEntry(date, amount, price) => match self.add_entry(date, amount, price) {
                None => (self, Screen::Overview(false)),
                Some(Ok(p)) => (p, Screen::Overview(false)),
                Some(Err(_)) => (self, Screen::Error(ERROR_INVALID_ENTRY)),
            },
            MessageModel::UpdateCurrentValue => (self.with_current_values(), Screen::Overview(false)),
            MessageModel::Debug => (self, Screen::Overview(false)),
            _ => (self, Screen::Error(ERROR_UNHANDLED)),
        }
    }
}

/// The start screen; it holds nothing.
#[derive(Debug)]
pub struct MainMenu {}

impl MainMenu {
    pub fn new() -> (r: MainMenu) {
        MainMenu {  }
    }

    pub fn update(&mut self, message: Message) -> (r: Screen)
        ensures
            r == main_menu_screen(message@),
    {
        match message {
            Message::NewPortfolio => Screen::Overview(false),
            Message::LoadPortfolio => Screen::Overview(false),
            Message::SavePortfolio => Screen::Overview(false),
            Message::Settings => Screen::Settings,
            _ => Screen::Error(ERROR_UNHANDLED),
        }
    }
}

/// All securities, the one that is open and the identifier allocator.
#[derive(Debug)]
pub struct Overview {
    securities: Vec<Security>,
    open_security: Option<u8>,
    last_security_id: u8,
}

impl View for Overview {
    type V = PortfolioModel;

    closed spec fn view(&self) -> PortfolioModel {
        PortfolioModel {
            securities: self.securities@.map_values(|s: Security| s@),
            open_security: self.open_security,
            last_security_id: self.last_security_id,
        }
    }
}

impl Overview {
    pub fn new() -> (r: Overview)
        ensures
            r@ == PortfolioModel::empty(),
            r@.wf(),
    {
        let r = Overview { securities: Vec::new(), open_security: None, last_security_id: 0 };
        assert(r@.securities =~= Seq::empty());
        r
    }

    /// A portfolio from stored values, if every security is consistent, no
    /// two securities share an identifier and none is past the last one given out.
    pub fn from_parts(securities: Vec<Security>, open_security: Option<u8>, last_security_id: u8) -> (r:
        Option<Overview>)
        ensures
            r is Some <==> (PortfolioModel {
                securities: securities@.map_values(|s: Security| s@),
                open_security,
                last_security_id,
            }).wf(),
            r matches Some(o) ==> o@ == (PortfolioModel {
                securities: securities@.map_values(|s: Security| s@),
                open_security,
                last_security_id,
            }),
    {
        let ghost secs = securities@.map_values(|s: Security| s@);
        let mut i: usize = 0;
        while i < securities.len()
            invariant
                i <= securities@.len(),
                secs == securities@.map_values(|s: Security| s@),
                forall|k: int| 0 <= k < i ==> (#[trigger] secs[k]).wf(),
                forall|k: int| 0 <= k < i ==> (#[trigger] secs[k]).id <= last_security_id,
                forall|k: int, l: int|
                    0 <= k < l < i ==> (#[trigger] secs[k]).id != (#[trigger] secs[l]).id,
            decreases securities@.len() - i,
        {
            if !securities[i].is_consistent() {
                assert(!secs[i as int].wf());
                return None;
            }
            let id = securities[i].get_id();
            if id > last_security_id {
                assert(secs[i as int].id > last_security_id);
                return None;
            }
            let mut j: usize = 0;
            while j < i
                invariant
                    j <= i < securities@.len(),
                    secs == securities@.map_values(|s: Security| s@),
                    id == secs[i as int].id,
                    forall|k: int| 0 <= k < j ==> (#[trigger] secs[k]).id != id,
                decreases i - j,
            {
                if securities[j].get_id() == id {
                    assert(secs[j as int].id == secs[i as int].id);
                    return None;
                }
                j = j + 1;
            }
            i = i + 1;
        }
        Some(Overview { securities, open_security, last_security_id })
    }

    /// The securities in the order they were created.
    pub fn get_securities(&self) -> (r: &Vec<Security>)
        ensures
            r@.map_values(|s: Security| s@) == self@.securities,
    {
        &self.securities
    }

    pub fn get_open_security(&self) -> (r: Option<u8>)
        ensures
            r == self@.open_security,
    {
        self.open_security
    }

    pub fn get_last_security_id(&self) -> (r: u8)
        ensures
            r == self@.last_security_id,
    {
        self.last_security_id
    }

    /// Index of the first security with identifier `id`, or the count of securities.
    fn find_security(&self, id: u8) -> (r: usize)
        ensures
            r as int == index_from(self@.securities, id, 0),
    {
        let n = self.securities.len();
        let mut i: usize = 0;
        while i < n && self.securities[i].get_id() != id
            invariant
                i <= n == self@.securities.len(),
                index_from(self@.securities, id, 0) == index_from(self@.securities, id, i as int),
            decreases n - i,
        {
            i = i + 1;
        }
        i
    }

    fn add_security(&mut self, name: String) -> (r: Screen)
        requires
            old(self)@.wf(),
        ensures
            (final(self)@, r) == old(self)@.step(MessageModel::AddSecurity(name@)),
            final(self)@.wf(),
    {
        let ghost before = self@;
        let id: u8 = if self.securities.len() == 0 {
            0
        } else if self.last_security_id < u8::MAX {
            self.last_security_id + 1
        } else {
            return Screen::Error(ERROR_NO_FREE_ID);
        };
        let s = Security::new(id, name, 0);
        self.securities.push(s);
        self.last_security_id = id;
        assert(self@.securities =~= before.securities.push(s@));
        Screen::Overview(false)
    }

    fn add_entry(&mut self, date: String, amount: String, price: String) -> (r: Screen)
        requires
            old(self)@.wf(),
        ensures
            (final(self)@, r) == old(self)@.step(MessageModel::AddEntry(date@, amount@, price@)),
            final(self)@.wf(),
    {
        let ghost before = self@;
        let id = match self.open_security {
            Some(id) => id,
            None => {
                return Screen::Overview(false);
            },
        };
        let i = self.find_security(id);
        if i >= self.securities.len() {
            return Screen::Overview(false);
        }
        let q = match parse_amount(amount.as_str()) {
            Some(q) => q,
            None => {
                return Screen::Error(ERROR_INVALID_ENTRY);
            },
        };
        let p = match parse_price(price.as_str()) {
            Some(p) => p,
            None => {
                return Screen::Error(ERROR_INVALID_ENTRY);
            },
        };
        if self.securities[i].get_quantity() > u8::MAX - q {
            return Screen::Error(ERROR_INVALID_ENTRY);
        }
        assert(before.securities[i as int].wf());
        self.securities[i].add_entry(date, q, p);
        self.securities[i].calculate_total_invested_value();
        assert(self@.securities =~= before.securities.update(
            i as int,
            before.securities[i as int].with_entry(
                EntryModel { date: date@, quantity: q, price_per_unit: p },
            ).with_invested_recomputed(),
        ));
        Screen::Overview(false)
    }

    /// Recomputes the current value of every security.
    fn update_current_values(&mut self)
        requires
            old(self)@.wf(),
        ensures
            final(self)@ == old(self)@.with_current_values(),
            final(self)@.wf(),
    {
        let ghost before = self@;
        let n = self.securities.len();
        let mut i: usize = 0;
        while i < n
            invariant
                i <= n == self@.securities.len() == before.securities.len(),
                self@.open_security == before.open_security,
                self@.last_security_id == before.last_security_id,
                forall|k: int|
                    0 <= k < i ==> #[trigger] self@.securities[k]
                        == before.securities[k].with_current_recomputed(),
                forall|k: int|
                    i <= k < n ==> #[trigger] self@.securities[k] == before.securities[k],
            decreases n - i,
        {
            let ghost prev = self@;
            self.securities[i].calculate_total_current_value();
            assert(self@.securities =~= prev.securities.update(
                i as int,
                prev.securities[i as int].with_current_recomputed(),
            ));
            i = i + 1;
        }
        assert(self@.securities =~= before.with_current_values().securities);
    }

    /// Applies a message to the portfolio and returns the screen to show.
    pub fn update(&mut self, message: Message) -> (r: Screen)
        requires
            old(self)@.wf(),
        ensures
            (final(self)@, r) == old(self)@.step(message@),
            final(self)@.wf(),
    {
        match message {
            Message::NewPortfolio => Screen::Overview(false),
            Message::LoadPortfolio => Screen::Overview(false),
            Message::SavePortfolio => Screen::Overview(false),
            Message::Settings => Screen::Settings,
            Message::OpenSecurityNameInput => Screen::Overview(true),
            Message::AddSecurity(name) => self.add_security(name),
            Message::NewInput(_, _) => Screen::Overview(true),
            Message::OpenSecurity(id) => {
                self.open_security = Some(id);
                Screen::Overview(false)
            },
            Message::OpenEntryInput => Screen::Overview(true),
            Message::AddEntry(date, amount, price) => self.add_entry(date, amount, price),
            Message::UpdateCurrentValue => {
                self.update_current_values();
                Screen::Overview(false)
            },
            Message::Debug => Screen::Overview(false),
            _ => Screen::Error(ERROR_UNHANDLED),
        }
    }
}

} // verus!
