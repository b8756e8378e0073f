//! Directives: the entries of a ledger.
//!
//! Every directive but `include`, `option` and `plugin` carries the date on
//! which it takes effect.

use crate::account::{Account, AccountType};
use crate::amount::Amount;
use crate::booking::Booking;
use crate::currency::Currency;
use crate::date::Date;
use crate::decimal::Decimal;
use crate::text::{join, join_strings, str_eq, texts};
use crate::transaction::Transaction;
use vstd::prelude::*;
use vstd::string::StringExecFns;

verus! {

/// Asserts what an account holds of one currency at the start of a day.
#[derive(Clone, Debug, PartialEq, Eq)]
pub struct Balance {
    /// Date of the balance.
    pub date: Date,
    /// Account to check.
    pub account: Account,
    /// Amount to balance.
    pub amount: Amount,
    /// How far the holdings may be from `amount`.
    pub tolerance: Option<Decimal>,
}

impl Balance {
    /// The directive as text.
    pub open spec fn text(&self) -> Seq<char> {
        self.date@.text() + " balance "@ + self.account@.full_name() + seq![' ']
            + self.amount@.text()
    }

    pub fn new(date: Date, account: Account, amount: Amount) -> (r: Balance)
        ensures
            r.date == date,
            r.account == account,
            r.amount == amount,
            r.tolerance is None,
    {
        Balance { date, account, amount, tolerance: None }
    }

    /// The assertion with the tolerance `tolerance`.
    pub fn with_tolerance(self, tolerance: Decimal) -> (r: Balance)
        ensures
            r == (Balance { tolerance: Some(tolerance), ..self }),
    {
        Balance { tolerance: Some(tolerance), ..self }
    }

    /// The directive as text.
    pub fn to_string(&self) -> (r: String)
        ensures
            r@ == self.text(),
    {
        proof {
            reveal_strlit(" ");
            assert(" "@ =~= seq![' ']);
        }
        let mut out: String = self.date.to_string();
        out.append(" balance ");
        out.append(self.account.to_string().as_str());
        out.append(" ");
        out.append(self.amount.to_string().as_str());
        out
    }
}

/// Sets an option of the ledger.
#[derive(Clone, Debug, PartialEq, Eq)]
pub struct BcOption {
    /// Name of the option.
    pub name: String,
    /// Value of the option.
    pub val: String,
    /// The text that the directive was read from.
    pub source: Option<String>,
}

impl BcOption {
    /// The account type whose root name an option of the name `name` sets.
    pub open spec fn renamed_type(name: Seq<char>) -> Option<AccountType> {
        if name == "name_assets"@ {
            Some(AccountType::Assets)
        } else if name == "name_liabilities"@ {
            Some(AccountType::Liabilities)
        } else if name == "name_equity"@ {
            Some(AccountType::Equity)
        } else if name == "name_income"@ {
            Some(AccountType::Income)
        } else if name == "name_expenses"@ {
            Some(AccountType::Expenses)
        } else {
            None
        }
    }

    /// The directive as text.
    pub open spec fn text(&self) -> Seq<char> {
        "option "@ + self.name@ + seq![' '] + self.val@
    }

    pub fn new(name: String, val: String) -> (r: BcOption)
        ensures
            r.name == name,
            r.val == val,
            r.source is None,
    {
        BcOption { name, val, source: None }
    }

    /// The option with the source text `source`.
    pub fn with_source(self, source: String) -> (r: BcOption)
        ensures
            r == (BcOption { source: Some(source), ..self }),
    {
        BcOption { source: Some(source), ..self }
    }

    /// The account type that the option renames and its new root name, if
    /// the option is one of the five that rename a root.
    pub fn root_name_change(&self) -> (r: Option<(AccountType, String)>)
        ensures
            match BcOption::renamed_type(self.name@) {
                Some(t) => match r {
                    Some(change) => change.0 == t && change.1@ == self.val@,
                    None => false,
                },
                None => r is None,
            },
    {
        let name: &str = self.name.as_str();
        if str_eq(name, "name_assets") {
            Some((AccountType::Assets, self.val.clone()))
        } else if str_eq(name, "name_liabilities") {
            Some((AccountType::Liabilities, self.val.clone()))
        } else if str_eq(name, "name_equity") {
            Some((AccountType::Equity, self.val.clone()))
        } else if str_eq(name, "name_income") {
            Some((AccountType::Income, self.val.clone()))
        } else if str_eq(name, "name_expenses") {
            Some((AccountType::Expenses, self.val.clone()))
        } else {
            None
        }
    }

    /// The directive as text.
    pub fn to_string(&self) -> (r: String)
        ensures
            r@ == self.text(),
    {
        proof {
            reveal_strlit(" ");
            assert(" "@ =~= seq![' ']);
        }
        let mut out: String = String::from_str("option ");
        out.append(self.name.as_str());
        out.append(" ");
        out.append(self.val.as_str());
        out
    }
}

/// Each of the five option names that rename a root names its own account
/// type.
pub proof fn lemma_renaming_options()
    ensures
        BcOption::renamed_type("name_assets"@) == Some(AccountType::Assets),
        BcOption::renamed_type("name_liabilities"@) == Some(AccountType::Liabilities),
        BcOption::renamed_type("name_equity"@) == Some(AccountType::Equity),
        BcOption::renamed_type("name_income"@) == Some(AccountType::Income),
        BcOption::renamed_type("name_expenses"@) == Some(AccountType::Expenses),
{
    reveal_strlit("name_assets");
    reveal_strlit("name_liabilities");
    reveal_strlit("name_equity");
    reveal_strlit("name_income");
    reveal_strlit("name_expenses");
    assert("name_liabilities"@.len() == 16 && "name_expenses"@.len() == 13);
    assert("name_assets"@[5] == 'a' && "name_equity"@[5] == 'e' && "name_income"@[5] == 'i');
}

/// Closes an account.
#[derive(Clone, Debug, PartialEq, Eq)]
pub struct Close {
    /// Date the account was closed.
    pub date: Date,
    /// Account being closed.
    pub account: Account,
}

impl Close {
    /// The directive as text.
    pub open spec fn text(&self) -> Seq<char> {
        self.date@.text() + " close "@ + self.account@.full_name()
    }

    pub fn new(date: Date, account: Account) -> (r: Close)
        ensures
            r.date == date,
            r.account == account,
    {
        Close { date, account }
    }

    /// The directive as text.
    pub fn to_string(&self) -> (r: String)
        ensures
            r@ == self.text(),
    {
        let mut out: String = self.date.to_string();
        out.append(" close ");
        out.append(self.account.to_string().as_str());
        out
    }
}

/// Declares a commodity.
#[derive(Clone, Debug, PartialEq, Eq)]
pub struct Commodity {
    /// Date the commodity was declared.
    pub date: Date,
    /// Commodity name.
    pub name: Currency,
}

impl Commodity {
    /// The directive as text.
    pub open spec fn text(&self) -> Seq<char> {
        self.date@.text() + " commodity "@ + self.name@
    }

    pub fn new(date: Date, name: Currency) -> (r: Commodity)
        ensures
            r.date == date,
            r.name == name,
    {
        Commodity { date, name }
    }

    /// The directive as text.
    pub fn to_string(&self) -> (r: String)
        ensures
            r@ == self.text(),
    {
        let mut out: String = self.date.to_string();
        out.append(" commodity ");
        out.append(self.name.as_str());
        out
    }
}

/// A directive of a kind that only its reader understands.
#[derive(Clone, Debug, PartialEq, Eq)]
pub struct Custom {
    /// Date associated with the custom directive.
    pub date: Date,
    /// Custom directive name.
    pub name: String,
    /// Arbitrary number of custom directive arguments.
    pub args: Vec<String>,
}

impl Custom {
    /// The directive as text: the name in double quotes, then the
    /// arguments as they are, each behind a space.
    pub open spec fn text(&self) -> Seq<char> {
        let head = self.date@.text() + " custom \""@ + self.name@ + seq!['"'];
        if self.args@.len() > 0 {
            head + seq![' '] + join(texts(self.args@), seq![' '])
        } else {
            head
        }
    }

    pub fn new(date: Date, name: String, args: Vec<String>) -> (r: Custom)
        ensures
            r.date == date,
            r.name == name,
            r.args == args,
    {
        Custom { date, name, args }
    }

    /// The directive as text.
    pub fn to_string(&self) -> (r: String)
        ensures
            r@ == self.text(),
    {
        proof {
            reveal_strlit("\"");
            reveal_strlit(" ");
            assert("\""@ =~= seq!['"']);
            assert(" "@ =~= seq![' ']);
        }
        let mut out: String = self.date.to_string();
        out.append(" custom \"");
        out.append(self.name.as_str());
        out.append("\"");
        if self.args.len() > 0 {
            out.append(" ");
            out.append(join_strings(&self.args, " ").as_str());
        }
        out
    }
}

/// Attaches a document to an account.
#[derive(Clone, Debug, PartialEq, Eq)]
pub struct Document {
    /// Date the document was linked.
    pub date: Date,
    /// Account the document is associated with.
    pub account: Account,
    /// Path to the document.
    pub path: String,
}

impl Document {
    /// The directive as text: the path in double quotes.
    pub open spec fn text(&self) -> Seq<char> {
        self.date@.text() + " document "@ + self.account@.full_name() + " \""@ + self.path@
            + seq!['"']
    }

    pub fn new(date: Date, account: Account, path: String) -> (r: Document)
        ensures
            r.date == date,
            r.account == account,
            r.path == path,
    {
        Document { date, account, path }
    }

    /// The directive as text.
    pub fn to_string(&self) -> (r: String)
        ensures
            r@ == self.text(),
    {
        proof {
            reveal_strlit("\"");
            assert("\""@ =~= seq!['"']);
        }
        let mut out: String = self.date.to_string();
        out.append(" document ");
        out.append(self.account.to_string().as_str());
        out.append(" \"");
        out.append(self.path.as_str());
        out.append("\"");
        out
    }
}

/// Records the value of a variable that changes over time.
#[derive(Clone, Debug, PartialEq, Eq)]
pub struct Event {
    /// Date the event occurred.
    pub date: Date,
    /// Name of the event.
    pub name: String,
    /// New value of the event.
    pub description: String,
}

impl Event {
    /// The directive as text: name and description in double quotes.
    pub open spec fn text(&self) -> Seq<char> {
        self.date@.text() + " event \""@ + self.name@ + "\" \""@ + self.description@ + seq!['"']
    }

    pub fn new(date: Date, name: String, description: String) -> (r: Event)
        ensures
            r.date == date,
            r.name == name,
            r.description == description,
    {
        Event { date, name, description }
    }

    /// The directive as text.
    pub fn to_string(&self) -> (r: String)
        ensures
            r@ == self.text(),
    {
        proof {
            reveal_strlit("\"");
            assert("\""@ =~= seq!['"']);
        }
        let mut out: String = self.date.to_string();
        out.append(" event \"");
        out.append(self.name.as_str());
        out.append("\" \"");
        out.append(self.description.as_str());
        out.append("\"");
        out
    }
}

/// Names another file whose directives belong to the ledger.
#[derive(Clone, Debug, PartialEq, Eq)]
pub struct Include {
    /// Fully qualified filename, including any necessary path segments.
    pub filename: String,
    /// The text that the directive was read from.
    pub source: Option<String>,
}

impl Include {
    /// The directive as text.
    pub open spec fn text(&self) -> Seq<char> {
        "include "@ + self.filename@
    }

    pub fn new(filename: String) -> (r: Include)
        ensures
            r.filename == filename,
            r.source is None,
    {
        Include { filename, source: None }
    }

    /// The directive with the source text `source`.
    pub fn with_source(self, source: String) -> (r: Include)
        ensures
            r == (Include { source: Some(source), ..self }),
    {
        Include { source: Some(source), ..self }
    }

    /// The directive as text.
    pub fn to_string(&self) -> (r: String)
        ensures
            r@ == self.text(),
    {
        let mut out: String = String::from_str("include ");
        out.append(self.filename.as_str());
        out
    }
}

/// Attaches a comment to an account.
#[derive(Clone, Debug, PartialEq, Eq)]
pub struct Note {
    /// Date of the note.
    pub date: Date,
    /// Account being noted.
    pub account: Account,
    /// Note description.
    pub comment: String,
}

impl Note {
    /// The directive as text: the comment in double quotes.
    pub open spec fn text(&self) -> Seq<char> {
        self.date@.text() + " note "@ + self.account@.full_name() + " \""@ + self.comment@
            + seq!['"']
    }

    pub fn new(date: Date, account: Account, comment: String) -> (r: Note)
        ensures
            r.date == date,
            r.account == account,
            r.comment == comment,
    {
        Note { date, account, comment }
    }

    /// The directive as text.
    pub fn to_string(&self) -> (r: String)
        ensures
            r@ == self.text(),
    {
        proof {
            reveal_strlit("\"");
            assert("\""@ =~= seq!['"']);
        }
        let mut out: String = self.date.to_string();
        out.append(" note ");
        out.append(self.account.to_string().as_str());
        out.append(" \"");
        out.append(self.comment.as_str());
        out.append("\"");
        out
    }
}

/// Opens an account.
#[derive(Clone, Debug, PartialEq, Eq)]
pub struct Open {
    /// Date the account was opened.
    pub date: Date,
    /// Account being opened.
    pub account: Account,
    /// Commodities allowed for the opened account. An empty list means no
    /// restrictions on the allowed commodities.
    pub currencies: Vec<Currency>,
    /// Booking method. The default booking method for accounts is
    /// [`Booking::Strict`].
    pub booking: Option<Booking>,
}

impl Open {
    /// The directive as text.
    pub open spec fn text(&self) -> Seq<char> {
        self.date@.text() + " open "@ + self.account@.full_name() + seq![' '] + join(
            texts(self.currencies@),
            seq![' '],
        )
    }

    pub fn new(date: Date, account: Account) -> (r: Open)
        ensures
            r.date == date,
            r.account == account,
            r.currencies@.len() == 0,
            r.booking is None,
    {
        Open { date, account, currencies: Vec::new(), booking: None }
    }

    /// The directive with the allowed commodities `currencies`.
    pub fn with_currencies(self, currencies: Vec<Currency>) -> (r: Open)
        ensures
            r == (Open { currencies, ..self }),
    {
        Open { currencies, ..self }
    }

    /// The directive with the booking method `booking`.
    pub fn with_booking(self, booking: Booking) -> (r: Open)
        ensures
            r == (Open { booking: Some(booking), ..self }),
    {
        Open { booking: Some(booking), ..self }
    }

    /// The directive as text.
    pub fn to_string(&self) -> (r: String)
        ensures
            r@ == self.text(),
    {
        proof {
            reveal_strlit(" ");
            assert(" "@ =~= seq![' ']);
        }
        let mut out: String = self.date.to_string();
        out.append(" open ");
        out.append(self.account.to_string().as_str());
        out.append(" ");
        out.append(join_strings(&self.currencies, " ").as_str());
        out
    }
}

/// Fills the gap between what an account holds and the next balance
/// assertion from another account.
#[derive(Clone, Debug, PartialEq, Eq)]
pub struct Pad {
    /// Date of the pad.
    pub date: Date,
    /// Account to pad into.
    pub pad_to_account: Account,
    /// Account to pad from.
    pub pad_from_account: Account,
}

impl Pad {
    /// The directive as text.
    pub open spec fn text(&self) -> Seq<char> {
        self.date@.text() + " pad "@ + self.pad_to_account@.full_name() + seq![' ']
            + self.pad_from_account@.full_name()
    }

    pub fn new(date: Date, pad_to_account: Account, pad_from_account: Account) -> (r: Pad)
        ensures
            r.date == date,
            r.pad_to_account == pad_to_account,
            r.pad_from_account == pad_from_account,
    {
        Pad { date, pad_to_account, pad_from_account }
    }

    /// The directive as text.
    pub fn to_string(&self) -> (r: String)
        ensures
            r@ == self.text(),
    {
        proof {
            reveal_strlit(" ");
            assert(" "@ =~= seq![' ']);
        }
        let mut out: String = self.date.to_string();
        out.append(" pad ");
        out.append(self.pad_to_account.to_string().as_str());
        out.append(" ");
        out.append(self.pad_from_account.to_string().as_str());
        out
    }
}

/// Names a module that transforms the ledger after it was read.
#[derive(Clone, Debug, PartialEq, Eq)]
pub struct Plugin {
    /// Full module name of the plugin.
    pub module: String,
    /// Configuration data to be passed to the plugin.
    pub config: Option<String>,
    /// The text that the directive was read from.
    pub source: Option<String>,
}

impl Plugin {
    /// The directive as text; a plugin without configuration has nothing
    /// behind the last space.
    pub open spec fn text(&self) -> Seq<char> {
        "plugin "@ + self.module@ + seq![' '] + match self.config {
            Some(c) => c@,
            None => Seq::empty(),
        }
    }

    pub fn new(module: String) -> (r: Plugin)
        ensures
            r.module == module,
            r.config is None,
            r.source is None,
    {
        Plugin { module, config: None, source: None }
    }

    /// The directive with the configuration `config`.
    pub fn with_config(self, config: String) -> (r: Plugin)
        ensures
            r == (Plugin { config: Some(config), ..self }),
    {
        Plugin { config: Some(config), ..self }
    }

    /// The directive with the source text `source`.
    pub fn with_source(self, source: String) -> (r: Plugin)
        ensures
            r == (Plugin { source: Some(source), ..self }),
    {
        Plugin { source: Some(source), ..self }
    }

    /// The directive as text.
    pub fn to_string(&self) -> (r: String)
        ensures
            r@ == self.text(),
    {
        proof {
            reveal_strlit(" ");
            assert(" "@ =~= seq![' ']);
        }
        let mut out: String = String::from_str("plugin ");
        out.append(self.module.as_str());
        out.append(" ");
        let ghost head = out@;
        match &self.config {
            Some(c) => {
                out.append(c.as_str());
            },
            None => {
                proof {
                    assert(head + Seq::<char>::empty() =~= head);
                }
            },
        }
        out
    }
}

/// Records what one unit of a commodity was worth on a day.
#[derive(Clone, Debug, PartialEq, Eq)]
pub struct Price {
    /// Date of the price specification.
    pub date: Date,
    /// The commodity being priced.
    pub currency: Currency,
    /// Value the currency is being quoted at.
    pub amount: Amount,
}

impl Price {
    /// The directive as text.
    pub open spec fn text(&self) -> Seq<char> {
        self.date@.text() + " price "@ + self.currency@ + seq![' '] + self.amount@.text()
    }

    pub fn new(date: Date, currency: Currency, amount: Amount) -> (r: Price)
        ensures
            r.date == date,
            r.currency == currency,
            r.amount == amount,
    {
        Price { date, currency, amount }
    }

    /// The directive as text.
    pub fn to_string(&self) -> (r: String)
        ensures
            r@ == self.text(),
    {
        proof {
            reveal_strlit(" ");
            assert(" "@ =~= seq![' ']);
        }
        let mut out: String = self.date.to_string();
        out.append(" price ");
        out.append(self.currency.as_str());
        out.append(" ");
        out.append(self.amount.to_string().as_str());
        out
    }
}

/// Stores a query under a name.
#[derive(Clone, Debug, PartialEq, Eq)]
pub struct Query {
    /// Date on which the query should be run.
    pub date: Date,
    /// Name of the query.
    pub name: String,
    /// Query contents.
    pub query_string: String,
}

impl Query {
    /// The directive as text: name and query in double quotes.
    pub open spec fn text(&self) -> Seq<char> {
        self.date@.text() + " query \""@ + self.name@ + "\" \""@ + self.query_string@ + seq!['"']
    }

    pub fn new(date: Date, name: String, query_string: String) -> (r: Query)
        ensures
            r.date == date,
            r.name == name,
            r.query_string == query_string,
    {
        Query { date, name, query_string }
    }

    /// The directive as text.
    pub fn to_string(&self) -> (r: String)
        ensures
            r@ == self.text(),
    {
        proof {
            reveal_strlit("\"");
            assert("\""@ =~= seq!['"']);
        }
        let mut out: String = self.date.to_string();
        out.append(" query \"");
        out.append(self.name.as_str());
        out.append("\" \"");
        out.append(self.query_string.as_str());
        out.append("\"");
        out
    }
}

/// One entry of a ledger.
#[derive(Clone, Debug, PartialEq, Eq)]
pub enum Directive {
    Open(Open),
    Close(Close),
    Commodity(Commodity),
    Transaction(Transaction),
    Balance(Balance),
    Pad(Pad),
    Note(Note),
    Document(Document),
    Price(Price),
    Event(Event),
    Query(Query),
    Custom(Custom),
    Include(Include),
    Option(BcOption),
    Plugin(Plugin),
    Unsupported,
}

impl Directive {
    /// The day on which the directive takes effect; none for `include`,
    /// `option`, `plugin` and unsupported directives.
    pub open spec fn date_of(&self) -> Option<Date> {
        match self {
            Directive::Open(d) => Some(d.date),
            Directive::Close(d) => Some(d.date),
            Directive::Commodity(d) => Some(d.date),
            Directive::Transaction(d) => Some(d.date),
            Directive::Balance(d) => Some(d.date),
            Directive::Pad(d) => Some(d.date),
            Directive::Note(d) => Some(d.date),
            Directive::Document(d) => Some(d.date),
            Directive::Price(d) => Some(d.date),
            Directive::Event(d) => Some(d.date),
            Directive::Query(d) => Some(d.date),
            Directive::Custom(d) => Some(d.date),
            Directive::Include(_) => None,
            Directive::Option(_) => None,
            Directive::Plugin(_) => None,
            Directive::Unsupported => None,
        }
    }

    /// The place of the directive among those of one day: accounts are
    /// opened first, then balances are asserted, then every other directive
    /// takes effect, and transactions come last.
    pub open spec fn priority_of(&self) -> int {
        match self {
            Directive::Open(_) => 0,
            Directive::Balance(_) => 1,
            Directive::Transaction(_) => 3,
            _ => 2,
        }
    }

    /// The number by which directives are ordered: that of the day, then
    /// the priority within the day. Directives without a date come before
    /// all others.
    pub open spec fn rank(&self) -> int {
        match self.date_of() {
            Some(d) => d@.ordinal() * 4 + self.priority_of(),
            None => -1,
        }
    }

    /// The directive as text; an unsupported directive has none.
    pub open spec fn text(&self) -> Seq<char> {
        match self {
            Directive::Open(d) => d.text(),
            Directive::Close(d) => d.text(),
            Directive::Commodity(d) => d.text(),
            Directive::Transaction(d) => d.text(),
            Directive::Balance(d) => d.text(),
            Directive::Pad(d) => d.text(),
            Directive::Note(d) => d.text(),
            Directive::Document(d) => d.text(),
            Directive::Price(d) => d.text(),
            Directive::Event(d) => d.text(),
            Directive::Query(d) => d.text(),
            Directive::Custom(d) => d.text(),
            Directive::Include(d) => d.text(),
            Directive::Option(d) => d.text(),
            Directive::Plugin(d) => d.text(),
            Directive::Unsupported => Seq::empty(),
        }
    }

    /// The directive as text.
    pub fn to_string(&self) -> (r: String)
        ensures
            r@ == self.text(),
    {
        match self {
            Directive::Open(d) => d.to_string(),
            Directive::Close(d) => d.to_string(),
            Directive::Commodity(d) => d.to_string(),
            Directive::Transaction(d) => d.to_string(),
            Directive::Balance(d) => d.to_string(),
            Directive::Pad(d) => d.to_string(),
            Directive::Note(d) => d.to_string(),
            Directive::Document(d) => d.to_string(),
            Directive::Price(d) => d.to_string(),
            Directive::Event(d) => d.to_string(),
            Directive::Query(d) => d.to_string(),
            Directive::Custom(d) => d.to_string(),
            Directive::Include(d) => d.to_string(),
            Directive::Option(d) => d.to_string(),
            Directive::Plugin(d) => d.to_string(),
            Directive::Unsupported => String::new(),
        }
    }

    /// The day on which the directive takes effect.
    pub fn date(&self) -> (r: Option<Date>)
        ensures
            r == self.date_of(),
    {
        match self {
            Directive::Open(d) => Some(d.date),
            Directive::Close(d) => Some(d.date),
            Directive::Commodity(d) => Some(d.date),
            Directive::Transaction(d) => Some(d.date),
            Directive::Balance(d) => Some(d.date),
            Directive::Pad(d) => Some(d.date),
            Directive::Note(d) => Some(d.date),
            Directive::Document(d) => Some(d.date),
            Directive::Price(d) => Some(d.date),
            Directive::Event(d) => Some(d.date),
            Directive::Query(d) => Some(d.date),
            Directive::Custom(d) => Some(d.date),
            Directive::Include(_) => None,
            Directive::Option(_) => None,
            Directive::Plugin(_) => None,
            Directive::Unsupported => None,
        }
    }

    /// The place of the directive among those of one day.
    pub fn priority(&self) -> (r: u8)
        ensures
            r == self.priority_of(),
    {
        match self {
            Directive::Open(_) => 0,
            Directive::Balance(_) => 1,
            Directive::Transaction(_) => 3,
            _ => 2,
        }
    }

    /// The number by which directives are ordered.
    pub fn sort_key(&self) -> (r: i64)
        ensures
            r == self.rank(),
    {
        match self.date() {
            Some(d) => {
                let day: u64 = d.ordinal();
                (day * 4 + self.priority() as u64) as i64
            },
            None => -1,
        }
    }
}

} // verus!
