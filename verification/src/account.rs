//! Accounts: one of five account types followed by a path of component
//! names, written `Assets:US:BofA:Checking`.

use crate::error::Error;
use crate::text::{
    clone_strings, join, join_strings, lemma_join_first, lemma_join_split, same_prefix,
    same_texts, split, split_on, str_eq, texts,
};
use vstd::prelude::*;
use vstd::string::StringExecFns;

verus! {

/// The five kinds of account.
#[derive(Clone, Copy, Debug, PartialEq, Eq, Hash, Structural)]
pub enum AccountType {
    Assets,
    Liabilities,
    Equity,
    Income,
    Expenses,
}

impl AccountType {
    /// The canonical root name of the account type.
    pub open spec fn name(self) -> Seq<char> {
        match self {
            AccountType::Assets => "Assets"@,
            AccountType::Liabilities => "Liabilities"@,
            AccountType::Equity => "Equity"@,
            AccountType::Income => "Income"@,
            AccountType::Expenses => "Expenses"@,
        }
    }

    /// The account type whose canonical root name is `s`, if there is one.
    pub open spec fn named(s: Seq<char>) -> Option<AccountType> {
        if s == "Assets"@ {
            Some(AccountType::Assets)
        } else if s == "Liabilities"@ {
            Some(AccountType::Liabilities)
        } else if s == "Equity"@ {
            Some(AccountType::Equity)
        } else if s == "Income"@ {
            Some(AccountType::Income)
        } else if s == "Expenses"@ {
            Some(AccountType::Expenses)
        } else {
            None
        }
    }

    /// The canonical root name.
    pub fn default_name(&self) -> (r: &'static str)
        ensures
            r@ == self.name(),
    {
        match self {
            AccountType::Assets => "Assets",
            AccountType::Liabilities => "Liabilities",
            AccountType::Equity => "Equity",
            AccountType::Income => "Income",
            AccountType::Expenses => "Expenses",
        }
    }

    /// Looks a canonical root name up.
    pub fn parse(s: &str) -> (r: Result<AccountType, Error>)
        ensures
            match AccountType::named(s@) {
                Some(t) => r == Ok::<AccountType, Error>(t),
                None => r == Err::<AccountType, Error>(Error::InvalidAccountType),
            },
    {
        if str_eq(s, "Assets") {
            Ok(AccountType::Assets)
        } else if str_eq(s, "Liabilities") {
            Ok(AccountType::Liabilities)
        } else if str_eq(s, "Equity") {
            Ok(AccountType::Equity)
        } else if str_eq(s, "Income") {
            Ok(AccountType::Income)
        } else if str_eq(s, "Expenses") {
            Ok(AccountType::Expenses)
        } else {
            Err(Error::InvalidAccountType)
        }
    }

    /// The account type of a canonical root name.
    pub fn from(s: &str) -> (r: AccountType)
        requires
            AccountType::named(s@) is Some,
        ensures
            AccountType::named(s@) == Some(r),
    {
        match AccountType::parse(s) {
            Ok(t) => t,
            Err(_) => vstd::pervasive::unreached(),
        }
    }

    /// The canonical root name, as an owned string.
    pub fn to_string(&self) -> (r: String)
        ensures
            r@ == self.name(),
    {
        String::from_str(self.default_name())
    }
}

/// Each canonical root name names its own account type.
pub proof fn lemma_root_names()
    ensures
        forall|t: AccountType| AccountType::named(t.name()) == Some(t),
{
    reveal_strlit("Assets");
    reveal_strlit("Liabilities");
    reveal_strlit("Equity");
    reveal_strlit("Income");
    reveal_strlit("Expenses");
    assert("Liabilities"@.len() == 11 && "Expenses"@.len() == 8);
    assert("Assets"@[0] == 'A' && "Equity"@[0] == 'E' && "Income"@[0] == 'I');
    assert forall|t: AccountType| AccountType::named(t.name()) == Some(t) by {
        match t {
            AccountType::Assets => {},
            AccountType::Liabilities => {},
            AccountType::Equity => {},
            AccountType::Income => {},
            AccountType::Expenses => {},
        }
    }
}

/// The root names in force in one ledger: the canonical ones unless renamed.
#[derive(Clone, Debug, PartialEq, Eq)]
pub struct RootNames {
    pub assets: String,
    pub liabilities: String,
    pub equity: String,
    pub income: String,
    pub expenses: String,
}

impl RootNames {
    /// The root name in force for `t`.
    pub open spec fn name_of(&self, t: AccountType) -> Seq<char> {
        match t {
            AccountType::Assets => self.assets@,
            AccountType::Liabilities => self.liabilities@,
            AccountType::Equity => self.equity@,
            AccountType::Income => self.income@,
            AccountType::Expenses => self.expenses@,
        }
    }

    /// The account type that `s` names. Where several types were given the
    /// same name, the first in the order of declaration is meant.
    pub open spec fn type_of(&self, s: Seq<char>) -> Option<AccountType> {
        if s == self.assets@ {
            Some(AccountType::Assets)
        } else if s == self.liabilities@ {
            Some(AccountType::Liabilities)
        } else if s == self.equity@ {
            Some(AccountType::Equity)
        } else if s == self.income@ {
            Some(AccountType::Income)
        } else if s == self.expenses@ {
            Some(AccountType::Expenses)
        } else {
            None
        }
    }

    /// The canonical root names.
    pub fn new() -> (r: RootNames)
        ensures
            forall|t: AccountType| r.name_of(t) == t.name(),
            forall|s: Seq<char>| r.type_of(s) == AccountType::named(s),
    {
        RootNames {
            assets: String::from_str("Assets"),
            liabilities: String::from_str("Liabilities"),
            equity: String::from_str("Equity"),
            income: String::from_str("Income"),
            expenses: String::from_str("Expenses"),
        }
    }

    /// The root name in force for `t`.
    pub fn name(&self, t: AccountType) -> (r: &str)
        ensures
            r@ == self.name_of(t),
    {
        match t {
            AccountType::Assets => self.assets.as_str(),
            AccountType::Liabilities => self.liabilities.as_str(),
            AccountType::Equity => self.equity.as_str(),
            AccountType::Income => self.income.as_str(),
            AccountType::Expenses => self.expenses.as_str(),
        }
    }

    /// Gives `t` the root name `name`; the other names stay.
    pub fn rename(&mut self, t: AccountType, name: String)
        ensures
            final(self).name_of(t) == name@,
            forall|u: AccountType| u != t ==> final(self).name_of(u) == old(self).name_of(u),
    {
        match t {
            AccountType::Assets => { self.assets = name; },
            AccountType::Liabilities => { self.liabilities = name; },
            AccountType::Equity => { self.equity = name; },
            AccountType::Income => { self.income = name; },
            AccountType::Expenses => { self.expenses = name; },
        }
    }

    /// Looks a root name up.
    pub fn lookup(&self, s: &str) -> (r: Result<AccountType, Error>)
        ensures
            match self.type_of(s@) {
                Some(t) => r == Ok::<AccountType, Error>(t),
                None => r == Err::<AccountType, Error>(Error::InvalidAccountType),
            },
    {
        if str_eq(s, self.assets.as_str()) {
            Ok(AccountType::Assets)
        } else if str_eq(s, self.liabilities.as_str()) {
            Ok(AccountType::Liabilities)
        } else if str_eq(s, self.equity.as_str()) {
            Ok(AccountType::Equity)
        } else if str_eq(s, self.income.as_str()) {
            Ok(AccountType::Income)
        } else if str_eq(s, self.expenses.as_str()) {
            Ok(AccountType::Expenses)
        } else {
            Err(Error::InvalidAccountType)
        }
    }
}

/// Mathematical model of an account.
pub struct AccountView {
    pub account_type: AccountType,
    pub parts: Seq<Seq<char>>,
}

impl AccountView {
    /// The account's name: the root name, then each part after a colon.
    pub open spec fn full_name(self) -> Seq<char> {
        if self.parts.len() == 0 {
            self.account_type.name()
        } else {
            self.account_type.name() + seq![':'] + join(self.parts, seq![':'])
        }
    }

    /// The account's name under the root names `names`.
    pub open spec fn full_name_under(self, names: &RootNames) -> Seq<char> {
        if self.parts.len() == 0 {
            names.name_of(self.account_type)
        } else {
            names.name_of(self.account_type) + seq![':'] + join(self.parts, seq![':'])
        }
    }

    /// What a colon-delimited name denotes: its first segment names the
    /// account type, the others are the parts. `None` where the first
    /// segment is no root name.
    pub open spec fn parsed(s: Seq<char>) -> Option<AccountView> {
        let pieces = split_on(s, ':');
        match AccountType::named(pieces[0]) {
            Some(t) => Some(AccountView { account_type: t, parts: pieces.skip(1) }),
            None => None,
        }
    }

    /// What a colon-delimited name denotes under the root names `names`.
    pub open spec fn parsed_under(s: Seq<char>, names: &RootNames) -> Option<AccountView> {
        let pieces = split_on(s, ':');
        match names.type_of(pieces[0]) {
            Some(t) => Some(AccountView { account_type: t, parts: pieces.skip(1) }),
            None => None,
        }
    }

    /// `self` lies above `other` in the hierarchy: same account type, and
    /// the parts of `self` are a proper prefix of those of `other`.
    pub open spec fn is_ancestor_of(self, other: AccountView) -> bool {
        &&& self.account_type == other.account_type
        &&& self.parts.len() < other.parts.len()
        &&& self.parts == other.parts.subrange(0, self.parts.len() as int)
    }
}

/// An account: its type and the components of its name below the root.
#[derive(Clone, Debug, PartialEq, Eq, Hash)]
pub struct Account {
    /// Type of the account.
    pub account_type: AccountType,
    /// Parts of the account name following the account type.
    pub parts: Vec<String>,
}

impl View for Account {
    type V = AccountView;

    open spec fn view(&self) -> AccountView {
        AccountView { account_type: self.account_type, parts: texts(self.parts@) }
    }
}

/// The hierarchy of accounts is a strict order: no account lies above
/// itself, and what lies above an ancestor of an account lies above that
/// account.
pub proof fn lemma_hierarchy(a: AccountView, b: AccountView, c: AccountView)
    ensures
        !a.is_ancestor_of(a),
        a.is_ancestor_of(b) ==> !b.is_ancestor_of(a),
        a.is_ancestor_of(b) && b.is_ancestor_of(c) ==> a.is_ancestor_of(c),
{
    if a.is_ancestor_of(b) && b.is_ancestor_of(c) {
        let n = a.parts.len() as int;
        assert(c.parts.subrange(0, n) =~= c.parts.subrange(0, b.parts.len() as int).subrange(0, n));
    }
}

/// An account name that is read and printed again is the name that was
/// read.
pub proof fn lemma_name_round_trip(s: Seq<char>)
    requires
        AccountView::parsed(s) is Some,
    ensures
        AccountView::parsed(s)->0.full_name() == s,
{
    let pieces = split_on(s, ':');
    lemma_join_split(s, ':');
    if pieces.len() > 1 {
        assert(pieces =~= seq![pieces[0]] + pieces.skip(1));
        lemma_join_first(pieces[0], pieces.skip(1), seq![':']);
    } else {
        assert(pieces.skip(1).len() == 0);
    }
}

impl Account {
    /// The account of type `account_type` itself, without parts.
    pub fn new(account_type: AccountType) -> (r: Account)
        ensures
            r.account_type == account_type,
            r.parts@.len() == 0,
    {
        Account { account_type, parts: Vec::new() }
    }

    /// The same account type with the parts `parts`.
    pub fn with_parts(self, parts: Vec<String>) -> (r: Account)
        ensures
            r.account_type == self.account_type,
            r.parts == parts,
    {
        Account { account_type: self.account_type, parts }
    }

    /// Reads a colon-delimited account name under the root names `names`.
    pub fn parse_with(s: &str, names: &RootNames) -> (r: Result<Account, Error>)
        ensures
            match AccountView::parsed_under(s@, names) {
                Some(a) => r is Ok && r->Ok_0@ == a,
                None => r == Err::<Account, Error>(Error::InvalidAccountType),
            },
    {
        let mut pieces: Vec<String> = split(s, ':');
        proof {
            lemma_join_split(s@, ':');
            assert(texts(pieces@).len() == pieces@.len());
            assert(texts(pieces@)[0] == pieces@[0]@);
        }
        let ghost all = pieces@;
        let first: String = pieces.remove(0);
        match names.lookup(first.as_str()) {
            Ok(account_type) => {
                proof {
                    assert(texts(pieces@) =~= texts(all).skip(1));
                }
                Ok(Account { account_type, parts: pieces })
            },
            Err(e) => Err(e),
        }
    }

    /// Reads a colon-delimited account name with the canonical root names.
    pub fn parse(s: &str) -> (r: Result<Account, Error>)
        ensures
            match AccountView::parsed(s@) {
                Some(a) => r is Ok && r->Ok_0@ == a,
                None => r == Err::<Account, Error>(Error::InvalidAccountType),
            },
    {
        let names: RootNames = RootNames::new();
        Account::parse_with(s, &names)
    }

    /// The account that a colon-delimited name denotes. The first segment
    /// must be a canonical root name.
    pub fn from(s: &str) -> (r: Account)
        requires
            AccountView::parsed(s@) is Some,
        ensures
            Some(r@) == AccountView::parsed(s@),
    {
        match Account::parse(s) {
            Ok(a) => a,
            Err(_) => vstd::pervasive::unreached(),
        }
    }

    /// The account's name under the root names `names`.
    pub fn to_string_with(&self, names: &RootNames) -> (r: String)
        ensures
            r@ == self@.full_name_under(names),
    {
        let mut out: String = String::from_str(names.name(self.account_type));
        if self.parts.len() > 0 {
            let tail: String = join_strings(&self.parts, ":");
            proof {
                reveal_strlit(":");
                assert(":"@ =~= seq![':']);
            }
            out.append(":");
            out.append(tail.as_str());
        }
        out
    }

    /// The account's name with the canonical root names.
    pub fn to_string(&self) -> (r: String)
        ensures
            r@ == self@.full_name(),
    {
        let names: RootNames = RootNames::new();
        self.to_string_with(&names)
    }

    /// A copy of the account.
    pub fn duplicate(&self) -> (r: Account)
        ensures
            r@ == self@,
    {
        Account { account_type: self.account_type, parts: clone_strings(&self.parts) }
    }

    /// Whether both accounts have the same type and the same parts.
    pub fn same_as(&self, other: &Account) -> (r: bool)
        ensures
            r == (self@ == other@),
    {
        self.account_type == other.account_type && same_texts(&self.parts, &other.parts)
    }

    /// Whether `self` lies above `other` in the hierarchy of accounts.
    pub fn is_ancestor_of(&self, other: &Account) -> (r: bool)
        ensures
            r == self@.is_ancestor_of(other@),
    {
        if self.account_type != other.account_type || self.parts.len() >= other.parts.len() {
            return false;
        }
        proof {
            assert(texts(self.parts@).subrange(0, self.parts.len() as int) =~= texts(self.parts@));
        }
        same_prefix(&self.parts, &other.parts, self.parts.len())
    }
}

} // verus!
