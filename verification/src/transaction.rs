//! Transactions: dated exchanges between accounts, written as a list of
//! postings.

use crate::date::Date;
use crate::flags::Flag;
use crate::metadata::{Link, Tag};
use crate::posting::Posting;
use crate::text::{join, join_strings, str_eq, texts};
use vstd::prelude::*;
use vstd::string::StringExecFns;

verus! {

/// Whether no text occurs twice in `s`.
pub open spec fn distinct(s: Seq<Seq<char>>) -> bool {
    forall|i: int, j: int| 0 <= i < j < s.len() ==> s[i] != s[j]
}

/// A transaction: a date, a flag, who was paid and why, tags and links, and
/// the postings. Tags and links are sets: none occurs twice.
#[derive(Clone, Debug, PartialEq, Eq)]
pub struct Transaction {
    /// Date of the transaction.
    pub date: Date,
    /// Whether the transaction is in order (`*`) or needs attention (`!`).
    pub flag: Flag,
    /// Payee of the transaction.
    pub payee: Option<String>,
    /// Narration of the transaction.
    pub narration: String,
    /// Tags of the transaction, each once.
    pub tags: Vec<Tag>,
    /// Links of the transaction, each once.
    pub links: Vec<Link>,
    /// Postings of the transaction, in the order written.
    pub postings: Vec<Posting>,
}

/// The lines of the postings: each indented by two spaces and ended by a
/// line feed.
pub open spec fn postings_text(postings: Seq<Posting>) -> Seq<char>
    decreases postings.len(),
{
    if postings.len() == 0 {
        Seq::empty()
    } else {
        postings_text(postings.drop_last()) + seq![' ', ' '] + postings.last().text() + seq!['\n']
    }
}

/// Whether `item` is among the first `n` strings of `v`.
fn holds_text(v: &Vec<String>, item: &str) -> (r: bool)
    ensures
        r == texts(v@).contains(item@),
{
    let mut i: usize = 0;
    while i < v.len()
        invariant
            i <= v.len(),
            forall|j: int| 0 <= j < i ==> texts(v@)[j] != item@,
        decreases v.len() - i,
    {
        if str_eq(v[i].as_str(), item) {
            proof {
                assert(texts(v@)[i as int] == item@);
            }
            return true;
        }
        i = i + 1;
    }
    false
}

/// Adds `item` to the set `v`, if it is not in it.
fn add_text(v: Vec<String>, item: String) -> (r: Vec<String>)
    requires
        distinct(texts(v@)),
    ensures
        distinct(texts(r@)),
        texts(r@) == if texts(v@).contains(item@) {
            texts(v@)
        } else {
            texts(v@).push(item@)
        },
{
    if holds_text(&v, item.as_str()) {
        v
    } else {
        let mut out: Vec<String> = v;
        out.push(item);
        proof {
            assert(texts(out@) =~= texts(v@).push(item@));
            assert forall|i: int, j: int| 0 <= i < j < texts(out@).len() implies texts(out@)[i]
                != texts(out@)[j] by {
                if j == texts(out@).len() - 1 {
                    assert(texts(v@)[i] == texts(out@)[i]);
                    assert(texts(v@).contains(texts(v@)[i]));
                } else {
                    assert(texts(v@)[i] == texts(out@)[i]);
                    assert(texts(v@)[j] == texts(out@)[j]);
                }
            }
        }
        out
    }
}

impl Transaction {
    /// Whether no tag and no link occurs twice.
    pub open spec fn wf(&self) -> bool {
        distinct(texts(self.tags@)) && distinct(texts(self.links@))
    }

    /// The transaction as text: a line of date, flag, payee, narration in
    /// double quotes, tags and links, then one line for each posting.
    pub open spec fn text(&self) -> Seq<char> {
        let head = self.date@.text() + seq![' '] + self.flag.text();
        let with_payee = match self.payee {
            Some(p) => head + seq![' '] + p@,
            None => head,
        };
        let with_narration = with_payee + seq![' ', '"'] + self.narration@ + seq!['"'];
        let with_tags = if self.tags@.len() > 0 {
            with_narration + seq![' '] + join(texts(self.tags@), seq![' '])
        } else {
            with_narration
        };
        let with_links = if self.links@.len() > 0 {
            with_tags + seq![' '] + join(texts(self.links@), seq![' '])
        } else {
            with_tags
        };
        with_links + seq!['\n'] + postings_text(self.postings@)
    }

    /// A transaction of the day `date` with the narration `narration`, in
    /// order, without payee, tags, links or postings.
    pub fn new(date: Date, narration: String) -> (r: Transaction)
        ensures
            r.wf(),
            r.date == date,
            r.flag == Flag::Okay,
            r.payee is None,
            r.narration == narration,
            r.tags@.len() == 0,
            r.links@.len() == 0,
            r.postings@.len() == 0,
    {
        Transaction {
            date,
            flag: Flag::Okay,
            payee: None,
            narration,
            tags: Vec::new(),
            links: Vec::new(),
            postings: Vec::new(),
        }
    }

    /// The transaction with the flag `flag`.
    pub fn with_flag(self, flag: Flag) -> (r: Transaction)
        ensures
            r == (Transaction { flag, ..self }),
    {
        Transaction { flag, ..self }
    }

    /// The transaction with the payee `payee`.
    pub fn with_payee(self, payee: String) -> (r: Transaction)
        ensures
            r == (Transaction { payee: Some(payee), ..self }),
    {
        Transaction { payee: Some(payee), ..self }
    }

    /// The transaction with the tag `tag` among its tags.
    pub fn with_tag(self, tag: Tag) -> (r: Transaction)
        requires
            self.wf(),
        ensures
            r.wf(),
            texts(r.tags@) == if texts(self.tags@).contains(tag@) {
                texts(self.tags@)
            } else {
                texts(self.tags@).push(tag@)
            },
            r.date == self.date,
            r.flag == self.flag,
            r.payee == self.payee,
            r.narration == self.narration,
            r.links == self.links,
            r.postings == self.postings,
    {
        let Transaction { date, flag, payee, narration, tags, links, postings } = self;
        let tags: Vec<Tag> = add_text(tags, tag);
        Transaction { date, flag, payee, narration, tags, links, postings }
    }

    /// The transaction with the link `link` among its links.
    pub fn with_link(self, link: Link) -> (r: Transaction)
        requires
            self.wf(),
        ensures
            r.wf(),
            texts(r.links@) == if texts(self.links@).contains(link@) {
                texts(self.links@)
            } else {
                texts(self.links@).push(link@)
            },
            r.date == self.date,
            r.flag == self.flag,
            r.payee == self.payee,
            r.narration == self.narration,
            r.tags == self.tags,
            r.postings == self.postings,
    {
        let Transaction { date, flag, payee, narration, tags, links, postings } = self;
        let links: Vec<Link> = add_text(links, link);
        Transaction { date, flag, payee, narration, tags, links, postings }
    }

    /// The transaction with `posting` behind its postings.
    pub fn with_posting(self, posting: Posting) -> (r: Transaction)
        ensures
            r.postings@ == self.postings@.push(posting),
            r.date == self.date,
            r.flag == self.flag,
            r.payee == self.payee,
            r.narration == self.narration,
            r.tags == self.tags,
            r.links == self.links,
    {
        let Transaction { date, flag, payee, narration, tags, links, postings } = self;
        let mut postings: Vec<Posting> = postings;
        postings.push(posting);
        Transaction { date, flag, payee, narration, tags, links, postings }
    }

    /// The transaction as text.
    pub fn to_string(&self) -> (r: String)
        ensures
            r@ == self.text(),
    {
        proof {
            reveal_strlit(" ");
            reveal_strlit(" \"");
            reveal_strlit("\"");
            reveal_strlit("\n");
            reveal_strlit("  ");
            assert(" "@ =~= seq![' ']);
            assert(" \""@ =~= seq![' ', '"']);
            assert("\""@ =~= seq!['"']);
            assert("\n"@ =~= seq!['\n']);
            assert("  "@ =~= seq![' ', ' ']);
        }
        let mut out: String = self.date.to_string();
        out.append(" ");
        out.append(self.flag.to_string().as_str());
        match &self.payee {
            Some(p) => {
                out.append(" ");
                out.append(p.as_str());
            },
            None => {},
        }
        out.append(" \"");
        out.append(self.narration.as_str());
        out.append("\"");
        if self.tags.len() > 0 {
            out.append(" ");
            out.append(join_strings(&self.tags, " ").as_str());
        }
        if self.links.len() > 0 {
            out.append(" ");
            out.append(join_strings(&self.links, " ").as_str());
        }
        out.append("\n");
        let ghost head = out@;
        let mut i: usize = 0;
        proof {
            assert(self.postings@.subrange(0, 0) =~= Seq::<Posting>::empty());
            assert(head + postings_text(Seq::<Posting>::empty()) =~= head);
        }
        while i < self.postings.len()
            invariant
                i <= self.postings.len(),
                out@ == head + postings_text(self.postings@.subrange(0, i as int)),
                "\n"@ == seq!['\n'],
                "  "@ == seq![' ', ' '],
            decreases self.postings.len() - i,
        {
            proof {
                let next = self.postings@.subrange(0, i + 1);
                assert(next.drop_last() =~= self.postings@.subrange(0, i as int));
                assert(next.last() == self.postings@[i as int]);
                let before = postings_text(self.postings@.subrange(0, i as int));
                let line = self.postings@[i as int].text();
                assert(head + before + seq![' ', ' '] + line + seq!['\n'] =~= head + (before + seq![
                    ' ',
                    ' ',
                ] + line + seq!['\n']));
            }
            out.append("  ");
            out.append(self.postings[i].to_string().as_str());
            out.append("\n");
            i = i + 1;
        }
        proof {
            assert(self.postings@.subrange(0, self.postings.len() as int) =~= self.postings@);
        }
        out
    }
}

} // verus!
