//! The underlying: its contract id and the two months whose listings are
//! read, from the answer to a symbol search.

use crate::text::{find_next, next_of};
use vstd::prelude::*;
use vstd::string::*;

verus! {

/// One section of a search result: a security type and the months it is
/// listed for, separated by semicolons.
#[derive(Debug, PartialEq, Eq)]
pub struct Section {
    pub sec_type: String,
    pub months: Option<String>,
}

/// One result of a symbol search.
#[derive(Debug, PartialEq, Eq)]
pub struct SecDefResponse {
    pub conid: Option<String>,
    pub sections: Option<Vec<Section>>,
}

/// The underlying's contract id and the current and the next month.
#[derive(Debug, PartialEq, Eq)]
pub struct TickerConid {
    pub conid: String,
    pub current_month: String,
    pub next_month: String,
}

/// The content of a `TickerConid`.
pub struct TickerModel {
    pub conid: Seq<char>,
    pub current_month: Seq<char>,
    pub next_month: Seq<char>,
}

impl View for TickerConid {
    type V = TickerModel;

    open spec fn view(&self) -> TickerModel {
        TickerModel {
            conid: self.conid@,
            current_month: self.current_month@,
            next_month: self.next_month@,
        }
    }
}

/// The first two of the months of a list, if it names two or more, and two
/// empty texts if not.
pub open spec fn first_two_months(months: Seq<char>) -> (Seq<char>, Seq<char>) {
    let first_end = next_of(months, ';', 0);
    if first_end >= months.len() {
        (Seq::empty(), Seq::empty())
    } else {
        let second_end = next_of(months, ';', first_end + 1);
        (months.take(first_end), months.subrange(first_end + 1, second_end))
    }
}

/// The security type of option sections.
pub open spec fn is_option_type(s: Seq<char>) -> bool {
    s.len() == 3 && s[0] == 'O' && s[1] == 'P' && s[2] == 'T'
}

/// The place of the first option section among the first `n`, or `n` if
/// there is none.
pub open spec fn option_section(sections: Seq<Section>, n: int) -> int
    decreases n,
{
    if n <= 0 {
        0
    } else {
        let p = option_section(sections, n - 1);
        if p < n - 1 {
            p
        } else if is_option_type(sections[n - 1].sec_type@) {
            n - 1
        } else {
            n
        }
    }
}

/// The months that the sections of a result give: the first two months of
/// its first option section.
pub open spec fn section_months(sections: Option<Vec<Section>>) -> (Seq<char>, Seq<char>) {
    match sections {
        None => (Seq::empty(), Seq::empty()),
        Some(list) => {
            let p = option_section(list@, list@.len() as int);
            if p < list@.len() {
                match list@[p].months {
                    Some(months) => first_two_months(months@),
                    None => (Seq::empty(), Seq::empty()),
                }
            } else {
                (Seq::empty(), Seq::empty())
            }
        },
    }
}

/// What the search says of the underlying. Only the first result counts, and
/// it must name a contract id.
pub open spec fn ticker_conid(results: Seq<SecDefResponse>) -> Option<TickerModel> {
    if results.len() == 0 {
        None
    } else {
        match results[0].conid {
            Some(conid) => if conid@.len() > 0 {
                let (current_month, next_month) = section_months(results[0].sections);
                Some(TickerModel { conid: conid@, current_month, next_month })
            } else {
                None
            },
            None => None,
        }
    }
}

fn split_months(months: &str) -> (r: (String, String))
    ensures
        (r.0@, r.1@) == first_two_months(months@),
{
    let n: usize = months.unicode_len();
    let first_end: usize = find_next(months, ';', 0);
    if first_end >= n {
        (String::new(), String::new())
    } else {
        let second_end: usize = find_next(months, ';', first_end + 1);
        let first: &str = months.substring_char(0, first_end);
        let second: &str = months.substring_char(first_end + 1, second_end);
        proof {
            assert(months@.subrange(0, first_end as int) =~= months@.take(first_end as int));
        }
        (first.to_owned(), second.to_owned())
    }
}

fn is_opt(text: &str) -> (b: bool)
    ensures
        b == is_option_type(text@),
{
    text.unicode_len() == 3 && text.get_char(0) == 'O' && text.get_char(1) == 'P' && text.get_char(
        2,
    ) == 'T'
}

#[verifier::loop_isolation(false)]
fn months_of(sections: &Option<Vec<Section>>) -> (r: (String, String))
    ensures
        (r.0@, r.1@) == section_months(*sections),
{
    match sections {
        None => (String::new(), String::new()),
        Some(list) => {
            let mut n: usize = 0;
            while n < list.len()
                invariant
                    0 <= n <= list@.len(),
                    option_section(list@, n as int) == n,
                decreases list@.len() - n,
            {
                if is_opt(list[n].sec_type.as_str()) {
                    proof {
                        lemma_option_section_found(list@, n as int, list@.len() as int);
                    }
                    assert(option_section(list@, list@.len() as int) == n);
                    match &list[n].months {
                        Some(months) => {
                            let found: (String, String) = split_months(months.as_str());
                            return found;
                        },
                        None => {
                            return (String::new(), String::new());
                        },
                    }
                }
                n = n + 1;
            }
            (String::new(), String::new())
        },
    }
}

/// The first option section stays the first however many sections follow.
pub proof fn lemma_option_section_found(sections: Seq<Section>, p: int, n: int)
    requires
        0 <= p < n,
        option_section(sections, p) == p,
        is_option_type(sections[p].sec_type@),
    ensures
        option_section(sections, n) == p,
    decreases n - p,
{
    if p + 1 < n {
        lemma_option_section_found(sections, p, n - 1);
    }
}

/// Reads the underlying's contract id and the two months to list from the
/// results of a symbol search; `None` if the search found no contract.
pub fn get_ticker_conid(results: &Vec<SecDefResponse>) -> (r: Option<TickerConid>)
    ensures
        match ticker_conid(results@) {
            Some(model) => r matches Some(found) && found@ == model,
            None => r is None,
        },
{
    if results.len() == 0 {
        return None;
    }
    match &results[0].conid {
        None => None,
        Some(conid) => {
            if conid.as_str().unicode_len() == 0 {
                return None;
            }
            let (current_month, next_month) = months_of(&results[0].sections);
            Some(TickerConid { conid: conid.clone(), current_month, next_month })
        },
    }
}

} // verus!
