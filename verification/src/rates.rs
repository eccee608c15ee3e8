//! The exchange-rate table of one refresh cycle.

use vstd::prelude::*;
use crate::decimal::Decimal;

verus! {

/// One line of the table: a currency code and its rate.
#[derive(Clone, Debug, PartialEq, Eq)]
struct RateEntry {
    pub code: String,
    pub rate: Decimal,
}

/// A mapping from currency code to exchange rate, each code at most once.
#[derive(Clone, Debug)]
pub struct RateTable {
    entries: Vec<RateEntry>,
}

/// The reply of the exchange-rate source.
#[derive(Clone, Debug)]
pub struct ExchangeRateResponse {
    pub rates: RateTable,
}

impl RateTable {
    /// No code occurs on two lines.
    pub closed spec fn wf(&self) -> bool {
        forall|i: int, j: int|
            0 <= i < j < self.entries@.len() ==> self.entries@[i].code@ != self.entries@[j].code@
    }

    /// Whether line `i` holds `code`.
    pub closed spec fn holds_at(&self, code: Seq<char>, i: int) -> bool {
        0 <= i < self.entries@.len() && self.entries@[i].code@ == code
    }

    /// The table as a map from the characters of a code to its rate.
    pub closed spec fn view(&self) -> Map<Seq<char>, Decimal> {
        Map::new(
            |code: Seq<char>| exists|i: int| self.holds_at(code, i),
            |code: Seq<char>| self.entries@[choose|i: int| self.holds_at(code, i)].rate,
        )
    }

    /// The empty table.
    pub fn new() -> (t: RateTable)
        ensures
            t.wf(),
            t@ == Map::<Seq<char>, Decimal>::empty(),
    {
        let t = RateTable { entries: Vec::new() };
        proof {
            assert forall|code: Seq<char>| !t@.dom().contains(code) by {
                if t@.dom().contains(code) {
                    let i = choose|i: int| t.holds_at(code, i);
                    assert(t.holds_at(code, i));
                }
            }
            assert(t@ =~= Map::<Seq<char>, Decimal>::empty());
        }
        t
    }

    /// The line that holds `code`, if there is one.
    fn position(&self, code: &str) -> (p: Option<usize>)
        ensures
            match p {
                Some(i) => self.holds_at(code@, i as int),
                None => forall|i: int| !self.holds_at(code@, i),
            },
    {
        let wanted = String::from_str(code);
        let mut k: usize = 0;
        while k < self.entries.len()
            invariant
                k <= self.entries@.len(),
                wanted@ == code@,
                forall|i: int| 0 <= i < k ==> self.entries@[i].code@ != code@,
            decreases self.entries@.len() - k,
        {
            if self.entries[k].code == wanted {
                return Some(k);
            }
            k += 1;
        }
        None
    }

    /// The rate of `code`, or `None` where the table does not hold the code.
    pub fn get(&self, code: &str) -> (r: Option<Decimal>)
        requires
            self.wf(),
        ensures
            r == (if self@.contains_key(code@) {
                Some(self@[code@])
            } else {
                None
            }),
    {
        match self.position(code) {
            Some(i) => {
                proof {
                    self.lemma_line(code@, i as int);
                }
                Some(self.entries[i].rate)
            },
            None => None,
        }
    }

    /// Whether the table holds `code`.
    pub fn contains(&self, code: &str) -> (b: bool)
        requires
            self.wf(),
        ensures
            b == self@.contains_key(code@),
    {
        self.get(code).is_some()
    }

    /// Sets the rate of `code`, replacing the rate it had.
    pub fn insert(&mut self, code: String, rate: Decimal)
        requires
            old(self).wf(),
        ensures
            final(self).wf(),
            final(self)@ == old(self)@.insert(code@, rate),
    {
        let ghost before = *self;
        let ghost key = code@;
        match self.position(code.as_str()) {
            Some(i) => {
                self.entries.set(i, RateEntry { code, rate });
                proof {
                    assert(self.wf());
                    assert forall|c: Seq<char>, j: int| self.holds_at(c, j) == before.holds_at(
                        c,
                        j,
                    ) by {}
                    assert forall|c: Seq<char>| #[trigger]
                        self@.dom().contains(c) == before@.insert(key, rate).dom().contains(
                            c,
                        ) by {
                        if self@.dom().contains(c) {
                            let j = choose|j: int| self.holds_at(c, j);
                            assert(before.holds_at(c, j));
                        }
                        if before@.dom().contains(c) {
                            let j = choose|j: int| before.holds_at(c, j);
                            assert(self.holds_at(c, j));
                        }
                        if c == key {
                            assert(before.holds_at(c, i as int));
                            assert(self.holds_at(c, i as int));
                        }
                    }
                    assert forall|c: Seq<char>| #[trigger] self@.dom().contains(c) implies self@[c]
                        == before@.insert(key, rate)[c] by {
                        let j = choose|j: int| self.holds_at(c, j);
                        assert(self.holds_at(c, j));
                        self.lemma_line(c, j);
                        if c != key {
                            before.lemma_line(c, j);
                        } else {
                            self.lemma_line(c, i as int);
                        }
                    }
                    assert(self@ =~= before@.insert(key, rate));
                }
            },
            None => {
                self.entries.push(RateEntry { code, rate });
                proof {
                    let last = before.entries@.len() as int;
                    assert(self.wf()) by {
                        assert forall|a: int, b: int|
                            0 <= a < b < self.entries@.len() implies self.entries@[a].code@
                            != self.entries@[b].code@ by {
                            if b == last {
                                assert(!before.holds_at(key, a));
                            }
                        }
                    }
                    assert forall|c: Seq<char>, j: int| before.holds_at(c, j) implies self.holds_at(
                        c,
                        j,
                    ) by {}
                    assert(self.holds_at(key, last));
                    assert forall|c: Seq<char>| #[trigger]
                        self@.dom().contains(c) == before@.insert(key, rate).dom().contains(
                            c,
                        ) by {
                        if before@.dom().contains(c) {
                            let j = choose|j: int| before.holds_at(c, j);
                            assert(self.holds_at(c, j));
                        }
                        if self@.dom().contains(c) && c != key {
                            let j = choose|j: int| self.holds_at(c, j);
                            assert(before.holds_at(c, j));
                        }
                    }
                    assert forall|c: Seq<char>| #[trigger] self@.dom().contains(c) implies self@[c]
                        == before@.insert(key, rate)[c] by {
                        let j = choose|j: int| self.holds_at(c, j);
                        assert(self.holds_at(c, j));
                        self.lemma_line(c, j);
                        if c != key {
                            assert(before.holds_at(c, j));
                            before.lemma_line(c, j);
                        } else {
                            self.lemma_line(c, last);
                        }
                    }
                    assert(self@ =~= before@.insert(key, rate));
                }
            },
        }
    }

    /// In a well-formed table the line that holds a code gives the code's rate.
    proof fn lemma_line(&self, code: Seq<char>, i: int)
        requires
            self.wf(),
            self.holds_at(code, i),
        ensures
            self@.contains_key(code),
            self@[code] == self.entries@[i].rate,
    {
        let j = choose|j: int| self.holds_at(code, j);
        assert(self.holds_at(code, j));
        if i < j {
            assert(self.entries@[i].code@ != self.entries@[j].code@);
        } else if j < i {
            assert(self.entries@[j].code@ != self.entries@[i].code@);
        }
    }
}

} // verus!
