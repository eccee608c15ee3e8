//! A country store held in memory, with the behaviour that the refresh
//! cycle expects of its repository: a country is identified by its name,
//! whatever the case of its letters.

use vstd::prelude::*;
use crate::decimal::Decimal;
use crate::models::{country_views, opt_text, Country, CountryFilters, CountryView};
use crate::persist::{
    chunk_bounds, chunk_start, chunk_total, law_chunks_tile_the_batch, BatchPersister, PersistStatus,
    UpsertOutcome,
};
use crate::text::{chars_of, fold, is_plain, lower_text, lowered};

verus! {

/// Whether two texts are the same but for the case of their letters: their
/// forms in small letters are equal. This holds of the letters of every
/// alphabet, not of `A` to `Z` alone.
pub open spec fn same_name(a: Seq<char>, b: Seq<char>) -> bool {
    lowered(a) == lowered(b)
}

/// Whether two texts are the same once the letters `A` to `Z` are taken as
/// `a` to `z`.
pub open spec fn same_plain(a: Seq<char>, b: Seq<char>) -> bool {
    a.len() == b.len() && forall|i: int| 0 <= i < a.len() ==> fold(#[trigger] a[i]) == fold(b[i])
}

/// Whether two texts are the same but for the case of their letters. For
/// two texts whose characters all lie below U+0080 that is to be the same
/// once `A` to `Z` are taken as `a` to `z`.
pub fn names_match(a: &str, b: &str) -> (same: bool)
    ensures
        same == same_name(a@, b@),
        is_plain(a@) && is_plain(b@) ==> same == same_plain(a@, b@),
{
    let left = lower_text(a);
    let right = lower_text(b);
    proof {
        if is_plain(a@) && is_plain(b@) {
            if left@ == right@ {
                assert forall|i: int| 0 <= i < a@.len() implies fold(#[trigger] a@[i]) == fold(
                    b@[i],
                ) by {
                    assert(left@[i] as int == fold(a@[i]));
                    assert(right@[i] as int == fold(b@[i]));
                }
            }
            if same_plain(a@, b@) {
                assert forall|i: int| 0 <= i < left@.len() implies left@[i] == right@[i] by {
                    assert(left@[i] as int == fold(a@[i]));
                    assert(right@[i] as int == fold(b@[i]));
                }
                assert(left@ =~= right@);
            }
        }
    }
    left == right
}

/// Matching names is an equivalence: every name matches itself, a match
/// holds in both directions, and two names that match a third match each
/// other.
pub proof fn law_same_name_is_an_equivalence(a: Seq<char>, b: Seq<char>, c: Seq<char>)
    ensures
        same_name(a, a),
        same_name(a, b) == same_name(b, a),
        same_name(a, b) && same_name(b, c) ==> same_name(a, c),
{
}

/// Whether row `i` of `rows` goes by `name`.
pub open spec fn is_row_of(rows: Seq<CountryView>, name: Seq<char>, i: int) -> bool {
    0 <= i < rows.len() && same_name(rows[i].name, name)
}

/// Whether some row of `rows` goes by `name`.
pub open spec fn has_row(rows: Seq<CountryView>, name: Seq<char>) -> bool {
    exists|i: int| is_row_of(rows, name, i)
}

/// The row of `rows` that goes by `name`, where there is one.
pub open spec fn row_of(rows: Seq<CountryView>, name: Seq<char>) -> int {
    choose|i: int| is_row_of(rows, name, i)
}

/// No two rows go by the same name.
pub open spec fn distinct_names(rows: Seq<CountryView>) -> bool {
    forall|i: int, j: int|
        0 <= i < j < rows.len() ==> !same_name(#[trigger] rows[i].name, #[trigger] rows[j].name)
}

/// Among rows with distinct names, a name picks its row.
pub proof fn lemma_row_is_unique(rows: Seq<CountryView>, name: Seq<char>, i: int, j: int)
    requires
        distinct_names(rows),
        is_row_of(rows, name, i),
        is_row_of(rows, name, j),
    ensures
        i == j,
{
    law_same_name_is_an_equivalence(rows[i].name, name, rows[j].name);
    law_same_name_is_an_equivalence(rows[j].name, name, rows[i].name);
    law_same_name_is_an_equivalence(name, rows[j].name, name);
    law_same_name_is_an_equivalence(name, rows[i].name, name);
    if i < j {
        assert(!same_name(rows[i].name, rows[j].name));
    } else if j < i {
        assert(!same_name(rows[j].name, rows[i].name));
    }
}

/// Names that match each other pick the same row.
pub proof fn law_lookup_ignores_case(rows: Seq<CountryView>, a: Seq<char>, b: Seq<char>)
    requires
        distinct_names(rows),
        same_name(a, b),
    ensures
        has_row(rows, a) == has_row(rows, b),
        has_row(rows, a) ==> row_of(rows, a) == row_of(rows, b),
{
    if has_row(rows, a) {
        let i = row_of(rows, a);
        law_same_name_is_an_equivalence(rows[i].name, a, b);
        assert(is_row_of(rows, b, i));
        lemma_row_is_unique(rows, b, i, row_of(rows, b));
    }
    if has_row(rows, b) {
        let i = row_of(rows, b);
        law_same_name_is_an_equivalence(a, b, a);
        law_same_name_is_an_equivalence(rows[i].name, b, a);
        assert(is_row_of(rows, a, i));
    }
}

/// The row that results where an incoming record meets the stored row of
/// its name: the identity, key and name, stays; every other field is the
/// incoming one.
pub open spec fn merged(stored: CountryView, incoming: CountryView) -> CountryView {
    CountryView { id: stored.id, name: stored.name, ..incoming }
}

/// The rows after one record was written: merged into the row of its name,
/// or added at the end where no row goes by its name.
pub open spec fn upserted(rows: Seq<CountryView>, incoming: CountryView) -> Seq<CountryView> {
    if has_row(rows, incoming.name) {
        rows.update(
            row_of(rows, incoming.name),
            merged(rows[row_of(rows, incoming.name)], incoming),
        )
    } else {
        rows.push(incoming)
    }
}

/// What one written record counts for: an added row counts once, a merged
/// row twice.
pub open spec fn upsert_count(rows: Seq<CountryView>, incoming: CountryView) -> nat {
    if has_row(rows, incoming.name) {
        2
    } else {
        1
    }
}

/// The rows after a batch of records was written, one after the other.
pub open spec fn upserted_all(rows: Seq<CountryView>, batch: Seq<CountryView>) -> Seq<CountryView>
    decreases batch.len(),
{
    if batch.len() == 0 {
        rows
    } else {
        upserted(upserted_all(rows, batch.drop_last()), batch.last())
    }
}

/// What a batch of records counts for, written one after the other.
pub open spec fn affected_by(rows: Seq<CountryView>, batch: Seq<CountryView>) -> nat
    decreases batch.len(),
{
    if batch.len() == 0 {
        0
    } else {
        affected_by(rows, batch.drop_last()) + upsert_count(
            upserted_all(rows, batch.drop_last()),
            batch.last(),
        )
    }
}

/// A count, held at the largest `usize`.
pub open spec fn capped(n: nat) -> nat {
    if n > usize::MAX {
        usize::MAX as nat
    } else {
        n
    }
}

/// One record more in a batch is one write more.
pub proof fn lemma_one_more(rows: Seq<CountryView>, batch: Seq<CountryView>, k: int)
    requires
        0 <= k < batch.len(),
    ensures
        upserted_all(rows, batch.take(k + 1)) == upserted(
            upserted_all(rows, batch.take(k)),
            batch[k],
        ),
        affected_by(rows, batch.take(k + 1)) == affected_by(rows, batch.take(k)) + upsert_count(
            upserted_all(rows, batch.take(k)),
            batch[k],
        ),
        affected_by(rows, batch.take(k + 1)) <= affected_by(rows, batch.take(k)) + 2,
{
    assert(batch.take(k + 1).drop_last() =~= batch.take(k));
    assert(batch.take(k + 1).last() == batch[k]);
}

/// Whether a row passes the filters: a region filter asks for a region that
/// is the same but for letter case, a currency filter for such a currency
/// code; a row without the field passes no filter on it.
pub open spec fn passes(
    row: CountryView,
    region: Option<Seq<char>>,
    currency: Option<Seq<char>>,
) -> bool {
    &&& region matches Some(wanted) ==> row.region matches Some(held) && same_name(held, wanted)
    &&& currency matches Some(wanted) ==> row.currency_code matches Some(held) && same_name(
        held,
        wanted,
    )
}

/// Whether a listing is in ascending order: only for the sort word
/// `gdp_asc`. Any other word, or none, lists in descending order.
pub open spec fn ascending(sort: Option<Seq<char>>) -> bool {
    sort == Some("gdp_asc"@)
}

/// Whether a country with estimated GDP `a` may stand before one with `b`.
/// Known values stand in ascending or descending order; an unknown value
/// stands after every known one, in either direction. Zero is a known value.
pub open spec fn in_order(a: Option<Decimal>, b: Option<Decimal>, asc: bool) -> bool {
    match (a, b) {
        (Some(x), Some(y)) => if asc {
            x@ <= y@
        } else {
            x@ >= y@
        },
        (Some(_), None) => true,
        (None, Some(_)) => false,
        (None, None) => true,
    }
}

/// Whether `listed` is the listing of `rows` under the filters, `picks`
/// giving the row of each entry: the entries are rows that pass, every row
/// that passes is an entry, the entries stand in order, and entries that
/// may stand either way round keep the order of the store.
pub open spec fn is_listing(
    rows: Seq<CountryView>,
    region: Option<Seq<char>>,
    currency: Option<Seq<char>>,
    asc: bool,
    picks: Seq<int>,
    listed: Seq<CountryView>,
) -> bool {
    &&& picks.len() == listed.len()
    &&& forall|k: int|
        0 <= k < picks.len() ==> 0 <= #[trigger] picks[k] < rows.len() && passes(
            rows[picks[k]],
            region,
            currency,
        ) && listed[k] == rows[picks[k]]
    &&& forall|i: int|
        0 <= i < rows.len() && passes(#[trigger] rows[i], region, currency) ==> exists|k: int|
            0 <= k < picks.len() && picks[k] == i
    &&& forall|k: int, l: int|
        0 <= k < l < picks.len() ==> in_order(
            rows[#[trigger] picks[k]].estimated_gdp,
            rows[#[trigger] picks[l]].estimated_gdp,
            asc,
        ) && (in_order(rows[picks[l]].estimated_gdp, rows[picks[k]].estimated_gdp, asc)
            ==> picks[k] < picks[l])
}

/// Whether a listing stands in order of estimated GDP.
pub open spec fn sorted_by_gdp(listed: Seq<CountryView>, asc: bool) -> bool {
    forall|k: int, l: int|
        0 <= k < l < listed.len() ==> in_order(
            #[trigger] listed[k].estimated_gdp,
            #[trigger] listed[l].estimated_gdp,
            asc,
        )
}

/// Whether a listing with this sort word is in ascending order: only for
/// the word `gdp_asc`.
pub fn sorts_ascending(sort: &Option<String>) -> (asc: bool)
    ensures
        asc == ascending(opt_text(*sort)),
{
    match sort {
        Some(word) => {
            let wanted = String::from_str("gdp_asc");
            *word == wanted
        },
        None => false,
    }
}

/// Whether a country with estimated GDP `a` may stand before one with `b`.
pub fn may_precede(a: Option<Decimal>, b: Option<Decimal>, asc: bool) -> (ok: bool)
    ensures
        ok == in_order(a, b, asc),
{
    match (a, b) {
        (Some(x), Some(y)) => {
            if asc {
                x.units <= y.units
            } else {
                x.units >= y.units
            }
        },
        (Some(_), None) => true,
        (None, Some(_)) => false,
        (None, None) => true,
    }
}

/// Whether an optional text is there and the same as `wanted` but for
/// letter case.
fn holds_text(held: &Option<String>, wanted: &str) -> (ok: bool)
    ensures
        ok == (opt_text(*held) matches Some(t) && same_name(t, wanted@)),
{
    match held {
        Some(text) => names_match(text.as_str(), wanted),
        None => false,
    }
}

/// Whether a country passes the filters.
pub fn row_passes(row: &Country, region: &Option<String>, currency: &Option<String>) -> (ok: bool)
    ensures
        ok == passes(row@, opt_text(*region), opt_text(*currency)),
{
    let region_ok = match region {
        Some(wanted) => holds_text(&row.region, wanted.as_str()),
        None => true,
    };
    let currency_ok = match currency {
        Some(wanted) => holds_text(&row.currency_code, wanted.as_str()),
        None => true,
    };
    region_ok && currency_ok
}

/// Whether text `a` stands at or before text `b` in the order of a
/// dictionary, character by character. For two timestamps of the store's
/// format this is the order of time as long as both years lie between 0000
/// and 9999, where every field has a fixed width; beyond those years it is
/// the order of the texts and no more.
pub open spec fn text_le(a: Seq<char>, b: Seq<char>) -> bool
    decreases a.len(),
{
    if a.len() == 0 {
        true
    } else if b.len() == 0 {
        false
    } else if a[0] != b[0] {
        (a[0] as int) < (b[0] as int)
    } else {
        text_le(a.drop_first(), b.drop_first())
    }
}

/// Of two texts one stands at or before the other.
pub proof fn lemma_text_le_total(a: Seq<char>, b: Seq<char>)
    ensures
        text_le(a, b) || text_le(b, a),
    decreases a.len(),
{
    if a.len() == 0 {
        assert(text_le(a, b));
    } else if b.len() == 0 {
        assert(text_le(b, a));
    } else if a[0] == b[0] {
        lemma_text_le_total(a.drop_first(), b.drop_first());
    } else {
        assert(a[0] as int != b[0] as int);
    }
}

/// The order of texts is transitive.
pub proof fn lemma_text_le_transitive(a: Seq<char>, b: Seq<char>, c: Seq<char>)
    requires
        text_le(a, b),
        text_le(b, c),
    ensures
        text_le(a, c),
    decreases a.len(),
{
    if a.len() > 0 && b.len() > 0 && c.len() > 0 && a[0] == b[0] && b[0] == c[0] {
        lemma_text_le_transitive(a.drop_first(), b.drop_first(), c.drop_first());
    }
}

/// The code of a character.
fn code_of(c: char) -> (code: u32)
    ensures
        code as int == c as int,
{
    c as u32
}

/// Whether text `a` stands at or before text `b` in the order of a
/// dictionary.
pub fn text_at_most(a: &str, b: &str) -> (ok: bool)
    ensures
        ok == text_le(a@, b@),
{
    let left = chars_of(a);
    let right = chars_of(b);
    let mut k: usize = 0;
    proof {
        assert(a@.skip(0) =~= a@);
        assert(b@.skip(0) =~= b@);
    }
    while k < left.len() && k < right.len()
        invariant
            left@ == a@,
            right@ == b@,
            k <= left@.len(),
            k <= right@.len(),
            text_le(a@, b@) == text_le(a@.skip(k as int), b@.skip(k as int)),
        decreases left@.len() - k,
    {
        proof {
            assert(a@.skip(k as int)[0] == a@[k as int]);
            assert(b@.skip(k as int)[0] == b@[k as int]);
            assert(a@.skip(k as int).drop_first() =~= a@.skip(k + 1));
            assert(b@.skip(k as int).drop_first() =~= b@.skip(k + 1));
        }
        if left[k] != right[k] {
            return code_of(left[k]) < code_of(right[k]);
        }
        k += 1;
    }
    k == left.len()
}

/// Whether `latest` is the greatest timestamp of `rows` in the order of
/// texts: the timestamp of a row, with the timestamp of every row at or
/// before it. It is the latest in time where the years of all rows lie
/// between 0000 and 9999.
pub open spec fn is_latest_stamp(rows: Seq<CountryView>, latest: Seq<char>) -> bool {
    &&& exists|i: int| 0 <= i < rows.len() && #[trigger] rows[i].last_refreshed_at == latest
    &&& forall|j: int| 0 <= j < rows.len() ==> text_le(#[trigger] rows[j].last_refreshed_at, latest)
}

/// The countries of the store, in the order in which they were first
/// written.
#[derive(Debug)]
pub struct CountryRepository {
    rows: Vec<Country>,
}

impl View for CountryRepository {
    type V = Seq<CountryView>;

    closed spec fn view(&self) -> Seq<CountryView> {
        self.rows@.map_values(|c: Country| c@)
    }
}

impl CountryRepository {
    /// No two countries of the store go by the same name.
    pub open spec fn wf(&self) -> bool {
        distinct_names(self@)
    }

    /// An empty store.
    pub fn new() -> (store: CountryRepository)
        ensures
            store.wf(),
            store@ == Seq::<CountryView>::empty(),
    {
        let store = CountryRepository { rows: Vec::new() };
        assert(store@ =~= Seq::<CountryView>::empty());
        store
    }

    /// The row that goes by `name`, if there is one.
    fn find(&self, name: &str) -> (found: Option<usize>)
        ensures
            match found {
                Some(i) => is_row_of(self@, name@, i as int),
                None => !has_row(self@, name@),
            },
    {
        let mut k: usize = 0;
        while k < self.rows.len()
            invariant
                k <= self.rows@.len(),
                self@.len() == self.rows@.len(),
                forall|i: int| 0 <= i < k ==> !is_row_of(self@, name@, i),
            decreases self.rows@.len() - k,
        {
            assert(self@[k as int] == self.rows@[k as int]@);
            if names_match(self.rows[k].name.as_str(), name) {
                return Some(k);
            }
            k += 1;
        }
        None
    }

    /// The country that goes by `name`, whatever the case of its letters.
    pub fn get_by_name(&self, name: &str) -> (country: Option<Country>)
        requires
            self.wf(),
        ensures
            country.is_some() == has_row(self@, name@),
            country matches Some(c) ==> c@ == self@[row_of(self@, name@)] && is_row_of(
                self@,
                name@,
                row_of(self@, name@),
            ),
    {
        match self.find(name) {
            Some(i) => {
                let country = self.rows[i].clone();
                proof {
                    assert(self@[i as int] == self.rows@[i as int]@);
                    self.lemma_found(name@, i as int);
                }
                Some(country)
            },
            None => None,
        }
    }

    /// Removes the country that goes by `name`, whatever the case of its
    /// letters, and says whether there was one. The other countries stay, in
    /// their order.
    pub fn delete_by_name(&mut self, name: &str) -> (deleted: bool)
        requires
            old(self).wf(),
        ensures
            final(self).wf(),
            deleted == has_row(old(self)@, name@),
            deleted ==> final(self)@ == old(self)@.remove(row_of(old(self)@, name@)),
            !deleted ==> final(self)@ == old(self)@,
            deleted ==> !has_row(final(self)@, name@),
    {
        match self.find(name) {
            Some(i) => {
                proof {
                    self.lemma_found(name@, i as int);
                }
                self.rows.remove(i);
                proof {
                    let before = old(self)@;
                    assert(self@ =~= before.remove(i as int));
                    assert forall|a: int, b: int| 0 <= a < b < self@.len() implies !same_name(
                        #[trigger] self@[a].name,
                        #[trigger] self@[b].name,
                    ) by {
                        let a0 = if a < i { a } else { a + 1 };
                        let b0 = if b < i { b } else { b + 1 };
                        assert(self@[a] == before[a0]);
                        assert(self@[b] == before[b0]);
                    }
                    assert forall|j: int| !is_row_of(self@, name@, j) by {
                        if is_row_of(self@, name@, j) {
                            let j0 = if j < i { j } else { j + 1 };
                            assert(self@[j] == before[j0]);
                            assert(is_row_of(before, name@, j0));
                            lemma_row_is_unique(before, name@, j0, i as int);
                        }
                    }
                }
                true
            },
            None => false,
        }
    }

    /// Writes one record: merges it into the country of its name, or adds it.
    /// Says what the write counts for.
    pub fn upsert(&mut self, country: &Country) -> (affected: usize)
        requires
            old(self).wf(),
        ensures
            final(self).wf(),
            final(self)@ == upserted(old(self)@, country@),
            affected == upsert_count(old(self)@, country@),
    {
        let ghost before = self@;
        match self.find(country.name.as_str()) {
            Some(i) => {
                proof {
                    self.lemma_found(country@.name, i as int);
                    assert(before[i as int] == self.rows@[i as int]@);
                }
                let mut row = country.clone();
                row.id = self.rows[i].id;
                row.name = self.rows[i].name.clone();
                self.rows.set(i, row);
                proof {
                    assert(row@ == merged(before[i as int], country@));
                    assert(self@ =~= before.update(i as int, row@));
                    assert forall|a: int, b: int| 0 <= a < b < self@.len() implies !same_name(
                        #[trigger] self@[a].name,
                        #[trigger] self@[b].name,
                    ) by {
                        assert(self@[a].name == before[a].name);
                        assert(self@[b].name == before[b].name);
                    }
                }
                2
            },
            None => {
                let row = country.clone();
                self.rows.push(row);
                proof {
                    assert(self@ =~= before.push(country@));
                    assert forall|a: int, b: int| 0 <= a < b < self@.len() implies !same_name(
                        #[trigger] self@[a].name,
                        #[trigger] self@[b].name,
                    ) by {
                        if b == before.len() {
                            assert(self@[a] == before[a]);
                            assert(!is_row_of(before, country@.name, a));
                        } else {
                            assert(self@[a] == before[a]);
                            assert(self@[b] == before[b]);
                        }
                    }
                }
                1
            },
        }
    }

    /// Writes a batch of records in chunks of at most a hundred, in order,
    /// each record merged into the country of its name or added. Returns what
    /// the writes count for, an added country once and a merged one twice, so
    /// that the count may exceed the number of countries written. An empty
    /// batch writes nothing and counts zero.
    pub fn insert_or_update(&mut self, countries: &Vec<Country>) -> (affected: usize)
        requires
            old(self).wf(),
        ensures
            final(self).wf(),
            final(self)@ == upserted_all(old(self)@, country_views(countries@)),
            affected == capped(affected_by(old(self)@, country_views(countries@))),
            countries@.len() == 0 ==> affected == 0 && final(self)@ == old(self)@,
    {
        let ghost before = self@;
        let ghost batch = country_views(countries@);
        let total = countries.len();
        let (mut run, mut action) = BatchPersister::begin(total);
        let ghost mut done: int = 0;
        proof {
            assert(batch.take(0) =~= Seq::<CountryView>::empty());
            if total == 0 {
                assert(batch =~= Seq::<CountryView>::empty());
            }
        }
        while run.status == PersistStatus::Waiting
            invariant
                self.wf(),
                run.wf(),
                run.total == total,
                total == countries@.len(),
                batch == country_views(countries@),
                batch.len() == total,
                run.status != PersistStatus::Failed,
                action == run.pending(),
                0 <= done <= total,
                run.status == PersistStatus::Waiting ==> done == chunk_start(
                    run.written_chunks as nat,
                ),
                run.status == PersistStatus::Finished ==> done == total,
                self@ == upserted_all(before, batch.take(done)),
                run.affected == capped(affected_by(before, batch.take(done))),
            decreases chunk_total(total as nat) - run.written_chunks,
        {
            let (start, end) = chunk_bounds(total, run.written_chunks);
            let mut counted: u64 = 0;
            let mut k: usize = start;
            while k < end
                invariant
                    self.wf(),
                    start <= k <= end <= total,
                    end - start <= 100,
                    total == countries@.len(),
                    batch == country_views(countries@),
                    self@ == upserted_all(before, batch.take(k as int)),
                    affected_by(before, batch.take(k as int)) == affected_by(
                        before,
                        batch.take(start as int),
                    ) + counted,
                    counted <= 2 * (k - start),
                decreases end - k,
            {
                proof {
                    lemma_one_more(before, batch, k as int);
                    assert(batch[k as int] == countries@[k as int]@);
                }
                let one = self.upsert(&countries[k]);
                counted = counted + one as u64;
                k += 1;
            }
            proof {
                law_chunks_tile_the_batch(total as nat, run.written_chunks as nat);
                done = end as int;
            }
            action = run.advance(UpsertOutcome::Affected(counted));
        }
        proof {
            assert(batch.take(total as int) =~= batch);
        }
        run.affected
    }

    /// Lists the countries that pass the filters, by estimated GDP:
    /// ascending for the sort word `gdp_asc`, else descending. Countries
    /// whose estimate is unknown come last either way, and countries that
    /// may stand either way round keep the order of the store.
    pub fn filter(&self, filters: &CountryFilters) -> (listed: Vec<Country>)
        ensures
            exists|picks: Seq<int>|
                is_listing(
                    self@,
                    opt_text(filters.region),
                    opt_text(filters.currency),
                    ascending(opt_text(filters.sort)),
                    picks,
                    country_views(listed@),
                ),
            sorted_by_gdp(country_views(listed@), ascending(opt_text(filters.sort))),
    {
        let ghost rows = self@;
        let ghost region = opt_text(filters.region);
        let ghost currency = opt_text(filters.currency);
        let asc = sorts_ascending(&filters.sort);
        let mut picks: Vec<usize> = Vec::new();
        let mut i: usize = 0;
        while i < self.rows.len()
            invariant
                rows == self@,
                rows.len() == self.rows@.len(),
                region == opt_text(filters.region),
                currency == opt_text(filters.currency),
                i <= rows.len(),
                forall|k: int|
                    0 <= k < picks@.len() ==> #[trigger] picks@[k] < i && passes(
                        rows[picks@[k] as int],
                        region,
                        currency,
                    ),
                forall|j: int|
                    0 <= j < i && passes(#[trigger] rows[j], region, currency) ==> exists|k: int|
                        0 <= k < picks@.len() && picks@[k] == j,
                forall|k: int, l: int|
                    0 <= k < l < picks@.len() ==> in_order(
                        rows[#[trigger] picks@[k] as int].estimated_gdp,
                        rows[#[trigger] picks@[l] as int].estimated_gdp,
                        asc,
                    ) && (in_order(
                        rows[picks@[l] as int].estimated_gdp,
                        rows[picks@[k] as int].estimated_gdp,
                        asc,
                    ) ==> picks@[k] < picks@[l]),
            decreases rows.len() - i,
        {
            assert(rows[i as int] == self.rows@[i as int]@);
            let ghost before = picks@;
            if row_passes(&self.rows[i], &filters.region, &filters.currency) {
                let key = self.rows[i].estimated_gdp;
                let mut at: usize = picks.len();
                while at > 0 && !may_precede(self.rows[picks[at - 1]].estimated_gdp, key, asc)
                    invariant
                        rows == self@,
                        rows.len() == self.rows@.len(),
                        picks@ == before,
                        at <= picks@.len(),
                        key == rows[i as int].estimated_gdp,
                        i < rows.len(),
                        forall|k: int| 0 <= k < picks@.len() ==> #[trigger] picks@[k] < i,
                        forall|l: int|
                            at <= l < picks@.len() ==> !in_order(
                                rows[#[trigger] picks@[l] as int].estimated_gdp,
                                key,
                                asc,
                            ),
                    decreases at,
                {
                    assert(rows[picks@[at - 1] as int] == self.rows@[picks@[at - 1] as int]@);
                    at -= 1;
                }
                proof {
                    if at > 0 {
                        assert(rows[picks@[at - 1] as int] == self.rows@[picks@[at - 1] as int]@);
                    }
                }
                picks.insert(at, i);
                proof {
                    let after = picks@;
                    assert(after == before.insert(at as int, i));
                    assert forall|k: int, l: int| 0 <= k < l < after.len() implies in_order(
                        rows[#[trigger] after[k] as int].estimated_gdp,
                        rows[#[trigger] after[l] as int].estimated_gdp,
                        asc,
                    ) && (in_order(
                        rows[after[l] as int].estimated_gdp,
                        rows[after[k] as int].estimated_gdp,
                        asc,
                    ) ==> after[k] < after[l]) by {
                        let k0 = if k < at { k } else { k - 1 };
                        let l0 = if l < at { l } else { l - 1 };
                        if k == at {
                            assert(after[l] == before[l0]);
                            assert(!in_order(rows[before[l0] as int].estimated_gdp, key, asc));
                        } else if l == at {
                            assert(after[k] == before[k0]);
                            assert(before[k0] < i);
                            if k0 < at - 1 {
                                assert(in_order(
                                    rows[before[k0] as int].estimated_gdp,
                                    rows[before[at - 1] as int].estimated_gdp,
                                    asc,
                                ));
                            }
                        } else {
                            assert(after[k] == before[k0]);
                            assert(after[l] == before[l0]);
                        }
                    }
                    assert forall|j: int|
                        0 <= j < i + 1 && passes(
                            #[trigger] rows[j],
                            region,
                            currency,
                        ) implies exists|k: int| 0 <= k < after.len() && after[k] == j by {
                        if j == i {
                            assert(after[at as int] == j);
                        } else {
                            let k0 = choose|k: int| 0 <= k < before.len() && before[k] == j;
                            let k1 = if k0 < at { k0 } else { k0 + 1 };
                            assert(after[k1] == j);
                        }
                    }
                    assert forall|k: int| 0 <= k < after.len() implies #[trigger] after[k] < i + 1
                        && passes(rows[after[k] as int], region, currency) by {
                        if k != at {
                            let k0 = if k < at { k } else { k - 1 };
                            assert(after[k] == before[k0]);
                        }
                    }
                }
            }
            i += 1;
        }
        let mut listed: Vec<Country> = Vec::new();
        let mut k: usize = 0;
        while k < picks.len()
            invariant
                rows == self@,
                rows.len() == self.rows@.len(),
                k <= picks@.len(),
                listed@.len() == k,
                forall|j: int| 0 <= j < picks@.len() ==> #[trigger] picks@[j] < rows.len(),
                forall|j: int| 0 <= j < k ==> #[trigger] listed@[j]@ == rows[picks@[j] as int],
            decreases picks@.len() - k,
        {
            assert(rows[picks@[k as int] as int] == self.rows@[picks@[k as int] as int]@);
            listed.push(self.rows[picks[k]].clone());
            k += 1;
        }
        proof {
            let chosen = picks@.map_values(|p: usize| p as int);
            let views = country_views(listed@);
            assert forall|j: int| 0 <= j < chosen.len() implies 0 <= #[trigger] chosen[j]
                < rows.len() && passes(rows[chosen[j]], region, currency) && views[j]
                == rows[chosen[j]] by {
                assert(chosen[j] == picks@[j]);
                assert(views[j] == listed@[j]@);
            }
            assert forall|a: int|
                0 <= a < rows.len() && passes(
                    #[trigger] rows[a],
                    region,
                    currency,
                ) implies exists|j: int| 0 <= j < chosen.len() && chosen[j] == a by {
                let j = choose|j: int| 0 <= j < picks@.len() && picks@[j] == a;
                assert(chosen[j] == a);
            }
            assert forall|a: int, b: int| 0 <= a < b < chosen.len() implies in_order(
                rows[#[trigger] chosen[a]].estimated_gdp,
                rows[#[trigger] chosen[b]].estimated_gdp,
                asc,
            ) && (in_order(rows[chosen[b]].estimated_gdp, rows[chosen[a]].estimated_gdp, asc)
                ==> chosen[a] < chosen[b]) by {
                assert(chosen[a] == picks@[a]);
                assert(chosen[b] == picks@[b]);
            }
            assert(is_listing(rows, region, currency, asc, chosen, views));
            assert forall|a: int, b: int| 0 <= a < b < views.len() implies in_order(
                #[trigger] views[a].estimated_gdp,
                #[trigger] views[b].estimated_gdp,
                asc,
            ) by {
                assert(views[a] == rows[chosen[a]]);
                assert(views[b] == rows[chosen[b]]);
            }
        }
        listed
    }

    /// The number of countries in the store.
    pub fn count(&self) -> (total: i64)
        ensures
            total == (if self@.len() > i64::MAX {
                i64::MAX as int
            } else {
                self@.len() as int
            }),
    {
        let n: u64 = self.rows.len() as u64;
        assert(self@.len() == self.rows@.len());
        if n > 0x7FFF_FFFF_FFFF_FFFF {
            i64::MAX
        } else {
            n as i64
        }
    }

    /// The greatest timestamp among the countries of the store, by the order
    /// of texts, which is the latest where all years lie between 0000 and
    /// 9999; none for an empty store.
    pub fn get_last_refresh_time(&self) -> (latest: Option<String>)
        ensures
            latest.is_some() == (self@.len() > 0),
            latest matches Some(stamp) ==> is_latest_stamp(self@, stamp@),
    {
        if self.rows.len() == 0 {
            assert(self@.len() == 0);
            return None;
        }
        let ghost rows = self@;
        let mut best: usize = 0;
        let mut k: usize = 1;
        proof {
            lemma_text_le_total(rows[0].last_refreshed_at, rows[0].last_refreshed_at);
        }
        while k < self.rows.len()
            invariant
                rows == self@,
                rows.len() == self.rows@.len(),
                1 <= k <= rows.len(),
                best < k,
                forall|j: int|
                    0 <= j < k ==> text_le(
                        #[trigger] rows[j].last_refreshed_at,
                        rows[best as int].last_refreshed_at,
                    ),
            decreases rows.len() - k,
        {
            assert(rows[k as int] == self.rows@[k as int]@);
            assert(rows[best as int] == self.rows@[best as int]@);
            if !text_at_most(
                self.rows[k].last_refreshed_at.as_str(),
                self.rows[best].last_refreshed_at.as_str(),
            ) {
                proof {
                    let newer = rows[k as int].last_refreshed_at;
                    let older = rows[best as int].last_refreshed_at;
                    lemma_text_le_total(newer, older);
                    lemma_text_le_total(newer, newer);
                    assert forall|j: int| 0 <= j < k + 1 implies text_le(
                        #[trigger] rows[j].last_refreshed_at,
                        newer,
                    ) by {
                        if j < k {
                            lemma_text_le_transitive(rows[j].last_refreshed_at, older, newer);
                        }
                    }
                }
                best = k;
            }
            k += 1;
        }
        let stamp = self.rows[best].last_refreshed_at.clone();
        proof {
            assert(rows[best as int] == self.rows@[best as int]@);
            assert(rows[best as int].last_refreshed_at == stamp@);
        }
        Some(stamp)
    }

    /// A row that goes by a name is the row that the name picks.
    proof fn lemma_found(&self, name: Seq<char>, i: int)
        requires
            is_row_of(self@, name, i),
        ensures
            has_row(self@, name),
            is_row_of(self@, name, row_of(self@, name)),
            self.wf() ==> row_of(self@, name) == i,
    {
        if self.wf() {
            lemma_row_is_unique(self@, name, i, row_of(self@, name));
        }
    }
}

} // verus!
