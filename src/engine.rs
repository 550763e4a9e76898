//! The shortener engine: stores a URL under the next identifier and hands
//! out that identifier's short code; looks a stored URL up by identifier.
use vstd::prelude::*;

use crate::address::ParsedUrl;
use crate::codec::{decoded, digits_of, encode, lemma_round_trip, lemma_value_of_digits};

verus! {

/// A failure of the engine.
#[derive(Clone, Copy, Debug, PartialEq, Eq, Structural)]
pub enum ShortenerError {
    /// No record has the identifier, or its URL is absent.
    NotFound,
    /// The storage layer failed otherwise.
    StorageFailure,
}

/// A failure that the storage layer reports.
#[derive(Clone, Copy, Debug, PartialEq, Eq, Structural)]
pub enum StoreError {
    /// The selection matched no record.
    RowNotFound,
    /// Any other storage fault: connectivity, I/O, a constraint.
    Failure,
}

/// An engine outcome seen through the views of its strings.
pub open spec fn outcome_view(r: Result<String, ShortenerError>) -> Result<Seq<char>, ShortenerError> {
    match r {
        Ok(s) => Ok(s@),
        Err(e) => Err(e),
    }
}

/// The outcome of `shorten`, given what the insert reported.
pub open spec fn code_of_insert(inserted: Result<i64, StoreError>) -> Result<Seq<char>, ShortenerError> {
    match inserted {
        Ok(id) => Ok(digits_of((id as u64) as nat)),
        Err(_) => Err(ShortenerError::StorageFailure),
    }
}

/// The outcome of `resolve`, given what the selection reported.
pub open spec fn url_of_select(fetched: Result<Option<Seq<char>>, StoreError>) -> Result<Seq<char>, ShortenerError> {
    match fetched {
        Ok(Some(u)) => Ok(u),
        Ok(None) => Err(ShortenerError::NotFound),
        Err(StoreError::RowNotFound) => Err(ShortenerError::NotFound),
        Err(StoreError::Failure) => Err(ShortenerError::StorageFailure),
    }
}

/// The second half of `shorten`: the short code of the identifier that the
/// store assigned, or `StorageFailure` where the insert failed.
pub fn code_of_inserted(inserted: Result<i64, StoreError>) -> (r: Result<String, ShortenerError>)
    ensures
        outcome_view(r) == code_of_insert(inserted),
{
    match inserted {
        Ok(id) => Ok(encode(id as u64)),
        Err(_) => Err(ShortenerError::StorageFailure),
    }
}

/// The second half of `resolve`: the stored URL; `NotFound` where no record
/// matched or its URL is absent; `StorageFailure` on any other fault.
pub fn url_of_fetched(fetched: Result<Option<String>, StoreError>) -> (r: Result<String, ShortenerError>)
    ensures
        outcome_view(r) == url_of_select(
            match fetched {
                Ok(Some(u)) => Ok(Some(u@)),
                Ok(None) => Ok(None),
                Err(e) => Err(e),
            },
        ),
{
    match fetched {
        Ok(Some(u)) => Ok(u),
        Ok(None) => Err(ShortenerError::NotFound),
        Err(StoreError::RowNotFound) => Err(ShortenerError::NotFound),
        Err(StoreError::Failure) => Err(ShortenerError::StorageFailure),
    }
}

/// The URL that the table `rows` holds under `id`: row `k` holds the
/// identifier `k + 1`.
pub open spec fn lookup(rows: Seq<Seq<char>>, id: int) -> Result<Seq<char>, ShortenerError> {
    if 1 <= id <= rows.len() {
        Ok(rows[id - 1])
    } else {
        Err(ShortenerError::NotFound)
    }
}

/// The table and the outcome after shortening `url` against the table `rows`:
/// a new row under the next identifier, and that identifier's code.
pub open spec fn shortened(rows: Seq<Seq<char>>, url: Seq<char>) -> (Seq<Seq<char>>, Result<Seq<char>, ShortenerError>) {
    if rows.len() < i64::MAX {
        (rows.push(url), Ok(digits_of((rows.len() + 1) as nat)))
    } else {
        (rows, Err(ShortenerError::StorageFailure))
    }
}

/// The table and the outcomes after shortening each of `urls` in turn.
pub open spec fn shortened_all(rows: Seq<Seq<char>>, urls: Seq<Seq<char>>) -> (Seq<Seq<char>>, Seq<Result<Seq<char>, ShortenerError>>)
    decreases urls.len(),
{
    if urls.len() == 0 {
        (rows, Seq::empty())
    } else {
        let (next, code) = shortened(rows, urls[0]);
        let (last, codes) = shortened_all(next, urls.drop_first());
        (last, seq![code] + codes)
    }
}

/// An in-process storage table with the engine's two operations on it: the
/// store behind the engine where no database is attached.
pub struct MemoryShortener {
    rows: Vec<String>,
}

impl View for MemoryShortener {
    type V = Seq<Seq<char>>;

    closed spec fn view(&self) -> Seq<Seq<char>> {
        self.rows@.map_values(|s: String| s@)
    }
}

impl MemoryShortener {
    /// An empty table.
    pub fn new() -> (r: MemoryShortener)
        ensures
            r@ == Seq::<Seq<char>>::empty(),
    {
        let r = MemoryShortener { rows: Vec::new() };
        assert(r@ =~= Seq::<Seq<char>>::empty());
        r
    }

    /// Inserts a record holding `url` and returns the identifier assigned to
    /// it, the next after the last; a failure once identifiers run out.
    pub fn insert_url(&mut self, url: &str) -> (r: Result<i64, StoreError>)
        ensures
            old(self)@.len() < i64::MAX ==> r == Ok::<i64, StoreError>((old(self)@.len() + 1) as i64)
                && final(self)@ == old(self)@.push(url@),
            old(self)@.len() >= i64::MAX ==> r == Err::<i64, StoreError>(StoreError::Failure)
                && final(self)@ == old(self)@,
    {
        let n = self.rows.len();
        if n as u64 >= i64::MAX as u64 {
            return Err(StoreError::Failure);
        }
        self.rows.push(url.to_owned());
        assert(self@ =~= old(self)@.push(url@));
        Ok(n as i64 + 1)
    }

    /// The record under `id`: its URL, or `RowNotFound` where none has it.
    pub fn select_url(&self, id: i64) -> (r: Result<Option<String>, StoreError>)
        ensures
            1 <= id <= self@.len() ==> (r matches Ok(Some(u)) && u@ == self@[id - 1]),
            !(1 <= id <= self@.len()) ==> r == Err::<Option<String>, StoreError>(StoreError::RowNotFound),
    {
        if id < 1 || id as u64 > self.rows.len() as u64 {
            return Err(StoreError::RowNotFound);
        }
        let k = (id - 1) as usize;
        Ok(Some(self.rows[k].clone()))
    }

    /// Stores `url` under the next identifier and returns that identifier's
    /// short code; `StorageFailure` once identifiers run out.
    pub fn shorten(&mut self, url: &ParsedUrl) -> (r: Result<String, ShortenerError>)
        ensures
            (final(self)@, outcome_view(r)) == shortened(old(self)@, url@),
    {
        let inserted = self.insert_url(url.as_str());
        code_of_inserted(inserted)
    }

    /// The URL stored under `id`; `NotFound` where no record has it.
    pub fn get_real_url(&self, id: i64) -> (r: Result<String, ShortenerError>)
        ensures
            outcome_view(r) == lookup(self@, id as int),
    {
        let fetched = self.select_url(id);
        url_of_fetched(fetched)
    }
}

/// Shortening `url` adds a record under the next identifier and leaves the
/// others as they were; the code handed out decodes to that identifier,
/// which resolves to exactly `url`.
pub proof fn lemma_shorten_resolves(rows: Seq<Seq<char>>, url: Seq<char>)
    requires
        rows.len() < i64::MAX,
    ensures
        ({
            let (after, out) = shortened(rows, url);
            &&& out is Ok
            &&& decoded(out->Ok_0) == Some((rows.len() + 1) as u64)
            &&& lookup(after, rows.len() + 1int) == Ok::<Seq<char>, ShortenerError>(url)
            &&& forall|id: int| id != rows.len() + 1 ==> #[trigger] lookup(after, id) == lookup(rows, id)
        }),
{
    let n = (rows.len() + 1) as u64;
    lemma_round_trip(n, n);
    let (after, out) = shortened(rows, url);
    assert forall|id: int| id != rows.len() + 1 implies #[trigger] lookup(after, id) == lookup(rows, id) by {
        if 1 <= id <= rows.len() {
            assert(after[id - 1] == rows[id - 1]);
        }
    }
}

/// Shortening the same URL twice creates two records: the two codes differ,
/// and each decodes to an identifier that resolves to that URL.
pub proof fn lemma_no_dedup(rows: Seq<Seq<char>>, url: Seq<char>)
    requires
        rows.len() + 1 < i64::MAX,
    ensures
        ({
            let (first, c1) = shortened(rows, url);
            let (second, c2) = shortened(first, url);
            &&& c1 is Ok && c2 is Ok
            &&& c1->Ok_0 != c2->Ok_0
            &&& (decoded(c1->Ok_0) matches Some(a) && lookup(second, a as int) == Ok::<Seq<char>, ShortenerError>(url))
            &&& (decoded(c2->Ok_0) matches Some(b) && lookup(second, b as int) == Ok::<Seq<char>, ShortenerError>(url))
        }),
{
    let (first, c1) = shortened(rows, url);
    lemma_shorten_resolves(rows, url);
    lemma_shorten_resolves(first, url);
    let a = (rows.len() + 1) as u64;
    let b = (rows.len() + 2) as u64;
    lemma_round_trip(a, b);
    assert(lookup(first, a as int) == Ok::<Seq<char>, ShortenerError>(url));
}

/// Shortening `urls` one after another appends them to the table in order
/// and hands out the codes of consecutive identifiers, starting after the
/// last one: no two alike, none skipped.
pub proof fn lemma_consecutive_identifiers(rows: Seq<Seq<char>>, urls: Seq<Seq<char>>)
    requires
        rows.len() + urls.len() <= i64::MAX,
    ensures
        ({
            let (after, codes) = shortened_all(rows, urls);
            &&& after == rows + urls
            &&& codes.len() == urls.len()
            &&& forall|i: int| 0 <= i < codes.len() ==> #[trigger] codes[i] == Ok::<Seq<char>, ShortenerError>(
                digits_of((rows.len() + i + 1) as nat))
            &&& forall|i: int| 0 <= i < codes.len() ==> decoded(#[trigger] codes[i]->Ok_0) == Some((rows.len() + i + 1) as u64)
            &&& forall|i: int, j: int| 0 <= i < codes.len() && 0 <= j < codes.len() && i != j ==> #[trigger] codes[i] != #[trigger] codes[j]
        }),
    decreases urls.len(),
{
    let (after, codes) = shortened_all(rows, urls);
    if urls.len() == 0 {
        assert(rows + urls =~= rows);
    } else {
        let (next, code) = shortened(rows, urls[0]);
        lemma_consecutive_identifiers(next, urls.drop_first());
        let (last, rest) = shortened_all(next, urls.drop_first());
        assert(rows + urls =~= next + urls.drop_first());
        assert forall|i: int| 0 <= i < codes.len() implies #[trigger] codes[i] == Ok::<Seq<char>, ShortenerError>(
            digits_of((rows.len() + i + 1) as nat)) by {
            if i > 0 {
                assert(codes[i] == rest[i - 1]);
            }
        }
        assert forall|i: int| 0 <= i < codes.len() implies decoded(#[trigger] codes[i]->Ok_0) == Some((rows.len() + i + 1) as u64) by {
            let n = (rows.len() + i + 1) as u64;
            lemma_round_trip(n, n);
        }
        assert forall|i: int, j: int| 0 <= i < codes.len() && 0 <= j < codes.len() && i != j implies #[trigger] codes[i] != #[trigger] codes[j] by {
            lemma_value_of_digits((rows.len() + i + 1) as nat);
            lemma_value_of_digits((rows.len() + j + 1) as nat);
        }
    }
}

} // verus!
