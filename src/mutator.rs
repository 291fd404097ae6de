//! The stock decrement: one conditional write per request, whose guard
//! ("subtract only if enough units remain") is evaluated by the store itself.
use vstd::prelude::*;
use crate::schema::{Product, ProductThing};

verus! {

/// Why a stock decrement was refused.
#[derive(Debug, Clone, Copy, PartialEq, Eq, Structural)]
pub enum MutationError {
    /// The request names no product or asks for no positive number of units.
    InvalidRequest,
    /// No product has this identifier.
    NotFound,
    /// The product holds fewer units than requested.
    InsufficientStock,
    /// The store could not be reached or failed to answer.
    StoreUnavailable,
}

/// What the store reports for one conditional decrement request.
#[derive(Debug, Clone, Copy, PartialEq, Eq, Structural)]
pub enum WriteReply {
    /// The guard held and the write was applied; the new unit count.
    Applied { units_after: u16 },
    /// The record exists, but the guard matched no row.
    Unmatched,
    /// No record has this identifier.
    Missing,
    /// The request did not reach the store or the store failed.
    Unavailable,
}

/// The guard of the conditional write: a positive request that the
/// current unit count covers.
pub open spec fn decrement_applies(units: int, requested: int) -> bool {
    0 < requested <= units
}

/// Whether a request is malformed before it ever reaches the store.
pub open spec fn request_invalid(product_id: Seq<char>, requested: int) -> bool {
    product_id.len() == 0 || requested <= 0
}

/// Checks a decrement request; nothing is sent to the store when it fails.
pub fn validate_decrement(product_id: &str, requested: i64) -> (r: Result<(), MutationError>)
    ensures
        r is Ok <==> !request_invalid(product_id@, requested as int),
        r is Err ==> r == Err::<(), MutationError>(MutationError::InvalidRequest),
{
    if product_id.is_empty() || requested <= 0 {
        Err(MutationError::InvalidRequest)
    } else {
        Ok(())
    }
}

/// The caller-facing result of a conditional write reply.
pub open spec fn reply_outcome(reply: WriteReply) -> Result<u16, MutationError> {
    match reply {
        WriteReply::Applied { units_after } => Ok(units_after),
        WriteReply::Unmatched => Err(MutationError::InsufficientStock),
        WriteReply::Missing => Err(MutationError::NotFound),
        WriteReply::Unavailable => Err(MutationError::StoreUnavailable),
    }
}

/// The reply that a conditional write reports, from what the store
/// returned: the updated count if the guarded write matched a row, and
/// whether the record exists.
pub open spec fn reply_spec(updated: Option<u16>, exists: bool) -> WriteReply {
    match updated {
        Some(units_after) => WriteReply::Applied { units_after },
        None => if exists { WriteReply::Unmatched } else { WriteReply::Missing },
    }
}

/// Classifies the store's answer to a conditional write.
pub fn reply_of(updated: Option<u16>, exists: bool) -> (r: WriteReply)
    ensures
        r == reply_spec(updated, exists),
{
    match updated {
        Some(units_after) => WriteReply::Applied { units_after },
        None => if exists {
            WriteReply::Unmatched
        } else {
            WriteReply::Missing
        },
    }
}

/// Maps the store's reply to the caller's result. Failures are reported as
/// they are, never retried here.
pub fn interpret_reply(reply: WriteReply) -> (r: Result<u16, MutationError>)
    ensures
        r == reply_outcome(reply),
{
    match reply {
        WriteReply::Applied { units_after } => Ok(units_after),
        WriteReply::Unmatched => Err(MutationError::InsufficientStock),
        WriteReply::Missing => Err(MutationError::NotFound),
        WriteReply::Unavailable => Err(MutationError::StoreUnavailable),
    }
}

/// The HTTP status that answers a stock update: 400 for a malformed
/// request, 404 for a missing product or too little stock, 500 when the
/// store failed.
pub open spec fn status_spec(r: Result<u16, MutationError>) -> u16 {
    match r {
        Ok(_) => 200,
        Err(MutationError::InvalidRequest) => 400,
        Err(MutationError::NotFound) => 404,
        Err(MutationError::InsufficientStock) => 404,
        Err(MutationError::StoreUnavailable) => 500,
    }
}

/// The HTTP status that answers a stock update result.
pub fn status_of(r: &Result<u16, MutationError>) -> (code: u16)
    ensures
        code == status_spec(*r),
{
    match r {
        Ok(_) => 200,
        Err(MutationError::InvalidRequest) => 400,
        Err(MutationError::NotFound) => 404,
        Err(MutationError::InsufficientStock) => 404,
        Err(MutationError::StoreUnavailable) => 500,
    }
}

/// Whether product `i` of `ps` has identifier `id`.
pub open spec fn has_id(ps: Seq<Product>, i: int, id: Seq<char>) -> bool {
    0 <= i < ps.len() && ps[i].id.id@ == id
}

/// No two products share an identifier.
pub open spec fn ids_unique(ps: Seq<Product>) -> bool {
    forall|i: int, j: int|
        #![trigger ps[i], ps[j]]
        0 <= i < ps.len() && 0 <= j < ps.len() && ps[i].id.id@ == ps[j].id.id@ ==> i == j
}

/// The unit count of the product with identifier `id`, if there is one.
pub open spec fn stock_of(ps: Seq<Product>, id: Seq<char>) -> Option<u16> {
    if exists|i: int| has_id(ps, i, id) {
        Some(ps[choose|i: int| has_id(ps, i, id)].units)
    } else {
        None
    }
}

/// `p` with its unit count replaced.
pub open spec fn with_units(p: Product, units: u16) -> Product {
    Product { id: p.id, name: p.name, price: p.price, units }
}

/// `ps` after the product `id` has been set to `units`; the others stay.
pub open spec fn set_units(ps: Seq<Product>, id: Seq<char>, units: u16) -> Seq<Product> {
    ps.map_values(|p: Product| if p.id.id@ == id { with_units(p, units) } else { p })
}

/// `ps` after `p` has been stored: it replaces the product with the same
/// identifier, or is added at the end.
pub open spec fn stored(ps: Seq<Product>, p: Product) -> Seq<Product> {
    if stock_of(ps, p.id.id@) is Some {
        ps.map_values(|q: Product| if q.id.id@ == p.id.id@ { p } else { q })
    } else {
        ps.push(p)
    }
}

/// What one decrement does: the result `r` and the products `new` after a
/// request for `requested` units of product `id` against products `old`.
pub open spec fn decrement_post(
    old: Seq<Product>,
    id: Seq<char>,
    requested: int,
    r: Result<u16, MutationError>,
    new: Seq<Product>,
) -> bool {
    if request_invalid(id, requested) {
        r == Err::<u16, MutationError>(MutationError::InvalidRequest) && new == old
    } else {
        match stock_of(old, id) {
            None => r == Err::<u16, MutationError>(MutationError::NotFound) && new == old,
            Some(u) => if decrement_applies(u as int, requested) {
                &&& r == Ok::<u16, MutationError>((u - requested) as u16)
                &&& new == set_units(old, id, (u - requested) as u16)
            } else {
                r == Err::<u16, MutationError>(MutationError::InsufficientStock) && new == old
            },
        }
    }
}

/// Sum of the first `n` requests whose result is `Ok`.
pub open spec fn ok_total(requests: Seq<int>, results: Seq<Result<u16, MutationError>>, n: nat) -> int
    decreases n,
{
    if n == 0 {
        0
    } else {
        ok_total(requests, results, (n - 1) as nat) + if results[n - 1] is Ok {
            requests[n - 1]
        } else {
            0
        }
    }
}

/// Units that a run of conditional decrements takes out of `units`, the
/// requests applied one at a time in the order the store serialised them.
pub open spec fn applied_total(units: int, requests: Seq<int>) -> int
    decreases requests.len(),
{
    if requests.len() == 0 {
        0
    } else {
        let before = applied_total(units, requests.drop_last());
        if decrement_applies(units - before, requests.last()) {
            before + requests.last()
        } else {
            before
        }
    }
}

/// However concurrent decrements of one product interleave, each is one
/// guarded write applied atomically, so the units they take out together
/// never exceed what the product held: its count never drops below zero.
pub proof fn lemma_decrements_never_overdraw(units: int, requests: Seq<int>)
    requires
        units >= 0,
    ensures
        0 <= applied_total(units, requests) <= units,
    decreases requests.len(),
{
    if requests.len() > 0 {
        lemma_decrements_never_overdraw(units, requests.drop_last());
    }
}

proof fn lemma_set_units(ps: Seq<Product>, id: Seq<char>, v: u16)
    requires
        ids_unique(ps),
        stock_of(ps, id) is Some,
    ensures
        ids_unique(set_units(ps, id, v)),
        stock_of(set_units(ps, id, v), id) == Some(v),
{
    let qs = set_units(ps, id, v);
    let i = choose|i: int| has_id(ps, i, id);
    assert(has_id(ps, i, id));
    assert forall|a: int| 0 <= a < qs.len() implies #[trigger] qs[a].id == ps[a].id by {}
    assert forall|a: int, b: int|
        0 <= a < qs.len() && 0 <= b < qs.len() && qs[a].id.id@ == qs[b].id.id@ implies a == b by {
        assert(qs[a].id == ps[a].id);
        assert(qs[b].id == ps[b].id);
    }
    assert(has_id(qs, i, id));
    let c = choose|k: int| has_id(qs, k, id);
    assert(has_id(qs, c, id));
    assert(qs[c].id == ps[c].id);
    assert(qs[c].id.id@ == qs[i].id.id@);
}

proof fn lemma_decrement_run_prefix(
    states: Seq<Seq<Product>>,
    id: Seq<char>,
    requests: Seq<int>,
    results: Seq<Result<u16, MutationError>>,
    u0: u16,
    n: nat,
)
    requires
        n <= requests.len(),
        states.len() == requests.len() + 1,
        results.len() == requests.len(),
        ids_unique(states[0]),
        id.len() > 0,
        stock_of(states[0], id) == Some(u0),
        forall|i: int| 0 <= i < requests.len()
            ==> decrement_post(#[trigger] states[i], id, requests[i], results[i], states[i + 1]),
    ensures
        ids_unique(states[n as int]),
        0 <= applied_total(u0 as int, requests.take(n as int)) <= u0,
        stock_of(states[n as int], id) == Some((u0 - applied_total(u0 as int, requests.take(n as int))) as u16),
        ok_total(requests, results, n) == applied_total(u0 as int, requests.take(n as int)),
    decreases n,
{
    lemma_decrements_never_overdraw(u0 as int, requests.take(n as int));
    if n > 0 {
        let k = (n - 1) as int;
        lemma_decrement_run_prefix(states, id, requests, results, u0, (n - 1) as nat);
        assert(requests.take(n as int).drop_last() =~= requests.take(k));
        assert(requests.take(n as int).last() == requests[k]);
        assert(decrement_post(states[k], id, requests[k], results[k], states[k + 1]));
        let u = stock_of(states[k], id)->0;
        if decrement_applies(u as int, requests[k]) {
            lemma_set_units(states[k], id, (u - requests[k]) as u16);
        }
    }
}

/// A run of decrements of one product, in whatever order the store
/// serialised them: the units of the successful ones add up to what the run
/// took out, never more than the product held, and the product's count after
/// each call is what it held less what was taken, never below zero.
pub proof fn lemma_decrement_run_never_overdraws(
    states: Seq<Seq<Product>>,
    id: Seq<char>,
    requests: Seq<int>,
    results: Seq<Result<u16, MutationError>>,
    u0: u16,
)
    requires
        states.len() == requests.len() + 1,
        results.len() == requests.len(),
        ids_unique(states[0]),
        id.len() > 0,
        stock_of(states[0], id) == Some(u0),
        forall|i: int| 0 <= i < requests.len()
            ==> decrement_post(#[trigger] states[i], id, requests[i], results[i], states[i + 1]),
    ensures
        ok_total(requests, results, requests.len()) == applied_total(u0 as int, requests),
        0 <= applied_total(u0 as int, requests) <= u0,
        stock_of(states[requests.len() as int], id) == Some((u0 - applied_total(u0 as int, requests)) as u16),
        forall|k: int| 0 <= k <= requests.len() ==> (#[trigger] stock_of(states[k], id)) is Some,
{
    lemma_decrement_run_prefix(states, id, requests, results, u0, requests.len());
    assert(requests.take(requests.len() as int) =~= requests);
    assert forall|k: int| 0 <= k <= requests.len() implies (#[trigger] stock_of(states[k], id)) is Some by {
        lemma_decrement_run_prefix(states, id, requests, results, u0, k as nat);
    }
}

/// An in-memory model of the stock store: a collection of products keyed by
/// identifier, offering the atomic conditional decrement. It states what the
/// store's guarded write does; a deployed service sends that write to the
/// database as one query, whose atomicity the database provides and these
/// proofs do not cover.
pub struct StockStore {
    pub products: Vec<Product>,
}

impl StockStore {
    pub open spec fn wf(&self) -> bool {
        ids_unique(self.products@)
    }

    /// An empty store.
    pub fn new() -> (r: StockStore)
        ensures
            r.wf(),
            r.products@.len() == 0,
    {
        StockStore { products: Vec::new() }
    }

    /// Index of the product with identifier `id`.
    fn position(&self, id: &str) -> (r: Option<usize>)
        requires
            self.wf(),
        ensures
            r matches Some(i) ==> has_id(self.products@, i as int, id@),
            r is None ==> forall|i: int| !has_id(self.products@, i, id@),
            r is Some <==> stock_of(self.products@, id@) is Some,
            r matches Some(i) ==> stock_of(self.products@, id@) == Some(self.products@[i as int].units),
    {
        let key = String::from_str(id);
        let mut i: usize = 0;
        while i < self.products.len()
            invariant
                i <= self.products@.len(),
                self.wf(),
                key@ == id@,
                forall|j: int| 0 <= j < i ==> !has_id(self.products@, j, id@),
            decreases self.products@.len() - i,
        {
            if self.products[i].id.id == key {
                proof {
                    let ps = self.products@;
                    assert(has_id(ps, i as int, id@));
                    let c = choose|k: int| has_id(ps, k, id@);
                    assert(has_id(ps, c, id@));
                    assert(ps[c].id.id@ == ps[i as int].id.id@);
                    assert(c == i as int);
                }
                return Some(i);
            }
            i = i + 1;
        }
        None
    }

    /// Units held by product `id`, if the store has it.
    pub fn units_of(&self, id: &str) -> (r: Option<u16>)
        requires
            self.wf(),
        ensures
            r == stock_of(self.products@, id@),
    {
        match self.position(id) {
            Some(i) => Some(self.products[i].units),
            None => None,
        }
    }

    /// The atomic conditional write: subtract `requested` from the units of
    /// product `id` if and only if it holds at least that many, as one step.
    pub fn conditional_decrement(&mut self, id: &str, requested: i64) -> (r: WriteReply)
        requires
            old(self).wf(),
        ensures
            final(self).wf(),
            match stock_of(old(self).products@, id@) {
                None => r == WriteReply::Missing && final(self).products@ == old(self).products@,
                Some(u) => if decrement_applies(u as int, requested as int) {
                    &&& r == (WriteReply::Applied { units_after: (u - requested) as u16 })
                    &&& final(self).products@ == set_units(old(self).products@, id@, (u - requested) as u16)
                } else {
                    r == WriteReply::Unmatched && final(self).products@ == old(self).products@
                },
            },
    {
        match self.position(id) {
            None => WriteReply::Missing,
            Some(i) => {
                let units = self.products[i].units;
                if requested <= 0 || (units as i64) < requested {
                    WriteReply::Unmatched
                } else {
                    let after = (units as i64 - requested) as u16;
                    let p = Product {
                        id: ProductThing { id: self.products[i].id.id.clone() },
                        name: self.products[i].name.clone(),
                        price: self.products[i].price,
                        units: after,
                    };
                    let ghost ps = self.products@;
                    self.products.set(i, p);
                    proof {
                        assert forall|k: int| 0 <= k < ps.len() implies #[trigger] self.products@[k]
                            == set_units(ps, id@, after)[k] by {
                            if k != i as int {
                                assert(ps[k].id.id@ != id@);
                            }
                        }
                        assert(self.products@ =~= set_units(ps, id@, after));
                        assert forall|a: int, b: int|
                            0 <= a < ps.len() && 0 <= b < ps.len()
                                && self.products@[a].id.id@ == self.products@[b].id.id@ implies a == b by {
                            assert(ps[a].id.id@ == self.products@[a].id.id@);
                            assert(ps[b].id.id@ == self.products@[b].id.id@);
                        }
                    }
                    WriteReply::Applied { units_after: after }
                }
            },
        }
    }

    /// Takes `requested` units out of product `product_id` by a single
    /// conditional write, after checking the request.
    pub fn decrement(&mut self, product_id: &str, requested: i64) -> (r: Result<u16, MutationError>)
        requires
            old(self).wf(),
        ensures
            final(self).wf(),
            decrement_post(old(self).products@, product_id@, requested as int, r, final(self).products@),
    {
        match validate_decrement(product_id, requested) {
            Err(e) => Err(e),
            Ok(()) => {
                let reply = self.conditional_decrement(product_id, requested);
                interpret_reply(reply)
            },
        }
    }

    /// Provisions a product, replacing any product with the same identifier.
    pub fn put(&mut self, p: Product)
        requires
            old(self).wf(),
        ensures
            final(self).wf(),
            final(self).products@ == stored(old(self).products@, p),
    {
        let ghost ps = self.products@;
        let ghost q = p;
        match self.position(p.id.id.as_str()) {
            Some(i) => {
                self.products.set(i, p);
                proof {
                    assert forall|k: int| 0 <= k < ps.len() implies #[trigger] self.products@[k]
                        == stored(ps, q)[k] by {
                        if k != i as int {
                            assert(ps[k].id.id@ != q.id.id@);
                        }
                    }
                    assert(self.products@ =~= stored(ps, q));
                    assert forall|a: int, b: int|
                        0 <= a < ps.len() && 0 <= b < ps.len()
                            && self.products@[a].id.id@ == self.products@[b].id.id@ implies a == b by {
                        assert(ps[a].id.id@ == self.products@[a].id.id@);
                        assert(ps[b].id.id@ == self.products@[b].id.id@);
                    }
                }
            },
            None => {
                self.products.push(p);
                proof {
                    assert(self.products@ =~= stored(ps, q));
                    assert forall|a: int, b: int|
                        0 <= a < self.products@.len() && 0 <= b < self.products@.len()
                            && self.products@[a].id.id@ == self.products@[b].id.id@ implies a == b by {
                        if a < ps.len() && b < ps.len() {
                            assert(ps[a] == self.products@[a]);
                            assert(ps[b] == self.products@[b]);
                        } else if a < ps.len() {
                            assert(has_id(ps, a, q.id.id@));
                        } else if b < ps.len() {
                            assert(has_id(ps, b, q.id.id@));
                        }
                    }
                }
            },
        }
    }
}

} // verus!
