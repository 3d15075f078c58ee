//! Which of the camera's two stores to ask for a file, and in what order.
//!
//! Every fetch tries the store resolved for the file first and the other mount second,
//! and remembers which one answered. A single-card body is never asked for `storage=1`.

use vstd::prelude::*;

use crate::media::model::MediaFile;
use crate::media::pathset::PathMap;
use crate::text::{decimal, owned, push_decimal, push_signed, push_str, signed_decimal};

verus! {

/// Which store last answered for each path, plus the single-card rule.
#[derive(Debug, Clone)]
pub struct StorageMemo {
    pub single_sd: bool,
    winners: PathMap<i64>,
}

/// The store asked first: store 0 on a single-card body, else the store that last
/// answered for this path, else the one the catalogue listed the file on.
pub open spec fn first_store(storage: i64, winner: Option<i64>, single_sd: bool) -> i64 {
    if single_sd {
        0
    } else {
        match winner {
            Some(store) => store,
            None => storage,
        }
    }
}

/// The stores to try, first choice first.
pub open spec fn store_order(storage: i64, winner: Option<i64>, single_sd: bool) -> Seq<i64> {
    if single_sd {
        seq![0]
    } else if first_store(storage, winner, single_sd) == 0 {
        seq![0, 1]
    } else {
        seq![1, 0]
    }
}

impl Default for StorageMemo {
    /// A body with two stores and nothing remembered yet.
    fn default() -> (memo: Self)
        ensures
            memo.wf(),
            !memo.single_card(),
            memo.spec_winners() == Map::<Seq<char>, i64>::empty(),
    {
        StorageMemo::new(false)
    }
}

impl StorageMemo {
    pub closed spec fn wf(&self) -> bool {
        self.winners.wf()
    }

    /// Whether the body holds a single card.
    pub closed spec fn single_card(&self) -> bool {
        self.single_sd
    }

    /// The store that last answered for each path.
    pub closed spec fn spec_winners(&self) -> Map<Seq<char>, i64> {
        self.winners@
    }

    pub fn new(single_sd: bool) -> (memo: Self)
        ensures
            memo.wf(),
            memo.single_card() == single_sd,
            memo.spec_winners() == Map::<Seq<char>, i64>::empty(),
    {
        StorageMemo { single_sd, winners: PathMap::new() }
    }

    /// Notes which store served `path`.
    pub fn remember(&mut self, path: &str, storage: i64)
        requires
            old(self).wf(),
        ensures
            final(self).wf(),
            final(self).single_card() == old(self).single_card(),
            final(self).spec_winners() == old(self).spec_winners().insert(path@, storage),
    {
        self.winners.insert(crate::text::owned(path), storage);
    }

    /// The store that last answered for `path`, if any did.
    pub fn winner(&self, path: &str) -> (store: Option<i64>)
        requires
            self.wf(),
        ensures
            store == (if self.spec_winners().contains_key(path@) {
                Some(self.spec_winners()[path@])
            } else {
                None
            }),
    {
        match self.winners.get(path) {
            Some(store) => Some(*store),
            None => None,
        }
    }

    /// The stores to try for a file, first choice first.
    pub fn order(&self, file: &MediaFile, path: &str) -> (stores: Vec<i64>)
        requires
            self.wf(),
        ensures
            stores@ == store_order(
                file.storage,
                if self.spec_winners().contains_key(path@) {
                    Some(self.spec_winners()[path@])
                } else {
                    None
                },
                self.single_card(),
            ),
    {
        let winner = self.winner(path);
        let first = if self.single_sd {
            0
        } else {
            match winner {
                Some(store) => store,
                None => file.storage,
            }
        };
        let mut stores: Vec<i64> = Vec::new();
        if self.single_sd {
            stores.push(0);
        } else if first == 0 {
            stores.push(0);
            stores.push(1);
        } else {
            stores.push(1);
            stores.push(0);
        }
        proof {
            assert(stores@ =~= store_order(file.storage, winner, self.single_sd));
        }
        stores
    }
}

#[derive(Debug, Clone, PartialEq, Eq)]
pub struct HttpError(pub String);

/// Why a fetch failed when no store was even asked.
pub open spec fn nobody_answered() -> Seq<char> {
    "no store answered"@
}

/// One fetch across the stores: which stores it asks, in order, how many have failed,
/// and the error of the last one that did.
#[derive(Debug)]
pub struct StoreAttempts {
    stores: Vec<i64>,
    failed: usize,
    last: HttpError,
}

/// The attempts as values.
pub struct AttemptsView {
    pub stores: Seq<i64>,
    pub failed: nat,
    pub last: Seq<char>,
}

impl View for StoreAttempts {
    type V = AttemptsView;

    closed spec fn view(&self) -> AttemptsView {
        AttemptsView { stores: self.stores@, failed: self.failed as nat, last: self.last.0@ }
    }
}

impl StoreAttempts {
    pub open spec fn wf(&self) -> bool {
        self@.failed <= self@.stores.len()
    }

    /// A fetch of `path` for `file`: the memo's stores in its order, none asked yet.
    pub fn start(memo: &StorageMemo, file: &MediaFile, path: &str) -> (attempts: Self)
        requires
            memo.wf(),
        ensures
            attempts.wf(),
            attempts@.stores == store_order(
                file.storage,
                if memo.spec_winners().contains_key(path@) {
                    Some(memo.spec_winners()[path@])
                } else {
                    None
                },
                memo.single_card(),
            ),
            attempts@.failed == 0,
            attempts@.last == nobody_answered(),
    {
        StoreAttempts {
            stores: memo.order(file, path),
            failed: 0,
            last: HttpError(owned("no store answered")),
        }
    }

    /// The store to ask next: the one after every store that has failed, none once all
    /// have.
    pub fn next_store(&self) -> (store: Option<i64>)
        requires
            self.wf(),
        ensures
            self@.failed < self@.stores.len() ==> store == Some(self@.stores[self@.failed as int]),
            self@.failed >= self@.stores.len() ==> store is None,
    {
        if self.failed < self.stores.len() {
            Some(self.stores[self.failed])
        } else {
            None
        }
    }

    /// The store just asked failed with `error`: the next one is tried, and `error` is
    /// what the fetch reports if none answers. Once every store has failed the count
    /// stays where it is.
    pub fn store_failed(&mut self, error: HttpError)
        requires
            old(self).wf(),
        ensures
            final(self).wf(),
            final(self)@ == (AttemptsView {
                failed: if old(self)@.failed < old(self)@.stores.len() {
                    old(self)@.failed + 1
                } else {
                    old(self)@.failed
                },
                last: error.0@,
                ..old(self)@
            }),
    {
        if self.failed < self.stores.len() {
            self.failed = self.failed + 1;
        }
        self.last = error;
    }

    /// Every store failed: the error of the last one asked, or that none was asked.
    pub fn error(self) -> (error: HttpError)
        ensures
            error.0@ == self@.last,
    {
        self.last
    }
}

/// The camera's HTTP address for one file on one store.
pub open spec fn url_of(host: Seq<char>, storage: i64, path: Seq<char>) -> Seq<char> {
    "http://"@ + host + "/v2?storage="@ + signed_decimal(storage as int) + "&path="@ + path
}

/// `http://<host>/v2?storage=N&path=…`, the SoftAP server's one endpoint.
pub fn path_url(host: &str, storage: i64, path: &str) -> (url: String)
    ensures
        url@ == url_of(host@, storage, path@),
{
    let mut url = owned("http://");
    push_str(&mut url, host);
    push_str(&mut url, "/v2?storage=");
    push_signed(&mut url, storage);
    push_str(&mut url, "&path=");
    push_str(&mut url, path);
    url
}

/// Why a transfer that stopped after `done` bytes of a declared `total` is not whole.
pub open spec fn cut_reason(done: u64, total: u64) -> Seq<char> {
    "transfer cut at "@ + decimal(done as nat) + " of "@ + decimal(total as nat) + " bytes"@
}

/// Whether a transfer that stopped after `done` bytes is whole: the server declared no
/// length, or declared exactly `done`. A cut transfer is never taken for a whole file.
pub fn transfer_check(done: u64, total: Option<u64>) -> (res: Result<(), HttpError>)
    ensures
        res is Ok <==> (total is None || total == Some(done)),
        res matches Err(HttpError(reason)) ==> reason@ == cut_reason(
            done,
            match total {
                Some(t) => t,
                None => 0,
            },
        ),
{
    match total {
        None => Ok(()),
        Some(t) => {
            if t == done {
                Ok(())
            } else {
                let mut reason = owned("transfer cut at ");
                push_decimal(&mut reason, done);
                push_str(&mut reason, " of ");
                push_decimal(&mut reason, t);
                push_str(&mut reason, " bytes");
                Err(HttpError(reason))
            }
        },
    }
}

} // verus!
