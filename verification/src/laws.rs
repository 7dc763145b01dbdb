//! What holds of every directory, proved over its model. The contracts of
//! the store's operations are written with `Directory::create_result`,
//! `Directory::after_create` and `Directory::lookup`, so each statement here
//! is a statement about the store.

use vstd::prelude::*;
use crate::directory::Directory;
use crate::error::ErrorKind;
use crate::record::UserModel;
use crate::validation::{
    acceptable_name,
    lowercase,
    well_formed_address,
};

verus! {

/// One request to create a record.
pub struct Request {
    pub name: Seq<char>,
    pub email: Seq<char>,
}

/// The directory after `requests` were served one after the other.
pub open spec fn served(d: Directory, requests: Seq<Request>) -> Directory
    decreases requests.len(),
{
    if requests.len() == 0 {
        d
    } else {
        served(d, requests.drop_last()).after_create(requests.last().name, requests.last().email)
    }
}

/// What request `i` of `requests` returns when they are served one after the
/// other, starting from `d`.
pub open spec fn answer(d: Directory, requests: Seq<Request>, i: int) -> Result<
    UserModel,
    ErrorKind,
> {
    served(d, requests.take(i)).create_result(requests[i].name, requests[i].email)
}

/// One of the first `k` requests asks for the address keyed by `key`.
pub open spec fn asked_before(requests: Seq<Request>, k: int, key: Seq<char>) -> bool {
    exists|j: int| 0 <= j < k && lowercase(#[trigger] requests[j].email) == key
}

/// Every request is valid in itself.
pub open spec fn all_valid(requests: Seq<Request>) -> bool {
    forall|i: int|
        #![trigger requests[i]]
        0 <= i < requests.len() ==> acceptable_name(requests[i].name) && well_formed_address(
            requests[i].email,
        )
}

/// Whatever requests are served, the directory stays well formed and only
/// grows: the records held before are still there, in their places and
/// unchanged, and no identifier is given out twice.
pub proof fn lemma_served_keeps_and_grows(d: Directory, requests: Seq<Request>)
    requires
        d.wf(),
    ensures
        served(d, requests).wf(),
        served(d, requests).next_id >= d.next_id,
        served(d, requests).records.len() >= d.records.len(),
        served(d, requests).records.take(d.records.len() as int) == d.records,
    decreases requests.len(),
{
    if requests.len() == 0 {
        assert(d.records.take(d.records.len() as int) =~= d.records);
    } else {
        let before = served(d, requests.drop_last());
        lemma_served_keeps_and_grows(d, requests.drop_last());
        before.lemma_create_keeps_wf(requests.last().name, requests.last().email);
        assert(served(d, requests).records.take(d.records.len() as int) =~= before.records.take(
            d.records.len() as int,
        ));
    }
}

/// A request that succeeds adds its address to those held and takes none
/// away; a request that fails changes nothing.
pub proof fn lemma_held_after_create(
    d: Directory,
    name: Seq<char>,
    email: Seq<char>,
    probe: Seq<char>,
)
    ensures
        d.create_result(name, email) is Ok ==> (d.after_create(name, email).holds(probe) <==> (
        d.holds(probe) || lowercase(probe) == lowercase(email))),
        d.create_result(name, email) is Err ==> d.after_create(name, email) == d,
{
    if d.create_result(name, email) is Ok {
        let after = d.after_create(name, email);
        let key = lowercase(probe);
        let n = d.records.len() as int;
        if d.holds(probe) {
            let i = choose|i: int| d.keyed_at(key, i);
            assert(after.records[i] == d.records[i]);
            assert(after.keyed_at(key, i));
        }
        if key == lowercase(email) {
            assert(after.keyed_at(key, n));
        }
        if after.holds(probe) {
            let i = choose|i: int| after.keyed_at(key, i);
            if i < n {
                assert(after.records[i] == d.records[i]);
                assert(d.keyed_at(key, i));
            }
        }
    }
}

/// A stored address is looked up in vain before the request that stores it
/// and found right after it, under every casing; and the request changes the
/// answer for no other address.
pub proof fn lemma_lookup_follows_create(
    d: Directory,
    name: Seq<char>,
    email: Seq<char>,
    probe: Seq<char>,
)
    requires
        d.wf(),
        d.create_result(name, email) is Ok,
    ensures
        lowercase(probe) == lowercase(email) ==> d.lookup(probe) is None && d.after_create(
            name,
            email,
        ).lookup(probe) == Some(UserModel { id: d.next_id, name, email }),
        lowercase(probe) != lowercase(email) ==> d.after_create(name, email).lookup(probe)
            == d.lookup(probe),
{
    let after = d.after_create(name, email);
    let key = lowercase(probe);
    let n = d.records.len() as int;
    d.lemma_create_keeps_wf(name, email);
    lemma_held_after_create(d, name, email, probe);
    if key == lowercase(email) {
        assert(after.keyed_at(key, n));
        after.lemma_lookup_at(key, n);
    } else if d.holds(probe) {
        let i = choose|i: int| d.keyed_at(key, i);
        assert(after.records[i] == d.records[i]);
        assert(after.keyed_at(key, i));
        after.lemma_lookup_at(key, i);
    }
}

/// In a directory without records every lookup is in vain.
pub proof fn lemma_empty_holds_nothing(first_id: nat, probe: Seq<char>)
    ensures
        !Directory::empty(first_id).holds(probe),
        Directory::empty(first_id).lookup(probe) is None,
{
}

/// Once a request for an address has succeeded, or has found the address
/// taken, a second request for an address with the same lowercase form, under
/// whatever name, never succeeds: it is turned down as a duplicate, unless
/// its own text is no address, which makes it invalid input.
pub proof fn lemma_second_request_is_duplicate(
    d: Directory,
    first_name: Seq<char>,
    first_email: Seq<char>,
    second_name: Seq<char>,
    second_email: Seq<char>,
)
    requires
        lowercase(first_email) == lowercase(second_email),
        d.create_result(first_name, first_email) is Ok || d.create_result(first_name, first_email)
            == Err::<UserModel, ErrorKind>(ErrorKind::DuplicateUser),
    ensures
        d.after_create(first_name, first_email).holds(second_email),
        d.after_create(first_name, first_email).create_result(second_name, second_email) == Err::<
            UserModel,
            ErrorKind,
        >(
            if well_formed_address(second_email) {
                ErrorKind::DuplicateUser
            } else {
                ErrorKind::InvalidInput
            },
        ),
        second_email == first_email ==> d.after_create(first_name, first_email).create_result(
            second_name,
            second_email,
        ) == Err::<UserModel, ErrorKind>(ErrorKind::DuplicateUser),
{
    lemma_held_after_create(d, first_name, first_email, second_email);
}

/// A request whose address lacks the shape of an address fails as invalid
/// input, whatever the name, and stores nothing.
pub proof fn lemma_malformed_address_is_invalid(d: Directory, name: Seq<char>, email: Seq<char>)
    requires
        !well_formed_address(email),
    ensures
        d.create_result(name, email) == Err::<UserModel, ErrorKind>(ErrorKind::InvalidInput),
        d.after_create(name, email) == d,
{
}

/// A request whose name is empty or all blanks, for an address that is not
/// held, fails as invalid input and stores nothing.
pub proof fn lemma_blank_name_is_invalid(d: Directory, name: Seq<char>, email: Seq<char>)
    requires
        !acceptable_name(name),
        !d.holds(email),
    ensures
        d.create_result(name, email) == Err::<UserModel, ErrorKind>(ErrorKind::InvalidInput),
        d.after_create(name, email) == d,
{
}

/// The state reached after the first `k` of a run of valid requests for
/// addresses that differ from one another and from those held: `k`
/// identifiers were given out, and the addresses held are the old ones and
/// those asked for so far.
proof fn lemma_served_distinct(d: Directory, requests: Seq<Request>, k: int, probe: Seq<char>)
    requires
        d.wf(),
        all_valid(requests),
        forall|i: int| 0 <= i < requests.len() ==> !d.holds(#[trigger] requests[i].email),
        forall|i: int, j: int|
            0 <= i < j < requests.len() ==> lowercase(#[trigger] requests[i].email) != lowercase(
                #[trigger] requests[j].email,
            ),
        d.next_id + requests.len() <= u64::MAX,
        0 <= k <= requests.len(),
    ensures
        served(d, requests.take(k)).wf(),
        served(d, requests.take(k)).next_id == d.next_id + k,
        served(d, requests.take(k)).records.len() == d.records.len() + k,
        served(d, requests.take(k)).holds(probe) <==> (d.holds(probe) || asked_before(
            requests,
            k,
            lowercase(probe),
        )),
    decreases k,
{
    if k == 0 {
        assert(requests.take(0) =~= Seq::<Request>::empty());
    } else {
        let before = served(d, requests.take(k - 1));
        let request = requests[k - 1];
        assert(requests.take(k).drop_last() =~= requests.take(k - 1));
        assert(requests.take(k).last() == request);
        lemma_served_distinct(d, requests, k - 1, probe);
        lemma_served_distinct(d, requests, k - 1, request.email);
        assert(!asked_before(requests, k - 1, lowercase(request.email)));
        assert(before.create_result(request.name, request.email) is Ok);
        before.lemma_create_keeps_wf(request.name, request.email);
        lemma_held_after_create(before, request.name, request.email, probe);
        if asked_before(requests, k, lowercase(probe)) {
            let j = choose|j: int| 0 <= j < k && lowercase(#[trigger] requests[j].email)
                == lowercase(probe);
            if j < k - 1 {
                assert(asked_before(requests, k - 1, lowercase(probe)));
            }
        }
    }
}

/// Valid requests for addresses that differ from one another in lowercase form
/// and from those held all succeed while identifiers last, each with an
/// identifier of its own that no record held before carries.
pub proof fn lemma_distinct_requests_succeed(d: Directory, requests: Seq<Request>)
    requires
        d.wf(),
        all_valid(requests),
        forall|i: int| 0 <= i < requests.len() ==> !d.holds(#[trigger] requests[i].email),
        forall|i: int, j: int|
            0 <= i < j < requests.len() ==> lowercase(#[trigger] requests[i].email) != lowercase(
                #[trigger] requests[j].email,
            ),
        d.next_id + requests.len() <= u64::MAX,
    ensures
        forall|i: int|
            0 <= i < requests.len() ==> #[trigger] answer(d, requests, i) == Ok::<
                UserModel,
                ErrorKind,
            >(UserModel { id: (d.next_id + i) as nat, name: requests[i].name, email: requests[i].email }),
        forall|i: int, j: int|
            0 <= i < j < requests.len() ==> (#[trigger] answer(d, requests, i))->Ok_0.id != (
            #[trigger] answer(d, requests, j))->Ok_0.id,
        forall|i: int, h: int|
            0 <= i < requests.len() && 0 <= h < d.records.len() ==> (#[trigger] answer(
                d,
                requests,
                i,
            ))->Ok_0.id != (#[trigger] d.records[h]).id,
        served(d, requests).records.len() == d.records.len() + requests.len(),
{
    assert forall|i: int| 0 <= i < requests.len() implies #[trigger] answer(d, requests, i) == Ok::<
        UserModel,
        ErrorKind,
    >(
        UserModel { id: (d.next_id + i) as nat, name: requests[i].name, email: requests[i].email },
    ) by {
        lemma_served_distinct(d, requests, i, requests[i].email);
        assert(!asked_before(requests, i, lowercase(requests[i].email)));
    }
    lemma_served_distinct(d, requests, requests.len() as int, Seq::empty());
    assert(requests.take(requests.len() as int) =~= requests);
}

/// The state reached after the first `k` of a run of valid requests that all
/// ask for one address: one record more than before, and the address held.
proof fn lemma_served_same(d: Directory, requests: Seq<Request>, k: int)
    requires
        d.wf(),
        all_valid(requests),
        forall|i: int|
            0 <= i < requests.len() ==> lowercase(#[trigger] requests[i].email) == lowercase(
                requests[0].email,
            ),
        !d.holds(requests[0].email),
        !d.full(),
        1 <= k <= requests.len(),
    ensures
        served(d, requests.take(k)) == d.after_create(requests[0].name, requests[0].email),
        d.create_result(requests[0].name, requests[0].email) is Ok,
        served(d, requests.take(k)).holds(requests[0].email),
    decreases k,
{
    let request = requests[k - 1];
    assert(requests.take(k).drop_last() =~= requests.take(k - 1));
    assert(requests.take(k).last() == request);
    if k == 1 {
        assert(requests.take(0) =~= Seq::<Request>::empty());
        assert(served(d, requests.take(0)) == d);
        lemma_held_after_create(d, request.name, request.email, request.email);
    } else {
        lemma_served_same(d, requests, k - 1);
        let before = served(d, requests.take(k - 1));
        let i = choose|i: int| before.keyed_at(lowercase(requests[0].email), i);
        assert(before.keyed_at(lowercase(request.email), i));
    }
}

/// Of valid requests that all ask for one address not yet held, served in
/// whatever order, the first succeeds and every other is turned down as a
/// duplicate; one record is stored. Requests that reach the store at the same
/// time are served one at a time, so this holds of them too.
pub proof fn lemma_same_address_succeeds_once(d: Directory, requests: Seq<Request>)
    requires
        d.wf(),
        all_valid(requests),
        requests.len() >= 1,
        forall|i: int|
            0 <= i < requests.len() ==> lowercase(#[trigger] requests[i].email) == lowercase(
                requests[0].email,
            ),
        !d.holds(requests[0].email),
        !d.full(),
    ensures
        answer(d, requests, 0) is Ok,
        forall|i: int|
            1 <= i < requests.len() ==> #[trigger] answer(d, requests, i) == Err::<
                UserModel,
                ErrorKind,
            >(ErrorKind::DuplicateUser),
        served(d, requests).records.len() == d.records.len() + 1,
{
    assert(requests.take(0) =~= Seq::<Request>::empty());
    assert(served(d, requests.take(0)) == d);
    assert forall|i: int| 1 <= i < requests.len() implies #[trigger] answer(d, requests, i) == Err::<
        UserModel,
        ErrorKind,
    >(ErrorKind::DuplicateUser) by {
        lemma_served_same(d, requests, i);
        let before = served(d, requests.take(i));
        let h = choose|h: int| before.keyed_at(lowercase(requests[0].email), h);
        assert(before.keyed_at(lowercase(requests[i].email), h));
    }
    lemma_served_same(d, requests, requests.len() as int);
    assert(requests.take(requests.len() as int) =~= requests);
}

} // verus!
