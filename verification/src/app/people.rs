//! Which people the review row of an item shows: every review, and the
//! review requests of those who have not reviewed yet.

use vstd::prelude::*;

use crate::models::stream_item::{ItemPerson, ItemReview};
use crate::text::str_eq;

verus! {

pub open spec fn review_logins(reviewers: Seq<ItemReview>) -> Seq<Seq<char>> {
    reviewers.map_values(|r: ItemReview| r.login@)
}

/// The logins that reviewed, when there are both reviews and requests to
/// hold them against; `None` otherwise.
pub fn reviewed_logins(reviewers: &Vec<ItemReview>, review_requests: &Vec<ItemPerson>) -> (r: Option<
    Vec<String>,
>)
    ensures
        reviewers@.len() == 0 || review_requests@.len() == 0 ==> r is None,
        reviewers@.len() > 0 && review_requests@.len() > 0 ==> (r matches Some(logins)
            && logins@.map_values(|l: String| l@) == review_logins(reviewers@)),
{
    if reviewers.len() == 0 || review_requests.len() == 0 {
        return None;
    }
    let mut logins: Vec<String> = Vec::new();
    let mut i: usize = 0;
    while i < reviewers.len()
        invariant
            i <= reviewers@.len(),
            logins@.map_values(|l: String| l@) == review_logins(reviewers@.take(i as int)),
        decreases reviewers.len() - i,
    {
        let ghost before = logins@.map_values(|l: String| l@);
        logins.push(reviewers[i].login.clone());
        proof {
            assert(reviewers@.take(i + 1) =~= reviewers@.take(i as int).push(reviewers@[i as int]));
            assert(logins@.map_values(|l: String| l@) =~= before.push(reviewers@[i as int].login@));
            assert(review_logins(reviewers@.take(i + 1)) =~= review_logins(reviewers@.take(i as int)).push(
                reviewers@[i as int].login@,
            ));
        }
        i = i + 1;
    }
    assert(reviewers@.take(i as int) =~= reviewers@);
    Some(logins)
}

/// Whether `login` is among the logins that reviewed.
pub fn is_reviewed_login(reviewed: Option<&Vec<String>>, login: &str) -> (r: bool)
    ensures
        r == (reviewed matches Some(logins) && logins@.map_values(|l: String| l@).contains(
            login@,
        )),
{
    match reviewed {
        None => false,
        Some(logins) => {
            let ghost views = logins@.map_values(|l: String| l@);
            let mut i: usize = 0;
            while i < logins.len()
                invariant
                    reviewed == Some(logins),
                    i <= logins@.len(),
                    views == logins@.map_values(|l: String| l@),
                    forall|k: int| 0 <= k < i ==> views[k] != login@,
                decreases logins.len() - i,
            {
                if str_eq(logins[i].as_str(), login) {
                    assert(views[i as int] == login@);
                    assert(views.contains(login@));
                    return true;
                }
                i = i + 1;
            }
            assert(!views.contains(login@));
            false
        },
    }
}

/// The review requests shown as pending: those whose login has not
/// reviewed, in their order.
pub open spec fn pending_requests(reviewers: Seq<ItemReview>, requests: Seq<ItemPerson>) -> Seq<
    ItemPerson,
> {
    requests.filter(|p: ItemPerson| !review_logins(reviewers).contains(p.login@))
}

pub fn pending_review_requests(reviewers: &Vec<ItemReview>, review_requests: &Vec<ItemPerson>) -> (r:
    Vec<ItemPerson>)
    ensures
        r@ == pending_requests(reviewers@, review_requests@),
{
    let reviewed = reviewed_logins(reviewers, review_requests);
    let mut pending: Vec<ItemPerson> = Vec::new();
    let mut i: usize = 0;
    while i < review_requests.len()
        invariant
            i <= review_requests@.len(),
            reviewers@.len() == 0 ==> reviewed is None,
            reviewers@.len() > 0 && review_requests@.len() > 0 ==> (reviewed matches Some(logins)
                && logins@.map_values(|l: String| l@) == review_logins(reviewers@)),
            pending@ == pending_requests(reviewers@, review_requests@.take(i as int)),
        decreases review_requests.len() - i,
    {
        let request = &review_requests[i];
        let done = is_reviewed_login(reviewed.as_ref(), request.login.as_str());
        proof {
            if reviewers@.len() == 0 {
                assert(!review_logins(reviewers@).contains(request.login@));
            }
            assert(done == review_logins(reviewers@).contains(request.login@));
            assert(review_requests@.take(i + 1) =~= review_requests@.take(i as int).push(
                review_requests@[i as int],
            ));
            reveal(Seq::filter);
            assert(review_requests@.take(i + 1).drop_last() =~= review_requests@.take(i as int));
        }
        if !done {
            pending.push(request.clone());
        }
        i = i + 1;
    }
    assert(review_requests@.take(i as int) =~= review_requests@);
    pending
}

} // verus!
