//! The order of a result list: newest first, mails of one second in the
//! order in which they came.

use crate::client::{mail_views, Mail, MailView};
use vstd::prelude::*;

verus! {

/// The second at which `m` was received.
pub open spec fn received(m: MailView) -> int {
    m.internal_date.secs()
}

/// No mail of `mails` is newer than one before it.
pub open spec fn is_newest_first(mails: Seq<MailView>) -> bool {
    forall|i: int, j: int| 0 <= i < j < mails.len() ==> received(mails[i]) >= received(mails[j])
}

/// The mails of `mails` that were received at the second `at`, in their order.
pub open spec fn received_at(mails: Seq<MailView>, at: int) -> Seq<MailView> {
    mails.filter(|m: MailView| received(m) == at)
}

/// `sorted` with `m` set behind the last mail that is as new as `m` or newer.
pub open spec fn inserted(sorted: Seq<MailView>, m: MailView) -> Seq<MailView>
    decreases sorted.len(),
{
    if sorted.len() > 0 && received(sorted.last()) < received(m) {
        inserted(sorted.drop_last(), m).push(sorted.last())
    } else {
        sorted.push(m)
    }
}

/// `mails` ordered newest first: each in turn is set behind those that are
/// as new or newer.
pub open spec fn newest_first(mails: Seq<MailView>) -> Seq<MailView>
    decreases mails.len(),
{
    if mails.len() == 0 {
        Seq::empty()
    } else {
        inserted(newest_first(mails.drop_last()), mails.last())
    }
}

/// The order that a query asks for: newest first, or that list turned
/// round.
pub open spec fn ordered(mails: Seq<MailView>, reverse: bool) -> Seq<MailView> {
    if reverse {
        newest_first(mails).reverse()
    } else {
        newest_first(mails)
    }
}

/// Where `m` goes in `sorted`: behind the last mail that is as new or
/// newer.
pub open spec fn insertion_point(sorted: Seq<MailView>, m: MailView) -> int
    decreases sorted.len(),
{
    if sorted.len() > 0 && received(sorted.last()) < received(m) {
        insertion_point(sorted.drop_last(), m)
    } else {
        sorted.len() as int
    }
}

/// Inserting puts the mail at the insertion point and moves nothing else.
pub proof fn lemma_inserted_is_insert(sorted: Seq<MailView>, m: MailView)
    ensures
        0 <= insertion_point(sorted, m) <= sorted.len(),
        inserted(sorted, m) == sorted.insert(insertion_point(sorted, m), m),
    decreases sorted.len(),
{
    if sorted.len() > 0 && received(sorted.last()) < received(m) {
        lemma_inserted_is_insert(sorted.drop_last(), m);
        let p = insertion_point(sorted.drop_last(), m);
        assert(sorted.drop_last().insert(p, m).push(sorted.last()) =~= sorted.insert(p, m));
    } else {
        assert(sorted.push(m) =~= sorted.insert(sorted.len() as int, m));
    }
}

/// Sets `m` into `sorted` behind the last mail that is as new or newer.
pub fn insert_newest_first(sorted: &mut Vec<Mail>, m: Mail)
    ensures
        mail_views(final(sorted)@) == inserted(mail_views(old(sorted)@), m@),
{
    let ghost before = mail_views(sorted@);
    let mut at: usize = sorted.len();
    assert(before.take(at as int) =~= before);
    while at > 0 && sorted[at - 1].internal_date.timestamp() < m.internal_date.timestamp()
        invariant
            at <= sorted.len(),
            before == mail_views(sorted@),
            insertion_point(before, m@) == insertion_point(before.take(at as int), m@),
        decreases at,
    {
        assert(before.take(at as int).drop_last() =~= before.take(at - 1));
        at -= 1;
    }
    proof {
        lemma_inserted_is_insert(before, m@);
        assert(insertion_point(before, m@) == at);
    }
    sorted.insert(at, m);
    assert(mail_views(sorted@) =~= before.insert(at as int, m@));
}

/// `mails` turned round.
pub fn reversed(mails: Vec<Mail>) -> (r: Vec<Mail>)
    ensures
        mail_views(r@) == mail_views(mails@).reverse(),
{
    let ghost all = mail_views(mails@);
    let mut rest = mails;
    let mut r: Vec<Mail> = Vec::new();
    while rest.len() > 0
        invariant
            rest.len() <= all.len(),
            mail_views(rest@) == all.take(rest.len() as int),
            r.len() == all.len() - rest.len(),
            forall|i: int| 0 <= i < r.len() ==> (#[trigger] r@[i])@ == all[all.len() - 1 - i],
        decreases rest.len(),
    {
        let ghost prev = rest@;
        let m = rest.pop().unwrap();
        assert(m@ == mail_views(prev)[prev.len() - 1]);
        assert(mail_views(rest@) =~= all.take(rest.len() as int));
        r.push(m);
    }
    assert(mail_views(r@) =~= all.reverse());
    r
}

/// Every mail behind the insertion point is older than `m`, and the mail
/// just before it, if there is one, is as new as `m` or newer.
pub proof fn lemma_insertion_point_divides(sorted: Seq<MailView>, m: MailView)
    ensures
        0 <= insertion_point(sorted, m) <= sorted.len(),
        forall|i: int|
            insertion_point(sorted, m) <= i < sorted.len() ==> received(#[trigger] sorted[i])
                < received(m),
        insertion_point(sorted, m) > 0 ==> received(sorted[insertion_point(sorted, m) - 1])
            >= received(m),
    decreases sorted.len(),
{
    if sorted.len() > 0 && received(sorted.last()) < received(m) {
        lemma_insertion_point_divides(sorted.drop_last(), m);
        let p = insertion_point(sorted, m);
        assert forall|i: int| p <= i < sorted.len() implies received(#[trigger] sorted[i])
            < received(m) by {
            if i < sorted.len() - 1 {
                assert(sorted[i] == sorted.drop_last()[i]);
            }
        }
        if p > 0 {
            assert(sorted[p - 1] == sorted.drop_last()[p - 1]);
        }
    }
}

/// Inserting into a list that is newest first leaves it newest first.
pub proof fn lemma_inserted_is_newest_first(sorted: Seq<MailView>, m: MailView)
    requires
        is_newest_first(sorted),
    ensures
        is_newest_first(inserted(sorted, m)),
{
    lemma_inserted_is_insert(sorted, m);
    lemma_insertion_point_divides(sorted, m);
    let p = insertion_point(sorted, m);
    let r = sorted.insert(p, m);
    assert forall|i: int, j: int| 0 <= i < j < r.len() implies received(r[i]) >= received(
        r[j],
    ) by {
        if j < p {
            assert(r[i] == sorted[i] && r[j] == sorted[j]);
        } else if j == p {
            assert(r[i] == sorted[i]);
            assert(received(sorted[i]) >= received(sorted[p - 1]));
        } else if i < p {
            assert(r[i] == sorted[i] && r[j] == sorted[j - 1]);
        } else if i == p {
            assert(r[j] == sorted[j - 1]);
        } else {
            assert(r[i] == sorted[i - 1] && r[j] == sorted[j - 1]);
        }
    }
}

/// The ordered list is newest first: no mail in it is newer than one before
/// it.
pub proof fn lemma_newest_first_is_sorted(mails: Seq<MailView>)
    ensures
        is_newest_first(newest_first(mails)),
    decreases mails.len(),
{
    if mails.len() > 0 {
        lemma_newest_first_is_sorted(mails.drop_last());
        lemma_inserted_is_newest_first(newest_first(mails.drop_last()), mails.last());
    }
}

/// Inserting a mail adds it behind the mails of its own second and changes
/// the mails of no other second.
pub proof fn lemma_inserted_keeps_each_second(sorted: Seq<MailView>, m: MailView, at: int)
    ensures
        received_at(inserted(sorted, m), at) == if received(m) == at {
            received_at(sorted, at).push(m)
        } else {
            received_at(sorted, at)
        },
{
    lemma_inserted_is_insert(sorted, m);
    lemma_insertion_point_divides(sorted, m);
    let p = insertion_point(sorted, m);
    let pred = |x: MailView| received(x) == at;
    let front = sorted.take(p);
    let back = sorted.skip(p);
    assert(sorted =~= front + back);
    assert(sorted.insert(p, m) =~= front.push(m) + back);
    Seq::filter_distributes_over_add(front, back, pred);
    Seq::filter_distributes_over_add(front.push(m), back, pred);
    front.lemma_filter_push(m, pred);
    if received(m) == at {
        assert forall|i: int| 0 <= i < back.len() implies !pred(#[trigger] back[i]) by {
            assert(back[i] == sorted[p + i]);
        }
        back.lemma_all_neg_filter_empty(pred);
        assert(front.filter(pred) + back.filter(pred) =~= front.filter(pred));
        assert(front.filter(pred).push(m) + back.filter(pred) =~= front.filter(pred).push(m));
    }
}

/// The order is stable and loses nothing: for every second, the ordered
/// list holds the mails of that second that the given list holds, in the
/// order in which the given list holds them.
pub proof fn lemma_newest_first_keeps_each_second(mails: Seq<MailView>, at: int)
    ensures
        received_at(newest_first(mails), at) == received_at(mails, at),
    decreases mails.len(),
{
    let pred = |x: MailView| received(x) == at;
    if mails.len() == 0 {
    } else {
        lemma_newest_first_keeps_each_second(mails.drop_last(), at);
        lemma_inserted_keeps_each_second(newest_first(mails.drop_last()), mails.last(), at);
        mails.drop_last().lemma_filter_push(mails.last(), pred);
        assert(mails.drop_last().push(mails.last()) =~= mails);
    }
}

/// The ordered list holds the mails of the given list, each as often.
pub proof fn lemma_newest_first_is_permutation(mails: Seq<MailView>)
    ensures
        newest_first(mails).to_multiset() == mails.to_multiset(),
        newest_first(mails).len() == mails.len(),
    decreases mails.len(),
{
    if mails.len() > 0 {
        let before = newest_first(mails.drop_last());
        let last = mails.last();
        lemma_newest_first_is_permutation(mails.drop_last());
        lemma_inserted_is_insert(before, last);
        vstd::seq_lib::to_multiset_insert(before, insertion_point(before, last), last);
        vstd::seq_lib::to_multiset_build(mails.drop_last(), last);
        assert(mails.drop_last().push(last) =~= mails);
    } else {
        assert(mails =~= Seq::empty());
    }
}

/// The list in the order asked for holds the mails of the given list and
/// no others.
pub proof fn lemma_ordered_holds_the_same(mails: Seq<MailView>, reverse: bool, m: MailView)
    ensures
        ordered(mails, reverse).contains(m) <==> mails.contains(m),
{
    let sorted = newest_first(mails);
    lemma_newest_first_is_permutation(mails);
    vstd::seq_lib::to_multiset_contains(sorted, m);
    vstd::seq_lib::to_multiset_contains(mails, m);
    if reverse {
        let turned = sorted.reverse();
        if turned.contains(m) {
            let i = choose|i: int| 0 <= i < turned.len() && turned[i] == m;
            assert(sorted[sorted.len() - 1 - i] == m);
        }
        if sorted.contains(m) {
            let i = choose|i: int| 0 <= i < sorted.len() && sorted[i] == m;
            assert(turned[sorted.len() - 1 - i] == m);
        }
    }
}

} // verus!
