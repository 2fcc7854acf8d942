use crate::domain::{SubscriberEmail, email_shape_ok};
use crate::idempotency::{
    CompleteError, IdempotencyKey, IdempotencyKeyError, IdempotencyStore, PublishStep, SavedResponse,
    after_complete, begin_step, has_record, in_progress, key_accepted,
};
use crate::subscriptions::{RowModel, SubscriptionStatus, SubscriptionStore};
use crate::utils::{see_other, see_other_model};
use vstd::prelude::*;

verus! {

/// The emails of the confirmed rows, in table order.
pub open spec fn confirmed_emails(rows: Seq<RowModel>) -> Seq<Seq<char>>
    decreases rows.len(),
{
    if rows.len() == 0 {
        Seq::empty()
    } else {
        let rest = confirmed_emails(rows.drop_last());
        if rows.last().status == SubscriptionStatus::Confirmed {
            rest.push(rows.last().email)
        } else {
            rest
        }
    }
}

/// The addresses among `emails` that pass validation, in order.
pub open spec fn deliverable(emails: Seq<Seq<char>>) -> Seq<Seq<char>>
    decreases emails.len(),
{
    if emails.len() == 0 {
        Seq::empty()
    } else {
        let rest = deliverable(emails.drop_last());
        if email_shape_ok(emails.last()) {
            rest.push(emails.last())
        } else {
            rest
        }
    }
}

/// The rejection message of each address among `emails` that fails
/// validation, in order.
pub open spec fn rejection_messages(emails: Seq<Seq<char>>) -> Seq<Seq<char>>
    decreases emails.len(),
{
    if emails.len() == 0 {
        Seq::empty()
    } else {
        let rest = rejection_messages(emails.drop_last());
        if email_shape_ok(emails.last()) {
            rest
        } else {
            rest.push(emails.last() + " is not a valid subscriber email"@)
        }
    }
}

/// Each entry is the outcome of validating the address at its place.
pub open spec fn validated_from(
    entries: Seq<Result<ConfirmedSubscriber, String>>,
    emails: Seq<Seq<char>>,
) -> bool {
    &&& entries.len() == emails.len()
    &&& forall|i: int|
        0 <= i < entries.len() ==> match #[trigger] entries[i] {
            Ok(s) => email_shape_ok(emails[i]) && s.email@ == emails[i],
            Err(m) => !email_shape_ok(emails[i]) && m@ == emails[i]
                + " is not a valid subscriber email"@,
        }
}

proof fn lemma_valid_entries_deliverable(
    entries: Seq<Result<ConfirmedSubscriber, String>>,
    emails: Seq<Seq<char>>,
)
    requires
        validated_from(entries, emails),
    ensures
        valid_entries(entries) == deliverable(emails),
        rejected_entries(entries) == rejection_messages(emails),
    decreases entries.len(),
{
    if entries.len() > 0 {
        let n = entries.len() - 1;
        assert(validated_from(entries.drop_last(), emails.drop_last())) by {
            assert forall|i: int| 0 <= i < entries.drop_last().len() implies match #[trigger] entries.drop_last()[i] {
                Ok(s) => email_shape_ok(emails.drop_last()[i]) && s.email@ == emails.drop_last()[i],
                Err(m) => !email_shape_ok(emails.drop_last()[i]) && m@ == emails.drop_last()[i]
                    + " is not a valid subscriber email"@,
            } by {
                assert(entries.drop_last()[i] == entries[i]);
            }
        }
        lemma_valid_entries_deliverable(entries.drop_last(), emails.drop_last());
        assert(entries[n] == entries.last());
    }
}

/// A confirmed subscriber whose stored address passed validation again.
#[derive(Debug)]
pub struct ConfirmedSubscriber {
    pub email: SubscriberEmail,
}

/// Reads the confirmed subscribers, validating each stored address again: an
/// address that fails stands as an error in its place.
pub fn get_confirmed_subscribers(store: &SubscriptionStore) -> (r: Vec<
    Result<ConfirmedSubscriber, String>,
>)
    ensures
        r@.len() == confirmed_emails(store@).len(),
        forall|i: int|
            0 <= i < r@.len() ==> match #[trigger] r@[i] {
                Ok(s) => email_shape_ok(confirmed_emails(store@)[i]) && s.email@ == confirmed_emails(
                    store@,
                )[i],
                Err(m) => !email_shape_ok(confirmed_emails(store@)[i]) && m@ == confirmed_emails(
                    store@,
                )[i] + " is not a valid subscriber email"@,
            },
{
    let mut out: Vec<Result<ConfirmedSubscriber, String>> = Vec::new();
    let n = store.len();
    for i in 0..n
        invariant
            n == store@.len(),
            out@.len() == confirmed_emails(store@.take(i as int)).len(),
            forall|j: int|
                0 <= j < out@.len() ==> match #[trigger] out@[j] {
                    Ok(s) => email_shape_ok(confirmed_emails(store@.take(i as int))[j])
                        && s.email@ == confirmed_emails(store@.take(i as int))[j],
                    Err(m) => !email_shape_ok(confirmed_emails(store@.take(i as int))[j]) && m@
                        == confirmed_emails(store@.take(i as int))[j]
                        + " is not a valid subscriber email"@,
                },
    {
        let row = store.row(i);
        assert(store@.take(i + 1).drop_last() =~= store@.take(i as int));
        assert(store@.take(i + 1).last() == store@[i as int]);
        if row.status == SubscriptionStatus::Confirmed {
            let parsed = match SubscriberEmail::parse(row.email) {
                Ok(email) => Ok(ConfirmedSubscriber { email }),
                Err(e) => Err(e),
            };
            out.push(parsed);
        }
    }
    assert(store@.take(n as int) =~= store@);
    out
}

/// Who receives an issue: the valid addresses, in order, and the rejection
/// message of each stored address that was skipped.
#[derive(Debug)]
pub struct DeliveryPlan {
    pub recipients: Vec<SubscriberEmail>,
    pub skipped: Vec<String>,
}

/// The addresses of the entries that passed validation, in order.
pub open spec fn valid_entries(entries: Seq<Result<ConfirmedSubscriber, String>>) -> Seq<Seq<char>>
    decreases entries.len(),
{
    if entries.len() == 0 {
        Seq::empty()
    } else {
        let rest = valid_entries(entries.drop_last());
        match entries.last() {
            Ok(s) => rest.push(s.email@),
            Err(_) => rest,
        }
    }
}

/// The rejection messages of the entries that failed validation, in order.
pub open spec fn rejected_entries(entries: Seq<Result<ConfirmedSubscriber, String>>) -> Seq<
    Seq<char>,
>
    decreases entries.len(),
{
    if entries.len() == 0 {
        Seq::empty()
    } else {
        let rest = rejected_entries(entries.drop_last());
        match entries.last() {
            Ok(_) => rest,
            Err(m) => rest.push(m@),
        }
    }
}

/// Splits the confirmed subscribers into recipients and skipped entries; a
/// malformed address never stops delivery to the others.
pub fn plan_delivery(subscribers: Vec<Result<ConfirmedSubscriber, String>>) -> (r: DeliveryPlan)
    ensures
        r.recipients@.len() + r.skipped@.len() == subscribers@.len(),
        r.recipients@.len() == valid_entries(subscribers@).len(),
        forall|j: int|
            0 <= j < r.recipients@.len() ==> #[trigger] r.recipients@[j]@ == valid_entries(
                subscribers@,
            )[j],
        r.skipped@.len() == rejected_entries(subscribers@).len(),
        forall|j: int|
            0 <= j < r.skipped@.len() ==> #[trigger] r.skipped@[j]@ == rejected_entries(
                subscribers@,
            )[j],
{
    let mut recipients: Vec<SubscriberEmail> = Vec::new();
    let mut skipped: Vec<String> = Vec::new();
    let ghost all = subscribers@;
    for item in it: subscribers
        invariant
            it.seq() == all,
            recipients@.len() + skipped@.len() == it.index(),
            recipients@.len() == valid_entries(all.take(it.index() as int)).len(),
            forall|j: int|
                0 <= j < recipients@.len() ==> #[trigger] recipients@[j]@ == valid_entries(
                    all.take(it.index() as int),
                )[j],
            skipped@.len() == rejected_entries(all.take(it.index() as int)).len(),
            forall|j: int|
                0 <= j < skipped@.len() ==> #[trigger] skipped@[j]@ == rejected_entries(
                    all.take(it.index() as int),
                )[j],
    {
        let ghost i = it.index();
        assert(item == all[i as int]);
        assert(all.take(i + 1).drop_last() =~= all.take(i as int));
        assert(all.take(i + 1).last() == all[i as int]);
        match item {
            Ok(s) => {
                recipients.push(s.email);
            },
            Err(m) => {
                skipped.push(m);
            },
        }
    }
    assert(all.take(all.len() as int) =~= all);
    DeliveryPlan { recipients, skipped }
}

/// The audience of an issue: every confirmed subscriber whose stored
/// address is valid, in table order, and a message for each one skipped.
pub fn confirmed_audience(store: &SubscriptionStore) -> (r: DeliveryPlan)
    ensures
        r.recipients@.len() == deliverable(confirmed_emails(store@)).len(),
        forall|j: int|
            0 <= j < r.recipients@.len() ==> #[trigger] r.recipients@[j]@ == deliverable(
                confirmed_emails(store@),
            )[j],
        r.recipients@.len() + r.skipped@.len() == confirmed_emails(store@).len(),
        r.skipped@.len() == rejection_messages(confirmed_emails(store@)).len(),
        forall|j: int|
            0 <= j < r.skipped@.len() ==> #[trigger] r.skipped@[j]@ == rejection_messages(
                confirmed_emails(store@),
            )[j],
{
    let subscribers = get_confirmed_subscribers(store);
    proof {
        lemma_valid_entries_deliverable(subscribers@, confirmed_emails(store@));
    }
    plan_delivery(subscribers)
}

/// The form that publishes an issue.
#[derive(Debug)]
pub struct FormData {
    pub title: String,
    pub html_content: String,
    pub text_content: String,
    pub idempotency_key: String,
}

/// The notice shown once an issue is published.
pub fn published_message(title: &str) -> (r: String)
    ensures
        r@ == "Newsletter \""@ + title@ + "\" has been published."@,
{
    String::from_str("Newsletter \"").concat(title).concat("\" has been published.")
}

/// The first half of the publish action: the key's syntax is checked before
/// any storage is touched, then the deduplicator decides whether this
/// request sends the issue.
pub fn begin_publish(store: &mut IdempotencyStore, user_id: u128, form: &FormData) -> (r: Result<
    (IdempotencyKey, PublishStep),
    IdempotencyKeyError,
>)
    requires
        old(store).wf(),
    ensures
        final(store).wf(),
        r is Ok <==> key_accepted(form.idempotency_key@),
        r is Err ==> final(store)@ == old(store)@,
        r matches Ok((key, step)) ==> key@ == form.idempotency_key@ && step@ == begin_step(
            old(store)@,
            user_id,
            key@,
        ).0 && final(store)@ == begin_step(old(store)@, user_id, key@).1,
{
    match IdempotencyKey::parse(form.idempotency_key.clone()) {
        Err(e) => Err(e),
        Ok(key) => {
            let step = crate::idempotency::begin_request(store, user_id, &key);
            Ok((key, step))
        },
    }
}

/// The second half of the publish action, once the issue went to every
/// recipient: the redirect back to the form is saved against the key and
/// returned.
pub fn finish_publish(store: &mut IdempotencyStore, user_id: u128, key: &IdempotencyKey) -> (r:
    Result<SavedResponse, CompleteError>)
    requires
        old(store).wf(),
    ensures
        final(store).wf(),
        final(store)@ == after_complete(
            old(store)@,
            user_id,
            key@,
            see_other_model("/admin/newsletters"@),
        ),
        r is Ok <==> in_progress(old(store)@, user_id, key@),
        r matches Ok(sent) ==> sent@ == see_other_model("/admin/newsletters"@),
        r == Err::<SavedResponse, _>(CompleteError::NotClaimed) <==> !has_record(
            old(store)@,
            user_id,
            key@,
        ),
{
    let response = see_other("/admin/newsletters");
    crate::idempotency::save_response(store, user_id, key, response)
}

} // verus!
