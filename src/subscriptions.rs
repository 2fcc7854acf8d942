use crate::domain::NewSubscriber;
use rand::Rng;
use vstd::prelude::*;

verus! {

/// Length of a confirmation token, in characters.
pub const TOKEN_LENGTH: usize = 25;

#[derive(Debug, Clone, Copy, PartialEq, Eq, Structural)]
pub enum SubscriptionStatus {
    PendingConfirmation,
    Confirmed,
}

impl SubscriptionStatus {
    pub fn as_str(&self) -> (r: &'static str)
        ensures
            r@ == match self {
                SubscriptionStatus::PendingConfirmation => "pending_confirmation"@,
                SubscriptionStatus::Confirmed => "confirmed"@,
            },
    {
        match self {
            SubscriptionStatus::PendingConfirmation => "pending_confirmation",
            SubscriptionStatus::Confirmed => "confirmed",
        }
    }
}

/// A subscriber together with the confirmation token minted for it.
#[derive(Debug)]
pub struct SubscriberRow {
    pub id: u128,
    pub email: String,
    pub name: String,
    pub subscribed_at: i64,
    pub status: SubscriptionStatus,
    pub token: String,
}

pub struct RowModel {
    pub id: u128,
    pub email: Seq<char>,
    pub name: Seq<char>,
    pub subscribed_at: i64,
    pub status: SubscriptionStatus,
    pub token: Seq<char>,
}

impl View for SubscriberRow {
    type V = RowModel;

    open spec fn view(&self) -> RowModel {
        RowModel {
            id: self.id,
            email: self.email@,
            name: self.name@,
            subscribed_at: self.subscribed_at,
            status: self.status,
            token: self.token@,
        }
    }
}

pub open spec fn has_email(rows: Seq<RowModel>, email: Seq<char>) -> bool {
    exists|i: int| 0 <= i < rows.len() && #[trigger] rows[i].email == email
}

pub open spec fn email_index(rows: Seq<RowModel>, email: Seq<char>) -> int {
    choose|i: int| 0 <= i < rows.len() && #[trigger] rows[i].email == email
}

pub open spec fn has_token(rows: Seq<RowModel>, token: Seq<char>) -> bool {
    exists|i: int| 0 <= i < rows.len() && #[trigger] rows[i].token == token
}

pub open spec fn token_index(rows: Seq<RowModel>, token: Seq<char>) -> int {
    choose|i: int| 0 <= i < rows.len() && #[trigger] rows[i].token == token
}

pub open spec fn has_id(rows: Seq<RowModel>, id: u128) -> bool {
    exists|i: int| 0 <= i < rows.len() && #[trigger] rows[i].id == id
}

pub open spec fn id_index(rows: Seq<RowModel>, id: u128) -> int {
    choose|i: int| 0 <= i < rows.len() && #[trigger] rows[i].id == id
}

/// At most one row per email, per id and per token.
pub open spec fn rows_unique(rows: Seq<RowModel>) -> bool {
    forall|i: int, j: int|
        #![trigger rows[i], rows[j]]
        0 <= i < rows.len() && 0 <= j < rows.len() && i != j ==> {
            &&& rows[i].email != rows[j].email
            &&& rows[i].id != rows[j].id
            &&& rows[i].token != rows[j].token
        }
}

pub open spec fn ascii_alphanumeric(c: char) -> bool {
    ('a' <= c && c <= 'z') || ('A' <= c && c <= 'Z') || ('0' <= c && c <= '9')
}

/// Relies on `rand::distributions::Alphanumeric` sampled from
/// `rand::thread_rng()`: each character is an ASCII letter or digit.
#[verifier::external_body]
fn random_alphanumeric(len: usize) -> (r: String)
    ensures
        r@.len() == len,
        forall|i: int| 0 <= i < r@.len() ==> ascii_alphanumeric(#[trigger] r@[i]),
{
    let mut rng = rand::thread_rng();
    std::iter::repeat_with(|| rng.sample(rand::distributions::Alphanumeric)).map(char::from).take(
        len,
    ).collect()
}

/// Relies on `uuid::Uuid::new_v4`, read as its 128-bit value.
#[verifier::external_body]
fn new_subscriber_id() -> (r: u128) {
    uuid::Uuid::new_v4().as_u128()
}

/// Relies on `chrono::Utc::now`, as seconds since the Unix epoch.
#[verifier::external_body]
fn current_timestamp() -> (r: i64) {
    chrono::Utc::now().timestamp()
}

/// A fresh, random confirmation token.
pub fn generate_subscription_token() -> (r: String)
    ensures
        r@.len() == TOKEN_LENGTH,
        forall|i: int| 0 <= i < r@.len() ==> ascii_alphanumeric(#[trigger] r@[i]),
{
    random_alphanumeric(TOKEN_LENGTH)
}

/// The confirmation email of a subscribe attempt.
#[derive(Debug)]
pub struct ConfirmationEmail {
    pub subject: String,
    pub html_body: String,
    pub plain_body: String,
}

pub open spec fn confirmation_link_of(base_url: Seq<char>, token: Seq<char>) -> Seq<char> {
    base_url + "/subscriptions/confirm?subscription_token="@ + token
}

/// The link that confirms the subscription holding `token`.
pub fn confirmation_link(base_url: &str, token: &str) -> (r: String)
    ensures
        r@ == confirmation_link_of(base_url@, token@),
{
    String::from_str(base_url).concat("/subscriptions/confirm?subscription_token=").concat(token)
}

/// The welcome email that carries the confirmation link.
pub fn confirmation_email(base_url: &str, token: &str) -> (r: ConfirmationEmail)
    ensures
        r.subject@ == "Welcome!"@,
        r.plain_body@ == "Welcome to our newsletter!\n visit "@ + confirmation_link_of(
            base_url@,
            token@,
        ) + " to confirm your subscription"@,
        r.html_body@ == "Welcome to our newsletter!<br /><a href=\""@ + confirmation_link_of(
            base_url@,
            token@,
        ) + "\">Confirm your subscription.</a>"@,
{
    let link = confirmation_link(base_url, token);
    let plain_body = String::from_str("Welcome to our newsletter!\n visit ").concat(
        link.as_str(),
    ).concat(" to confirm your subscription");
    let html_body = String::from_str("Welcome to our newsletter!<br /><a href=\"").concat(
        link.as_str(),
    ).concat("\">Confirm your subscription.</a>");
    ConfirmationEmail { subject: String::from_str("Welcome!"), html_body, plain_body }
}

/// A unit of work that inserts a pending subscriber with this email and name,
/// holding a freshly generated token.
pub open spec fn fresh_pending(p: PendingModel, email: Seq<char>, name: Seq<char>) -> bool {
    &&& p.row matches Some(row) && row.email == email && row.name == name && row.status
        == SubscriptionStatus::PendingConfirmation && row.token == p.token
    &&& p.token.len() == TOKEN_LENGTH
    &&& forall|i: int| 0 <= i < p.token.len() ==> ascii_alphanumeric(#[trigger] p.token[i])
}

/// The subscribe form.
#[derive(Debug)]
pub struct FormData {
    pub email: String,
    pub name: String,
}

/// A subscribe attempt's unit of work, not yet visible in the store: the
/// token to send and, for a new email, the row to insert.
#[derive(Debug)]
pub struct PendingSubscription {
    token: String,
    row: Option<SubscriberRow>,
}

pub struct PendingModel {
    pub token: Seq<char>,
    pub row: Option<RowModel>,
}

impl View for PendingSubscription {
    type V = PendingModel;

    closed spec fn view(&self) -> PendingModel {
        PendingModel {
            token: self.token@,
            row: match self.row {
                Some(r) => Some(r@),
                None => None,
            },
        }
    }
}

impl PendingSubscription {
    /// The token that the confirmation link carries.
    pub fn token(&self) -> (r: &str)
        ensures
            r@ == self@.token,
    {
        self.token.as_str()
    }

    /// Whether committing would insert a new subscriber.
    pub fn creates_subscriber(&self) -> (r: bool)
        ensures
            r == self@.row is Some,
    {
        self.row.is_some()
    }
}

/// The unit of work for a subscribe attempt: an email that already has a
/// subscriber reuses its token unchanged; a new email gets a pending row
/// holding the fresh token.
pub open spec fn plan_subscription(
    rows: Seq<RowModel>,
    email: Seq<char>,
    name: Seq<char>,
    id: u128,
    fresh_token: Seq<char>,
    now: i64,
) -> PendingModel {
    if has_email(rows, email) {
        PendingModel { token: rows[email_index(rows, email)].token, row: None }
    } else {
        PendingModel {
            token: fresh_token,
            row: Some(
                RowModel {
                    id,
                    email,
                    name,
                    subscribed_at: now,
                    status: SubscriptionStatus::PendingConfirmation,
                    token: fresh_token,
                },
            ),
        }
    }
}

#[derive(Debug, PartialEq, Eq, Structural)]
pub enum SubscribeError {
    /// The transport did not accept the confirmation email.
    TransportFailure,
    /// Another attempt inserted this email first; look the token up again.
    EmailTaken,
    /// The generated id is in use already.
    IdTaken,
    /// The generated token is in use already.
    TokenTaken,
}

/// A subscribe request makes at most this many attempts.
pub const MAX_SUBSCRIBE_ATTEMPTS: usize = 3;

/// What a subscribe request does once an attempt has ended.
#[derive(Debug, PartialEq, Eq, Structural)]
pub enum SubscribeNext {
    /// Report success.
    Succeeded,
    /// Start over from the token lookup.
    Retry,
    /// Report a server error.
    Failed,
}

/// Decides what follows attempt number `attempt` (counted from 1). A refused
/// confirmation email fails the request at once. An attempt that lost a
/// uniqueness race, to another attempt on the same email or to a drawn id or
/// token already in use, is retried from the lookup while attempts are left.
pub fn next_after_attempt(outcome: &Result<(), SubscribeError>, attempt: usize) -> (r:
    SubscribeNext)
    ensures
        outcome is Ok ==> r == SubscribeNext::Succeeded,
        *outcome == Err::<(), _>(SubscribeError::TransportFailure) ==> r == SubscribeNext::Failed,
        outcome is Err && *outcome != Err::<(), _>(SubscribeError::TransportFailure) ==> (r
            == SubscribeNext::Retry <==> attempt < MAX_SUBSCRIBE_ATTEMPTS),
        outcome is Err && *outcome != Err::<(), _>(SubscribeError::TransportFailure) ==> (r
            == SubscribeNext::Failed <==> attempt >= MAX_SUBSCRIBE_ATTEMPTS),
{
    match outcome {
        Ok(()) => SubscribeNext::Succeeded,
        Err(SubscribeError::TransportFailure) => SubscribeNext::Failed,
        Err(_) => if attempt < MAX_SUBSCRIBE_ATTEMPTS {
            SubscribeNext::Retry
        } else {
            SubscribeNext::Failed
        },
    }
}

/// Committing a unit of work: nothing to insert is a success; a row is
/// inserted only where its email, id and token are all new.
pub open spec fn commit_result(rows: Seq<RowModel>, pending: PendingModel) -> (
    Result<(), SubscribeError>,
    Seq<RowModel>,
) {
    match pending.row {
        None => (Ok(()), rows),
        Some(r) => if has_email(rows, r.email) {
            (Err(SubscribeError::EmailTaken), rows)
        } else if has_id(rows, r.id) {
            (Err(SubscribeError::IdTaken), rows)
        } else if has_token(rows, r.token) {
            (Err(SubscribeError::TokenTaken), rows)
        } else {
            (Ok(()), rows.push(r))
        },
    }
}

/// The end of a subscribe attempt: the unit of work is committed only when
/// the transport accepted the confirmation email.
pub open spec fn finish_result(rows: Seq<RowModel>, pending: PendingModel, accepted: bool) -> (
    Result<(), SubscribeError>,
    Seq<RowModel>,
) {
    if accepted {
        commit_result(rows, pending)
    } else {
        (Err(SubscribeError::TransportFailure), rows)
    }
}

/// Confirming the subscriber with this id; other rows stay as they are.
pub open spec fn after_confirm(rows: Seq<RowModel>, id: u128) -> Seq<RowModel> {
    if has_id(rows, id) {
        let r = rows[id_index(rows, id)];
        rows.update(
            id_index(rows, id),
            RowModel {
                id: r.id,
                email: r.email,
                name: r.name,
                subscribed_at: r.subscribed_at,
                status: SubscriptionStatus::Confirmed,
                token: r.token,
            },
        )
    } else {
        rows
    }
}

/// Exchanging a token: a known one confirms its subscriber, an unknown one
/// is refused and changes nothing.
pub open spec fn confirm_result(rows: Seq<RowModel>, token: Seq<char>) -> (bool, Seq<RowModel>) {
    if has_token(rows, token) {
        (true, after_confirm(rows, rows[token_index(rows, token)].id))
    } else {
        (false, rows)
    }
}

/// The query string of a confirmation link.
#[derive(Debug)]
pub struct Parameters {
    pub subscription_token: String,
}

#[derive(Debug, PartialEq, Eq)]
pub enum ConfirmError {
    /// No subscriber holds the token.
    UnknownToken,
    /// The store failed.
    UnexpectedError(String),
}

impl ConfirmError {
    pub fn status_code(&self) -> (r: u16)
        ensures
            r == match self {
                ConfirmError::UnknownToken => 401u16,
                ConfirmError::UnexpectedError(_) => 500u16,
            },
    {
        match self {
            ConfirmError::UnknownToken => 401,
            ConfirmError::UnexpectedError(_) => 500,
        }
    }

    pub fn message(&self) -> (r: String)
        ensures
            self is UnknownToken ==> r@
                == "There is no subscriber associated with the provided token."@,
            self matches ConfirmError::UnexpectedError(m) ==> r@ == m@,
    {
        match self {
            ConfirmError::UnknownToken => String::from_str(
                "There is no subscriber associated with the provided token.",
            ),
            ConfirmError::UnexpectedError(m) => m.clone(),
        }
    }
}

/// The subscriber table, with each subscriber's confirmation token.
pub struct SubscriptionStore {
    rows: Vec<SubscriberRow>,
}

impl View for SubscriptionStore {
    type V = Seq<RowModel>;

    closed spec fn view(&self) -> Seq<RowModel> {
        self.rows@.map_values(|r: SubscriberRow| r@)
    }
}

impl SubscriptionStore {
    pub open spec fn wf(&self) -> bool {
        rows_unique(self@)
    }

    pub fn new() -> (r: SubscriptionStore)
        ensures
            r.wf(),
            r@ == Seq::<RowModel>::empty(),
    {
        let r = SubscriptionStore { rows: Vec::new() };
        assert(r@ =~= Seq::<RowModel>::empty());
        r
    }

    pub fn len(&self) -> (r: usize)
        ensures
            r == self@.len(),
    {
        self.rows.len()
    }

    /// A copy of the row at `i`.
    pub fn row(&self, i: usize) -> (r: SubscriberRow)
        requires
            i < self@.len(),
        ensures
            r@ == self@[i as int],
    {
        let row = &self.rows[i];
        SubscriberRow {
            id: row.id,
            email: row.email.clone(),
            name: row.name.clone(),
            subscribed_at: row.subscribed_at,
            status: row.status,
            token: row.token.clone(),
        }
    }

    fn find_email(&self, email: &String) -> (r: Option<usize>)
        requires
            self.wf(),
        ensures
            r matches Some(i) ==> i < self@.len() && self@[i as int].email == email@ && i
                == email_index(self@, email@),
            r is None ==> !has_email(self@, email@),
    {
        let mut i: usize = 0;
        while i < self.rows.len()
            invariant
                i <= self.rows@.len(),
                self@.len() == self.rows@.len(),
                rows_unique(self@),
                forall|j: int| 0 <= j < i ==> #[trigger] self@[j].email != email@,
            decreases self.rows@.len() - i,
        {
            assert(self@[i as int] == self.rows@[i as int]@);
            if self.rows[i].email.eq(email) {
                assert(self@[i as int].email == email@);
                let ghost c = email_index(self@, email@);
                assert(0 <= c < self@.len() && self@[c].email == email@);
                return Some(i);
            }
            i += 1;
        }
        None
    }

    fn find_token(&self, token: &String) -> (r: Option<usize>)
        requires
            self.wf(),
        ensures
            r matches Some(i) ==> i < self@.len() && self@[i as int].token == token@ && i
                == token_index(self@, token@),
            r is None ==> !has_token(self@, token@),
    {
        let mut i: usize = 0;
        while i < self.rows.len()
            invariant
                i <= self.rows@.len(),
                self@.len() == self.rows@.len(),
                rows_unique(self@),
                forall|j: int| 0 <= j < i ==> #[trigger] self@[j].token != token@,
            decreases self.rows@.len() - i,
        {
            assert(self@[i as int] == self.rows@[i as int]@);
            if self.rows[i].token.eq(token) {
                assert(self@[i as int].token == token@);
                let ghost c = token_index(self@, token@);
                assert(0 <= c < self@.len() && self@[c].token == token@);
                return Some(i);
            }
            i += 1;
        }
        None
    }

    fn find_id(&self, id: u128) -> (r: Option<usize>)
        requires
            self.wf(),
        ensures
            r matches Some(i) ==> i < self@.len() && self@[i as int].id == id && i == id_index(
                self@,
                id,
            ),
            r is None ==> !has_id(self@, id),
    {
        let mut i: usize = 0;
        while i < self.rows.len()
            invariant
                i <= self.rows@.len(),
                self@.len() == self.rows@.len(),
                rows_unique(self@),
                forall|j: int| 0 <= j < i ==> #[trigger] self@[j].id != id,
            decreases self.rows@.len() - i,
        {
            assert(self@[i as int] == self.rows@[i as int]@);
            if self.rows[i].id == id {
                assert(self@[i as int].id == id);
                let ghost c = id_index(self@, id);
                assert(0 <= c < self@.len() && self@[c].id == id);
                return Some(i);
            }
            i += 1;
        }
        None
    }

    /// Resolves the token for a subscribe attempt without writing anything.
    pub fn begin_subscription(
        &self,
        new_subscriber: &NewSubscriber,
        id: u128,
        fresh_token: String,
        now: i64,
    ) -> (r: PendingSubscription)
        requires
            self.wf(),
        ensures
            r@ == plan_subscription(
                self@,
                new_subscriber.email@,
                new_subscriber.name@,
                id,
                fresh_token@,
                now,
            ),
    {
        let email = String::from_str(new_subscriber.email.as_str());
        match self.get_token_from_email(&email) {
            Some(token) => PendingSubscription { token, row: None },
            None => {
                let row = SubscriberRow {
                    id,
                    email,
                    name: String::from_str(new_subscriber.name.as_str()),
                    subscribed_at: now,
                    status: SubscriptionStatus::PendingConfirmation,
                    token: fresh_token.clone(),
                };
                PendingSubscription { token: fresh_token, row: Some(row) }
            },
        }
    }

    /// Resolves the token for a subscribe attempt, drawing a fresh id, token
    /// and time for an email that has no subscriber yet.
    pub fn start_subscription(&self, new_subscriber: &NewSubscriber) -> (r: PendingSubscription)
        requires
            self.wf(),
        ensures
            has_email(self@, new_subscriber.email@) ==> r@.row is None && r@.token == self@[email_index(
                self@,
                new_subscriber.email@,
            )].token,
            !has_email(self@, new_subscriber.email@) ==> fresh_pending(
                r@,
                new_subscriber.email@,
                new_subscriber.name@,
            ),
    {
        let id = new_subscriber_id();
        let token = generate_subscription_token();
        let now = current_timestamp();
        let ghost token_view = token@;
        let r = self.begin_subscription(new_subscriber, id, token, now);
        assert(!has_email(self@, new_subscriber.email@) ==> r@.token == token_view);
        r
    }

    /// Makes the unit of work visible. The uniqueness of email, id and token
    /// is enforced here: a row that breaks it is not inserted.
    pub fn commit(&mut self, pending: PendingSubscription) -> (r: Result<(), SubscribeError>)
        requires
            old(self).wf(),
        ensures
            final(self).wf(),
            r == commit_result(old(self)@, pending@).0,
            final(self)@ == commit_result(old(self)@, pending@).1,
    {
        match pending.row {
            None => Ok(()),
            Some(row) => {
                if self.find_email(&row.email).is_some() {
                    return Err(SubscribeError::EmailTaken);
                }
                if self.find_id(row.id).is_some() {
                    return Err(SubscribeError::IdTaken);
                }
                if self.find_token(&row.token).is_some() {
                    return Err(SubscribeError::TokenTaken);
                }
                let ghost before = self@;
                let ghost added = row@;
                self.rows.push(row);
                assert(self@ =~= before.push(added));
                proof {
                    lemma_insert_keeps_unique(before, added);
                }
                Ok(())
            },
        }
    }

    /// Ends a subscribe attempt once the transport has answered: the unit of
    /// work is committed if the confirmation email was accepted and dropped
    /// otherwise.
    pub fn finish_subscription(&mut self, pending: PendingSubscription, accepted: bool) -> (r:
        Result<(), SubscribeError>)
        requires
            old(self).wf(),
        ensures
            final(self).wf(),
            r == finish_result(old(self)@, pending@, accepted).0,
            final(self)@ == finish_result(old(self)@, pending@, accepted).1,
            !accepted ==> final(self)@ == old(self)@,
    {
        if accepted {
            self.commit(pending)
        } else {
            Err(SubscribeError::TransportFailure)
        }
    }

    /// Marks the subscriber with this id as confirmed; confirming twice
    /// changes nothing more.
    pub fn confirm_subscriber(&mut self, id: u128)
        requires
            old(self).wf(),
        ensures
            final(self).wf(),
            final(self)@ == after_confirm(old(self)@, id),
    {
        match self.find_id(id) {
            None => {},
            Some(i) => {
                let ghost before = self@;
                assert(before[i as int] == self.rows@[i as int]@);
                let row = self.row(i);
                let updated = SubscriberRow {
                    id: row.id,
                    email: row.email,
                    name: row.name,
                    subscribed_at: row.subscribed_at,
                    status: SubscriptionStatus::Confirmed,
                    token: row.token,
                };
                let ghost new_view = updated@;
                self.rows.set(i, updated);
                assert(self@ =~= before.update(i as int, new_view));
                proof {
                    lemma_confirm_keeps_unique(before, id);
                }
            },
        }
    }

    /// Exchanges a token for confirmation. An unknown token is refused and
    /// changes nothing; a known one confirms its subscriber, and doing so
    /// again is a success that changes nothing.
    pub fn confirm(&mut self, parameters: &Parameters) -> (r: Result<(), ConfirmError>)
        requires
            old(self).wf(),
        ensures
            final(self).wf(),
            r is Ok <==> confirm_result(old(self)@, parameters.subscription_token@).0,
            r is Err ==> r == Err::<(), _>(ConfirmError::UnknownToken),
            final(self)@ == confirm_result(old(self)@, parameters.subscription_token@).1,
    {
        match self.get_subscriber_id_from_token(&parameters.subscription_token) {
            None => Err(ConfirmError::UnknownToken),
            Some(id) => {
                self.confirm_subscriber(id);
                Ok(())
            },
        }
    }

    /// The token of the subscriber with this email, if there is one.
    pub fn get_token_from_email(&self, email: &String) -> (r: Option<String>)
        requires
            self.wf(),
        ensures
            r is Some <==> has_email(self@, email@),
            r matches Some(t) ==> t@ == self@[email_index(self@, email@)].token,
    {
        match self.find_email(email) {
            Some(i) => {
                assert(self@[i as int] == self.rows@[i as int]@);
                Some(self.rows[i].token.clone())
            },
            None => None,
        }
    }

    /// The id of the subscriber that holds this token, if there is one.
    pub fn get_subscriber_id_from_token(&self, token: &String) -> (r: Option<u128>)
        requires
            self.wf(),
        ensures
            r is Some <==> has_token(self@, token@),
            r matches Some(id) ==> id == self@[token_index(self@, token@)].id,
    {
        match self.find_token(token) {
            Some(i) => {
                assert(self@[i as int] == self.rows@[i as int]@);
                Some(self.rows[i].id)
            },
            None => None,
        }
    }
}

/// Inserting a row whose email, id and token are all new keeps the rows
/// unique.
pub proof fn lemma_insert_keeps_unique(rows: Seq<RowModel>, row: RowModel)
    requires
        rows_unique(rows),
        !has_email(rows, row.email),
        !has_id(rows, row.id),
        !has_token(rows, row.token),
    ensures
        rows_unique(rows.push(row)),
{
    let after = rows.push(row);
    assert forall|i: int, j: int|
        0 <= i < after.len() && 0 <= j < after.len() && i != j implies {
        &&& #[trigger] after[i].email != #[trigger] after[j].email
        &&& after[i].id != after[j].id
        &&& after[i].token != after[j].token
    } by {
        if i < rows.len() && j < rows.len() {
            assert(rows[i] == after[i] && rows[j] == after[j]);
        } else if i < rows.len() {
            assert(rows[i] == after[i]);
        } else {
            assert(rows[j] == after[j]);
        }
    }
}

/// Confirming a subscriber keeps the rows unique.
pub proof fn lemma_confirm_keeps_unique(rows: Seq<RowModel>, id: u128)
    requires
        rows_unique(rows),
    ensures
        rows_unique(after_confirm(rows, id)),
        after_confirm(rows, id).len() == rows.len(),
        forall|i: int|
            0 <= i < rows.len() ==> #[trigger] after_confirm(rows, id)[i].email == rows[i].email
                && after_confirm(rows, id)[i].id == rows[i].id && after_confirm(rows, id)[i].token
                == rows[i].token,
{
    let after = after_confirm(rows, id);
    assert forall|a: int, b: int|
        0 <= a < after.len() && 0 <= b < after.len() && a != b implies {
        &&& #[trigger] after[a].email != #[trigger] after[b].email
        &&& after[a].id != after[b].id
        &&& after[a].token != after[b].token
    } by {
        assert(rows[a].email == after[a].email && rows[a].id == after[a].id && rows[a].token
            == after[a].token);
        assert(rows[b].email == after[b].email && rows[b].id == after[b].id && rows[b].token
            == after[b].token);
    }
}

/// Subscribing the same email again before it is confirmed resends the
/// token minted by the first successful attempt and inserts no second row.
pub proof fn lemma_resubscribe_reuses_token(
    rows: Seq<RowModel>,
    email: Seq<char>,
    first_name: Seq<char>,
    first_id: u128,
    first_token: Seq<char>,
    first_now: i64,
    second_name: Seq<char>,
    second_id: u128,
    second_token: Seq<char>,
    second_now: i64,
)
    requires
        rows_unique(rows),
        !has_email(rows, email),
        commit_result(
            rows,
            plan_subscription(rows, email, first_name, first_id, first_token, first_now),
        ).0 is Ok,
    ensures
        ({
            let first = plan_subscription(rows, email, first_name, first_id, first_token, first_now);
            let after_first = commit_result(rows, first).1;
            let second = plan_subscription(
                after_first,
                email,
                second_name,
                second_id,
                second_token,
                second_now,
            );
            &&& after_first.len() == rows.len() + 1
            &&& has_email(after_first, email)
            &&& after_first[email_index(after_first, email)].status
                == SubscriptionStatus::PendingConfirmation
            &&& second.token == first.token
            &&& second.token == first_token
            &&& second.row is None
            &&& commit_result(after_first, second) == (Ok::<(), SubscribeError>(()), after_first)
        }),
{
    let first = plan_subscription(rows, email, first_name, first_id, first_token, first_now);
    let row = first.row->Some_0;
    let after_first = rows.push(row);
    lemma_insert_keeps_unique(rows, row);
    let n = rows.len() as int;
    assert(after_first[n].email == email);
    let k = email_index(after_first, email);
    assert(after_first[k] == after_first[n]);
}

/// Exchanging an unknown token is refused and changes nothing.
pub proof fn lemma_unknown_token_changes_nothing(rows: Seq<RowModel>, token: Seq<char>)
    requires
        !has_token(rows, token),
    ensures
        confirm_result(rows, token) == (false, rows),
{
}

/// Exchanging a known token confirms its subscriber; exchanging it again
/// succeeds too and changes nothing.
pub proof fn lemma_confirming_twice_is_a_no_op(rows: Seq<RowModel>, token: Seq<char>)
    requires
        rows_unique(rows),
        has_token(rows, token),
    ensures
        confirm_result(rows, token).0,
        has_token(confirm_result(rows, token).1, token),
        ({
            let once = confirm_result(rows, token).1;
            once[token_index(once, token)].status == SubscriptionStatus::Confirmed
        }),
        confirm_result(confirm_result(rows, token).1, token) == (
            true,
            confirm_result(rows, token).1,
        ),
{
    let i = token_index(rows, token);
    let id = rows[i].id;
    assert(rows[i].id == id);
    let j = id_index(rows, id);
    assert(rows[j] == rows[i]);
    let once = confirm_result(rows, token).1;
    lemma_confirm_keeps_unique(rows, id);
    assert(once[i].token == token);
    let t = token_index(once, token);
    assert(once[t] == once[i]);
    assert(once[i].id == id);
    let j2 = id_index(once, id);
    assert(once[j2] == once[i]);
    lemma_confirm_keeps_unique(once, id);
    assert(after_confirm(once, id) =~= once);
}

/// A subscribe attempt whose confirmation email was not accepted leaves the
/// store as it was: a new email has no row afterwards.
pub proof fn lemma_failed_dispatch_leaves_no_row(
    rows: Seq<RowModel>,
    email: Seq<char>,
    name: Seq<char>,
    id: u128,
    token: Seq<char>,
    now: i64,
)
    ensures
        finish_result(rows, plan_subscription(rows, email, name, id, token, now), false) == (
            Err::<(), SubscribeError>(SubscribeError::TransportFailure),
            rows,
        ),
        !has_email(rows, email) ==> !has_email(
            finish_result(rows, plan_subscription(rows, email, name, id, token, now), false).1,
            email,
        ),
{
}

} // verus!
