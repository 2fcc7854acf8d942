use vstd::prelude::*;

verus! {

/// Keys must be shorter than this many characters.
pub const MAX_KEY_CHARS: usize = 50;

/// A key is accepted when it is non-empty and shorter than `MAX_KEY_CHARS`.
pub open spec fn key_accepted(s: Seq<char>) -> bool {
    0 < s.len() && s.len() < MAX_KEY_CHARS
}

#[derive(Debug, PartialEq, Eq, Structural)]
pub enum IdempotencyKeyError {
    Empty,
    TooLong,
}

impl IdempotencyKeyError {
    pub fn message(&self) -> (r: String)
        ensures
            r@ == match self {
                IdempotencyKeyError::Empty => "The idempotency key cannot be empty"@,
                IdempotencyKeyError::TooLong => "The idempotency key must be shorter than 50 characters"@,
            },
    {
        match self {
            IdempotencyKeyError::Empty => String::from_str("The idempotency key cannot be empty"),
            IdempotencyKeyError::TooLong => String::from_str(
                "The idempotency key must be shorter than 50 characters",
            ),
        }
    }
}

/// A caller-supplied key that scopes "the same logical request".
#[derive(Debug)]
pub struct IdempotencyKey {
    key: String,
}

impl View for IdempotencyKey {
    type V = Seq<char>;

    closed spec fn view(&self) -> Seq<char> {
        self.key@
    }
}

impl IdempotencyKey {
    /// Checks the key's syntax; this touches no storage.
    pub fn parse(s: String) -> (r: Result<IdempotencyKey, IdempotencyKeyError>)
        ensures
            r is Ok <==> key_accepted(s@),
            r matches Ok(k) ==> k@ == s@,
            r == Err::<IdempotencyKey, _>(IdempotencyKeyError::Empty) <==> s@.len() == 0,
            r == Err::<IdempotencyKey, _>(IdempotencyKeyError::TooLong) <==> s@.len()
                >= MAX_KEY_CHARS,
    {
        let n = s.as_str().unicode_len();
        if n == 0 {
            Err(IdempotencyKeyError::Empty)
        } else if n >= MAX_KEY_CHARS {
            Err(IdempotencyKeyError::TooLong)
        } else {
            Ok(IdempotencyKey { key: s })
        }
    }

    pub fn as_str(&self) -> (r: &str)
        ensures
            r@ == self@,
    {
        self.key.as_str()
    }
}

/// One response header: its name and its raw value.
#[derive(Debug)]
pub struct HeaderPair {
    pub name: String,
    pub value: Vec<u8>,
}

/// A response as it is captured and replayed: status, ordered headers, body.
#[derive(Debug)]
pub struct SavedResponse {
    pub status: u16,
    pub headers: Vec<HeaderPair>,
    pub body: Vec<u8>,
}

/// The content of a captured response.
pub struct ResponseModel {
    pub status: u16,
    pub headers: Seq<(Seq<char>, Seq<u8>)>,
    pub body: Seq<u8>,
}

impl View for HeaderPair {
    type V = (Seq<char>, Seq<u8>);

    open spec fn view(&self) -> (Seq<char>, Seq<u8>) {
        (self.name@, self.value@)
    }
}

impl View for SavedResponse {
    type V = ResponseModel;

    open spec fn view(&self) -> ResponseModel {
        ResponseModel {
            status: self.status,
            headers: self.headers@.map_values(|h: HeaderPair| h@),
            body: self.body@,
        }
    }
}

impl HeaderPair {
    pub fn duplicate(&self) -> (r: HeaderPair)
        ensures
            r@ == self@,
    {
        HeaderPair { name: self.name.clone(), value: self.value.clone() }
    }
}

impl SavedResponse {
    /// A byte-for-byte copy of the response.
    pub fn duplicate(&self) -> (r: SavedResponse)
        ensures
            r@ == self@,
    {
        let mut headers: Vec<HeaderPair> = Vec::new();
        for i in 0..self.headers.len()
            invariant
                headers@.len() == i,
                forall|j: int| 0 <= j < i ==> #[trigger] headers@[j]@ == self.headers@[j]@,
        {
            headers.push(self.headers[i].duplicate());
        }
        let r = SavedResponse { status: self.status, headers, body: self.body.clone() };
        assert(r@.headers =~= self@.headers);
        r
    }
}

/// The state of one (actor, key) pair: `response` is `None` while the pair is
/// claimed and `Some` once it has completed.
pub struct RecordModel {
    pub user_id: u128,
    pub key: Seq<char>,
    pub response: Option<ResponseModel>,
}

/// One row of the idempotency table.
#[derive(Debug)]
pub struct IdempotencyRecord {
    pub user_id: u128,
    pub key: String,
    pub response: Option<SavedResponse>,
}

impl View for IdempotencyRecord {
    type V = RecordModel;

    open spec fn view(&self) -> RecordModel {
        RecordModel {
            user_id: self.user_id,
            key: self.key@,
            response: match self.response {
                Some(r) => Some(r@),
                None => None,
            },
        }
    }
}

pub open spec fn holds(recs: Seq<RecordModel>, i: int, user_id: u128, key: Seq<char>) -> bool {
    0 <= i < recs.len() && recs[i].user_id == user_id && recs[i].key == key
}

pub open spec fn has_record(recs: Seq<RecordModel>, user_id: u128, key: Seq<char>) -> bool {
    exists|i: int| holds(recs, i, user_id, key)
}

pub open spec fn record_index(recs: Seq<RecordModel>, user_id: u128, key: Seq<char>) -> int {
    choose|i: int| holds(recs, i, user_id, key)
}

/// Each (actor, key) pair has at most one record.
pub open spec fn pairs_unique(recs: Seq<RecordModel>) -> bool {
    forall|i: int, j: int|
        0 <= i < recs.len() && 0 <= j < recs.len() && #[trigger] recs[i].user_id
            == #[trigger] recs[j].user_id && recs[i].key == recs[j].key ==> i == j
}

/// The completed response of a pair, if there is one.
pub open spec fn saved_response(recs: Seq<RecordModel>, user_id: u128, key: Seq<char>) -> Option<
    ResponseModel,
> {
    if has_record(recs, user_id, key) {
        recs[record_index(recs, user_id, key)].response
    } else {
        None
    }
}

/// A pair is claimed, not yet completed.
pub open spec fn in_progress(recs: Seq<RecordModel>, user_id: u128, key: Seq<char>) -> bool {
    has_record(recs, user_id, key) && recs[record_index(recs, user_id, key)].response is None
}

#[derive(Debug, PartialEq, Eq, Structural)]
pub enum ClaimOutcome {
    Acquired,
    AlreadyClaimed,
}

/// Claiming inserts a placeholder where the pair has no record.
pub open spec fn after_claim(recs: Seq<RecordModel>, user_id: u128, key: Seq<char>) -> Seq<
    RecordModel,
> {
    if has_record(recs, user_id, key) {
        recs
    } else {
        recs.push(RecordModel { user_id, key, response: None })
    }
}

pub open spec fn claim_outcome(recs: Seq<RecordModel>, user_id: u128, key: Seq<char>) -> ClaimOutcome {
    if has_record(recs, user_id, key) {
        ClaimOutcome::AlreadyClaimed
    } else {
        ClaimOutcome::Acquired
    }
}

/// Completing stores the response against a claimed placeholder; any other
/// record is left as it is.
pub open spec fn after_complete(
    recs: Seq<RecordModel>,
    user_id: u128,
    key: Seq<char>,
    response: ResponseModel,
) -> Seq<RecordModel> {
    if in_progress(recs, user_id, key) {
        recs.update(
            record_index(recs, user_id, key),
            RecordModel { user_id, key, response: Some(response) },
        )
    } else {
        recs
    }
}

#[derive(Debug, PartialEq, Eq, Structural)]
pub enum CompleteError {
    /// No placeholder was claimed for the pair.
    NotClaimed,
    /// The pair already holds its response.
    AlreadyCompleted,
}

/// The idempotency table: one record per (actor, key) pair, created once and
/// completed at most once.
pub struct IdempotencyStore {
    records: Vec<IdempotencyRecord>,
}

impl View for IdempotencyStore {
    type V = Seq<RecordModel>;

    closed spec fn view(&self) -> Seq<RecordModel> {
        self.records@.map_values(|r: IdempotencyRecord| r@)
    }
}

impl IdempotencyStore {
    pub open spec fn wf(&self) -> bool {
        pairs_unique(self@)
    }

    pub fn new() -> (r: IdempotencyStore)
        ensures
            r.wf(),
            r@ == Seq::<RecordModel>::empty(),
    {
        let r = IdempotencyStore { records: Vec::new() };
        assert(r@ =~= Seq::<RecordModel>::empty());
        r
    }

    /// The position of the pair's record.
    fn find(&self, user_id: u128, key: &String) -> (r: Option<usize>)
        requires
            self.wf(),
        ensures
            r matches Some(i) ==> holds(self@, i as int, user_id, key@) && i == record_index(
                self@,
                user_id,
                key@,
            ),
            r is None ==> !has_record(self@, user_id, key@),
    {
        let mut i: usize = 0;
        while i < self.records.len()
            invariant
                i <= self.records@.len(),
                self@.len() == self.records@.len(),
                pairs_unique(self@),
                forall|j: int| 0 <= j < i ==> !holds(self@, j, user_id, key@),
            decreases self.records@.len() - i,
        {
            let rec = &self.records[i];
            assert(self@[i as int] == rec@);
            if rec.user_id == user_id && rec.key.eq(key) {
                proof {
                    assert(holds(self@, i as int, user_id, key@));
                    let k = record_index(self@, user_id, key@);
                    assert(holds(self@, k, user_id, key@));
                    assert(self@[k].user_id == self@[i as int].user_id);
                }
                return Some(i);
            }
            i += 1;
        }
        None
    }

    /// The completed response for the pair; nothing if it is absent or still
    /// claimed.
    pub fn lookup(&self, user_id: u128, key: &IdempotencyKey) -> (r: Option<SavedResponse>)
        requires
            self.wf(),
        ensures
            match r {
                Some(resp) => saved_response(self@, user_id, key@) == Some(resp@),
                None => saved_response(self@, user_id, key@) is None,
            },
    {
        match self.find(user_id, &key.key) {
            Some(i) => {
                assert(self@[i as int] == self.records[i as int]@);
                match &self.records[i].response {
                    Some(resp) => Some(resp.duplicate()),
                    None => None,
                }
            },
            None => None,
        }
    }

    /// Inserts a claimed placeholder if the pair has no record; of two
    /// claims on one pair exactly one acquires it.
    pub fn claim(&mut self, user_id: u128, key: &IdempotencyKey) -> (r: ClaimOutcome)
        requires
            old(self).wf(),
        ensures
            final(self).wf(),
            r == claim_outcome(old(self)@, user_id, key@),
            final(self)@ == after_claim(old(self)@, user_id, key@),
    {
        match self.find(user_id, &key.key) {
            Some(_) => ClaimOutcome::AlreadyClaimed,
            None => {
                let rec = IdempotencyRecord {
                    user_id,
                    key: String::from_str(key.as_str()),
                    response: None,
                };
                let ghost before = self@;
                self.records.push(rec);
                assert(self@ =~= before.push(RecordModel { user_id, key: key@, response: None }));
                proof {
                    lemma_claim_absent(before, user_id, key@);
                }
                ClaimOutcome::Acquired
            },
        }
    }

    /// Stores the response against the pair's placeholder, which becomes
    /// completed; a pair without a placeholder, or already completed, is left
    /// as it is and the call fails.
    pub fn complete(&mut self, user_id: u128, key: &IdempotencyKey, response: SavedResponse) -> (r:
        Result<(), CompleteError>)
        requires
            old(self).wf(),
        ensures
            final(self).wf(),
            final(self)@ == after_complete(old(self)@, user_id, key@, response@),
            r is Ok <==> in_progress(old(self)@, user_id, key@),
            r == Err::<(), _>(CompleteError::NotClaimed) <==> !has_record(old(self)@, user_id, key@),
    {
        match self.find(user_id, &key.key) {
            None => Err(CompleteError::NotClaimed),
            Some(i) => {
                assert(self@[i as int] == self.records[i as int]@);
                if self.records[i].response.is_some() {
                    Err(CompleteError::AlreadyCompleted)
                } else {
                    let ghost before = self@;
                    let ghost resp_view = response@;
                    let rec = IdempotencyRecord {
                        user_id,
                        key: String::from_str(key.as_str()),
                        response: Some(response),
                    };
                    self.records.set(i, rec);
                    assert(self@ =~= before.update(
                        i as int,
                        RecordModel { user_id, key: key@, response: Some(resp_view) },
                    ));
                    proof {
                        lemma_complete_claimed(before, user_id, key@, resp_view);
                    }
                    Ok(())
                }
            },
        }
    }
}

/// Claiming an absent pair leaves the pairs unique and the new pair in
/// progress.
pub proof fn lemma_claim_absent(recs: Seq<RecordModel>, user_id: u128, key: Seq<char>)
    requires
        pairs_unique(recs),
        !has_record(recs, user_id, key),
    ensures
        pairs_unique(after_claim(recs, user_id, key)),
        has_record(after_claim(recs, user_id, key), user_id, key),
        record_index(after_claim(recs, user_id, key), user_id, key) == recs.len(),
        in_progress(after_claim(recs, user_id, key), user_id, key),
        saved_response(after_claim(recs, user_id, key), user_id, key) is None,
{
    let after = after_claim(recs, user_id, key);
    assert forall|a: int, b: int|
        0 <= a < after.len() && 0 <= b < after.len() && #[trigger] after[a].user_id
            == #[trigger] after[b].user_id && after[a].key == after[b].key implies a == b by {
        if a < recs.len() && b < recs.len() {
            assert(recs[a].user_id == recs[b].user_id);
        } else if a < recs.len() {
            assert(holds(recs, a, user_id, key));
        } else if b < recs.len() {
            assert(holds(recs, b, user_id, key));
        }
    }
    assert(holds(after, recs.len() as int, user_id, key));
    let k = record_index(after, user_id, key);
    assert(after[k].user_id == after[recs.len() as int].user_id);
}

/// Completing a pair in progress leaves the pairs unique and the pair holding
/// the response.
pub proof fn lemma_complete_claimed(
    recs: Seq<RecordModel>,
    user_id: u128,
    key: Seq<char>,
    response: ResponseModel,
)
    requires
        pairs_unique(recs),
        in_progress(recs, user_id, key),
    ensures
        pairs_unique(after_complete(recs, user_id, key, response)),
        has_record(after_complete(recs, user_id, key, response), user_id, key),
        saved_response(after_complete(recs, user_id, key, response), user_id, key) == Some(
            response,
        ),
{
    let i = record_index(recs, user_id, key);
    let after = after_complete(recs, user_id, key, response);
    assert forall|a: int, b: int|
        0 <= a < after.len() && 0 <= b < after.len() && #[trigger] after[a].user_id
            == #[trigger] after[b].user_id && after[a].key == after[b].key implies a == b by {
        assert(recs[a].user_id == after[a].user_id && recs[a].key == after[a].key);
        assert(recs[b].user_id == after[b].user_id && recs[b].key == after[b].key);
    }
    assert(holds(after, i, user_id, key));
    let k = record_index(after, user_id, key);
    assert(after[k].user_id == after[i].user_id);
}

/// What a request meets when it reaches the deduplicator.
#[derive(Debug)]
pub enum PublishStep {
    /// The pair completed before: send back the saved response.
    Replay(SavedResponse),
    /// This request owns the pair: run the action, then save its response.
    Execute,
    /// Another request owns the pair and has not completed it yet.
    Conflict,
}

pub enum StepModel {
    Replay(ResponseModel),
    Execute,
    Conflict,
}

impl View for PublishStep {
    type V = StepModel;

    open spec fn view(&self) -> StepModel {
        match self {
            PublishStep::Replay(r) => StepModel::Replay(r@),
            PublishStep::Execute => StepModel::Execute,
            PublishStep::Conflict => StepModel::Conflict,
        }
    }
}

/// The deduplicator's decision for a request, and the table after it: a saved
/// response is replayed, a pair in progress is a conflict, and an absent pair
/// is claimed for this request.
pub open spec fn begin_step(recs: Seq<RecordModel>, user_id: u128, key: Seq<char>) -> (
    StepModel,
    Seq<RecordModel>,
) {
    match saved_response(recs, user_id, key) {
        Some(r) => (StepModel::Replay(r), recs),
        None => if has_record(recs, user_id, key) {
            (StepModel::Conflict, recs)
        } else {
            (StepModel::Execute, after_claim(recs, user_id, key))
        },
    }
}

/// Looks the pair up and, on a miss, claims it. Only a request that gets
/// `Execute` may run the guarded action.
pub fn begin_request(store: &mut IdempotencyStore, user_id: u128, key: &IdempotencyKey) -> (r:
    PublishStep)
    requires
        old(store).wf(),
    ensures
        final(store).wf(),
        r@ == begin_step(old(store)@, user_id, key@).0,
        final(store)@ == begin_step(old(store)@, user_id, key@).1,
{
    match store.lookup(user_id, key) {
        Some(saved) => PublishStep::Replay(saved),
        None => match store.claim(user_id, key) {
            ClaimOutcome::Acquired => PublishStep::Execute,
            ClaimOutcome::AlreadyClaimed => PublishStep::Conflict,
        },
    }
}

/// Saves the response of the request that owns the pair and hands it back to
/// be sent.
pub fn save_response(
    store: &mut IdempotencyStore,
    user_id: u128,
    key: &IdempotencyKey,
    response: SavedResponse,
) -> (r: Result<SavedResponse, CompleteError>)
    requires
        old(store).wf(),
    ensures
        final(store).wf(),
        final(store)@ == after_complete(old(store)@, user_id, key@, response@),
        r is Ok <==> in_progress(old(store)@, user_id, key@),
        r matches Ok(sent) ==> sent@ == response@,
        r == Err::<SavedResponse, _>(CompleteError::NotClaimed) <==> !has_record(
            old(store)@,
            user_id,
            key@,
        ),
{
    let copy = response.duplicate();
    match store.complete(user_id, key, response) {
        Ok(()) => Ok(copy),
        Err(e) => Err(e),
    }
}

/// One whole request on the pair: the deduplicator's decision and, where
/// the request owns the pair, the action's `response` saved against it.
pub open spec fn attempt(
    recs: Seq<RecordModel>,
    user_id: u128,
    key: Seq<char>,
    response: ResponseModel,
) -> (StepModel, Seq<RecordModel>) {
    let (step, claimed) = begin_step(recs, user_id, key);
    match step {
        StepModel::Execute => (step, after_complete(claimed, user_id, key, response)),
        _ => (step, claimed),
    }
}

/// The decisions met by `n` requests on one pair, sent one after another.
pub open spec fn repeated_attempts(
    recs: Seq<RecordModel>,
    user_id: u128,
    key: Seq<char>,
    response: ResponseModel,
    n: nat,
) -> Seq<StepModel>
    decreases n,
{
    if n == 0 {
        Seq::empty()
    } else {
        let (step, after) = attempt(recs, user_id, key, response);
        seq![step] + repeated_attempts(after, user_id, key, response, (n - 1) as nat)
    }
}

/// How many of `steps` run the guarded action.
pub open spec fn executions(steps: Seq<StepModel>) -> nat
    decreases steps.len(),
{
    if steps.len() == 0 {
        0
    } else {
        (if steps[0] is Execute {
            1nat
        } else {
            0nat
        }) + executions(steps.drop_first())
    }
}

proof fn lemma_replays_once_saved(
    recs: Seq<RecordModel>,
    user_id: u128,
    key: Seq<char>,
    response: ResponseModel,
    n: nat,
)
    requires
        saved_response(recs, user_id, key) == Some(response),
    ensures
        repeated_attempts(recs, user_id, key, response, n).len() == n,
        executions(repeated_attempts(recs, user_id, key, response, n)) == 0,
        forall|i: int|
            0 <= i < n ==> #[trigger] repeated_attempts(recs, user_id, key, response, n)[i]
                == StepModel::Replay(response),
    decreases n,
{
    if n > 0 {
        lemma_replays_once_saved(recs, user_id, key, response, (n - 1) as nat);
        let steps = repeated_attempts(recs, user_id, key, response, n);
        assert(steps.drop_first() =~= repeated_attempts(recs, user_id, key, response, (n - 1) as nat));
    }
}

/// Repeating a request with the same actor and key, any number of times,
/// runs the guarded action exactly once: the first request executes and
/// saves its response, and every later one gets that same response back.
pub proof fn lemma_repeated_requests_execute_once(
    recs: Seq<RecordModel>,
    user_id: u128,
    key: Seq<char>,
    response: ResponseModel,
    n: nat,
)
    requires
        pairs_unique(recs),
        !has_record(recs, user_id, key),
        n >= 1,
    ensures
        repeated_attempts(recs, user_id, key, response, n).len() == n,
        repeated_attempts(recs, user_id, key, response, n)[0] is Execute,
        executions(repeated_attempts(recs, user_id, key, response, n)) == 1,
        forall|i: int|
            1 <= i < n ==> #[trigger] repeated_attempts(recs, user_id, key, response, n)[i]
                == StepModel::Replay(response),
{
    lemma_claim_absent(recs, user_id, key);
    let claimed = after_claim(recs, user_id, key);
    lemma_complete_claimed(claimed, user_id, key, response);
    let done = after_complete(claimed, user_id, key, response);
    lemma_replays_once_saved(done, user_id, key, response, (n - 1) as nat);
    let steps = repeated_attempts(recs, user_id, key, response, n);
    let rest = repeated_attempts(done, user_id, key, response, (n - 1) as nat);
    assert(steps == seq![StepModel::Execute] + rest);
    assert(steps.drop_first() =~= rest);
    assert forall|i: int| 1 <= i < n implies #[trigger] steps[i] == StepModel::Replay(response) by {
        assert(steps[i] == rest[i - 1]);
    }
}

/// Requests on one pair that run concurrently, seen in the order in which
/// the store serialises them: `true` is a request that reaches the
/// deduplicator, `false` is the owner saving `response`.
pub open spec fn interleaved(
    recs: Seq<RecordModel>,
    user_id: u128,
    key: Seq<char>,
    response: ResponseModel,
    events: Seq<bool>,
) -> Seq<StepModel>
    decreases events.len(),
{
    if events.len() == 0 {
        Seq::empty()
    } else if events[0] {
        let (step, after) = begin_step(recs, user_id, key);
        seq![step] + interleaved(after, user_id, key, response, events.drop_first())
    } else {
        interleaved(
            after_complete(recs, user_id, key, response),
            user_id,
            key,
            response,
            events.drop_first(),
        )
    }
}

/// Every step is a conflict or a replay of `response`.
pub open spec fn only_observers(steps: Seq<StepModel>, response: ResponseModel) -> bool {
    forall|i: int|
        0 <= i < steps.len() ==> (#[trigger] steps[i] is Conflict || steps[i] == StepModel::Replay(
            response,
        ))
}

proof fn lemma_interleaved_after_claim(
    recs: Seq<RecordModel>,
    user_id: u128,
    key: Seq<char>,
    response: ResponseModel,
    events: Seq<bool>,
)
    requires
        pairs_unique(recs),
        has_record(recs, user_id, key),
        saved_response(recs, user_id, key) is None || saved_response(recs, user_id, key) == Some(
            response,
        ),
    ensures
        executions(interleaved(recs, user_id, key, response, events)) == 0,
        only_observers(interleaved(recs, user_id, key, response, events), response),
    decreases events.len(),
{
    if events.len() > 0 {
        let tail = events.drop_first();
        if events[0] {
            lemma_interleaved_after_claim(recs, user_id, key, response, tail);
            let steps = interleaved(recs, user_id, key, response, events);
            let rest = interleaved(recs, user_id, key, response, tail);
            assert(steps.drop_first() =~= rest);
            assert forall|i: int| 0 <= i < steps.len() implies (#[trigger] steps[i] is Conflict
                || steps[i] == StepModel::Replay(response)) by {
                if i > 0 {
                    assert(steps[i] == rest[i - 1]);
                }
            }
        } else {
            if in_progress(recs, user_id, key) {
                lemma_complete_claimed(recs, user_id, key, response);
            }
            lemma_interleaved_after_claim(
                after_complete(recs, user_id, key, response),
                user_id,
                key,
                response,
                tail,
            );
        }
    }
}

/// Of concurrent requests on one new pair, exactly one runs the guarded
/// action; every other one sees a conflict or the response that the owner
/// saved, never a second execution.
pub proof fn lemma_concurrent_requests_execute_once(
    recs: Seq<RecordModel>,
    user_id: u128,
    key: Seq<char>,
    response: ResponseModel,
    events: Seq<bool>,
)
    requires
        pairs_unique(recs),
        !has_record(recs, user_id, key),
        events.contains(true),
    ensures
        executions(interleaved(recs, user_id, key, response, events)) == 1,
        forall|i: int|
            0 <= i < interleaved(recs, user_id, key, response, events).len() ==> (
            #[trigger] interleaved(recs, user_id, key, response, events)[i] is Execute
                || interleaved(recs, user_id, key, response, events)[i] is Conflict
                || interleaved(recs, user_id, key, response, events)[i] == StepModel::Replay(
                response,
            )),
    decreases events.len(),
{
    let tail = events.drop_first();
    let steps = interleaved(recs, user_id, key, response, events);
    if events[0] {
        lemma_claim_absent(recs, user_id, key);
        let claimed = after_claim(recs, user_id, key);
        lemma_interleaved_after_claim(claimed, user_id, key, response, tail);
        let rest = interleaved(claimed, user_id, key, response, tail);
        assert(steps.drop_first() =~= rest);
        assert forall|i: int| 0 <= i < steps.len() implies (#[trigger] steps[i] is Execute
            || steps[i] is Conflict || steps[i] == StepModel::Replay(response)) by {
            if i > 0 {
                assert(steps[i] == rest[i - 1]);
            }
        }
    } else {
        let j = choose|j: int| 0 <= j < events.len() && events[j] == true;
        assert(tail[j - 1] == true);
        lemma_concurrent_requests_execute_once(recs, user_id, key, response, tail);
    }
}

} // verus!
