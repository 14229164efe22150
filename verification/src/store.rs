//! What commands ask of the storage and what it answers.
use vstd::prelude::*;

use crate::failure::{PluginError, RuntimeFailure};
use crate::render::{DefinitionView, TemplateDefinition};
use crate::text;

verus! {

/// What a receipt is found by: who called, for whom, for which operation, under which key.
#[derive(Debug)]
pub struct ReceiptKey {
    pub caller: String,
    pub subject: String,
    pub operation: String,
    pub idempotency_key: String,
}

/// A [`ReceiptKey`] by its texts.
pub struct ReceiptKeyView {
    pub caller: Seq<char>,
    pub subject: Seq<char>,
    pub operation: Seq<char>,
    pub idempotency_key: Seq<char>,
}

impl View for ReceiptKey {
    type V = ReceiptKeyView;

    open spec fn view(&self) -> ReceiptKeyView {
        ReceiptKeyView {
            caller: self.caller@,
            subject: self.subject@,
            operation: self.operation@,
            idempotency_key: self.idempotency_key@,
        }
    }
}

impl Clone for ReceiptKey {
    fn clone(&self) -> (res: Self)
        ensures
            res == *self,
    {
        ReceiptKey {
            caller: self.caller.clone(),
            subject: self.subject.clone(),
            operation: self.operation.clone(),
            idempotency_key: self.idempotency_key.clone(),
        }
    }
}

/// What a stored version is found by.
#[derive(Debug)]
pub struct ReleaseKey {
    pub template_id: String,
    pub version: String,
    pub locale: String,
}

/// A [`ReleaseKey`] by its texts.
pub struct ReleaseKeyView {
    pub template_id: Seq<char>,
    pub version: Seq<char>,
    pub locale: Seq<char>,
}

impl View for ReleaseKey {
    type V = ReleaseKeyView;

    open spec fn view(&self) -> ReleaseKeyView {
        ReleaseKeyView {
            template_id: self.template_id@,
            version: self.version@,
            locale: self.locale@,
        }
    }
}

impl Clone for ReleaseKey {
    fn clone(&self) -> (res: Self)
        ensures
            res == *self,
    {
        ReleaseKey {
            template_id: self.template_id.clone(),
            version: self.version.clone(),
            locale: self.locale.clone(),
        }
    }
}

/// A step of a command's transaction. `R` is the answer that the command's receipt keeps.
#[derive(Debug)]
pub enum Statement<R> {
    /// Begin the transaction.
    Begin,
    /// Store a receipt without an answer, unless there is one under the key.
    InsertReceipt { key: ReceiptKey, hash: Vec<u8> },
    /// Read and lock the receipt under the key.
    SelectReceipt { key: ReceiptKey },
    /// Store a version.
    InsertVersion {
        release: ReleaseKey,
        definition: TemplateDefinition,
        renderer_identity: String,
        created_by: String,
    },
    /// Tell whether a version is stored in some locale.
    VersionExists { template_id: String, version: String },
    /// Read and lock the revision of a template's head.
    SelectHead { template_id: String },
    /// Store a template's first head.
    InsertHead { template_id: String, version: String, updated_by: String },
    /// Move a template's head.
    UpdateHead { template_id: String, version: String, revision: i64, updated_by: String },
    /// Tell when a template's head was moved last.
    HeadUpdatedAt { template_id: String },
    /// Give the receipt under the key its answer, unless it has one.
    CompleteReceipt { key: ReceiptKey, response: R },
    /// Commit the transaction.
    Commit,
}

/// A [`Statement`] by its texts and bytes.
pub enum StatementView<R> {
    Begin,
    InsertReceipt { key: ReceiptKeyView, hash: Seq<u8> },
    SelectReceipt { key: ReceiptKeyView },
    InsertVersion {
        release: ReleaseKeyView,
        definition: DefinitionView,
        renderer_identity: Seq<char>,
        created_by: Seq<char>,
    },
    VersionExists { template_id: Seq<char>, version: Seq<char> },
    SelectHead { template_id: Seq<char> },
    InsertHead { template_id: Seq<char>, version: Seq<char>, updated_by: Seq<char> },
    UpdateHead {
        template_id: Seq<char>,
        version: Seq<char>,
        revision: int,
        updated_by: Seq<char>,
    },
    HeadUpdatedAt { template_id: Seq<char> },
    CompleteReceipt { key: ReceiptKeyView, response: R },
    Commit,
}

impl<R: View> View for Statement<R> {
    type V = StatementView<R::V>;

    open spec fn view(&self) -> StatementView<R::V> {
        match self {
            Statement::Begin => StatementView::Begin,
            Statement::InsertReceipt { key, hash } => StatementView::InsertReceipt {
                key: key@,
                hash: hash@,
            },
            Statement::SelectReceipt { key } => StatementView::SelectReceipt { key: key@ },
            Statement::InsertVersion { release, definition, renderer_identity, created_by } =>
                StatementView::InsertVersion {
                release: release@,
                definition: definition@,
                renderer_identity: renderer_identity@,
                created_by: created_by@,
            },
            Statement::VersionExists { template_id, version } => StatementView::VersionExists {
                template_id: template_id@,
                version: version@,
            },
            Statement::SelectHead { template_id } => StatementView::SelectHead {
                template_id: template_id@,
            },
            Statement::InsertHead { template_id, version, updated_by } =>
                StatementView::InsertHead {
                template_id: template_id@,
                version: version@,
                updated_by: updated_by@,
            },
            Statement::UpdateHead { template_id, version, revision, updated_by } =>
                StatementView::UpdateHead {
                template_id: template_id@,
                version: version@,
                revision: *revision as int,
                updated_by: updated_by@,
            },
            Statement::HeadUpdatedAt { template_id } => StatementView::HeadUpdatedAt {
                template_id: template_id@,
            },
            Statement::CompleteReceipt { key, response } => StatementView::CompleteReceipt {
                key: key@,
                response: response@,
            },
            Statement::Commit => StatementView::Commit,
        }
    }
}

/// The answer that a stored receipt keeps.
#[derive(Debug)]
pub enum StoredResult<R> {
    /// None yet.
    Absent,
    /// One that cannot be read.
    Undecodable,
    /// One that can be read, but is no answer to such a command.
    Foreign,
    Known(R),
}

impl<R: View> View for StoredResult<R> {
    type V = StoredResult<R::V>;

    open spec fn view(&self) -> StoredResult<R::V> {
        match self {
            StoredResult::Absent => StoredResult::Absent,
            StoredResult::Undecodable => StoredResult::Undecodable,
            StoredResult::Foreign => StoredResult::Foreign,
            StoredResult::Known(response) => StoredResult::Known(response@),
        }
    }
}

/// What the storage answers to a [`Statement`].
#[derive(Debug)]
pub enum Answer<R> {
    /// The statement failed, with the error code that the storage gave, if it gave one.
    Failed { code: Option<String> },
    Done,
    /// How many rows the statement changed.
    Rows(u64),
    Receipt { hash: Vec<u8>, result: StoredResult<R> },
    /// A moment in nanoseconds since 1970.
    Moment(i128),
    Exists(bool),
    /// The revision of a head, if there is one.
    Head(Option<i64>),
}

/// An [`Answer`] by its texts and bytes.
pub enum AnswerView<R> {
    Failed { code: Option<Seq<char>> },
    Done,
    Rows(int),
    Receipt { hash: Seq<u8>, result: StoredResult<R> },
    Moment(int),
    Exists(bool),
    Head(Option<i64>),
}

impl<R: View> View for Answer<R> {
    type V = AnswerView<R::V>;

    open spec fn view(&self) -> AnswerView<R::V> {
        match self {
            Answer::Failed { code } => AnswerView::Failed { code: text::optional(*code) },
            Answer::Done => AnswerView::Done,
            Answer::Rows(count) => AnswerView::Rows(*count as int),
            Answer::Receipt { hash, result } => AnswerView::Receipt {
                hash: hash@,
                result: result@,
            },
            Answer::Moment(nanos) => AnswerView::Moment(*nanos as int),
            Answer::Exists(found) => AnswerView::Exists(*found),
            Answer::Head(revision) => AnswerView::Head(*revision),
        }
    }
}

/// How far an operation is: it waits for the storage, or it is over.
#[derive(Debug)]
pub enum Progress<C, T> {
    Ask(C),
    Done(Result<T, PluginError>),
}

impl<C: View, T: View> View for Progress<C, T> {
    type V = Progress<C::V, T::V>;

    open spec fn view(&self) -> Progress<C::V, T::V> {
        match self {
            Progress::Ask(command) => Progress::Ask(command@),
            Progress::Done(Ok(reply)) => Progress::Done(Ok(reply@)),
            Progress::Done(Err(error)) => Progress::Done(Err(*error)),
        }
    }
}

/// What a stored receipt means for a command.
#[derive(Debug)]
pub enum ReceiptClaim<R> {
    /// The command was answered; this is the answer.
    Replay(R),
    /// The command was answered, but not with an answer that is understood.
    Unreadable,
    /// The key was used for another request.
    Conflict,
    /// The command is being carried out.
    InProgress,
}

impl<R: View> View for ReceiptClaim<R> {
    type V = ReceiptClaim<R::V>;

    open spec fn view(&self) -> ReceiptClaim<R::V> {
        match self {
            ReceiptClaim::Replay(response) => ReceiptClaim::Replay(response@),
            ReceiptClaim::Unreadable => ReceiptClaim::Unreadable,
            ReceiptClaim::Conflict => ReceiptClaim::Conflict,
            ReceiptClaim::InProgress => ReceiptClaim::InProgress,
        }
    }
}

/// What a stored receipt means for a command whose request has a hash.
pub open spec fn claim<R>(
    stored_hash: Seq<u8>,
    result: StoredResult<R>,
    request_hash: Seq<u8>,
) -> Result<ReceiptClaim<R>, RuntimeFailure> {
    if stored_hash != request_hash {
        Ok(ReceiptClaim::Conflict)
    } else {
        match result {
            StoredResult::Absent => Ok(ReceiptClaim::InProgress),
            StoredResult::Undecodable => Err(RuntimeFailure::Database),
            StoredResult::Foreign => Ok(ReceiptClaim::Unreadable),
            StoredResult::Known(response) => Ok(ReceiptClaim::Replay(response)),
        }
    }
}

/// Whether two byte strings are the same.
fn same_bytes(a: &Vec<u8>, b: &Vec<u8>) -> (res: bool)
    ensures
        res == (a@ == b@),
{
    if a.len() != b.len() {
        return false;
    }
    for i in 0..a.len()
        invariant
            a@.len() == b@.len(),
            forall|j: int| 0 <= j < i ==> a@[j] == b@[j],
    {
        if a[i] != b[i] {
            assert(a@[i as int] != b@[i as int]);
            return false;
        }
    }
    assert(a@ =~= b@);
    true
}

/// What a stored receipt means for a command whose request has a hash.
pub fn claim_receipt<R: View>(
    stored_hash: &Vec<u8>,
    result: StoredResult<R>,
    request_hash: &Vec<u8>,
) -> (res: Result<ReceiptClaim<R>, RuntimeFailure>)
    ensures
        match res {
            Ok(found) => claim(stored_hash@, result@, request_hash@) == Ok::<
                ReceiptClaim<R::V>,
                RuntimeFailure,
            >(found@),
            Err(failure) => claim(stored_hash@, result@, request_hash@) == Err::<
                ReceiptClaim<R::V>,
                RuntimeFailure,
            >(failure),
        },
{
    if !same_bytes(stored_hash, request_hash) {
        return Ok(ReceiptClaim::Conflict);
    }
    match result {
        StoredResult::Absent => Ok(ReceiptClaim::InProgress),
        StoredResult::Undecodable => Err(RuntimeFailure::Database),
        StoredResult::Foreign => Ok(ReceiptClaim::Unreadable),
        StoredResult::Known(response) => Ok(ReceiptClaim::Replay(response)),
    }
}

/// The code by which the storage refuses a row whose key is taken.
pub open spec fn key_taken(code: Option<Seq<char>>) -> bool {
    code == Some("23505"@)
}

/// Whether a statement failed because a key is taken.
pub fn unique_violation(code: &Option<String>) -> (res: bool)
    ensures
        res == key_taken(text::optional(*code)),
{
    match code {
        Some(code) => text::same_text(code.as_str(), "23505"),
        None => false,
    }
}

/// Checks that completing a receipt changed exactly the one receipt.
pub fn complete_receipt(rows: u64) -> (res: Result<(), RuntimeFailure>)
    ensures
        rows == 1 ==> res == Ok::<(), RuntimeFailure>(()),
        rows != 1 ==> res == Err::<(), RuntimeFailure>(RuntimeFailure::ReceiptOwnershipLost),
{
    if rows != 1 {
        Err(RuntimeFailure::ReceiptOwnershipLost)
    } else {
        Ok(())
    }
}

/// What a receipt means: under another hash the key was used for another request; else the answer
/// that it keeps decides.
pub proof fn law_receipts_are_judged<R>(stored: Seq<u8>, requested: Seq<u8>, response: R)
    ensures
        stored != requested ==> forall|result: StoredResult<R>| #[trigger]
            claim(stored, result, requested) == Ok::<ReceiptClaim<R>, RuntimeFailure>(
                ReceiptClaim::Conflict,
            ),
        stored == requested ==> {
            &&& claim(stored, StoredResult::Known(response), requested) == Ok::<
                ReceiptClaim<R>,
                RuntimeFailure,
            >(ReceiptClaim::Replay(response))
            &&& claim(stored, StoredResult::<R>::Absent, requested) == Ok::<
                ReceiptClaim<R>,
                RuntimeFailure,
            >(ReceiptClaim::InProgress)
            &&& claim(stored, StoredResult::<R>::Foreign, requested) == Ok::<
                ReceiptClaim<R>,
                RuntimeFailure,
            >(ReceiptClaim::Unreadable)
            &&& claim(stored, StoredResult::<R>::Undecodable, requested) == Err::<
                ReceiptClaim<R>,
                RuntimeFailure,
            >(RuntimeFailure::Database)
        },
{
}

/// A key is taken if and only if the storage says so by the code for it.
pub proof fn law_codes_of_the_storage(code: Option<Seq<char>>)
    ensures
        key_taken(code) <==> code is Some && code->0 == seq!['2', '3', '5', '0', '5'],
{
    reveal_strlit("23505");
    assert("23505"@ =~= seq!['2', '3', '5', '0', '5']);
}

} // verus!
