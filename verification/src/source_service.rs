//! Decisions a source record goes through when it is created or renamed.
use vstd::prelude::*;

use crate::error::{CoreError, ErrorKind};
use crate::text::{chars_of, concat, decimal, decimal_of, string_from, trim, trimmed};

verus! {

/// The message given for a blank source name.
pub open spec fn blank_name_message() -> Seq<char> {
    "name 不能为空"@
}

/// The name a new source is stored under: the name as given, refused when it is
/// blank once trimmed.
pub open spec fn created_name_of(name: Seq<char>) -> Option<Seq<char>> {
    if trim(name).len() == 0 {
        None
    } else {
        Some(name)
    }
}

/// The name a source is renamed to: the trimmed name, refused when it is blank.
pub open spec fn renamed_name_of(name: Seq<char>) -> Option<Seq<char>> {
    if trim(name).len() == 0 {
        None
    } else {
        Some(trim(name))
    }
}

/// Checks the name of a new source (see [`created_name_of`]); a blank name is a
/// `ConfigInvalid` error.
pub fn source_name_for_create(name: &str) -> (r: Result<String, CoreError>)
    ensures
        match created_name_of(name@) {
            Some(n) => r matches Ok(s) && s@ == n,
            None => r matches Err(e) && e@ == (ErrorKind::ConfigInvalid, blank_name_message()),
        },
{
    let t = trimmed(chars_of(name).as_slice());
    if t.len() == 0 {
        Err(CoreError::ConfigInvalid("name 不能为空".to_owned()))
    } else {
        Ok(name.to_owned())
    }
}

/// Checks the new name of a source (see [`renamed_name_of`]); a blank name is a
/// `ConfigInvalid` error.
pub fn source_name_for_update(name: &str) -> (r: Result<String, CoreError>)
    ensures
        match renamed_name_of(name@) {
            Some(n) => r matches Ok(s) && s@ == n,
            None => r matches Err(e) && e@ == (ErrorKind::ConfigInvalid, blank_name_message()),
        },
{
    let t = trimmed(chars_of(name).as_slice());
    if t.len() == 0 {
        Err(CoreError::ConfigInvalid("name 不能为空".to_owned()))
    } else {
        Ok(string_from(t.as_slice()))
    }
}

/// A plugin id with every `.` written as `-`.
pub open spec fn dashed(s: Seq<char>) -> Seq<char> {
    Seq::new(s.len(), |i: int| if s[i] == '.' { '-' } else { s[i] })
}

/// An integer in decimal, with a leading `-` when it is negative.
pub open spec fn signed_decimal(n: int) -> Seq<char> {
    if n < 0 {
        seq!['-'] + decimal((-n) as nat)
    } else {
        decimal(n as nat)
    }
}

/// The id of a source made from a plugin at a moment given in nanoseconds since the
/// Unix epoch.
pub open spec fn source_id_of(plugin_id: Seq<char>, created_nanos: int) -> Seq<char> {
    "source-"@ + dashed(plugin_id) + "-"@ + signed_decimal(created_nanos)
}

fn dashed_chars(s: &[char]) -> (out: Vec<char>)
    ensures
        out@ == dashed(s@),
{
    let mut out: Vec<char> = Vec::new();
    let mut i: usize = 0;
    while i < s.len()
        invariant
            i <= s.len(),
            out@ == dashed(s@).take(i as int),
        decreases s.len() - i,
    {
        let c = if s[i] == '.' { '-' } else { s[i] };
        out.push(c);
        i = i + 1;
    }
    assert(out@ == dashed(s@));
    out
}

pub(crate) fn signed_decimal_of(n: i128) -> (out: Vec<char>)
    ensures
        out@ == signed_decimal(n as int),
{
    proof {
        reveal_strlit("-");
    }
    if n < 0 {
        let magnitude: u128 = if n == i128::MIN {
            170141183460469231731687303715884105728u128
        } else {
            (-n) as u128
        };
        concat(chars_of("-").as_slice(), decimal_of(magnitude).as_slice())
    } else {
        decimal_of(n as u128)
    }
}

/// The id of a new source (see [`source_id_of`]).
pub fn new_source_id(plugin_id: &str, created_nanos: i128) -> (r: String)
    ensures
        r@ == source_id_of(plugin_id@, created_nanos as int),
{
    proof {
        reveal_strlit("-");
    }
    let a = concat(chars_of("source-").as_slice(), dashed_chars(chars_of(plugin_id).as_slice()).as_slice());
    let b = concat(a.as_slice(), chars_of("-").as_slice());
    let c = concat(b.as_slice(), signed_decimal_of(created_nanos).as_slice());
    string_from(c.as_slice())
}


/// The record of a source.
#[derive(Debug)]
pub struct SourceRecord {
    pub id: String,
    pub plugin_id: String,
    pub name: String,
    pub status: String,
    pub state_json: Option<String>,
    pub created_at: String,
    pub updated_at: String,
}

/// The abstract value of [`SourceRecord`].
pub struct SourceRecordView {
    pub id: Seq<char>,
    pub plugin_id: Seq<char>,
    pub name: Seq<char>,
    pub status: Seq<char>,
    pub state_json: Option<Seq<char>>,
    pub created_at: Seq<char>,
    pub updated_at: Seq<char>,
}

impl View for SourceRecord {
    type V = SourceRecordView;

    open spec fn view(&self) -> SourceRecordView {
        SourceRecordView {
            id: self.id@,
            plugin_id: self.plugin_id@,
            name: self.name@,
            status: self.status@,
            state_json: self.state_json.deep_view(),
            created_at: self.created_at@,
            updated_at: self.updated_at@,
        }
    }
}

/// The record of a new source: its id from the plugin and the moment (see
/// [`source_id_of`]), the name as given, status `healthy`, no state, and the time `now`
/// as both creation and update time.
pub open spec fn source_record_of(plugin_id: Seq<char>, name: Seq<char>, created_nanos: int, now: Seq<char>) -> SourceRecordView {
    SourceRecordView {
        id: source_id_of(plugin_id, created_nanos),
        plugin_id,
        name,
        status: "healthy"@,
        state_json: None,
        created_at: now,
        updated_at: now,
    }
}

/// Builds the record of a new source (see [`source_record_of`]).
pub fn source_record(plugin_id: &str, name: &str, created_nanos: i128, now: &str) -> (r: SourceRecord)
    ensures
        r@ == source_record_of(plugin_id@, name@, created_nanos as int, now@),
{
    SourceRecord {
        id: new_source_id(plugin_id, created_nanos),
        plugin_id: plugin_id.to_owned(),
        name: name.to_owned(),
        status: "healthy".to_owned(),
        state_json: None,
        created_at: now.to_owned(),
        updated_at: now.to_owned(),
    }
}

/// Where the creation of a source stands.
#[derive(Debug, Clone, Copy, PartialEq, Eq, Structural)]
pub enum CreateSourceStage {
    Start,
    Preparing,
    Inserting,
    Persisting,
    Finished,
}

/// What the storage, the secret store and the plugin runtime report to a creation; `E`
/// is their error.
#[derive(Debug)]
pub enum CreateSourceEvent<E> {
    /// The creation is to start.
    Begin,
    /// The plugin is loaded, the config validated and split, and the time taken.
    Prepared,
    /// The record is inserted.
    Inserted,
    /// The plain settings and the secrets are stored.
    Persisted,
    /// The step asked for failed.
    Failed(E),
}

/// What a creation asks the outside world to do next.
#[derive(Debug)]
pub enum CreateSourceAction<E> {
    /// Load the plugin, validate and split the config, and take the time.
    Prepare,
    /// Insert the record (see [`source_record`]).
    Insert,
    /// Store the plain settings and the secrets of the config.
    Persist,
    /// Delete the record and each secret of the config, whatever that gives, then fail
    /// with this error.
    RollBack(E),
    /// Fail with this error of the library.
    Refuse(CoreError),
    /// Fail with this error of the step that failed.
    Fail(E),
    /// Answer with the record and the masked config.
    Finish,
    /// The event does not fit the stage: nothing to do.
    Ignore,
}

/// The abstract value of [`CreateSourceAction`].
pub enum CreateActionView<E> {
    Prepare,
    Insert,
    Persist,
    RollBack(E),
    Refuse((ErrorKind, Seq<char>)),
    Fail(E),
    Finish,
    Ignore,
}

impl<E> View for CreateSourceAction<E> {
    type V = CreateActionView<E>;

    open spec fn view(&self) -> CreateActionView<E> {
        match self {
            CreateSourceAction::Prepare => CreateActionView::Prepare,
            CreateSourceAction::Insert => CreateActionView::Insert,
            CreateSourceAction::Persist => CreateActionView::Persist,
            CreateSourceAction::RollBack(e) => CreateActionView::RollBack(*e),
            CreateSourceAction::Refuse(e) => CreateActionView::Refuse(e@),
            CreateSourceAction::Fail(e) => CreateActionView::Fail(*e),
            CreateSourceAction::Finish => CreateActionView::Finish,
            CreateSourceAction::Ignore => CreateActionView::Ignore,
        }
    }
}

/// The next stage and action of the creation of a source named `name`: a name that is
/// blank once trimmed is refused before anything else (`ConfigInvalid`); then the
/// plugin is loaded and the config checked, the record inserted and the config stored;
/// when storing the config fails, the record and the secrets are deleted again before
/// the creation fails. Any other failed step ends the creation with its error.
pub open spec fn create_source_next<E>(name: Seq<char>, stage: CreateSourceStage, event: CreateSourceEvent<E>) -> (
    CreateSourceStage,
    CreateActionView<E>,
) {
    match (stage, event) {
        (CreateSourceStage::Start, CreateSourceEvent::Begin) => if created_name_of(name) is None {
            (
                CreateSourceStage::Finished,
                CreateActionView::Refuse((ErrorKind::ConfigInvalid, blank_name_message())),
            )
        } else {
            (CreateSourceStage::Preparing, CreateActionView::Prepare)
        },
        (CreateSourceStage::Preparing, CreateSourceEvent::Prepared) => (
            CreateSourceStage::Inserting,
            CreateActionView::Insert,
        ),
        (CreateSourceStage::Inserting, CreateSourceEvent::Inserted) => (
            CreateSourceStage::Persisting,
            CreateActionView::Persist,
        ),
        (CreateSourceStage::Persisting, CreateSourceEvent::Persisted) => (
            CreateSourceStage::Finished,
            CreateActionView::Finish,
        ),
        (CreateSourceStage::Persisting, CreateSourceEvent::Failed(e)) => (
            CreateSourceStage::Finished,
            CreateActionView::RollBack(e),
        ),
        (CreateSourceStage::Preparing, CreateSourceEvent::Failed(e)) => (
            CreateSourceStage::Finished,
            CreateActionView::Fail(e),
        ),
        (CreateSourceStage::Inserting, CreateSourceEvent::Failed(e)) => (
            CreateSourceStage::Finished,
            CreateActionView::Fail(e),
        ),
        _ => (stage, CreateActionView::Ignore),
    }
}

/// Takes the creation of a source named `name` one step further (see
/// [`create_source_next`]).
pub fn create_source_step<E>(name: &str, stage: CreateSourceStage, event: CreateSourceEvent<E>) -> (r: (
    CreateSourceStage,
    CreateSourceAction<E>,
))
    ensures
        (r.0, r.1@) == create_source_next(name@, stage, event),
{
    match (stage, event) {
        (CreateSourceStage::Start, CreateSourceEvent::Begin) => match source_name_for_create(name) {
            Err(e) => (CreateSourceStage::Finished, CreateSourceAction::Refuse(e)),
            Ok(_) => (CreateSourceStage::Preparing, CreateSourceAction::Prepare),
        },
        (CreateSourceStage::Preparing, CreateSourceEvent::Prepared) => (
            CreateSourceStage::Inserting,
            CreateSourceAction::Insert,
        ),
        (CreateSourceStage::Inserting, CreateSourceEvent::Inserted) => (
            CreateSourceStage::Persisting,
            CreateSourceAction::Persist,
        ),
        (CreateSourceStage::Persisting, CreateSourceEvent::Persisted) => (
            CreateSourceStage::Finished,
            CreateSourceAction::Finish,
        ),
        (CreateSourceStage::Persisting, CreateSourceEvent::Failed(e)) => (
            CreateSourceStage::Finished,
            CreateSourceAction::RollBack(e),
        ),
        (CreateSourceStage::Preparing, CreateSourceEvent::Failed(e)) => (
            CreateSourceStage::Finished,
            CreateSourceAction::Fail(e),
        ),
        (CreateSourceStage::Inserting, CreateSourceEvent::Failed(e)) => (
            CreateSourceStage::Finished,
            CreateSourceAction::Fail(e),
        ),
        (stage, _) => (stage, CreateSourceAction::Ignore),
    }
}

/// A blank name is refused before anything is loaded or written; a failure to store the
/// config of an inserted record always deletes it again; an ended creation does nothing
/// more.
pub proof fn lemma_create_source_order<E>(name: Seq<char>, stage: CreateSourceStage, event: CreateSourceEvent<E>)
    ensures
        create_source_next(name, stage, event).1 is Insert ==> stage == CreateSourceStage::Preparing
            && event is Prepared,
        stage == CreateSourceStage::Start && event is Begin && trim(name).len() == 0
            ==> create_source_next(name, stage, event).1 == CreateActionView::<E>::Refuse(
            (ErrorKind::ConfigInvalid, blank_name_message()),
        ),
        stage == CreateSourceStage::Persisting && event is Failed ==> create_source_next(
            name,
            stage,
            event,
        ).1 is RollBack,
        stage == CreateSourceStage::Finished ==> create_source_next(name, stage, event) == (
            stage,
            CreateActionView::<E>::Ignore,
        ),
{
}

/// Where an update of a source stands.
#[derive(Debug, Clone, Copy, PartialEq, Eq, Structural)]
pub enum UpdateSourceStage {
    Start,
    Loading,
    Preparing,
    Writing,
    WritingSecrets,
    Finished,
}

/// An update of a source under way: the source, the new name if one is given, whether a
/// new config is given, and where the update stands.
#[derive(Debug)]
pub struct UpdateSourceState {
    pub stage: UpdateSourceStage,
    pub source_id: String,
    pub name: Option<String>,
    pub has_config: bool,
}

/// The abstract value of [`UpdateSourceState`].
pub struct UpdateStateView {
    pub stage: UpdateSourceStage,
    pub source_id: Seq<char>,
    pub name: Option<Seq<char>>,
    pub has_config: bool,
}

impl View for UpdateSourceState {
    type V = UpdateStateView;

    open spec fn view(&self) -> UpdateStateView {
        UpdateStateView {
            stage: self.stage,
            source_id: self.source_id@,
            name: self.name.deep_view(),
            has_config: self.has_config,
        }
    }
}

/// What the storage, the secret store and the plugin runtime report to an update; `E`
/// is their error.
#[derive(Debug)]
pub enum UpdateSourceEvent<E> {
    /// The update is to start.
    Begin,
    /// Whether a source has the id.
    SourceFound(bool),
    /// The plugin, the stored config and the current secrets are loaded and, when a config
    /// is given, it is validated and split into plain settings and secrets.
    Prepared,
    /// The new config, if any, and the record are written in one transaction.
    Written,
    /// The new secrets are stored and those the config no longer holds removed.
    SecretsWritten,
    /// The step asked for failed.
    Failed(E),
}

/// What an update asks the outside world to do next.
#[derive(Debug)]
pub enum UpdateSourceAction<E> {
    /// Look the source up by its id.
    LoadSource,
    /// Load the plugin, the stored config and the current secrets, and validate the new
    /// config, if any.
    Prepare,
    /// In one transaction write the new config, if any, and the record, renamed to this
    /// name when there is one, stamped with the time.
    Write(Option<String>),
    /// Store the new secrets and remove those the config no longer holds.
    WriteSecrets,
    /// Put the stored config, the record and the secrets back as they were before,
    /// whatever that gives, then fail with this error.
    RollBack(E),
    /// Fail with this error of the library.
    Refuse(CoreError),
    /// Fail with this error of the step that failed.
    Fail(E),
    /// Answer with the updated source.
    Finish,
    /// The event does not fit the stage: nothing to do.
    Ignore,
}

/// The abstract value of [`UpdateSourceAction`].
pub enum UpdateActionView<E> {
    LoadSource,
    Prepare,
    Write(Option<Seq<char>>),
    WriteSecrets,
    RollBack(E),
    Refuse((ErrorKind, Seq<char>)),
    Fail(E),
    Finish,
    Ignore,
}

impl<E> View for UpdateSourceAction<E> {
    type V = UpdateActionView<E>;

    open spec fn view(&self) -> UpdateActionView<E> {
        match self {
            UpdateSourceAction::LoadSource => UpdateActionView::LoadSource,
            UpdateSourceAction::Prepare => UpdateActionView::Prepare,
            UpdateSourceAction::Write(n) => UpdateActionView::Write(n.deep_view()),
            UpdateSourceAction::WriteSecrets => UpdateActionView::WriteSecrets,
            UpdateSourceAction::RollBack(e) => UpdateActionView::RollBack(*e),
            UpdateSourceAction::Refuse(e) => UpdateActionView::Refuse(e@),
            UpdateSourceAction::Fail(e) => UpdateActionView::Fail(*e),
            UpdateSourceAction::Finish => UpdateActionView::Finish,
            UpdateSourceAction::Ignore => UpdateActionView::Ignore,
        }
    }
}

/// A state at another stage.
pub open spec fn at_stage(s: UpdateStateView, stage: UpdateSourceStage) -> UpdateStateView {
    UpdateStateView { stage, ..s }
}

/// The next state and action of an update of a source: the source is looked up (a
/// missing one is `SourceNotFound` with its id), then everything is loaded and the
/// config validated, then a given name is trimmed (a blank one is `ConfigInvalid`),
/// then config and record are written, then, when a config was given, the secrets; a
/// failure there puts config, record and secrets back before failing. Any other failed
/// step ends the update with its error.
pub open spec fn update_source_next<E>(s: UpdateStateView, event: UpdateSourceEvent<E>) -> (
    UpdateStateView,
    UpdateActionView<E>,
) {
    match (s.stage, event) {
        (UpdateSourceStage::Start, UpdateSourceEvent::Begin) => (
            at_stage(s, UpdateSourceStage::Loading),
            UpdateActionView::LoadSource,
        ),
        (UpdateSourceStage::Loading, UpdateSourceEvent::SourceFound(found)) => if found {
            (at_stage(s, UpdateSourceStage::Preparing), UpdateActionView::Prepare)
        } else {
            (
                at_stage(s, UpdateSourceStage::Finished),
                UpdateActionView::Refuse((ErrorKind::SourceNotFound, s.source_id)),
            )
        },
        (UpdateSourceStage::Preparing, UpdateSourceEvent::Prepared) => match renamed_or_kept(s.name) {
            None => (
                at_stage(s, UpdateSourceStage::Finished),
                UpdateActionView::Refuse((ErrorKind::ConfigInvalid, blank_name_message())),
            ),
            Some(n) => (at_stage(s, UpdateSourceStage::Writing), UpdateActionView::Write(n)),
        },
        (UpdateSourceStage::Writing, UpdateSourceEvent::Written) => if s.has_config {
            (at_stage(s, UpdateSourceStage::WritingSecrets), UpdateActionView::WriteSecrets)
        } else {
            (at_stage(s, UpdateSourceStage::Finished), UpdateActionView::Finish)
        },
        (UpdateSourceStage::WritingSecrets, UpdateSourceEvent::SecretsWritten) => (
            at_stage(s, UpdateSourceStage::Finished),
            UpdateActionView::Finish,
        ),
        (UpdateSourceStage::WritingSecrets, UpdateSourceEvent::Failed(e)) => (
            at_stage(s, UpdateSourceStage::Finished),
            UpdateActionView::RollBack(e),
        ),
        (UpdateSourceStage::Loading, UpdateSourceEvent::Failed(e)) => (
            at_stage(s, UpdateSourceStage::Finished),
            UpdateActionView::Fail(e),
        ),
        (UpdateSourceStage::Preparing, UpdateSourceEvent::Failed(e)) => (
            at_stage(s, UpdateSourceStage::Finished),
            UpdateActionView::Fail(e),
        ),
        (UpdateSourceStage::Writing, UpdateSourceEvent::Failed(e)) => (
            at_stage(s, UpdateSourceStage::Finished),
            UpdateActionView::Fail(e),
        ),
        _ => (s, UpdateActionView::Ignore),
    }
}

/// The name an update writes: `Some(None)` when no name is given, `Some(Some(n))` with the
/// trimmed name, `None` when the given name is blank.
pub open spec fn renamed_or_kept(name: Option<Seq<char>>) -> Option<Option<Seq<char>>> {
    match name {
        None => Some(None),
        Some(n) => match renamed_name_of(n) {
            None => None,
            Some(t) => Some(Some(t)),
        },
    }
}

/// Takes an update of a source one step further (see [`update_source_next`]).
pub fn update_source_step<E>(state: UpdateSourceState, event: UpdateSourceEvent<E>) -> (r: (
    UpdateSourceState,
    UpdateSourceAction<E>,
))
    ensures
        (r.0@, r.1@) == update_source_next(state@, event),
{
    let ghost s0 = state@;
    let UpdateSourceState { stage, source_id, name, has_config } = state;
    match (stage, event) {
        (UpdateSourceStage::Start, UpdateSourceEvent::Begin) => (
            UpdateSourceState { stage: UpdateSourceStage::Loading, source_id, name, has_config },
            UpdateSourceAction::LoadSource,
        ),
        (UpdateSourceStage::Loading, UpdateSourceEvent::SourceFound(found)) => if found {
            (
                UpdateSourceState { stage: UpdateSourceStage::Preparing, source_id, name, has_config },
                UpdateSourceAction::Prepare,
            )
        } else {
            let e = CoreError::SourceNotFound(source_id.clone());
            (
                UpdateSourceState { stage: UpdateSourceStage::Finished, source_id, name, has_config },
                UpdateSourceAction::Refuse(e),
            )
        },
        (UpdateSourceStage::Preparing, UpdateSourceEvent::Prepared) => {
            let written: Result<Option<String>, CoreError> = match &name {
                None => Ok(None),
                Some(n) => match source_name_for_update(n.as_str()) {
                    Ok(t) => Ok(Some(t)),
                    Err(e) => Err(e),
                },
            };
            match written {
                Ok(w) => (
                    UpdateSourceState { stage: UpdateSourceStage::Writing, source_id, name, has_config },
                    UpdateSourceAction::Write(w),
                ),
                Err(e) => (
                    UpdateSourceState { stage: UpdateSourceStage::Finished, source_id, name, has_config },
                    UpdateSourceAction::Refuse(e),
                ),
            }
        },
        (UpdateSourceStage::Writing, UpdateSourceEvent::Written) => if has_config {
            (
                UpdateSourceState { stage: UpdateSourceStage::WritingSecrets, source_id, name, has_config },
                UpdateSourceAction::WriteSecrets,
            )
        } else {
            (
                UpdateSourceState { stage: UpdateSourceStage::Finished, source_id, name, has_config },
                UpdateSourceAction::Finish,
            )
        },
        (UpdateSourceStage::WritingSecrets, UpdateSourceEvent::SecretsWritten) => (
            UpdateSourceState { stage: UpdateSourceStage::Finished, source_id, name, has_config },
            UpdateSourceAction::Finish,
        ),
        (UpdateSourceStage::WritingSecrets, UpdateSourceEvent::Failed(e)) => (
            UpdateSourceState { stage: UpdateSourceStage::Finished, source_id, name, has_config },
            UpdateSourceAction::RollBack(e),
        ),
        (UpdateSourceStage::Loading, UpdateSourceEvent::Failed(e)) => (
            UpdateSourceState { stage: UpdateSourceStage::Finished, source_id, name, has_config },
            UpdateSourceAction::Fail(e),
        ),
        (UpdateSourceStage::Preparing, UpdateSourceEvent::Failed(e)) => (
            UpdateSourceState { stage: UpdateSourceStage::Finished, source_id, name, has_config },
            UpdateSourceAction::Fail(e),
        ),
        (UpdateSourceStage::Writing, UpdateSourceEvent::Failed(e)) => (
            UpdateSourceState { stage: UpdateSourceStage::Finished, source_id, name, has_config },
            UpdateSourceAction::Fail(e),
        ),
        (stage, _) => (UpdateSourceState { stage, source_id, name, has_config }, UpdateSourceAction::Ignore),
    }
}

/// Nothing is written before the source was found and everything loaded and checked; a
/// failure to store the secrets always puts the earlier writes back; a missing source is
/// answered `SourceNotFound` with its id; an ended update does nothing more.
pub proof fn lemma_update_source_order<E>(s: UpdateStateView, event: UpdateSourceEvent<E>)
    ensures
        update_source_next(s, event).1 is Write ==> s.stage == UpdateSourceStage::Preparing
            && event is Prepared && renamed_or_kept(s.name) is Some,
        update_source_next(s, event).1 is WriteSecrets ==> s.stage == UpdateSourceStage::Writing
            && event is Written && s.has_config,
        s.stage == UpdateSourceStage::WritingSecrets && event is Failed ==> update_source_next(s, event).1
            is RollBack,
        s.stage == UpdateSourceStage::Loading && event == UpdateSourceEvent::<E>::SourceFound(false)
            ==> update_source_next(s, event).1 == UpdateActionView::<E>::Refuse(
            (ErrorKind::SourceNotFound, s.source_id),
        ),
        s.stage == UpdateSourceStage::Finished ==> update_source_next(s, event) == (
            s,
            UpdateActionView::<E>::Ignore,
        ),
{
}

} // verus!
