//! The permissions of files and directories that hold secret material (private keys,
//! account credentials, PKCS#12 bundles).
use vstd::prelude::*;

verus! {

/// The permissions of a new secret file: the owner may read and write it.
pub const SECRET_FILE_MODE: u32 = 0o600;

/// The permissions of a secret directory: the owner may do everything.
pub const SECRET_DIR_MODE: u32 = 0o700;

/// Whether `mode` allows all that `part` allows.
pub open spec fn allows(mode: u32, part: u32) -> bool {
    mode & part == part
}

/// The permissions to give to a secret file, where `existing` are those that it already
/// has: a new file is for the owner to read and write, and an existing one is tightened
/// to that and never widened.
pub fn secret_file_mode(existing: Option<u32>) -> (r: u32)
    ensures
        match existing {
            None => r == SECRET_FILE_MODE,
            Some(mode) => r == mode & SECRET_FILE_MODE,
        },
        allows(SECRET_FILE_MODE, r),
{
    match existing {
        None => {
            assert(0o600u32 & 0o600u32 == 0o600u32) by (bit_vector);
            SECRET_FILE_MODE
        },
        Some(mode) => {
            assert(0o600u32 & (mode & 0o600u32) == mode & 0o600u32) by (bit_vector);
            mode & SECRET_FILE_MODE
        },
    }
}

/// The mode of a secret file allows nothing to anyone but the owner, allows nothing that
/// an existing file did not allow already, and stays as it is when it is set again.
pub proof fn secret_file_is_never_widened(existing: u32)
    ensures
        (existing & SECRET_FILE_MODE) & 0o077 == 0,
        allows(existing, existing & SECRET_FILE_MODE),
        (existing & SECRET_FILE_MODE) & SECRET_FILE_MODE == existing & SECRET_FILE_MODE,
{
    assert((existing & 0o600u32) & 0o077u32 == 0) by (bit_vector);
    assert(existing & (existing & 0o600u32) == existing & 0o600u32) by (bit_vector);
    assert((existing & 0o600u32) & 0o600u32 == existing & 0o600u32) by (bit_vector);
}

/// What came of the last action of a [`SecretWrite`].
#[derive(Clone, Copy, Debug, PartialEq, Eq, Structural)]
pub enum SecretWriteEvent {
    /// The file is open and empty. `existing` is the mode that it had, if it is not new.
    Opened { existing: Option<u32> },
    /// The action was done.
    Done,
    /// The action failed.
    Failed,
}

/// What a [`SecretWrite`] asks for.
#[derive(Clone, Copy, Debug, PartialEq, Eq, Structural)]
pub enum SecretWriteAction {
    /// Open the file for writing and empty it. Where there is none, create it with this
    /// mode.
    Open(u32),
    /// Give the file this mode.
    SetMode(u32),
    /// Write the contents.
    Write,
    /// The contents are written (true), or the last action failed (false): its error is
    /// the reason.
    Finish(bool),
}

/// How far the writing of a secret file has come.
#[derive(Clone, Copy, Debug, PartialEq, Eq, Structural)]
pub enum SecretWrite {
    Open,
    SetMode(u32),
    Write,
    Finished,
    Failed,
}

impl SecretWrite {
    /// The state after `event`.
    pub open spec fn next(self, event: SecretWriteEvent) -> SecretWrite {
        match (self, event) {
            (SecretWrite::Finished, _) => self,
            (SecretWrite::Open, SecretWriteEvent::Opened { existing }) => SecretWrite::SetMode(
                match existing {
                    None => SECRET_FILE_MODE,
                    Some(mode) => mode & SECRET_FILE_MODE,
                },
            ),
            (SecretWrite::SetMode(_), SecretWriteEvent::Done) => SecretWrite::Write,
            (SecretWrite::Write, SecretWriteEvent::Done) => SecretWrite::Finished,
            _ => SecretWrite::Failed,
        }
    }

    /// What this state asks for.
    pub open spec fn asked(self) -> SecretWriteAction {
        match self {
            SecretWrite::Open => SecretWriteAction::Open(SECRET_FILE_MODE),
            SecretWrite::SetMode(mode) => SecretWriteAction::SetMode(mode),
            SecretWrite::Write => SecretWriteAction::Write,
            SecretWrite::Finished => SecretWriteAction::Finish(true),
            SecretWrite::Failed => SecretWriteAction::Finish(false),
        }
    }

    /// Start to write a secret file.
    pub fn new() -> (r: SecretWrite)
        ensures
            r is Open,
    {
        SecretWrite::Open
    }

    /// The next thing to do.
    pub fn action(self) -> (r: SecretWriteAction)
        ensures
            r == self.asked(),
    {
        match self {
            SecretWrite::Open => SecretWriteAction::Open(SECRET_FILE_MODE),
            SecretWrite::SetMode(mode) => SecretWriteAction::SetMode(mode),
            SecretWrite::Write => SecretWriteAction::Write,
            SecretWrite::Finished => SecretWriteAction::Finish(true),
            SecretWrite::Failed => SecretWriteAction::Finish(false),
        }
    }

    /// The state after `event`.
    pub fn step(self, event: SecretWriteEvent) -> (r: SecretWrite)
        ensures
            r == self.next(event),
    {
        match (self, event) {
            (SecretWrite::Finished, _) => SecretWrite::Finished,
            // The mode given on opening counts only for a new file, so an existing one is
            // tightened here.
            (SecretWrite::Open, SecretWriteEvent::Opened { existing }) => {
                SecretWrite::SetMode(secret_file_mode(existing))
            },
            (SecretWrite::SetMode(_), SecretWriteEvent::Done) => SecretWrite::Write,
            (SecretWrite::Write, SecretWriteEvent::Done) => SecretWrite::Finished,
            _ => SecretWrite::Failed,
        }
    }
}

/// What came of the last action of a [`SecretDir`].
#[derive(Clone, Copy, Debug, PartialEq, Eq, Structural)]
pub enum SecretDirEvent {
    /// The action was done.
    Done,
    /// The action failed.
    Failed,
}

/// What a [`SecretDir`] asks for.
#[derive(Clone, Copy, Debug, PartialEq, Eq, Structural)]
pub enum SecretDirAction {
    /// Create the directory and any missing parents with this mode, unless it exists.
    Create(u32),
    /// Give the directory this mode.
    SetMode(u32),
    /// The directory is there (true), or the last action failed (false): its error is the
    /// reason.
    Finish(bool),
}

/// How far the creation of a secret directory has come.
#[derive(Clone, Copy, Debug, PartialEq, Eq, Structural)]
pub enum SecretDir {
    Create,
    SetMode,
    Finished,
    Failed,
}

impl SecretDir {
    /// The state after `event`: the mode is set whether or not the directory is new, and
    /// only then it is over.
    pub open spec fn next(self, event: SecretDirEvent) -> SecretDir {
        match (self, event) {
            (SecretDir::Finished, _) => SecretDir::Finished,
            (SecretDir::Create, SecretDirEvent::Done) => SecretDir::SetMode,
            (SecretDir::SetMode, SecretDirEvent::Done) => SecretDir::Finished,
            _ => SecretDir::Failed,
        }
    }

    /// What this state asks for.
    pub open spec fn asked(self) -> SecretDirAction {
        match self {
            SecretDir::Create => SecretDirAction::Create(SECRET_DIR_MODE),
            SecretDir::SetMode => SecretDirAction::SetMode(SECRET_DIR_MODE),
            SecretDir::Finished => SecretDirAction::Finish(true),
            SecretDir::Failed => SecretDirAction::Finish(false),
        }
    }

    /// Start to create a secret directory.
    pub fn new() -> (r: SecretDir)
        ensures
            r is Create,
    {
        SecretDir::Create
    }

    /// The next thing to do.
    pub fn action(self) -> (r: SecretDirAction)
        ensures
            r == self.asked(),
    {
        match self {
            SecretDir::Create => SecretDirAction::Create(SECRET_DIR_MODE),
            // The mode given on creating is masked by the umask and skipped for an existing
            // directory.
            SecretDir::SetMode => SecretDirAction::SetMode(SECRET_DIR_MODE),
            SecretDir::Finished => SecretDirAction::Finish(true),
            SecretDir::Failed => SecretDirAction::Finish(false),
        }
    }

    /// The state after `event`.
    pub fn step(self, event: SecretDirEvent) -> (r: SecretDir)
        ensures
            r == self.next(event),
    {
        match (self, event) {
            (SecretDir::Finished, _) => SecretDir::Finished,
            (SecretDir::Create, SecretDirEvent::Done) => SecretDir::SetMode,
            (SecretDir::SetMode, SecretDirEvent::Done) => SecretDir::Finished,
            _ => SecretDir::Failed,
        }
    }
}

/// A secret directory is reported to be there only once its mode was set.
pub proof fn directory_is_there_once_its_mode_is_set(state: SecretDir, event: SecretDirEvent)
    requires
        state.next(event) is Finished,
    ensures
        state is Finished || (state is SetMode && event is Done),
{
}

/// The state after `events`.
pub open spec fn written(events: Seq<SecretWriteEvent>) -> SecretWrite
    decreases events.len(),
{
    if events.len() == 0 {
        SecretWrite::Open
    } else {
        written(events.drop_last()).next(events.last())
    }
}

/// Nothing is written before the file was given a mode that allows nothing to anyone but
/// the owner.
pub proof fn contents_follow_the_mode(events: Seq<SecretWriteEvent>)
    requires
        written(events) is Write || written(events) is Finished,
    ensures
        events.len() >= 2,
        written(events.take(1)) matches SecretWrite::SetMode(mode) && mode & 0o077 == 0,
        events[1] is Done,
    decreases events.len(),
{
    let before = events.drop_last();
    assert(events.len() > 0);
    if written(before) is SetMode {
        if before.len() == 0 {
        } else if before.len() == 1 {
            assert(before =~= events.take(1));
            assert(events[1] == events.last());
            lemma_mode(before);
        } else {
            lemma_set_mode_comes_second(before);
        }
    } else {
        contents_follow_the_mode(before);
        assert(before.take(1) =~= events.take(1));
        assert(before[1] == events[1]);
    }
}

/// A mode that is to be set allows nothing to anyone but the owner.
proof fn lemma_mode(events: Seq<SecretWriteEvent>)
    requires
        written(events) is SetMode,
    ensures
        written(events) matches SecretWrite::SetMode(mode) && mode & 0o077 == 0,
{
    assert(0o600u32 & 0o077u32 == 0) by (bit_vector);
    if let SecretWriteEvent::Opened { existing: Some(mode) } = events.last() {
        secret_file_is_never_widened(mode);
    }
}

/// The mode is set directly after the file was opened.
proof fn lemma_set_mode_comes_second(events: Seq<SecretWriteEvent>)
    requires
        written(events) is SetMode || written(events) is Open,
    ensures
        written(events) is SetMode ==> events.len() == 1,
        written(events) is Open ==> events.len() == 0,
    decreases events.len(),
{
    if events.len() > 0 {
        if written(events.drop_last()) is Open {
            lemma_set_mode_comes_second(events.drop_last());
        }
    }
}

/// Whatever mode a file has, what is set gives the group and the others nothing, gives the
/// owner no right to execute, and gives the owner reading and writing exactly as far as the
/// file already did. A new file is created and set so that the owner may read and write it.
pub proof fn secret_file_is_for_the_owner(mode: u32)
    ensures
        SecretWrite::Open.asked() == SecretWriteAction::Open(0o600),
        SecretWrite::Open.next(SecretWriteEvent::Opened { existing: None }).asked()
            == SecretWriteAction::SetMode(0o600),
        SecretWrite::Open.next(
            SecretWriteEvent::Opened { existing: Some(mode) },
        ).asked() matches SecretWriteAction::SetMode(set) && {
            &&& set & 0o177 == 0
            &&& set & 0o400 == mode & 0o400
            &&& set & 0o200 == mode & 0o200
            &&& set < 0o1000
        },
{
    assert((mode & 0o600u32) & 0o177u32 == 0) by (bit_vector);
    assert((mode & 0o600u32) & 0o400u32 == mode & 0o400u32) by (bit_vector);
    assert((mode & 0o600u32) & 0o200u32 == mode & 0o200u32) by (bit_vector);
    assert((mode & 0o600u32) < 0o1000u32) by (bit_vector);
}

/// A secret file is opened, given its mode and written, in this order; a failure at any of
/// these ends it, and nothing else does.
pub proof fn secret_file_is_written_in_order(existing: Option<u32>, mode: u32)
    ensures
        SecretWrite::Open.next(SecretWriteEvent::Opened { existing }) is SetMode,
        SecretWrite::SetMode(mode).asked() == SecretWriteAction::SetMode(mode),
        SecretWrite::SetMode(mode).next(SecretWriteEvent::Done) is Write,
        SecretWrite::Write.asked() is Write,
        SecretWrite::Write.next(SecretWriteEvent::Done).asked() == SecretWriteAction::Finish(true),
        SecretWrite::Open.next(SecretWriteEvent::Failed).asked() == SecretWriteAction::Finish(false),
        SecretWrite::SetMode(mode).next(SecretWriteEvent::Failed).asked()
            == SecretWriteAction::Finish(false),
        SecretWrite::Write.next(SecretWriteEvent::Failed).asked() == SecretWriteAction::Finish(false),
{
}

/// A secret directory is created, and then set, with all rights for the owner and none for
/// anyone else; a failure of either is reported.
pub proof fn secret_directory_is_for_the_owner()
    ensures
        SecretDir::Create.asked() == SecretDirAction::Create(0o700),
        SecretDir::Create.next(SecretDirEvent::Done).asked() == SecretDirAction::SetMode(0o700),
        SecretDir::SetMode.next(SecretDirEvent::Done).asked() == SecretDirAction::Finish(true),
        SecretDir::Create.next(SecretDirEvent::Failed).asked() == SecretDirAction::Finish(false),
        SecretDir::SetMode.next(SecretDirEvent::Failed).asked() == SecretDirAction::Finish(false),
{
}

} // verus!
