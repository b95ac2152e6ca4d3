//! Building the ACME account: restoring it from saved credentials, or creating it and
//! saving them.
use crate::acme::credentials;
use crate::acme::credentials::parse_credentials;
use crate::acme::target::Target;
use crate::text;
use vstd::prelude::*;
use vstd::string::*;

verus! {

/// What came of the last action of an [`AccountSetup`].
#[derive(Debug, PartialEq, Eq)]
pub enum AccountEvent {
    /// Whether there is a credentials file.
    CredentialsExist(bool),
    /// What the credentials file holds.
    CredentialsRead(String),
    /// An account was created, and this is the text of its credentials.
    Created(String),
    /// Whether the directory exists.
    DirectoryExists(bool),
    /// The action was done.
    Done,
    /// The action failed.
    Failed,
}

/// What an [`AccountSetup`] asks for.
#[derive(Debug, PartialEq, Eq)]
pub enum AccountAction {
    /// Find out whether this file exists.
    LookForCredentials(String),
    /// Read this file.
    ReadCredentials(String),
    /// Restore the account from the credentials that this text holds.
    Restore(String),
    /// Create an account at this directory URL, agreeing to the terms of service.
    Create { directory_url: String },
    /// Find out whether this directory exists.
    LookForDirectory(String),
    /// Create this directory, readable by the owner only.
    CreateSecretDirectory(String),
    /// Write this text to the file with this path, readable by the owner only: it holds the
    /// account's private key.
    SaveCredentials { path: String, contents: String },
    /// There is an account (true), or there is none (false): the error of the last action,
    /// or of parsing what it read, is the reason.
    Finish(bool),
}

/// How far the building of an account has come.
#[derive(Debug, PartialEq, Eq)]
pub enum AccountStep {
    LookForCredentials,
    ReadCredentials,
    /// The account is being restored from the credentials in this text.
    Restore(String),
    Create,
    /// The directory for the credentials in this text is looked for.
    LookForDirectory(String),
    /// The directory for the credentials in this text is being created.
    CreateDirectory(String),
    /// The credentials in this text are being saved.
    SaveCredentials(String),
    Finished,
    Failed,
}

/// The building of an account: restored from the credentials in the file `target`, or
/// created at `directory_url` (and saved there) when there is no such file. Without a file
/// the account is a throwaway.
#[derive(Debug, PartialEq, Eq)]
pub struct AccountSetup {
    pub directory_url: String,
    pub target: Option<Target>,
    pub step: AccountStep,
}

/// Whether `setup` is about to build an account at `directory_url`, whose credentials are kept
/// in the file with this path.
pub open spec fn begun(directory_url: String, path: Option<String>, setup: AccountSetup) -> bool {
    &&& setup.directory_url == directory_url
    &&& match path {
        Some(p) => setup.target matches Some(target) && target.path == p && target.valid(),
        None => setup.target is None,
    }
    &&& setup.step == AccountSetup::first(setup.target)
}

impl AccountSetup {
    /// The first step.
    pub open spec fn first(target: Option<Target>) -> AccountStep {
        if target is Some {
            AccountStep::LookForCredentials
        } else {
            AccountStep::Create
        }
    }

    /// What holds of every setup: the steps that need a file or a directory have one.
    pub open spec fn wf(self) -> bool {
        match self.step {
            AccountStep::Create => true,
            AccountStep::Restore(_) => true,
            AccountStep::Finished => true,
            AccountStep::Failed => true,
            AccountStep::LookForDirectory(_) => self.target is Some && (
            self.target->0).directory is Some,
            AccountStep::CreateDirectory(_) => self.target is Some && (
            self.target->0).directory is Some,
            _ => self.target is Some,
        }
    }

    /// The step after an account was created.
    pub open spec fn created(self, credentials: String) -> AccountStep {
        match self.target {
            None => AccountStep::Finished,
            Some(target) => if target.directory is Some {
                AccountStep::LookForDirectory(credentials)
            } else {
                AccountStep::SaveCredentials(credentials)
            },
        }
    }

    /// The step after `event`. A file that holds no credentials is an error, and is not
    /// taken for a missing one.
    pub open spec fn next(self, event: AccountEvent) -> AccountStep {
        match (self.step, event) {
            (AccountStep::Finished, _) => AccountStep::Finished,
            (AccountStep::LookForCredentials, AccountEvent::CredentialsExist(exists)) => {
                if exists {
                    AccountStep::ReadCredentials
                } else {
                    AccountStep::Create
                }
            },
            (AccountStep::ReadCredentials, AccountEvent::CredentialsRead(text)) => {
                if credentials::holds_credentials(text@) {
                    AccountStep::Restore(text)
                } else {
                    AccountStep::Failed
                }
            },
            (AccountStep::Restore(_), AccountEvent::Done) => AccountStep::Finished,
            (AccountStep::Create, AccountEvent::Created(text)) => self.created(text),
            (AccountStep::LookForDirectory(text), AccountEvent::DirectoryExists(exists)) => {
                if exists {
                    AccountStep::SaveCredentials(text)
                } else {
                    AccountStep::CreateDirectory(text)
                }
            },
            (AccountStep::CreateDirectory(text), AccountEvent::Done) => {
                AccountStep::SaveCredentials(text)
            },
            (AccountStep::SaveCredentials(_), AccountEvent::Done) => AccountStep::Finished,
            _ => AccountStep::Failed,
        }
    }

    /// Whether `action` is what this step asks for.
    pub open spec fn asks(self, action: AccountAction) -> bool {
        let target = self.target->0;
        match self.step {
            AccountStep::LookForCredentials => action == AccountAction::LookForCredentials(
                target.path,
            ),
            AccountStep::ReadCredentials => action == AccountAction::ReadCredentials(target.path),
            AccountStep::Restore(text) => action == AccountAction::Restore(text),
            AccountStep::Create => action == (AccountAction::Create {
                directory_url: self.directory_url,
            }),
            AccountStep::LookForDirectory(_) => action == AccountAction::LookForDirectory(
                target.directory->0,
            ),
            AccountStep::CreateDirectory(_) => action == AccountAction::CreateSecretDirectory(
                target.directory->0,
            ),
            AccountStep::SaveCredentials(text) => action == (AccountAction::SaveCredentials {
                path: target.path,
                contents: text,
            }),
            AccountStep::Finished => action == AccountAction::Finish(true),
            AccountStep::Failed => action == AccountAction::Finish(false),
        }
    }

    /// The words that introduce the error of a failed action, if any.
    pub open spec fn context(self) -> Option<Seq<char>> {
        let target = self.target->0;
        match self.step {
            AccountStep::ReadCredentials => Some(
                "failed to read ACME credentials at "@ + target.path@,
            ),
            AccountStep::CreateDirectory(_) => Some(
                "failed to create ACME credential directory "@ + (target.directory->0)@,
            ),
            AccountStep::SaveCredentials(_) => Some(
                "failed to write ACME credentials at "@ + target.path@,
            ),
            _ => None,
        }
    }

    /// Start to build an account at `directory_url`, whose credentials are kept in the file
    /// with this path.
    pub fn new(directory_url: String, path: Option<String>) -> (r: AccountSetup)
        ensures
            begun(directory_url, path, r),
            r.wf(),
    {
        match path {
            Some(p) => AccountSetup {
                directory_url,
                target: Some(Target::new(p)),
                step: AccountStep::LookForCredentials,
            },
            None => AccountSetup { directory_url, target: None, step: AccountStep::Create },
        }
    }

    /// The path of the credentials.
    fn credential_path(&self) -> (r: String)
        requires
            self.target is Some,
        ensures
            r == (self.target->0).path,
    {
        match &self.target {
            Some(target) => target.path.clone(),
            None => String::new(),
        }
    }

    /// The directory of the credentials.
    fn credential_directory(&self) -> (r: String)
        requires
            self.target is Some,
            (self.target->0).directory is Some,
        ensures
            r == (self.target->0).directory->0,
    {
        match &self.target {
            Some(target) => target.directory(),
            None => String::new(),
        }
    }

    /// The next thing to do.
    pub fn action(&self) -> (r: AccountAction)
        requires
            self.wf(),
        ensures
            self.asks(r),
    {
        match &self.step {
            AccountStep::LookForCredentials => {
                AccountAction::LookForCredentials(self.credential_path())
            },
            AccountStep::ReadCredentials => AccountAction::ReadCredentials(self.credential_path()),
            AccountStep::Restore(text) => AccountAction::Restore(text.clone()),
            AccountStep::Create => AccountAction::Create {
                directory_url: self.directory_url.clone(),
            },
            AccountStep::LookForDirectory(_) => {
                AccountAction::LookForDirectory(self.credential_directory())
            },
            AccountStep::CreateDirectory(_) => {
                AccountAction::CreateSecretDirectory(self.credential_directory())
            },
            AccountStep::SaveCredentials(text) => AccountAction::SaveCredentials {
                path: self.credential_path(),
                contents: text.clone(),
            },
            AccountStep::Finished => AccountAction::Finish(true),
            AccountStep::Failed => AccountAction::Finish(false),
        }
    }

    /// The words that introduce the error of the action, should it fail.
    pub fn failure_context(&self) -> (r: Option<String>)
        requires
            self.wf(),
        ensures
            match self.context() {
                Some(words) => r matches Some(w) && w@ == words,
                None => r is None,
            },
    {
        match &self.step {
            AccountStep::ReadCredentials => {
                let path = self.credential_path();
                Some(text::concat2("failed to read ACME credentials at ", path.as_str()))
            },
            AccountStep::CreateDirectory(_) => {
                let dir = self.credential_directory();
                Some(text::concat2("failed to create ACME credential directory ", dir.as_str()))
            },
            AccountStep::SaveCredentials(_) => {
                let path = self.credential_path();
                Some(text::concat2("failed to write ACME credentials at ", path.as_str()))
            },
            _ => None,
        }
    }

    /// Take in what came of the last action.
    pub fn step(self, event: AccountEvent) -> (r: AccountSetup)
        requires
            self.wf(),
        ensures
            r == (AccountSetup { step: self.next(event), ..self }),
            r.wf(),
    {
        let AccountSetup { directory_url, target, step: at } = self;
        let next = match (at, event) {
            (AccountStep::Finished, _) => AccountStep::Finished,
            (AccountStep::LookForCredentials, AccountEvent::CredentialsExist(exists)) => {
                if exists {
                    AccountStep::ReadCredentials
                } else {
                    AccountStep::Create
                }
            },
            (AccountStep::ReadCredentials, AccountEvent::CredentialsRead(text)) => {
                match parse_credentials(text.as_str()) {
                    Ok(_) => AccountStep::Restore(text),
                    Err(_) => AccountStep::Failed,
                }
            },
            (AccountStep::Restore(_), AccountEvent::Done) => AccountStep::Finished,
            (AccountStep::Create, AccountEvent::Created(text)) => match &target {
                None => AccountStep::Finished,
                Some(file) => if file.has_directory() {
                    AccountStep::LookForDirectory(text)
                } else {
                    AccountStep::SaveCredentials(text)
                },
            },
            (AccountStep::LookForDirectory(text), AccountEvent::DirectoryExists(exists)) => {
                if exists {
                    AccountStep::SaveCredentials(text)
                } else {
                    AccountStep::CreateDirectory(text)
                }
            },
            (AccountStep::CreateDirectory(text), AccountEvent::Done) => {
                AccountStep::SaveCredentials(text)
            },
            (AccountStep::SaveCredentials(_), AccountEvent::Done) => AccountStep::Finished,
            _ => AccountStep::Failed,
        };
        AccountSetup { directory_url, target, step: next }
    }
}

/// The setup after `events`, from `start`.
pub open spec fn after(start: AccountSetup, events: Seq<AccountEvent>) -> AccountSetup
    decreases events.len(),
{
    if events.len() == 0 {
        start
    } else {
        let before = after(start, events.drop_last());
        AccountSetup { step: before.next(events.last()), ..before }
    }
}

/// Whether `setup` is about to start.
pub open spec fn is_fresh(setup: AccountSetup) -> bool {
    setup.step == AccountSetup::first(setup.target)
}

/// Whether credentials were saved in the course of `events`.
pub open spec fn saved(start: AccountSetup, events: Seq<AccountEvent>) -> bool
    decreases events.len(),
{
    events.len() > 0 && (saved(start, events.drop_last()) || (after(
        start,
        events.drop_last(),
    ).step is SaveCredentials && events.last() is Done))
}

/// Whether an account was created in the course of `events`.
pub open spec fn created(start: AccountSetup, events: Seq<AccountEvent>) -> bool
    decreases events.len(),
{
    events.len() > 0 && (created(start, events.drop_last()) || (after(
        start,
        events.drop_last(),
    ).step is Create && events.last() is Created))
}

/// Whether the first of `events` is that there are credentials in the file.
pub open spec fn found(start: AccountSetup, events: Seq<AccountEvent>) -> bool {
    start.target is Some && events.len() > 0 && events[0] == AccountEvent::CredentialsExist(true)
}

/// Whether the second of `events` is that the file was read, and it holds no credentials.
pub open spec fn read_in_vain(events: Seq<AccountEvent>) -> bool {
    events.len() > 1 && (events[1] matches AccountEvent::CredentialsRead(text)
        && !credentials::holds_credentials(text@))
}

/// Credentials that exist are restored and never overwritten. A new account's are saved
/// exactly where there is a file for them. Where the file was read and holds no
/// credentials, there is no account: nothing is created and nothing is saved.
pub proof fn credentials_are_saved_once(start: AccountSetup, events: Seq<AccountEvent>)
    requires
        is_fresh(start),
    ensures
        ({
            let step = after(start, events).step;
            let exist = found(start, events);
            &&& exist ==> !created(start, events) && !saved(start, events) && !(
            step is SaveCredentials) && !(step is Create)
            &&& step is Finished && !exist ==> created(start, events)
            &&& step is Finished ==> (saved(start, events) <==> start.target is Some && !exist)
            &&& step is SaveCredentials ==> created(start, events)
            &&& start.target is None ==> !saved(start, events)
            &&& exist && read_in_vain(events) ==> step is Failed && !created(start, events)
                && !saved(start, events)
        }),
{
    lemma_account(start, events);
}

/// Where the account is kept, and where it is created, stays as it was configured.
pub proof fn configuration_never_changes(start: AccountSetup, events: Seq<AccountEvent>)
    ensures
        after(start, events).target == start.target,
        after(start, events).directory_url == start.directory_url,
    decreases events.len(),
{
    if events.len() > 0 {
        configuration_never_changes(start, events.drop_last());
    }
}

proof fn lemma_account(start: AccountSetup, events: Seq<AccountEvent>)
    requires
        is_fresh(start),
    ensures
        ({
            let now = after(start, events);
            let step = now.step;
            let exist = found(start, events);
            &&& now.wf()
            &&& now.target == start.target
            &&& exist ==> !created(start, events) && !saved(start, events) && (
            step is ReadCredentials || step is Restore || step is Finished || step is Failed)
            &&& exist && step is ReadCredentials ==> events.len() == 1
            &&& exist && read_in_vain(events) ==> step is Failed
            &&& !exist ==> !(step is ReadCredentials || step is Restore)
            &&& step is LookForDirectory || step is CreateDirectory || step is SaveCredentials
                ==> created(start, events) && start.target is Some
            &&& step is LookForCredentials ==> events.len() == 0
            &&& step is Finished && !exist ==> created(start, events) && (start.target is Some
                ==> saved(start, events))
            &&& start.target is None ==> !saved(start, events)
        }),
    decreases events.len(),
{
    if events.len() > 0 {
        let before = events.drop_last();
        lemma_account(start, before);
        assert(before.len() > 0 ==> before[0] == events[0]);
        assert(before.len() > 1 ==> before[1] == events[1]);
        assert(events.len() == 1 ==> events.last() == events[0]);
        assert(events.len() == 2 ==> events.last() == events[1]);
        assert(before.len() == 0 ==> !created(start, before) && !saved(start, before));
        if events.len() == 2 && found(start, events) {
            assert(before.drop_last().len() == 0);
            assert(before.last() == events[0]);
            assert(after(start, before.drop_last()) == start);
            assert(after(start, before).step is ReadCredentials);
        }
    }
}

/// What is saved is what came with the new account: nothing changes it on the way.
pub proof fn new_credentials_are_what_is_saved(
    setup: AccountSetup,
    credentials: String,
    exists: bool,
)
    requires
        setup.step is Create,
        setup.target is Some,
    ensures
        ({
            let first = AccountSetup {
                step: setup.next(AccountEvent::Created(credentials)),
                ..setup
            };
            let second = AccountSetup {
                step: first.next(AccountEvent::DirectoryExists(exists)),
                ..setup
            };
            let saving = AccountStep::SaveCredentials(credentials);
            if (setup.target->0).directory is None {
                first.step == saving
            } else if exists {
                second.step == saving
            } else {
                second.step is CreateDirectory && second.next(AccountEvent::Done) == saving
            }
        }),
{
}

/// An account that was created and saved is the one that is there the next time, whatever
/// directory URL is configured then: the file is read and holds the same credentials, no
/// account is created, and the file is left as it is.
///
/// `text` is what [`credentials::credentials_text`] gives for `first`, and `second` is what
/// [`parse_credentials`] gives for `text`.
pub proof fn saved_account_is_restored(
    first: instant_acme::AccountCredentials,
    text: String,
    second: instant_acme::AccountCredentials,
    later: AccountSetup,
    events: Seq<AccountEvent>,
)
    requires
        credentials::holds_credentials(text@) && credentials::is_saved_form(text@, first),
        credentials::reads_as(text@, second),
        is_fresh(later),
        later.target is Some,
        events.len() >= 2,
        events[0] == AccountEvent::CredentialsExist(true),
        events[1] == AccountEvent::CredentialsRead(text),
    ensures
        second == first,
        after(later, events.take(2)).step == AccountStep::Restore(text),
        !created(later, events),
        !saved(later, events),
        after(later, events).step is Restore || after(later, events).step is Finished || after(
            later,
            events,
        ).step is Failed,
        events.len() == 3 && events[2] is Done ==> after(later, events).step is Finished,
{
    lemma_account(later, events);
    let two = events.take(2);
    let one = two.drop_last();
    assert(one.drop_last().len() == 0);
    assert(one.last() == events[0]);
    assert(after(later, one.drop_last()) == later);
    assert(after(later, one).step is ReadCredentials);
    assert(two.last() == events[1]);
    if events.len() == 3 {
        assert(events.drop_last() =~= two);
        assert(events.last() == events[2]);
    }
}

} // verus!
