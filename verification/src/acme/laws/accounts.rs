//! What the building of an account asks for, seen from its configuration.
use crate::acme::account;
use crate::acme::account::{AccountAction, AccountEvent, AccountSetup, AccountStep};
use crate::acme::credentials;
use crate::acme::laws::issuing;
use crate::acme::target;
use vstd::prelude::*;

verus! {

/// Whether the text came with one of `events` as that of a new account's credentials.
pub open spec fn came_with_the_account(events: Seq<AccountEvent>, text: String) -> bool {
    exists|i: int| 0 <= i < events.len() && #[trigger] events[i] == AccountEvent::Created(text)
}

/// Whether the text was read in the course of `events`.
pub open spec fn was_read(events: Seq<AccountEvent>, text: String) -> bool {
    exists|i: int|
        0 <= i < events.len() && #[trigger] events[i] == AccountEvent::CredentialsRead(text)
}

proof fn lemma_grows(events: Seq<AccountEvent>, text: String)
    requires
        events.len() > 0,
    ensures
        came_with_the_account(events.drop_last(), text) ==> came_with_the_account(events, text),
        was_read(events.drop_last(), text) ==> was_read(events, text),
        events.last() == AccountEvent::Created(text) ==> came_with_the_account(events, text),
        events.last() == AccountEvent::CredentialsRead(text) ==> was_read(events, text),
{
    let before = events.drop_last();
    if came_with_the_account(before, text) {
        let i = choose|i: int|
            0 <= i < before.len() && #[trigger] before[i] == AccountEvent::Created(text);
        assert(events[i] == before[i]);
    }
    if was_read(before, text) {
        let i = choose|i: int|
            0 <= i < before.len() && #[trigger] before[i] == AccountEvent::CredentialsRead(text);
        assert(events[i] == before[i]);
    }
    assert(events[events.len() - 1] == events.last());
}

proof fn lemma_texts(start: AccountSetup, events: Seq<AccountEvent>)
    requires
        account::is_fresh(start),
    ensures
        match account::after(start, events).step {
            AccountStep::Restore(text) => was_read(events, text) && credentials::holds_credentials(
                text@,
            ),
            AccountStep::LookForDirectory(text) => came_with_the_account(events, text),
            AccountStep::CreateDirectory(text) => came_with_the_account(events, text),
            AccountStep::SaveCredentials(text) => came_with_the_account(events, text),
            _ => true,
        },
    decreases events.len(),
{
    if events.len() > 0 {
        lemma_texts(start, events.drop_last());
        match account::after(start, events).step {
            AccountStep::Restore(text) => lemma_grows(events, text),
            AccountStep::LookForDirectory(text) => lemma_grows(events, text),
            AccountStep::CreateDirectory(text) => lemma_grows(events, text),
            AccountStep::SaveCredentials(text) => lemma_grows(events, text),
            _ => {},
        }
    }
}

/// Whatever has come back so far, the building of an account asks for what is configured: the
/// file is the configured one, an account is created at the configured directory URL, what is
/// saved came with the new account, what is restored was read from the file, and a directory
/// is that of the file. Without a file nothing is asked for but the account.
pub proof fn account_follows_the_configuration(
    directory_url: String,
    path: Option<String>,
    start: AccountSetup,
    events: Seq<AccountEvent>,
    action: AccountAction,
)
    requires
        account::begun(directory_url, path, start),
        account::after(start, events).wf(),
        account::after(start, events).asks(action),
    ensures
        match action {
            AccountAction::LookForCredentials(file) => path == Some(file),
            AccountAction::ReadCredentials(file) => path == Some(file),
            AccountAction::Restore(text) => was_read(events, text) && credentials::holds_credentials(
                text@,
            ),
            AccountAction::Create { directory_url: url } => url == directory_url,
            AccountAction::LookForDirectory(dir) => path is Some && issuing::holds_file(
                dir,
                path->0,
            ),
            AccountAction::CreateSecretDirectory(dir) => path is Some && issuing::holds_file(
                dir,
                path->0,
            ),
            AccountAction::SaveCredentials { path: file, contents } => path == Some(file)
                && came_with_the_account(events, contents),
            AccountAction::Finish(_) => true,
        },
{
    account::configuration_never_changes(start, events);
    lemma_texts(start, events);
    if let Some(t) = start.target {
        if t.directory is Some {
            issuing::lemma_directory(t);
        }
    }
}

/// The steps that follow what came back: an existing file is read and a missing one leads to a
/// new account; without a file there is a new account at once; a missing directory is created
/// and an existing one is left alone; and it ends well once the account is restored, saved, or
/// created without a file.
pub proof fn account_steps_follow_the_answers(now: AccountSetup, text: String)
    ensures
        now.step is LookForCredentials ==> now.next(AccountEvent::CredentialsExist(true))
            is ReadCredentials && now.next(AccountEvent::CredentialsExist(false)) is Create,
        now.target is None ==> AccountSetup::first(now.target) is Create,
        now.target is Some ==> AccountSetup::first(now.target) is LookForCredentials,
        now.step is ReadCredentials && credentials::holds_credentials(text@) ==> now.next(
            AccountEvent::CredentialsRead(text),
        ) == AccountStep::Restore(text),
        now.step is ReadCredentials && !credentials::holds_credentials(text@) ==> now.next(
            AccountEvent::CredentialsRead(text),
        ) is Failed,
        now.step is Restore ==> now.next(AccountEvent::Done) is Finished,
        now.step is Create && now.target is None ==> now.next(AccountEvent::Created(text))
            is Finished,
        now.step is Create && now.target is Some ==> !(now.next(AccountEvent::Created(text))
            is Finished),
        now.step is Create && now.target is Some ==> (now.next(AccountEvent::Created(text)) == if (
        now.target->0).directory is Some {
            AccountStep::LookForDirectory(text)
        } else {
            AccountStep::SaveCredentials(text)
        }),
        now.step == AccountStep::CreateDirectory(text) ==> now.next(AccountEvent::Done)
            == AccountStep::SaveCredentials(text),
        now.step == AccountStep::LookForDirectory(text) ==> now.next(
            AccountEvent::DirectoryExists(true),
        ) == AccountStep::SaveCredentials(text) && now.next(AccountEvent::DirectoryExists(false))
            == AccountStep::CreateDirectory(text),
        now.step is SaveCredentials ==> now.next(AccountEvent::Done) is Finished,
        !(now.step is Finished) ==> now.next(AccountEvent::Failed) is Failed,
{
}

/// Each step asks for the action of its kind.
pub proof fn account_steps_ask_for_their_actions(now: AccountSetup, action: AccountAction)
    requires
        now.asks(action),
    ensures
        now.step is LookForCredentials <==> action is LookForCredentials,
        now.step is ReadCredentials <==> action is ReadCredentials,
        now.step is Restore <==> action is Restore,
        now.step is Create <==> action is Create,
        now.step is LookForDirectory <==> action is LookForDirectory,
        now.step is CreateDirectory <==> action is CreateSecretDirectory,
        now.step is SaveCredentials <==> action is SaveCredentials,
        now.step is Finished <==> action == AccountAction::Finish(true),
        now.step is Failed <==> action == AccountAction::Finish(false),
{
}

/// A bare file name names no directory, and a directory that is named is never empty.
pub proof fn directories_are_named(parent: Option<Seq<char>>)
    ensures
        target::named(parent) matches Some(dir) ==> parent == Some(dir) && dir.len() > 0,
        target::named(parent) is None ==> parent is None || (parent->0).len() == 0,
{
}

} // verus!
