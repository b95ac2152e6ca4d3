//! What messages tell.
use crate::acme::account::{AccountSetup, AccountStep};
use crate::acme::challenge::{ChallengeFailure, ChallengeKind};
use crate::acme::csr::CsrError;
use crate::acme::expiry::ExpiryError;
use crate::acme::issuance::{Flow, Issuance, IssuanceStep};
use crate::acme::{AuthorizationStatus, OrderStatus};
use vstd::prelude::*;
use vstd::string::*;

verus! {

/// Whether `message` ends with `detail`, behind something else.
pub open spec fn ends_with(message: Seq<char>, detail: Seq<char>) -> bool {
    message.len() > detail.len() && message.skip(message.len() - detail.len()) == detail
}

proof fn lemma_ends(front: Seq<char>, detail: Seq<char>)
    requires
        front.len() > 0,
    ensures
        ends_with(front + detail, detail),
{
    assert((front + detail).skip(front.len() as int) =~= detail);
}

/// The messages of CSR errors end with the path or the reason.
pub proof fn csr_messages_give_the_detail(detail: String)
    ensures
        ends_with(CsrError::UndecodableFile(detail).text(), detail@),
        ends_with(CsrError::Malformed(detail).text(), detail@),
{
    reveal_strlit("failed to read the PEM-encoded CSR at ");
    reveal_strlit("failed to parse the CSR: ");
    lemma_ends("failed to read the PEM-encoded CSR at "@, detail@);
    lemma_ends("failed to parse the CSR: "@, detail@);
}

/// The messages about certificates end with the reason, and give the path where it matters.
pub proof fn expiry_messages_give_the_reason(path: String, reason: String)
    ensures
        ends_with((ExpiryError::Pem { path, reason }).text(), reason@),
        (ExpiryError::Pem { path, reason }).text().subrange(23, 23 + path@.len() as int) == path@,
        ends_with((ExpiryError::Certificate { reason }).text(), reason@),
{
    reveal_strlit("failed to parse PEM at ");
    reveal_strlit("failed to parse X.509 certificate: ");
    lemma_ends("failed to parse PEM at "@ + path@ + ": "@, reason@);
    lemma_ends("failed to parse X.509 certificate: "@, reason@);
    assert((ExpiryError::Pem { path, reason }).text().subrange(23, 23 + path@.len() as int)
        =~= path@);
}

/// The messages about challenges end with the status or the identifier, and name the kind.
pub proof fn challenge_messages_give_the_detail(
    kind: ChallengeKind,
    authorization: AuthorizationStatus,
    order: OrderStatus,
    identifier: Seq<char>,
)
    ensures
        ends_with(
            ChallengeFailure::UnsupportedAuthorization(authorization).text(identifier),
            authorization.text(),
        ),
        ends_with(ChallengeFailure::NotPropagated.text(identifier), identifier),
        ends_with(ChallengeFailure::UnexpectedOrder(kind, order).text(identifier), order.text()),
        ChallengeFailure::ChallengeNotFound(kind).text(identifier).take(kind.text().len() as int)
            == kind.text(),
        ChallengeKind::Dns01.text() == seq!['d', 'n', 's', '-', '0', '1'],
        ChallengeKind::Http01.text() == seq!['h', 't', 't', 'p', '-', '0', '1'],
{
    reveal_strlit("unsupported authorization status: ");
    reveal_strlit("dns challenge did not propagate in time for ");
    reveal_strlit("unexpected order status after ");
    reveal_strlit("dns-01");
    reveal_strlit("http-01");
    assert(ChallengeKind::Dns01.text() =~= seq!['d', 'n', 's', '-', '0', '1']);
    assert(ChallengeKind::Http01.text() =~= seq!['h', 't', 't', 'p', '-', '0', '1']);
    lemma_ends("unsupported authorization status: "@, authorization.text());
    lemma_ends("dns challenge did not propagate in time for "@, identifier);
    lemma_ends("unexpected order status after "@ + kind.text() + " challenges: "@, order.text());
    assert(ChallengeFailure::ChallengeNotFound(kind).text(identifier).take(
        kind.text().len() as int,
    ) =~= kind.text());
}

/// The words before the error of an action on a file or a directory end with its path.
pub proof fn account_contexts_give_the_path(now: AccountSetup)
    requires
        now.wf(),
    ensures
        now.step is ReadCredentials || now.step is SaveCredentials ==> now.context() is Some
            && ends_with(now.context()->0, (now.target->0).path@),
        now.step is CreateDirectory ==> now.context() is Some && ends_with(
            now.context()->0,
            ((now.target->0).directory->0)@,
        ),
{
    reveal_strlit("failed to read ACME credentials at ");
    reveal_strlit("failed to create ACME credential directory ");
    reveal_strlit("failed to write ACME credentials at ");
    let target = now.target->0;
    lemma_ends("failed to read ACME credentials at "@, target.path@);
    lemma_ends("failed to write ACME credentials at "@, target.path@);
    lemma_ends("failed to create ACME credential directory "@, (target.directory->0)@);
}

/// The words before the error of an action on a file or a directory end with its path.
pub proof fn issuance_contexts_give_the_path(now: Issuance)
    requires
        now.wf(),
    ensures
        now.step is WriteKey ==> now.context() is Some && ends_with(
            now.context()->0,
            (now.flow->key).path@,
        ),
        now.step is WriteBundle ==> now.context() is Some && ends_with(
            now.context()->0,
            (now.flow->pkcs12).path@,
        ),
        now.step is WriteChain ==> now.context() is Some && ends_with(
            now.context()->0,
            (now.flow.chain_target()->0).path@,
        ),
        now.step is CreateKeyDirectory ==> now.context() is Some && ends_with(
            now.context()->0,
            ((now.flow->key).directory->0)@,
        ),
        now.step is CreateBundleDirectory ==> now.context() is Some && ends_with(
            now.context()->0,
            ((now.flow->pkcs12).directory->0)@,
        ),
        now.step is CreateChainDirectory ==> now.context() is Some && ends_with(
            now.context()->0,
            ((now.flow.chain_target()->0).directory->0)@,
        ),
{
    reveal_strlit("failed to create key directory ");
    reveal_strlit("failed to create PKCS#12 directory ");
    reveal_strlit("failed to create cert directory ");
    reveal_strlit("failed to write key PEM ");
    reveal_strlit("failed to write cert PEM ");
    reveal_strlit("failed to write PKCS#12 ");
    let key = now.flow->key;
    let pkcs12 = now.flow->pkcs12;
    let chain = now.flow.chain_target()->0;
    lemma_ends("failed to create key directory "@, (key.directory->0)@);
    lemma_ends("failed to create PKCS#12 directory "@, (pkcs12.directory->0)@);
    lemma_ends("failed to create cert directory "@, (chain.directory->0)@);
    lemma_ends("failed to write key PEM "@, key.path@);
    lemma_ends("failed to write cert PEM "@, chain.path@);
    lemma_ends("failed to write PKCS#12 "@, pkcs12.path@);
}

/// A status is told by its name, so that different statuses are told apart.
pub proof fn statuses_are_told_by_name()
    ensures
        OrderStatus::Pending.text() == seq!['P', 'e', 'n', 'd', 'i', 'n', 'g'],
        OrderStatus::Ready.text() == seq!['R', 'e', 'a', 'd', 'y'],
        OrderStatus::Processing.text() == seq!['P', 'r', 'o', 'c', 'e', 's', 's', 'i', 'n', 'g'],
        OrderStatus::Valid.text() == seq!['V', 'a', 'l', 'i', 'd'],
        OrderStatus::Invalid.text() == seq!['I', 'n', 'v', 'a', 'l', 'i', 'd'],
        AuthorizationStatus::Pending.text() == seq!['P', 'e', 'n', 'd', 'i', 'n', 'g'],
        AuthorizationStatus::Valid.text() == seq!['V', 'a', 'l', 'i', 'd'],
        AuthorizationStatus::Invalid.text() == seq!['I', 'n', 'v', 'a', 'l', 'i', 'd'],
        AuthorizationStatus::Revoked.text() == seq!['R', 'e', 'v', 'o', 'k', 'e', 'd'],
        AuthorizationStatus::Expired.text() == seq!['E', 'x', 'p', 'i', 'r', 'e', 'd'],
        AuthorizationStatus::Deactivated.text() == seq!['D', 'e', 'a', 'c', 't', 'i', 'v', 'a', 't', 'e', 'd'],
{
    reveal_strlit("Deactivated");
    assert("Deactivated"@ =~= seq!['D', 'e', 'a', 'c', 't', 'i', 'v', 'a', 't', 'e', 'd']);
    reveal_strlit("Expired");
    assert("Expired"@ =~= seq!['E', 'x', 'p', 'i', 'r', 'e', 'd']);
    reveal_strlit("Invalid");
    assert("Invalid"@ =~= seq!['I', 'n', 'v', 'a', 'l', 'i', 'd']);
    reveal_strlit("Pending");
    assert("Pending"@ =~= seq!['P', 'e', 'n', 'd', 'i', 'n', 'g']);
    reveal_strlit("Processing");
    assert("Processing"@ =~= seq!['P', 'r', 'o', 'c', 'e', 's', 's', 'i', 'n', 'g']);
    reveal_strlit("Ready");
    assert("Ready"@ =~= seq!['R', 'e', 'a', 'd', 'y']);
    reveal_strlit("Revoked");
    assert("Revoked"@ =~= seq!['R', 'e', 'v', 'o', 'k', 'e', 'd']);
    reveal_strlit("Valid");
    assert("Valid"@ =~= seq!['V', 'a', 'l', 'i', 'd']);
}

} // verus!
