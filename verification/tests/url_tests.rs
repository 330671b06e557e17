use libra_core::error::RepoError;
use libra_core::hash::ObjectKind;
use libra_core::text::{chars_of, starts_with};
use libra_core::url::get_repo_name_from_url;

#[test]
fn repo_name_from_url() {
    assert_eq!(
        get_repo_name_from_url("https://github.com/web3infra-foundation/mega.git/"),
        Some("mega")
    );
    assert_eq!(
        get_repo_name_from_url("https://github.com/web3infra-foundation/mega.git"),
        Some("mega")
    );
    assert_eq!(get_repo_name_from_url("git@host:group/my.repo.git"), Some("my.repo"));
    assert_eq!(get_repo_name_from_url("/.git"), Some(""));
}

#[test]
fn repo_name_is_missing() {
    assert_eq!(get_repo_name_from_url("no-slash.git"), None);
    assert_eq!(get_repo_name_from_url("https://host/group/name"), None);
    assert_eq!(get_repo_name_from_url("host/name"), None);
    assert_eq!(get_repo_name_from_url(""), None);
    assert_eq!(get_repo_name_from_url("/"), None);
    assert_eq!(get_repo_name_from_url("a.b//"), None);
}

#[test]
fn repo_name_with_wide_characters() {
    assert_eq!(get_repo_name_from_url("https://hôte/dépôt.git"), Some("dépôt"));
}

#[test]
fn text_helpers() {
    let s = chars_of("héllo/wörld");
    assert_eq!(s.len(), 11);
    assert!(starts_with(&s, &chars_of("héllo")));
    assert!(starts_with(&s, &chars_of("")));
    assert!(!starts_with(&s, &chars_of("hello")));
    assert!(!starts_with(&chars_of("ab"), &chars_of("abc")));
    assert_eq!(s[1], 'é');
    assert_eq!(chars_of(""), Vec::new());
}

#[test]
fn error_messages_name_the_input() {
    assert_eq!(RepoError::InvalidReference.message("abc1"), "fatal: invalid reference: abc1");
    assert_eq!(RepoError::AmbiguousReference.message("ab"), "fatal: ambiguous argument: ab");
    assert_eq!(
        RepoError::NotACommit(ObjectKind::Blob).message("95d0"),
        "fatal: reference is not a commit: 95d0, is blob"
    );
    assert_eq!(
        RepoError::NotARepository.message("/tmp"),
        "fatal: not a libra repository (or any of the parent directories): /tmp"
    );
    assert_eq!(RepoError::NotFound.message("95d0"), "fatal: object not found: 95d0");
    assert_eq!(RepoError::PathConversion.message("/../x"), "fatal: path cannot be converted: /../x");
}
