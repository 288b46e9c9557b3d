use git_branch_cleaner::get_domain;

#[test]
fn gets_domain_correctly() {
    assert_eq!(get_domain("git@github.com:user/repo.git").unwrap(), ("github.com"));
    assert_eq!(get_domain("ssh://git@github.com/project/repo.git").unwrap(), "github.com");
}

#[test]
fn domain_without_user_or_scheme() {
    assert_eq!(get_domain("example.org:2222/x").unwrap(), "example.org");
    assert_eq!(get_domain("https://example.org/a/b").unwrap(), "example.org");
}

#[test]
fn domain_without_delimiters_is_the_rest() {
    assert_eq!(get_domain("example.org").unwrap(), "example.org");
    assert_eq!(get_domain("").unwrap(), "");
}

#[test]
fn domain_takes_the_later_of_scheme_and_user() {
    assert_eq!(get_domain("ssh://host.example/repo").unwrap(), "host.example");
    assert_eq!(get_domain("me@host.example:repo").unwrap(), "host.example");
}
