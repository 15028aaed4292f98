use gwtx::init::{init_main, init_stub, posix_quote, print_script, pwsh_quote, run, InitShell, KabuPath};

#[test]
fn test_posix_quote_empty_string() {
    assert_eq!(posix_quote(""), "''");
}

#[test]
fn test_posix_quote_no_special_chars() {
    assert_eq!(posix_quote("/usr/bin/kabu"), "'/usr/bin/kabu'");
}

#[test]
fn test_posix_quote_single_quote() {
    assert_eq!(posix_quote("it's"), "'it'\"'\"'s'");
}

#[test]
fn test_posix_quote_multiple_single_quotes() {
    assert_eq!(posix_quote("'a'b'"), "''\"'\"'a'\"'\"'b'\"'\"''");
}

#[test]
fn test_posix_quote_mixed_special_chars() {
    assert_eq!(posix_quote("/path/to/'file'"), "'/path/to/'\"'\"'file'\"'\"''");
}

#[test]
fn pwsh_quote_doubles_quotes() {
    assert_eq!(pwsh_quote("C:\\it's"), "'C:\\it''s'");
}

fn kabu(p: &str) -> KabuPath {
    KabuPath { native_path: Some(p.to_string()) }
}

#[test]
fn stubs_per_shell() {
    let k = kabu("/usr/bin/gwtx");
    assert_eq!(
        init_stub(InitShell::Bash, &k).unwrap(),
        "eval -- \"$('/usr/bin/gwtx' init bash --print-full-init)\""
    );
    assert_eq!(
        init_stub(InitShell::Zsh, &k).unwrap(),
        "source <('/usr/bin/gwtx' init zsh --print-full-init)"
    );
    assert_eq!(
        init_stub(InitShell::Fish, &k).unwrap(),
        "source ('/usr/bin/gwtx' init fish --print-full-init | psub)"
    );
    assert_eq!(
        init_stub(InitShell::PowerShell, &k).unwrap(),
        "Invoke-Expression (& '/usr/bin/gwtx' init powershell --print-full-init | Out-String)"
    );
    assert_eq!(
        init_stub(InitShell::Elvish, &k).unwrap(),
        "eval ('/usr/bin/gwtx' init elvish --print-full-init | slurp)"
    );
}

#[test]
fn full_script_fills_in_the_path() {
    let k = kabu("/opt/it's/gwtx");
    assert_eq!(
        init_main(InitShell::Bash, "a ::KABU:: b ::KABU::", &k).unwrap(),
        "a '/opt/it'\"'\"'s/gwtx' b '/opt/it'\"'\"'s/gwtx'"
    );
    assert_eq!(print_script("x::KABU::y", "P"), "xPy");
    assert_eq!(run(InitShell::Zsh, true, "::KABU::", &k).unwrap(), "'/opt/it'\"'\"'s/gwtx'");
}

#[test]
fn non_unicode_path_is_an_error() {
    let k = KabuPath { native_path: None };
    let err = init_stub(InitShell::Bash, &k).unwrap_err();
    assert_eq!(err.message(), "Failed to convert kabu path to string");
}
