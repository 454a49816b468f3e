use windowscodexmonitor::install::{
    choose_executable, is_codex_package, local_install_parts, package_parts, ConfiguredPath,
    Executable, Package,
};

#[test]
fn knows_the_install_paths() {
    assert_eq!(
        local_install_parts().join("/"),
        "OpenAI/CodexCli/node_modules/@openai/codex-win32-x64/vendor/x86_64-pc-windows-msvc/bin/codex.exe"
    );
    assert_eq!(package_parts().join("/"), "app/resources/codex.exe");
}

#[test]
fn knows_the_package_by_its_name() {
    assert!(is_codex_package("OpenAI.Codex_26.1.0_x64"));
    assert!(!is_codex_package("OpenAI.Codex"));
    assert!(!is_codex_package("openai.codex_1"));
}

fn configured(is_file: bool) -> Option<ConfiguredPath> {
    Some(ConfiguredPath { path: "C:\\codex.exe".to_owned(), is_file })
}

fn package(name: &str, is_file: bool) -> Package {
    Package { name: Some(name.to_owned()), is_file }
}

fn codex(is_file: bool) -> Package {
    package("OpenAI.Codex_26.1.0_x64", is_file)
}

#[test]
fn the_path_of_the_user_goes_first() {
    assert_eq!(
        choose_executable(configured(true), true, &vec![codex(true)], true),
        Ok(Executable::Configured)
    );
}

#[test]
fn a_wrong_path_of_the_user_is_an_error() {
    assert_eq!(
        choose_executable(configured(false), true, &vec![codex(true)], true),
        Err("CODEX_MONITOR_CODEX_PATH does not point to a file: C:\\codex.exe".to_owned())
    );
}

#[test]
fn the_local_install_goes_before_packages() {
    assert_eq!(
        choose_executable(None, true, &vec![codex(true)], true),
        Ok(Executable::Local)
    );
}

#[test]
fn the_first_package_of_codex_with_the_executable_is_taken() {
    let packages = vec![
        package("Contoso.Editor_1", true),
        Package { name: None, is_file: true },
        codex(false),
        codex(true),
        codex(true),
    ];
    assert_eq!(choose_executable(None, false, &packages, true), Ok(Executable::Packaged(3)));
}

#[test]
fn the_working_directory_comes_last() {
    assert_eq!(
        choose_executable(None, false, &vec![codex(false)], true),
        Ok(Executable::Fallback)
    );
    assert_eq!(choose_executable(None, false, &vec![], true), Ok(Executable::Fallback));
}

#[test]
fn no_executable_is_an_error() {
    assert_eq!(
        choose_executable(None, false, &vec![package("Contoso.Editor_1", true)], false),
        Err("Could not find native codex.exe. Install Codex or set CODEX_MONITOR_CODEX_PATH."
            .to_owned())
    );
}
