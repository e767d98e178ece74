//! Installing and replacing the program.
use taraference::cli::self_update::{
    bin_name, default_install_dir, find_program, first_step, is_program, path_hint,
    release_asset_name, release_url, repo, side_name, step_after_backup, swap_script,
    FoundProgram, InstallDir, Platform, ReplaceStep, UpdateError,
};

#[test]
fn each_platform_has_its_archive() {
    assert_eq!(bin_name(Platform::Windows), "tarafer.exe");
    assert_eq!(bin_name(Platform::Linux), "tarafer");
    assert_eq!(release_asset_name(Platform::Linux), Ok("tarafer-linux-x86_64.tar.gz"));
    assert_eq!(release_asset_name(Platform::Windows), Ok("tarafer-windows-x86_64.zip"));
    let e = release_asset_name(Platform::Other).unwrap_err();
    assert_eq!(
        e.message(""),
        "`tarafer update` currently ships Linux and Windows x86_64 release assets only.\nOn this OS, rebuild from source or download a matching release when available."
    );
}

#[test]
fn releases_have_addresses() {
    assert_eq!(repo(None, None), "agkomyint/taraference");
    assert_eq!(repo(None, Some("b/c")), "b/c");
    assert_eq!(repo(Some("a/b"), Some("b/c")), "a/b");
    assert_eq!(
        release_url("a/b", None, "x.zip"),
        "https://github.com/a/b/releases/latest/download/x.zip"
    );
    assert_eq!(
        release_url("a/b", Some("latest"), "x.zip"),
        "https://github.com/a/b/releases/latest/download/x.zip"
    );
    assert_eq!(
        release_url("a/b", Some("v0.2.0"), "x.zip"),
        "https://github.com/a/b/releases/download/v0.2.0/x.zip"
    );
}

#[test]
fn the_program_goes_to_a_directory() {
    assert_eq!(default_install_dir(true, true, true), Ok(InstallDir::Named));
    assert_eq!(default_install_dir(false, true, true), Ok(InstallDir::Home));
    assert_eq!(default_install_dir(false, false, true), Ok(InstallDir::Profile));
    let e = default_install_dir(false, false, false).unwrap_err();
    assert_eq!(e, UpdateError::NoHome);
    assert_eq!(e.message(""), "HOME/USERPROFILE not set");
    assert_eq!(side_name(Platform::Linux, "new"), ".tarafer.new");
    assert_eq!(side_name(Platform::Windows, "old"), ".tarafer.exe.old");
}

#[test]
fn the_path_is_explained() {
    assert_eq!(
        path_hint(Platform::Linux, "/x", true),
        "OK  tarafer is on PATH — try: tarafer --help"
    );
    assert_eq!(
        path_hint(Platform::Linux, "/x", false),
        "!!  /x is not on PATH. Add it, e.g.:\n\
             \n\
               echo 'export PATH=\"/x:$PATH\"' >> ~/.bashrc && source ~/.bashrc\n\
             \n\
               # zsh:\n\
               echo 'export PATH=\"/x:$PATH\"' >> ~/.zshrc && source ~/.zshrc"
    );
    assert_eq!(
        path_hint(Platform::Windows, "C", false),
        "!!  C is not on PATH. Add it, e.g.:\n\
             \n\
               $env:Path += \";C\"\n\
             \n\
               # permanent (User PATH):\n\
               [Environment]::SetEnvironmentVariable(\n\
                 \"Path\",\n\
                 [Environment]::GetEnvironmentVariable(\"Path\",\"User\") + \";C\",\n\
                 \"User\")"
    );
    assert!(is_program(Platform::Windows, Some("tarafer")));
    assert!(!is_program(Platform::Linux, Some("tarafer.exe")));
    assert!(!is_program(Platform::Linux, None));
}

#[test]
fn the_program_is_found_in_an_archive() {
    let files: Vec<String> = vec!["README".to_string(), "tarafer.exe".to_string()];
    assert_eq!(find_program(Platform::Linux, true, true, true, &files), Ok(FoundProgram::Own));
    assert_eq!(find_program(Platform::Linux, false, true, true, &files), Ok(FoundProgram::Legacy));
    assert_eq!(
        find_program(Platform::Linux, false, false, true, &files),
        Ok(FoundProgram::LegacyExe)
    );
    assert_eq!(
        find_program(Platform::Linux, false, false, false, &files),
        Ok(FoundProgram::File(1))
    );
    let e = find_program(Platform::Linux, false, false, false, &files[..1]).unwrap_err();
    assert_eq!(e.message("/tmp/u"), "archive did not contain `tarafer` (or legacy names); check /tmp/u");
}

#[test]
fn a_program_is_replaced_step_by_step() {
    assert_eq!(first_step(Platform::Linux, true, true), ReplaceStep::Backup);
    assert_eq!(first_step(Platform::Linux, false, false), ReplaceStep::Place);
    assert_eq!(first_step(Platform::Windows, true, true), ReplaceStep::Schedule);
    assert_eq!(first_step(Platform::Windows, false, true), ReplaceStep::Backup);
    assert_eq!(step_after_backup(Platform::Linux, true), ReplaceStep::Place);
    assert_eq!(step_after_backup(Platform::Linux, false), ReplaceStep::Fail);
    assert_eq!(step_after_backup(Platform::Windows, false), ReplaceStep::Schedule);
}

#[test]
fn a_script_swaps_the_files() {
    let s = swap_script("C:/a.new", "C:/a", "C:/a.old", "C:/u.bat");
    let (staging_s, dest_s, backup_s, bat_s) = ("C:\\a.new", "C:\\a", "C:\\a.old", "C:\\u.bat");
    let want = format!(
        "@echo off\r\n\
         setlocal\r\n\
         :retry\r\n\
         ping -n 2 127.0.0.1 >nul\r\n\
         if exist \"{dest_s}\" (\r\n\
           move /Y \"{dest_s}\" \"{backup_s}\" >nul 2>&1\r\n\
           if errorlevel 1 goto retry\r\n\
         )\r\n\
         move /Y \"{staging_s}\" \"{dest_s}\" >nul 2>&1\r\n\
         if errorlevel 1 goto retry\r\n\
         if exist \"{backup_s}\" del /F /Q \"{backup_s}\" >nul 2>&1\r\n\
         del /F /Q \"{bat_s}\" >nul 2>&1\r\n"
    );
    assert_eq!(s, want);
}
