//! Installing the program and replacing it with a release.
use crate::text::{chars_of, same_text, string_of};
use vstd::prelude::*;

verus! {

/// Where releases come from unless another repository is named.
pub const DEFAULT_REPO: &'static str = "agkomyint/taraference";

/// The archive of a release for Linux.
pub const ASSET_LINUX: &'static str = "tarafer-linux-x86_64.tar.gz";

/// The archive of a release for Windows.
pub const ASSET_WINDOWS: &'static str = "tarafer-windows-x86_64.zip";

/// What the program runs on.
#[derive(Debug, Clone, Copy, PartialEq, Eq, Structural)]
pub enum Platform {
    Linux,
    Windows,
    Other,
}

/// The name of the program's file.
pub open spec fn program_name(platform: Platform) -> Seq<char> {
    if platform == Platform::Windows {
        "tarafer.exe"@
    } else {
        "tarafer"@
    }
}

/// The name of the program's file.
pub fn bin_name(platform: Platform) -> (r: &'static str)
    ensures
        r@ == program_name(platform),
{
    if platform == Platform::Windows {
        "tarafer.exe"
    } else {
        "tarafer"
    }
}

/// Why the program cannot be installed or replaced.
#[derive(Debug, Clone, Copy, PartialEq, Eq, Structural)]
pub enum UpdateError {
    /// There is no release for this platform.
    NoAsset(Platform),
    /// No home directory is known.
    NoHome,
    /// The archive does not hold the program.
    NoProgram(Platform),
}

impl UpdateError {
    /// The sentence that tells the error, of an archive that was unpacked to
    /// `dir`.
    pub open spec fn sentence(self, dir: Seq<char>) -> Seq<char> {
        match self {
            UpdateError::NoAsset(p) => "`"@ + program_name(p)
                + " update` currently ships Linux and Windows x86_64 release assets only.\nOn this OS, rebuild from source or download a matching release when available."@,
            UpdateError::NoHome => "HOME/USERPROFILE not set"@,
            UpdateError::NoProgram(p) => "archive did not contain `"@ + program_name(p)
                + "` (or legacy names); check "@ + dir,
        }
    }

    /// The sentence that tells the error, of an archive that was unpacked to
    /// `dir`.
    pub fn message(self, dir: &str) -> (r: String)
        ensures
            r@ == self.sentence(dir@),
    {
        let mut out: String = String::new();
        match self {
            UpdateError::NoAsset(p) => {
                out.append("`");
                out.append(bin_name(p));
                out.append(
                    " update` currently ships Linux and Windows x86_64 release assets only.\nOn this OS, rebuild from source or download a matching release when available.",
                );
            },
            UpdateError::NoHome => {
                out.append("HOME/USERPROFILE not set");
            },
            UpdateError::NoProgram(p) => {
                out.append("archive did not contain `");
                out.append(bin_name(p));
                out.append("` (or legacy names); check ");
                out.append(dir);
            },
        }
        proof {
            assert(out@ == self.sentence(dir@));
        }
        out
    }
}

/// The archive of a release for a platform.
pub fn release_asset_name(platform: Platform) -> (r: Result<&'static str, UpdateError>)
    ensures
        match r {
            Ok(name) => {
                ||| platform == Platform::Linux && name@ == ASSET_LINUX@
                ||| platform == Platform::Windows && name@ == ASSET_WINDOWS@
            },
            Err(e) => platform == Platform::Other && e == UpdateError::NoAsset(platform),
        },
{
    match platform {
        Platform::Linux => Ok(ASSET_LINUX),
        Platform::Windows => Ok(ASSET_WINDOWS),
        Platform::Other => Err(UpdateError::NoAsset(platform)),
    }
}

/// The repository of the releases: the first of two names that is set, or the
/// usual one.
pub open spec fn repo_name(first: Option<Seq<char>>, second: Option<Seq<char>>) -> Seq<char> {
    match first {
        Some(n) => n,
        None => match second {
            Some(n) => n,
            None => DEFAULT_REPO@,
        },
    }
}

/// A text that may be missing, as a mathematical value.
pub open spec fn maybe(s: Option<&str>) -> Option<Seq<char>> {
    match s {
        Some(t) => Some(t@),
        None => None,
    }
}

/// The repository of the releases: the first of two names that is set, or the
/// usual one.
pub fn repo(first: Option<&str>, second: Option<&str>) -> (r: String)
    ensures
        r@ == repo_name(maybe(first), maybe(second)),
{
    match first {
        Some(n) => n.to_owned(),
        None => match second {
            Some(n) => n.to_owned(),
            None => DEFAULT_REPO.to_owned(),
        },
    }
}

/// Where a release is fetched: the latest one unless a tag is named.
pub open spec fn release_address(repo: Seq<char>, tag: Option<Seq<char>>, asset: Seq<char>) -> Seq<
    char,
> {
    if tag is Some && tag->0 != "latest"@ {
        "https://github.com/"@ + repo + "/releases/download/"@ + tag->0 + "/"@ + asset
    } else {
        "https://github.com/"@ + repo + "/releases/latest/download/"@ + asset
    }
}

/// Where a release is fetched: the latest one unless a tag is named.
pub fn release_url(repo: &str, tag: Option<&str>, asset: &str) -> (r: String)
    ensures
        r@ == release_address(repo@, maybe(tag), asset@),
{
    let wanted: &str = match tag {
        Some(t) => t,
        None => "latest",
    };
    let mut out: String = String::new();
    out.append("https://github.com/");
    out.append(repo);
    if same_text(wanted, "latest") {
        out.append("/releases/latest/download/");
    } else {
        out.append("/releases/download/");
        out.append(wanted);
        out.append("/");
    }
    out.append(asset);
    proof {
        assert(out@ == release_address(repo@, maybe(tag), asset@));
    }
    out
}

/// Where the program is installed.
#[derive(Debug, Clone, Copy, PartialEq, Eq, Structural)]
pub enum InstallDir {
    /// In the directory that was named.
    Named,
    /// In `.local/bin` under the home directory.
    Home,
    /// In `.local/bin` under the profile of the user.
    Profile,
}

/// Where the program is installed, by which of the three directories are set.
pub fn default_install_dir(named: bool, home: bool, profile: bool) -> (r: Result<
    InstallDir,
    UpdateError,
>)
    ensures
        r == (if named {
            Ok::<InstallDir, UpdateError>(InstallDir::Named)
        } else if home {
            Ok(InstallDir::Home)
        } else if profile {
            Ok(InstallDir::Profile)
        } else {
            Err(UpdateError::NoHome)
        }),
{
    if named {
        Ok(InstallDir::Named)
    } else if home {
        Ok(InstallDir::Home)
    } else if profile {
        Ok(InstallDir::Profile)
    } else {
        Err(UpdateError::NoHome)
    }
}

/// A name beside the program that is used while it is replaced.
pub fn side_name(platform: Platform, ending: &str) -> (r: String)
    ensures
        r@ == "."@ + program_name(platform) + "."@ + ending@,
{
    let mut out: String = String::new();
    out.append(".");
    out.append(bin_name(platform));
    out.append(".");
    out.append(ending);
    proof {
        assert(out@ == "."@ + program_name(platform) + "."@ + ending@);
    }
    out
}

/// What is said of the directory of the program.
pub open spec fn path_sentence(platform: Platform, dir: Seq<char>, on_path: bool) -> Seq<char> {
    let name = program_name(platform);
    if on_path {
        "OK  "@ + name + " is on PATH — try: "@ + name + " --help"@
    } else if platform == Platform::Windows {
        "!!  "@ + dir + " is not on PATH. Add it, e.g.:\n\n$env:Path += \";"@ + dir
            + "\"\n\n# permanent (User PATH):\n[Environment]::SetEnvironmentVariable(\n\"Path\",\n[Environment]::GetEnvironmentVariable(\"Path\",\"User\") + \";"@
            + dir + "\",\n\"User\")"@
    } else {
        "!!  "@ + dir + " is not on PATH. Add it, e.g.:\n\necho 'export PATH=\""@ + dir
            + ":$PATH\"' >> ~/.bashrc && source ~/.bashrc\n\n# zsh:\necho 'export PATH=\""@ + dir
            + ":$PATH\"' >> ~/.zshrc && source ~/.zshrc"@
    }
}

/// What is said of the directory of the program.
pub fn path_hint(platform: Platform, dir: &str, on_path: bool) -> (r: String)
    ensures
        r@ == path_sentence(platform, dir@, on_path),
{
    let mut out: String = String::new();
    if on_path {
        out.append("OK  ");
        out.append(bin_name(platform));
        out.append(" is on PATH — try: ");
        out.append(bin_name(platform));
        out.append(" --help");
    } else if platform == Platform::Windows {
        out.append("!!  ");
        out.append(dir);
        out.append(" is not on PATH. Add it, e.g.:\n\n$env:Path += \";");
        out.append(dir);
        out.append(
            "\"\n\n# permanent (User PATH):\n[Environment]::SetEnvironmentVariable(\n\"Path\",\n[Environment]::GetEnvironmentVariable(\"Path\",\"User\") + \";",
        );
        out.append(dir);
        out.append("\",\n\"User\")");
    } else {
        out.append("!!  ");
        out.append(dir);
        out.append(" is not on PATH. Add it, e.g.:\n\necho 'export PATH=\"");
        out.append(dir);
        out.append(":$PATH\"' >> ~/.bashrc && source ~/.bashrc\n\n# zsh:\necho 'export PATH=\"");
        out.append(dir);
        out.append(":$PATH\"' >> ~/.zshrc && source ~/.zshrc");
    }
    proof {
        assert(out@ == path_sentence(platform, dir@, on_path));
    }
    out
}

/// Whether a file that was replaced is known by its name as the program, so that
/// something is said of its directory.
pub fn is_program(platform: Platform, name: Option<&str>) -> (r: bool)
    ensures
        r == (name is Some && (name->0@ == program_name(platform) || name->0@ == "tarafer"@)),
{
    match name {
        Some(n) => same_text(n, bin_name(platform)) || same_text(n, "tarafer"),
        None => false,
    }
}

/// Where the program is found in an archive.
#[derive(Debug, Clone, Copy, PartialEq, Eq, Structural)]
pub enum FoundProgram {
    /// Under its own name.
    Own,
    /// Under the name of older releases.
    Legacy,
    /// Under the name of older releases for Windows.
    LegacyExe,
    /// One of the files of the archive, by its place.
    File(usize),
}

/// Whether a file has one of the names of the program.
pub open spec fn any_name(platform: Platform, name: Seq<char>) -> bool {
    ||| name == program_name(platform)
    ||| name == "tarafer"@
    ||| name == "tarafer.exe"@
    ||| name == "taraference"@
    ||| name == "taraference.exe"@
}

fn has_any_name(platform: Platform, name: &str) -> (r: bool)
    ensures
        r == any_name(platform, name@),
{
    same_text(name, bin_name(platform)) || same_text(name, "tarafer") || same_text(
        name,
        "tarafer.exe",
    ) || same_text(name, "taraference") || same_text(name, "taraference.exe")
}

/// The program in an archive: under its own name, else under an older one, else
/// the first of the files that has any of the names.
pub fn find_program(
    platform: Platform,
    own: bool,
    legacy: bool,
    legacy_exe: bool,
    files: &[String],
) -> (r: Result<FoundProgram, UpdateError>)
    ensures
        if own {
            r == Ok::<FoundProgram, UpdateError>(FoundProgram::Own)
        } else if legacy {
            r == Ok::<FoundProgram, UpdateError>(FoundProgram::Legacy)
        } else if legacy_exe {
            r == Ok::<FoundProgram, UpdateError>(FoundProgram::LegacyExe)
        } else {
            match r {
                Ok(FoundProgram::File(i)) => {
                    &&& i < files@.len()
                    &&& any_name(platform, files@[i as int]@)
                    &&& forall|k: int|
                        0 <= k < i ==> !any_name(platform, (#[trigger] files@[k])@)
                },
                Ok(_) => false,
                Err(e) => {
                    &&& e == UpdateError::NoProgram(platform)
                    &&& forall|k: int|
                        0 <= k < files@.len() ==> !any_name(platform, (#[trigger] files@[k])@)
                },
            }
        },
{
    if own {
        return Ok(FoundProgram::Own);
    }
    if legacy {
        return Ok(FoundProgram::Legacy);
    }
    if legacy_exe {
        return Ok(FoundProgram::LegacyExe);
    }
    let mut i: usize = 0;
    while i < files.len()
        invariant
            !own,
            !legacy,
            !legacy_exe,
            i <= files@.len(),
            forall|k: int| 0 <= k < i ==> !any_name(platform, (#[trigger] files@[k])@),
        decreases files@.len() - i,
    {
        if has_any_name(platform, files[i].as_str()) {
            return Ok(FoundProgram::File(i));
        }
        i = i + 1;
    }
    Err(UpdateError::NoProgram(platform))
}

/// What is done next to replace the program.
#[derive(Debug, Clone, Copy, PartialEq, Eq, Structural)]
pub enum ReplaceStep {
    /// Move the present file out of the way.
    Backup,
    /// Move the new file into its place.
    Place,
    /// Leave both moves to a script that runs after this program has ended.
    Schedule,
    /// Give up.
    Fail,
}

/// The first step, once the new file lies beside the present one. A program that
/// runs on Windows cannot be moved.
pub fn first_step(platform: Platform, replaces_itself: bool, present: bool) -> (r: ReplaceStep)
    ensures
        r == (if platform == Platform::Windows && replaces_itself {
            ReplaceStep::Schedule
        } else if present {
            ReplaceStep::Backup
        } else {
            ReplaceStep::Place
        }),
{
    if platform == Platform::Windows && replaces_itself {
        ReplaceStep::Schedule
    } else if present {
        ReplaceStep::Backup
    } else {
        ReplaceStep::Place
    }
}

/// The step after the present file was to be moved out of the way.
pub fn step_after_backup(platform: Platform, moved: bool) -> (r: ReplaceStep)
    ensures
        r == (if moved {
            ReplaceStep::Place
        } else if platform == Platform::Windows {
            ReplaceStep::Schedule
        } else {
            ReplaceStep::Fail
        }),
{
    if moved {
        ReplaceStep::Place
    } else if platform == Platform::Windows {
        ReplaceStep::Schedule
    } else {
        ReplaceStep::Fail
    }
}

/// A path with backslashes in place of slashes.
pub open spec fn windows_path(s: Seq<char>) -> Seq<char> {
    s.map_values(
        |c: char|
            if c == '/' {
                '\\'
            } else {
                c
            },
    )
}

/// A path with backslashes in place of slashes.
pub fn to_windows_path(s: &str) -> (r: String)
    ensures
        r@ == windows_path(s@),
{
    let v: Vec<char> = chars_of(s);
    let mut out: Vec<char> = Vec::new();
    let mut i: usize = 0;
    while i < v.len()
        invariant
            i <= v@.len(),
            v@ == s@,
            out@.len() == i,
            forall|k: int|
                0 <= k < i ==> #[trigger] out@[k] == (if s@[k] == '/' {
                    '\\'
                } else {
                    s@[k]
                }),
        decreases v@.len() - i,
    {
        if v[i] == '/' {
            out.push('\\');
        } else {
            out.push(v[i]);
        }
        i = i + 1;
    }
    proof {
        assert(out@ =~= windows_path(s@));
    }
    string_of(&out)
}

/// The script that replaces a program once it has ended: it waits until the
/// present file can be moved, moves the new one into its place and removes what
/// is left.
pub open spec fn swap_lines(
    staging: Seq<char>,
    dest: Seq<char>,
    backup: Seq<char>,
    script: Seq<char>,
) -> Seq<char> {
    "@echo off\r\nsetlocal\r\n:retry\r\nping -n 2 127.0.0.1 >nul\r\nif exist \""@ + dest
        + "\" (\r\nmove /Y \""@ + dest + "\" \""@ + backup
        + "\" >nul 2>&1\r\nif errorlevel 1 goto retry\r\n)\r\nmove /Y \""@ + staging + "\" \""@
        + dest + "\" >nul 2>&1\r\nif errorlevel 1 goto retry\r\nif exist \""@ + backup
        + "\" del /F /Q \""@ + backup + "\" >nul 2>&1\r\ndel /F /Q \""@ + script
        + "\" >nul 2>&1\r\n"@
}

/// The script that replaces a program once it has ended, with paths as Windows
/// writes them.
pub fn swap_script(staging: &str, dest: &str, backup: &str, script: &str) -> (r: String)
    ensures
        r@ == swap_lines(
            windows_path(staging@),
            windows_path(dest@),
            windows_path(backup@),
            windows_path(script@),
        ),
{
    let staging: String = to_windows_path(staging);
    let dest: String = to_windows_path(dest);
    let backup: String = to_windows_path(backup);
    let script: String = to_windows_path(script);
    let mut out: String = String::new();
    out.append(
        "@echo off\r\nsetlocal\r\n:retry\r\nping -n 2 127.0.0.1 >nul\r\nif exist \"",
    );
    out.append(dest.as_str());
    out.append("\" (\r\nmove /Y \"");
    out.append(dest.as_str());
    out.append("\" \"");
    out.append(backup.as_str());
    out.append("\" >nul 2>&1\r\nif errorlevel 1 goto retry\r\n)\r\nmove /Y \"");
    out.append(staging.as_str());
    out.append("\" \"");
    out.append(dest.as_str());
    out.append("\" >nul 2>&1\r\nif errorlevel 1 goto retry\r\nif exist \"");
    out.append(backup.as_str());
    out.append("\" del /F /Q \"");
    out.append(backup.as_str());
    out.append("\" >nul 2>&1\r\ndel /F /Q \"");
    out.append(script.as_str());
    out.append("\" >nul 2>&1\r\n");
    proof {
        assert(out@ == swap_lines(staging@, dest@, backup@, script@));
    }
    out
}

/// The latest release is what is fetched where no release is named or the latest is
/// asked for by name; any other name is that of the release.
pub proof fn law_release_address(repo: Seq<char>, tag: Seq<char>, asset: Seq<char>)
    ensures
        release_address(repo, Some("latest"@), asset) == release_address(repo, None, asset),
        release_address(repo, None, asset) == "https://github.com/"@ + repo
            + "/releases/latest/download/"@ + asset,
        tag != "latest"@ ==> release_address(repo, Some(tag), asset) == "https://github.com/"@
            + repo + "/releases/download/"@ + tag + "/"@ + asset,
{
}

/// The first name that is given is that of the repository, then the second, then the
/// usual one.
pub proof fn law_repository(a: Seq<char>, b: Option<Seq<char>>)
    ensures
        repo_name(Some(a), b) == a,
        repo_name(None, Some(a)) == a,
        repo_name(None, None) == DEFAULT_REPO@,
{
}

} // verus!
