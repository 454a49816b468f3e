//! Where the native Codex executable is looked for.

use vstd::prelude::*;

use crate::json;
use crate::text;

verus! {

broadcast use vstd::string::group_string_axioms;

/// The contents of a list of string slices.
pub open spec fn part_views(parts: Seq<&str>) -> Seq<Seq<char>> {
    parts.map_values(|part: &str| part@)
}

/// The parts of the path of the executable below the local application data.
pub fn local_install_parts() -> (parts: Vec<&'static str>)
    ensures
        part_views(parts@) == seq![
            "OpenAI"@,
            "CodexCli"@,
            "node_modules"@,
            "@openai"@,
            "codex-win32-x64"@,
            "vendor"@,
            "x86_64-pc-windows-msvc"@,
            "bin"@,
            "codex.exe"@,
        ],
{
    let parts: Vec<&'static str> = vec![
        "OpenAI",
        "CodexCli",
        "node_modules",
        "@openai",
        "codex-win32-x64",
        "vendor",
        "x86_64-pc-windows-msvc",
        "bin",
        "codex.exe",
    ];
    proof {
        assert(part_views(parts@) =~= seq![
            "OpenAI"@,
            "CodexCli"@,
            "node_modules"@,
            "@openai"@,
            "codex-win32-x64"@,
            "vendor"@,
            "x86_64-pc-windows-msvc"@,
            "bin"@,
            "codex.exe"@,
        ]);
    }
    parts
}

/// The parts of the path of the executable below the directory of its package.
pub fn package_parts() -> (parts: Vec<&'static str>)
    ensures
        part_views(parts@) == seq!["app"@, "resources"@, "codex.exe"@],
{
    let parts: Vec<&'static str> = vec!["app", "resources", "codex.exe"];
    proof {
        assert(part_views(parts@) =~= seq!["app"@, "resources"@, "codex.exe"@]);
    }
    parts
}

/// Whether a name is that of a package of Codex.
pub open spec fn names_codex(name: Seq<char>) -> bool {
    "OpenAI.Codex_"@.is_prefix_of(name)
}

/// Tells whether a directory among the installed packages is that of Codex.
pub fn is_codex_package(name: &str) -> (answer: bool)
    ensures
        answer == names_codex(name@),
{
    text::starts_with(name, "OpenAI.Codex_")
}

/// A directory among the installed packages.
#[derive(Debug, PartialEq)]
pub struct Package {
    /// Its name, if that is text.
    pub name: Option<String>,
    /// Whether the executable is a file in it.
    pub is_file: bool,
}

impl Package {
    /// Whether it is a package of Codex with the executable in it.
    pub open spec fn has_codex(self) -> bool {
        json::optional_view(self.name) matches Some(name) && names_codex(name) && self.is_file
    }

    fn offers_codex(&self) -> (answer: bool)
        ensures
            answer == self.has_codex(),
    {
        match &self.name {
            Some(name) => is_codex_package(name.as_str()) && self.is_file,
            None => false,
        }
    }
}

/// The path that the user has set.
#[derive(Debug, PartialEq)]
pub struct ConfiguredPath {
    pub path: String,
    pub is_file: bool,
}

/// Which executable to run.
#[derive(Debug, Clone, Copy, PartialEq, Eq, Structural)]
pub enum Executable {
    /// The one that the user has set.
    Configured,
    /// The one below the local application data.
    Local,
    /// The one in the package at this place.
    Packaged(usize),
    /// The one in the working directory.
    Fallback,
}

/// Whether no package of Codex has the executable in it.
pub open spec fn none_has_codex(packages: Seq<Package>) -> bool {
    forall|i: int| 0 <= i < packages.len() ==> !(#[trigger] packages[i]).has_codex()
}

/// Whether `choice` is the executable to run: the one that the user has set,
/// and only that, where one is set; else the one below the local application
/// data; else that of the first package of Codex; else the fallback.
pub open spec fn is_choice(
    choice: Result<Executable, Seq<char>>,
    configured: Option<ConfiguredPath>,
    local_is_file: bool,
    packages: Seq<Package>,
    fallback_is_file: bool,
) -> bool {
    match configured {
        Some(configured) => choice == if configured.is_file {
            Ok(Executable::Configured)
        } else {
            Err("CODEX_MONITOR_CODEX_PATH does not point to a file: "@ + configured.path@)
        },
        None => match choice {
            Ok(Executable::Configured) => false,
            Ok(Executable::Local) => local_is_file,
            Ok(Executable::Packaged(found)) => {
                &&& !local_is_file
                &&& found < packages.len()
                &&& packages[found as int].has_codex()
                &&& none_has_codex(packages.take(found as int))
            },
            Ok(Executable::Fallback) => {
                &&& !local_is_file
                &&& none_has_codex(packages)
                &&& fallback_is_file
            },
            Err(reason) => {
                &&& !local_is_file
                &&& none_has_codex(packages)
                &&& !fallback_is_file
                &&& reason
                    == "Could not find native codex.exe. Install Codex or set CODEX_MONITOR_CODEX_PATH."@
            },
        },
    }
}

/// A choice with the characters of its error.
pub open spec fn choice_view(choice: Result<Executable, String>) -> Result<
    Executable,
    Seq<char>,
> {
    match choice {
        Ok(executable) => Ok(executable),
        Err(reason) => Err(reason@),
    }
}

/// Chooses the executable to run. `local_is_file` tells whether it is a file
/// below the local application data, `packages` lists the installed packages in
/// the order of looking.
pub fn choose_executable(
    configured: Option<ConfiguredPath>,
    local_is_file: bool,
    packages: &Vec<Package>,
    fallback_is_file: bool,
) -> (choice: Result<Executable, String>)
    ensures
        is_choice(choice_view(choice), configured, local_is_file, packages@, fallback_is_file),
{
    if let Some(configured) = configured {
        if configured.is_file {
            return Ok(Executable::Configured);
        }
        return Err(
            text::joined(
                "CODEX_MONITOR_CODEX_PATH does not point to a file: ",
                configured.path.as_str(),
            ),
        );
    }
    if local_is_file {
        return Ok(Executable::Local);
    }
    let mut i: usize = 0;
    while i < packages.len()
        invariant
            i <= packages.len(),
            configured is None,
            !local_is_file,
            forall|j: int| 0 <= j < i ==> !(#[trigger] packages@[j]).has_codex(),
        decreases packages.len() - i,
    {
        if packages[i].offers_codex() {
            return Ok(Executable::Packaged(i));
        }
        i = i + 1;
    }
    if fallback_is_file {
        return Ok(Executable::Fallback);
    }
    Err(
        "Could not find native codex.exe. Install Codex or set CODEX_MONITOR_CODEX_PATH.".to_owned(),
    )
}

/// No two choices fit the same findings.
pub proof fn law_choice_is_unique(
    one: Result<Executable, Seq<char>>,
    other: Result<Executable, Seq<char>>,
    configured: Option<ConfiguredPath>,
    local_is_file: bool,
    packages: Seq<Package>,
    fallback_is_file: bool,
)
    requires
        is_choice(one, configured, local_is_file, packages, fallback_is_file),
        is_choice(other, configured, local_is_file, packages, fallback_is_file),
    ensures
        one == other,
{
    if let (Ok(Executable::Packaged(i)), Ok(Executable::Packaged(j))) = (one, other) {
        if i < j {
            assert(!packages.take(j as int)[i as int].has_codex());
        } else if j < i {
            assert(!packages.take(i as int)[j as int].has_codex());
        }
    }
}

/// A package is one of Codex exactly where its name is the name of the product
/// and anything behind it.
pub proof fn law_package_of_codex(name: Seq<char>, rest: Seq<char>)
    ensures
        names_codex("OpenAI.Codex_"@ + rest),
        names_codex(name) ==> name == "OpenAI.Codex_"@ + name.skip("OpenAI.Codex_"@.len() as int),
{
    let prefix = "OpenAI.Codex_"@;
    assert((prefix + rest).take(prefix.len() as int) =~= prefix);
    assert(prefix.is_prefix_of(prefix + rest));
    if names_codex(name) {
        assert(name =~= prefix + name.skip(prefix.len() as int));
    }
}

/// A package offers Codex exactly where its name is text and that of a package
/// of Codex, and the executable is a file in it.
pub proof fn law_package_offers_codex(package: Package)
    ensures
        package.has_codex() <==> package.is_file && (package.name matches Some(name)
            && names_codex(name@)),
{
}

/// The path that the user has set goes before all else: it is run where it is a
/// file, and is an error where it is not.
pub proof fn law_configured_path_decides(
    choice: Result<Executable, Seq<char>>,
    configured: ConfiguredPath,
    local_is_file: bool,
    packages: Seq<Package>,
    fallback_is_file: bool,
)
    requires
        is_choice(choice, Some(configured), local_is_file, packages, fallback_is_file),
    ensures
        choice == Ok::<Executable, Seq<char>>(Executable::Configured) <==> configured.is_file,
        choice is Err <==> !configured.is_file,
        choice matches Err(reason) ==> reason
            == "CODEX_MONITOR_CODEX_PATH does not point to a file: "@ + configured.path@,
{
}

/// Without such a path the local install goes first, then the first package that
/// offers Codex, then the working directory; it is an error only where none of
/// these has it.
pub proof fn law_executable_is_looked_for_in_order(
    choice: Result<Executable, Seq<char>>,
    local_is_file: bool,
    packages: Seq<Package>,
    fallback_is_file: bool,
)
    requires
        is_choice(choice, None, local_is_file, packages, fallback_is_file),
    ensures
        ({
            let offered = exists|i: int|
                0 <= i < packages.len() && (#[trigger] packages[i]).has_codex();
            &&& choice == Ok::<Executable, Seq<char>>(Executable::Local) <==> local_is_file
            &&& (choice matches Ok(Executable::Packaged(_))) <==> !local_is_file && offered
            &&& choice matches Ok(Executable::Packaged(found)) ==> {
                &&& found < packages.len()
                &&& packages[found as int].has_codex()
                &&& forall|i: int| 0 <= i < found ==> !(#[trigger] packages[i]).has_codex()
            }
            &&& choice == Ok::<Executable, Seq<char>>(Executable::Fallback) <==> !local_is_file
                && !offered && fallback_is_file
            &&& choice is Err <==> !local_is_file && !offered && !fallback_is_file
            &&& choice matches Err(reason) ==> reason
                == "Could not find native codex.exe. Install Codex or set CODEX_MONITOR_CODEX_PATH."@
        }),
{
    if let Ok(Executable::Packaged(found)) = choice {
        let earlier = packages.take(found as int);
        assert forall|i: int| 0 <= i < found implies !(#[trigger] packages[i]).has_codex() by {
            assert(!earlier[i].has_codex());
        }
    }
}

/// A choice keeps the words of its error.
pub proof fn law_choice_keeps_its_words(choice: Result<Executable, String>)
    ensures
        match choice {
            Ok(executable) => choice_view(choice) == Ok::<Executable, Seq<char>>(executable),
            Err(reason) => choice_view(choice) == Err::<Executable, Seq<char>>(reason@),
        },
{
}

} // verus!
