//! Generating the files of a project: the Gradle build scripts from their
//! skeletons, the plugin's main class, and what is allowed in the target directory.
use vstd::prelude::*;
use std::rc::Rc;
use crate::cli::Cli;
use crate::gradle::Platform;
use crate::release::{
    LookupError, opt_view, page_urls, release_candidates, release_pages_spec, repository_lookup_spec,
    repository_url, settle_release, settled_release_spec, string_views, text_result,
};
use crate::text::{concat, replace_all, replace_all_spec, replace_first, replace_first_spec};

verus! {

/// The skeleton of `settings.gradle.kts`; `{}` stands for the project name.
pub const SETTINGS_GRADLE_SKELETON: &'static str = "rootProject.name = \"{}\"\n";

/// The skeleton of `build.gradle.kts`; its `{}` stand, in order, for the
/// extra plugin lines, the group, the Paper API version and the main class.
pub const BUILD_GRADLE_SKELETON: &'static str = "plugins {\n    java{}\n}\n\ngroup = \"{}\"\nversion = \"1.0-SNAPSHOT\"\n\nrepositories {\n    mavenCentral()\n    maven(\"https://repo.papermc.io/repository/maven-public/\")\n}\n\ndependencies {\n    compileOnly(\"io.papermc.paper:paper-api:{}\")\n}\n\ntasks.jar {\n    manifest {\n        attributes[\"Main-Class\"] = \"{}\"\n    }\n}\n";

/// The plugin line added to the build script.
pub const KOTLIN_PLUGIN_LINE: &'static str = "\n    kotlin(\"jvm\") version \"1.6.21\"";

/// The placeholder in the skeletons.
pub const PLACEHOLDER: &'static str = "{}";

/// The text that follows the package name in the plugin's main class.
pub const MAIN_CLASS_BODY: &'static str = ";\n\nimport org.bukkit.plugin.java.JavaPlugin;\n\npublic final class Main extends JavaPlugin {\n\n    @Override\n    public void onEnable() {\n        \n    }\n    \n@Override\n    public void onDisable() {\n        \n    }\n}";

/// What `gradle init` is run with after the executable.
pub const GRADLE_INIT_ARGS: &'static str = " init --type basic --no-daemon";

/// The project generator: the skeletons it has loaded and the Paper API
/// release it has settled on.
pub struct CodeGen {
    settings_gradle: Option<&'static str>,
    build_gradle: Option<&'static str>,
    release_ver: Option<String>,
    cli: Rc<Cli>,
}

/// The view of an optional static text.
pub open spec fn static_view(o: Option<&'static str>) -> Option<Seq<char>> {
    match o {
        Some(s) => Some(s@),
        None => None,
    }
}

/// The build script made from the skeleton `skeleton`: the plugin lines, the
/// group `group`, the API release `release` and the main class `<main_group>.Main`
/// fill its placeholders in turn.
pub open spec fn build_script_spec(
    skeleton: Seq<char>,
    group: Seq<char>,
    release: Seq<char>,
    main_group: Seq<char>,
) -> Seq<char> {
    let ph = PLACEHOLDER@;
    let b1 = replace_first_spec(skeleton, ph, KOTLIN_PLUGIN_LINE@);
    let b2 = replace_first_spec(b1, ph, group);
    let b3 = replace_first_spec(b2, ph, release);
    replace_first_spec(b3, ph, main_group + ".Main"@)
}

/// What the target directory is like.
#[derive(Debug, Clone, Copy, PartialEq, Eq, Structural)]
pub enum TargetState {
    /// Nothing is there.
    Missing,
    /// Something other than a directory is there.
    NotADirectory,
    /// A directory with this many entries is there.
    Directory(usize),
}

/// Why the project cannot be generated in the target directory.
#[derive(Debug, Clone, Copy, PartialEq, Eq, Structural)]
pub enum PromptErrorKind {
    NotADirectory,
    DirectoryNotEmpty,
}

/// A refusal of the target directory.
pub struct PromptError {
    /// Whether generation must stop.
    pub should_panic: bool,
    pub kind: PromptErrorKind,
    pub message: String,
}

/// The message for a target path that is not a directory.
pub open spec fn not_a_directory_message(dir: Seq<char>) -> Seq<char> {
    "Target project path ("@ + dir + ") isn't a directory."@
}

/// The first sentence about a non-empty target directory.
pub open spec fn not_empty_sentence(dir: Seq<char>) -> Seq<char> {
    "Target project directory ("@ + dir + ") is not empty."@
}

/// The refusal of a non-empty target directory.
pub open spec fn not_empty_message(dir: Seq<char>) -> Seq<char> {
    not_empty_sentence(dir) + " Use the overwrite flag to ignore this."@
}

/// The warning for a non-empty target directory that may be overwritten.
pub open spec fn overwrite_warning(dir: Seq<char>) -> Seq<char> {
    not_empty_sentence(dir) + ". However, the overwrite flag is set, so the program will continue."@
}

/// The command that sets up the Gradle project in `dir` with the executable `gradle`.
pub open spec fn init_command_spec(dir: Seq<char>, gradle: Seq<char>, platform: Platform) -> Seq<char> {
    let cd = match platform {
        Platform::Windows => "cd /d "@,
        Platform::Unix => "cd "@,
    };
    cd + dir + " && "@ + gradle + GRADLE_INIT_ARGS@
}

impl CodeGen {
    /// A skeleton that has been loaded is the one this library holds.
    #[verifier::type_invariant]
    spec fn loads_own_skeletons(self) -> bool {
        &&& self.settings_gradle matches Some(s) ==> s@ == SETTINGS_GRADLE_SKELETON@
        &&& self.build_gradle matches Some(s) ==> s@ == BUILD_GRADLE_SKELETON@
    }

    /// The settings skeleton, once loaded.
    pub closed spec fn settings_loaded(&self) -> Option<Seq<char>> {
        static_view(self.settings_gradle)
    }

    /// The build skeleton, once loaded.
    pub closed spec fn build_loaded(&self) -> Option<Seq<char>> {
        static_view(self.build_gradle)
    }

    /// The Paper API release, once settled on.
    pub closed spec fn known_release(&self) -> Option<Seq<char>> {
        opt_view(self.release_ver)
    }

    /// The options of the project.
    pub closed spec fn options(&self) -> Rc<Cli> {
        self.cli
    }

    /// A generator for the project that `cli` describes, with nothing loaded yet.
    pub fn from(cli: Rc<Cli>) -> (r: CodeGen)
        ensures
            r.settings_loaded() is None,
            r.build_loaded() is None,
            r.known_release() is None,
            r.options() == cli,
    {
        CodeGen { settings_gradle: None, build_gradle: None, release_ver: None, cli }
    }

    /// The skeleton of the settings script, loaded on first use.
    pub fn settings_gradle(&mut self) -> (r: &'static str)
        ensures
            r@ == SETTINGS_GRADLE_SKELETON@,
            final(self).settings_loaded() == Some(SETTINGS_GRADLE_SKELETON@),
            final(self).build_loaded() == old(self).build_loaded(),
            final(self).known_release() == old(self).known_release(),
            final(self).options() == old(self).options(),
    {
        proof {
            use_type_invariant(&*self);
        }
        if self.settings_gradle.is_none() {
            self.settings_gradle = Some(SETTINGS_GRADLE_SKELETON);
        }
        self.settings_gradle.unwrap()
    }

    /// The skeleton of the build script, loaded on first use.
    pub fn build_gradle(&mut self) -> (r: &'static str)
        ensures
            r@ == BUILD_GRADLE_SKELETON@,
            final(self).build_loaded() == Some(BUILD_GRADLE_SKELETON@),
            final(self).settings_loaded() == old(self).settings_loaded(),
            final(self).known_release() == old(self).known_release(),
            final(self).options() == old(self).options(),
    {
        proof {
            use_type_invariant(&*self);
        }
        if self.build_gradle.is_none() {
            self.build_gradle = Some(BUILD_GRADLE_SKELETON);
        }
        self.build_gradle.unwrap()
    }

    /// The options of the project.
    pub fn cli(&self) -> (r: Rc<Cli>)
        ensures
            r == self.options(),
    {
        Rc::clone(&self.cli)
    }

    /// The Paper API release settled on so far.
    pub fn known_release_ver(&self) -> (r: Option<String>)
        ensures
            opt_view(r) == self.known_release(),
    {
        match &self.release_ver {
            Some(v) => Some(v.clone()),
            None => None,
        }
    }

    /// The repository listing to browse for the project's Minecraft version:
    /// the legacy repository below minor version 17, the current one from then on.
    pub fn release_listing(&self) -> (r: Result<&'static str, LookupError>)
        ensures
            text_result(r) == repository_lookup_spec(self.options().version@),
    {
        repository_url(&self.cli.version)
    }

    /// The addresses of the pages of the releases that belong to the
    /// project's Minecraft version, given the repository listing `listing`:
    /// those releases that the listing names whose part before the first `-`
    /// is that version, in the listing's order.
    pub fn release_pages(&self, listing: &str) -> (r: Result<Vec<String>, LookupError>)
        ensures
            match r {
                Ok(p) => release_pages_spec(self.options().version@, listing@) == Ok::<
                    Seq<Seq<char>>,
                    LookupError,
                >(string_views(p@)),
                Err(e) => release_pages_spec(self.options().version@, listing@) == Err::<
                    Seq<Seq<char>>,
                    LookupError,
                >(e),
            },
    {
        let repo = match repository_url(&self.cli.version) {
            Err(e) => {
                return Err(e);
            },
            Ok(u) => u,
        };
        match release_candidates(&self.cli.version, listing) {
            Err(e) => Err(e),
            Ok(c) => Ok(page_urls(repo, &c)),
        }
    }

    /// The Paper API release to build against: the one settled on before, or
    /// else the newest, by the dates of their pages, of the releases that the
    /// repository listing `listing` names for the project's Minecraft version;
    /// `pages` holds the pages at the addresses that `release_pages` gives, in
    /// that order. Fails, settling on nothing, when nothing is settled on yet
    /// and the version has no minor number that fits a `u16`, or no release of
    /// the version has a dated page.
    pub fn release_ver(&mut self, listing: &str, pages: &Vec<String>) -> (r: Result<String, LookupError>)
        ensures
            final(self).settings_loaded() == old(self).settings_loaded(),
            final(self).build_loaded() == old(self).build_loaded(),
            final(self).options() == old(self).options(),
            match old(self).known_release() {
                Some(v) => r matches Ok(s) && s@ == v && final(self).known_release() == Some(v),
                None => match settled_release_spec(
                    old(self).options().version@,
                    listing@,
                    string_views(pages@),
                ) {
                    Err(e) => r == Err::<String, LookupError>(e) && final(self).known_release() is None,
                    Ok(v) => r matches Ok(s) && s@ == v && final(self).known_release() == Some(v),
                },
            },
    {
        proof {
            use_type_invariant(&*self);
        }
        if let Some(v) = &self.release_ver {
            return Ok(v.clone());
        }
        match settle_release(&self.cli.version, listing, pages) {
            Err(e) => Err(e),
            Ok(v) => {
                self.release_ver = Some(v.clone());
                Ok(v)
            },
        }
    }

    /// The settings and build scripts for the project that `cli` describes:
    /// the project name fills every placeholder of the settings skeleton; the
    /// build skeleton gets the plugin lines, the group of `cli`, the release
    /// settled on and the main class of this generator's project. `None` when
    /// no release is settled on yet; the skeletons are loaded either way.
    pub fn template_gradle_files(&mut self, cli: Rc<Cli>) -> (r: Option<(String, String)>)
        ensures
            final(self).settings_loaded() == Some(SETTINGS_GRADLE_SKELETON@),
            final(self).build_loaded() == Some(BUILD_GRADLE_SKELETON@),
            final(self).known_release() == old(self).known_release(),
            final(self).options() == old(self).options(),
            r is Some == old(self).known_release() is Some,
            r matches Some((settings, build)) ==> {
                &&& settings@ == replace_all_spec(SETTINGS_GRADLE_SKELETON@, PLACEHOLDER@, cli.name@)
                &&& build@ == build_script_spec(
                    BUILD_GRADLE_SKELETON@,
                    cli.group@,
                    old(self).known_release()->0,
                    old(self).options().group@,
                )
            },
    {
        proof {
            reveal_strlit("{}");
            assert(PLACEHOLDER@.len() == 2);
        }
        let settings_skeleton = self.settings_gradle();
        let settings = replace_all(settings_skeleton, PLACEHOLDER, &cli.name);
        let build_skeleton = self.build_gradle();
        let release = match &self.release_ver {
            Some(v) => v.clone(),
            None => {
                return None;
            },
        };
        let mut build = replace_first(build_skeleton, PLACEHOLDER, KOTLIN_PLUGIN_LINE);
        build = replace_first(&build, PLACEHOLDER, &cli.group);
        build = replace_first(&build, PLACEHOLDER, &release);
        let main_class = concat(&self.cli.group, ".Main");
        build = replace_first(&build, PLACEHOLDER, &main_class);
        Some((settings, build))
    }

    /// Judges the project directory, given what is there: something other
    /// than a directory is refused; a non-empty directory is refused unless
    /// the overwrite flag is set, in which case a warning comes back.
    pub fn prompt_empty(&self, target: TargetState) -> (r: Result<Option<String>, PromptError>)
        ensures
            match target {
                TargetState::Missing => r matches Ok(None),
                TargetState::NotADirectory => r matches Err(e) && e.should_panic && e.kind
                    == PromptErrorKind::NotADirectory && e.message@ == not_a_directory_message(
                    self.options().dir@,
                ),
                TargetState::Directory(n) => if n == 0 {
                    r matches Ok(None)
                } else if self.options().overwrite {
                    r matches Ok(Some(w)) && w@ == overwrite_warning(self.options().dir@)
                } else {
                    r matches Err(e) && e.should_panic && e.kind == PromptErrorKind::DirectoryNotEmpty
                        && e.message@ == not_empty_message(self.options().dir@)
                },
            },
    {
        let dir = &self.cli.dir;
        match target {
            TargetState::Missing => Ok(None),
            TargetState::NotADirectory => {
                let m = concat(&concat("Target project path (", dir), ") isn't a directory.");
                Err(PromptError { should_panic: true, kind: PromptErrorKind::NotADirectory, message: m })
            },
            TargetState::Directory(n) => {
                if n == 0 {
                    return Ok(None);
                }
                let s = concat(&concat("Target project directory (", dir), ") is not empty.");
                if !self.cli.overwrite {
                    let m = concat(&s, " Use the overwrite flag to ignore this.");
                    Err(
                        PromptError {
                            should_panic: true,
                            kind: PromptErrorKind::DirectoryNotEmpty,
                            message: m,
                        },
                    )
                } else {
                    Ok(
                        Some(
                            concat(
                                &s,
                                ". However, the overwrite flag is set, so the program will continue.",
                            ),
                        ),
                    )
                }
            },
        }
    }

    /// The shell command that sets up the Gradle project in the project
    /// directory with the Gradle executable `gradle_path`.
    pub fn gradle_init_command(&self, gradle_path: &str, platform: Platform) -> (r: String)
        ensures
            r@ == init_command_spec(self.options().dir@, gradle_path@, platform),
    {
        let cd = match platform {
            Platform::Windows => "cd /d ",
            Platform::Unix => "cd ",
        };
        let c = concat(&concat(&concat(cd, &self.cli.dir), " && "), gradle_path);
        concat(&c, GRADLE_INIT_ARGS)
    }

    /// The source of the plugin's main class, in the project's group.
    pub fn main_class_source(&self) -> (r: String)
        ensures
            r@ == "package "@ + self.options().group@ + MAIN_CLASS_BODY@,
    {
        concat(&concat("package ", &self.cli.group), MAIN_CLASS_BODY)
    }

    /// The directory of the project's group below the source root: its `.`
    /// become `separator`.
    pub fn package_dir(&self, separator: &str) -> (r: String)
        ensures
            r@ == replace_all_spec(self.options().group@, "."@, separator@),
    {
        proof {
            reveal_strlit(".");
        }
        replace_all(&self.cli.group, ".", separator)
    }
}


/// The set-up command for every project directory and executable: on
/// Windows `cd /d` (so the drive changes too), on Unix `cd`, then `&&`,
/// the executable and `init --type basic --no-daemon`.
pub proof fn lemma_init_command_text(dir: Seq<char>, gradle: Seq<char>)
    ensures
        init_command_spec(dir, gradle, Platform::Windows) == "cd /d "@ + dir + " && "@ + gradle
            + " init --type basic --no-daemon"@,
        init_command_spec(dir, gradle, Platform::Unix) == "cd "@ + dir + " && "@ + gradle
            + " init --type basic --no-daemon"@,
{
}

} // verus!
