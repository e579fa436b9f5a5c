//! The options of a project to generate, and where its directory goes.
use vstd::prelude::*;
use crate::gradle::Platform;
use crate::path::{path_push_spec, push_self};
use crate::text::{chars_of, same_chars};

verus! {

/// The Minecraft version used when none is given.
pub const DEFAULT_VERSION: &'static str = "1.19.2";

/// The project directory used when none is given; it stands for
/// `IdeaProjects/<name>` in the home directory.
pub const DEFAULT_DIR: &'static str = "~/IdeaProjects";

/// The options of the project to generate.
pub struct Cli {
    /// The group (Java package) of the plugin, e.g. `com.example`.
    pub group: String,
    /// The name of the project.
    pub name: String,
    /// The Minecraft version to build against.
    pub version: String,
    /// Where the project goes.
    pub dir: String,
    /// Whether Kotlin was asked for.
    pub kotlin: bool,
    /// A Gradle distribution directory to use.
    pub gradle_dist: Option<String>,
    /// Whether a non-empty project directory may be overwritten.
    pub overwrite: bool,
}

/// Why the project directory could not be settled.
#[derive(Debug, Clone, Copy, PartialEq, Eq, Structural)]
pub enum CliError {
    /// The default directory was asked for and there is no home directory.
    NoHomeDir,
}

/// Whether two texts are the same.
pub fn same_text(a: &str, b: &str) -> (r: bool)
    ensures
        r == (a@ == b@),
{
    same_chars(&chars_of(a), &chars_of(b))
}

/// Where the project goes on `platform`: for the default directory,
/// `IdeaProjects/<name>` in the home directory `home`.
pub open spec fn project_dir_spec(dir: Seq<char>, name: Seq<char>, home: Seq<char>, platform: Platform) -> Seq<char> {
    if dir == DEFAULT_DIR@ {
        path_push_spec(path_push_spec(home, "IdeaProjects"@, platform), name, platform)
    } else {
        dir
    }
}

impl Cli {
    /// Whether the project directory depends on the home directory: it does
    /// for the default directory.
    pub fn needs_home(&self) -> (r: bool)
        ensures
            r == (self.dir@ == DEFAULT_DIR@),
    {
        same_text(&self.dir, DEFAULT_DIR)
    }

    /// Replaces the default directory by `IdeaProjects/<name>` in the home
    /// directory `home`, joined as paths are on `platform`; any other
    /// directory stays. Fails, changing nothing, when the default directory
    /// is asked for and there is no home directory.
    pub fn change_path(&mut self, home: Option<String>, platform: Platform) -> (r: Result<(), CliError>)
        ensures
            final(self).group == old(self).group,
            final(self).name == old(self).name,
            final(self).version == old(self).version,
            final(self).kotlin == old(self).kotlin,
            final(self).gradle_dist == old(self).gradle_dist,
            final(self).overwrite == old(self).overwrite,
            match home {
                None => if old(self).dir@ == DEFAULT_DIR@ {
                    r == Err::<(), CliError>(CliError::NoHomeDir) && final(self).dir == old(self).dir
                } else {
                    r is Ok && final(self).dir == old(self).dir
                },
                Some(h) => r is Ok && final(self).dir@ == project_dir_spec(
                    old(self).dir@,
                    old(self).name@,
                    h@,
                    platform,
                ),
            },
    {
        if same_text(&self.dir, DEFAULT_DIR) {
            match home {
                None => Err(CliError::NoHomeDir),
                Some(h) => {
                    let mut home_dir = h;
                    let mut projects = push_self(&mut home_dir, "IdeaProjects", platform);
                    self.dir = push_self(&mut projects, &self.name, platform);
                    Ok(())
                },
            }
        } else {
            Ok(())
        }
    }
}

} // verus!
