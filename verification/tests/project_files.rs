use mcgen::cli::Cli;
use mcgen::files::{CodeGen, PromptErrorKind, TargetState, BUILD_GRADLE_SKELETON, SETTINGS_GRADLE_SKELETON};
use mcgen::gradle::Platform;
use mcgen::release::{LookupError, LEGACY_REPOSITORY, PAPER_REPOSITORY};
use mcgen::text::IntErrorKind;
use std::rc::Rc;

fn cli(dir: &str, overwrite: bool) -> Rc<Cli> {
    cli_for(dir, overwrite, "1.19.2")
}

fn cli_for(dir: &str, overwrite: bool, version: &str) -> Rc<Cli> {
    Rc::new(Cli {
        group: "com.example.plugin".to_string(),
        name: "MyPlugin".to_string(),
        version: version.to_string(),
        dir: dir.to_string(),
        kotlin: false,
        gradle_dist: None,
        overwrite,
    })
}

#[test]
fn skeletons_load_once_and_stay() {
    let mut code = CodeGen::from(cli("/tmp/p", false));
    assert_eq!(code.settings_gradle(), SETTINGS_GRADLE_SKELETON);
    assert_eq!(code.settings_gradle(), SETTINGS_GRADLE_SKELETON);
    assert_eq!(code.build_gradle(), BUILD_GRADLE_SKELETON);
    assert_eq!(code.build_gradle(), BUILD_GRADLE_SKELETON);
}

fn row(v: &str) -> String {
    format!("<tr><td><a href=\"{}/\">{}</a></td></tr>\n", v, v)
}

fn listing(versions: &[&str]) -> String {
    let mut l = String::from("<table>\n<tr><td><a href=\"../\">Parent Directory</a></td></tr>\n");
    for v in versions {
        l.push_str(&row(v));
    }
    l.push_str("</table>");
    l
}

fn page(date: &str) -> String {
    format!("<table>\n<tr><td> {} </td></tr>\n</table>", date)
}

#[test]
fn release_listing_follows_minor_version() {
    assert_eq!(CodeGen::from(cli_for("/tmp/p", false, "1.19.2")).release_listing(), Ok(PAPER_REPOSITORY));
    assert_eq!(CodeGen::from(cli_for("/tmp/p", false, "1.16.5")).release_listing(), Ok(LEGACY_REPOSITORY));
    assert_eq!(CodeGen::from(cli_for("/tmp/p", false, "latest")).release_listing(), Err(LookupError::NoMatch));
}

#[test]
fn release_pages_are_those_of_the_version() {
    let l = listing(&["1.19.2-R0.1-A", "1.19.1-R0.1-X", "1.19.2-R0.1-B", "1.19.20-R0.1-Y"]);
    let code = CodeGen::from(cli("/tmp/p", false));
    assert_eq!(
        code.release_pages(&l),
        Ok(vec![format!("{}1.19.2-R0.1-A", PAPER_REPOSITORY), format!("{}1.19.2-R0.1-B", PAPER_REPOSITORY)])
    );
    let legacy = CodeGen::from(cli_for("/tmp/p", false, "1.16.5"));
    assert_eq!(
        legacy.release_pages(&listing(&["1.16.5-R0.1-SNAPSHOT", "1.16.4-R0.1-SNAPSHOT"])),
        Ok(vec![format!("{}1.16.5-R0.1-SNAPSHOT", LEGACY_REPOSITORY)])
    );
    assert_eq!(code.release_pages("no rows"), Ok(vec![]));
}

#[test]
fn release_is_settled_once() {
    let l = listing(&["1.19.2-R0.1-A", "1.19.1-R0.1-X", "1.19.2-R0.1-B"]);
    let mut code = CodeGen::from(cli("/tmp/p", false));
    assert_eq!(code.known_release_ver(), None);
    assert_eq!(
        code.release_ver(&l, &vec![page("not a date"), "<p>none</p>".to_string()]),
        Err(LookupError::NoMatchingRelease)
    );
    assert_eq!(code.known_release_ver(), None);
    let pages = vec![page("Sun Aug 21 03:07:41 UTC 2022"), page("Mon Aug 22 03:07:41 UTC 2022")];
    assert_eq!(code.release_ver(&l, &pages), Ok("1.19.2-R0.1-B".to_string()));
    assert_eq!(code.release_ver(&l, &vec![]), Ok("1.19.2-R0.1-B".to_string()));
    assert_eq!(code.known_release_ver(), Some("1.19.2-R0.1-B".to_string()));
}

#[test]
fn release_is_the_newest_by_page_date() {
    let l = listing(&["1.19.2-R0.1-A", "1.19.2-R0.1-B", "1.19.2-R0.1-C"]);
    let mut code = CodeGen::from(cli("/tmp/p", false));
    let pages = vec![page("Tue Aug 23 03:07:41 UTC 2022"), page("garbage"), page("Mon Aug 22 03:07:41 UTC 2022")];
    assert_eq!(code.release_ver(&l, &pages), Ok("1.19.2-R0.1-A".to_string()));
}

#[test]
fn release_needs_one_page_per_release() {
    let l = listing(&["1.19.2-R0.1-A", "1.19.2-R0.1-B"]);
    let mut code = CodeGen::from(cli("/tmp/p", false));
    assert_eq!(code.release_ver(&l, &vec![page("Sun Aug 21 03:07:41 UTC 2022")]), Err(LookupError::PagesMismatch));
    assert_eq!(code.known_release_ver(), None);
}

#[test]
fn release_fails_without_a_minor_number() {
    let l = listing(&["latest-R0.1-A"]);
    let mut code = CodeGen::from(cli_for("/tmp/p", false, "latest"));
    assert_eq!(code.release_ver(&l, &vec![page("Sun Aug 21 03:07:41 UTC 2022")]), Err(LookupError::NoMatch));
    assert_eq!(code.known_release_ver(), None);
    let mut code = CodeGen::from(cli_for("/tmp/p", false, "1.99999"));
    assert_eq!(
        code.release_ver(&listing(&["1.99999-R0.1-A"]), &vec![page("Sun Aug 21 03:07:41 UTC 2022")]),
        Err(LookupError::InvalidNumber(IntErrorKind::PosOverflow))
    );
    assert_eq!(code.known_release_ver(), None);
}

#[test]
fn templates_need_a_release() {
    let mut code = CodeGen::from(cli("/tmp/p", false));
    assert!(code.template_gradle_files(cli("/tmp/p", false)).is_none());
}

#[test]
fn templates_fill_placeholders() {
    let c = cli("/tmp/p", false);
    let mut code = CodeGen::from(Rc::clone(&c));
    code.release_ver(&listing(&["1.19.2-R0.1-SNAPSHOT"]), &vec![page("Sun Aug 21 03:07:41 UTC 2022")]).unwrap();
    let (settings, build) = code.template_gradle_files(Rc::clone(&c)).unwrap();
    assert_eq!(settings, "rootProject.name = \"MyPlugin\"\n");
    let expected = BUILD_GRADLE_SKELETON
        .replacen("{}", "\n    kotlin(\"jvm\") version \"1.6.21\"", 1)
        .replacen("{}", "com.example.plugin", 1)
        .replacen("{}", "1.19.2-R0.1-SNAPSHOT", 1)
        .replacen("{}", "com.example.plugin.Main", 1);
    assert_eq!(build, expected);
    assert!(build.contains("compileOnly(\"io.papermc.paper:paper-api:1.19.2-R0.1-SNAPSHOT\")"));
    assert!(build.contains("attributes[\"Main-Class\"] = \"com.example.plugin.Main\""));
    assert!(!build.contains("{}"));
}

#[test]
fn prompt_accepts_missing_or_empty_directory() {
    let code = CodeGen::from(cli("/tmp/p", false));
    assert!(matches!(code.prompt_empty(TargetState::Missing), Ok(None)));
    assert!(matches!(code.prompt_empty(TargetState::Directory(0)), Ok(None)));
}

#[test]
fn prompt_refuses_a_file() {
    let code = CodeGen::from(cli("/tmp/p", true));
    let e = code.prompt_empty(TargetState::NotADirectory).err().unwrap();
    assert!(e.should_panic);
    assert_eq!(e.kind, PromptErrorKind::NotADirectory);
    assert_eq!(e.message, "Target project path (/tmp/p) isn't a directory.");
}

#[test]
fn prompt_refuses_non_empty_directory_without_overwrite() {
    let code = CodeGen::from(cli("/tmp/p", false));
    let e = code.prompt_empty(TargetState::Directory(3)).err().unwrap();
    assert!(e.should_panic);
    assert_eq!(e.kind, PromptErrorKind::DirectoryNotEmpty);
    assert_eq!(e.message, "Target project directory (/tmp/p) is not empty. Use the overwrite flag to ignore this.");
}

#[test]
fn prompt_warns_when_overwriting() {
    let code = CodeGen::from(cli("/tmp/p", true));
    let w = code.prompt_empty(TargetState::Directory(1)).ok().unwrap().unwrap();
    assert_eq!(w, "Target project directory (/tmp/p) is not empty.. However, the overwrite flag is set, so the program will continue.");
}

#[test]
fn init_command_per_platform() {
    let code = CodeGen::from(cli("/tmp/p", false));
    assert_eq!(code.gradle_init_command("gradle", Platform::Unix), "cd /tmp/p && gradle init --type basic --no-daemon");
    assert_eq!(
        code.gradle_init_command("C:\\g\\bin\\gradle.bat", Platform::Windows),
        "cd /d /tmp/p && C:\\g\\bin\\gradle.bat init --type basic --no-daemon"
    );
}

#[test]
fn main_class_source_is_in_the_group() {
    let code = CodeGen::from(cli("/tmp/p", false));
    let indent = "    ";
    let expected = format!("package {};\n\nimport org.bukkit.plugin.java.JavaPlugin;\n\npublic final class \
        Main extends JavaPlugin {{\n\n{}@Override\n{}public void onEnable() {{\n{}{}\n{}}}\n{}\n@Override\n{}public void \
        onDisable() {{\n{}{}\n{}}}\n}}", "com.example.plugin", indent, indent, indent, indent,
                              indent, indent, indent, indent, indent, indent);
    assert_eq!(code.main_class_source(), expected);
}

#[test]
fn package_dir_uses_separator() {
    let code = CodeGen::from(cli("/tmp/p", false));
    assert_eq!(code.package_dir("/"), "com/example/plugin");
    assert_eq!(code.package_dir("\\"), "com\\example\\plugin");
}
