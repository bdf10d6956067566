use git_mob_rs::message::template_from_trailers;
use git_mob_rs::{Author, Coauthors, FileActions, GitMob, GitMobError, MockFileActions, Repo};

const CONFIG: &str = "[core]\n\trepositoryformatversion = 0\n\tbare = false\n";
const COAUTHORS_PATH: &str = "/home/me/.config/git-coauthors";

fn author(name: &str, email: &str) -> Author {
    Author {
        name: name.to_string(),
        email: email.to_string(),
    }
}

fn repo() -> Repo {
    Repo {
        git_dir: ".git".to_string(),
        user_name: "Jane Doe".to_string(),
        user_email: "jane@example.com".to_string(),
    }
}

fn git_mob_with(coauthors: Coauthors) -> GitMob<MockFileActions> {
    let mut files = MockFileActions::new();
    files.write(".git/config", CONFIG).unwrap();
    GitMob::new(files, coauthors, COAUTHORS_PATH.to_string(), Some(repo()))
}

fn get_git_mob() -> GitMob<MockFileActions> {
    let mut coauthors = Coauthors::new();
    coauthors.insert("ab".to_string(), author("A B", "ab@example.com"));
    coauthors.insert("cd".to_string(), author("C D", "cd@example.com"));
    git_mob_with(coauthors)
}

fn initials(list: &[&str]) -> Vec<String> {
    list.iter().map(|s| s.to_string()).collect()
}

#[test]
fn lib_test_write_gitmessage() {
    let mut gm = get_git_mob();

    let authors = "Co-authored-by: A B <ab@example.com>\nCo-authored-by: C D <cd@example.com>";

    gm.write_gitmessage(&initials(&["ab", "cd"])).unwrap();

    assert_eq!(format!("\n\n{}", authors), gm.get_gitmessage().unwrap());
    assert_eq!("ab,cd\n", gm.get_gitinitials());
    assert_eq!(
        format!("{}\n{}", gm.get_git_user().unwrap(), authors),
        gm.get_formatted_gitmessage().unwrap()
    );
}

#[test]
fn test_print() {
    let mut gm = get_git_mob();

    let authors =
        "\n\nCo-authored-by: A B <ab@example.com>\nCo-authored-by: C D <cd@example.com>\n";

    gm.write_gitmessage(&initials(&["ab", "cd"])).unwrap();

    assert_eq!(authors, gm.print().unwrap());
}

#[test]
fn test_print_initials() {
    let mut gm = get_git_mob();

    gm.write_gitmessage(&[]).unwrap();

    assert_eq!("\n", gm.print_initials());

    gm.write_gitmessage(&initials(&["ab", "cd"])).unwrap();

    assert_eq!("ab,cd\n", gm.print_initials());
}

#[test]
fn test_mob() {
    let mut gm = get_git_mob();

    let authors = "Co-authored-by: A B <ab@example.com>\nCo-authored-by: C D <cd@example.com>";

    assert_eq!(
        format!("{}\n{}", gm.get_git_user().unwrap(), authors),
        gm.mob(&initials(&["ab", "cd"])).unwrap()
    );
    assert_eq!(format!("\n\n{}", authors), gm.get_gitmessage().unwrap());

    // an empty selection keeps the template
    assert_eq!(
        format!("{}\n{}", gm.get_git_user().unwrap(), authors),
        gm.mob(&[]).unwrap()
    );
    assert_eq!(format!("\n\n{}", authors), gm.get_gitmessage().unwrap());
}

#[test]
#[should_panic]
fn test_mob_empty_authors() {
    let mut gm = get_git_mob();
    gm.mob(&initials(&["ef"])).unwrap();
}

#[test]
#[should_panic]
fn test_mob_no_authors() {
    let mut gm = git_mob_with(Coauthors::new());
    gm.mob(&initials(&["ab"])).unwrap();
}

#[test]
fn test_solo() {
    let mut gm = get_git_mob();
    let actual = gm.solo().unwrap();

    assert_eq!("", gm.get_gitmessage().unwrap());
    assert_eq!(gm.get_git_user().unwrap(), actual);
}

#[test]
fn main_test_write_gitmessage() {
    let mut gm = git_mob_with(Coauthors::new());
    let path = gm.get_gitmessage_path().unwrap();
    gm.file_actions
        .write(&path, &template_from_trailers("test"))
        .unwrap();

    assert_eq!("\n\ntest", gm.get_gitmessage().unwrap());
    assert_eq!(
        format!("{}\ntest", gm.get_git_user().unwrap()),
        gm.get_formatted_gitmessage().unwrap()
    );
}

#[test]
fn main_test_solo() {
    let mut gm = git_mob_with(Coauthors::new());
    gm.solo().unwrap();

    assert_eq!("", gm.get_gitmessage().unwrap());
    assert_eq!(gm.get_git_user().unwrap(), gm.get_formatted_gitmessage().unwrap());
}

#[test]
fn main_test_mob() {
    let mut coauthors = Coauthors::new();
    coauthors.insert("ab".to_string(), author("A B", "ab@example.com"));
    let mut gm = git_mob_with(coauthors);

    gm.mob(&initials(&["ab"])).unwrap();

    let author = "Co-authored-by: A B <ab@example.com>";

    assert_eq!(format!("\n\n{}", author), gm.get_gitmessage().unwrap());
    assert_eq!(
        format!("{}\n{}", gm.get_git_user().unwrap(), author),
        gm.get_formatted_gitmessage().unwrap()
    );

    // an empty selection keeps the template
    gm.mob(&[]).unwrap();

    assert_eq!(format!("\n\n{}", author), gm.get_gitmessage().unwrap());
    assert_eq!(
        format!("{}\n{}", gm.get_git_user().unwrap(), author),
        gm.get_formatted_gitmessage().unwrap()
    );

    // solo empties it
    gm.solo().unwrap();

    assert_eq!("", gm.get_gitmessage().unwrap());
    assert_eq!(gm.get_git_user().unwrap(), gm.get_formatted_gitmessage().unwrap());
}

#[test]
fn test_mob_2() {
    let mut gm = get_git_mob();

    gm.mob(&initials(&["ab"])).unwrap();

    let author = "Co-authored-by: A B <ab@example.com>";

    assert_eq!(format!("\n\n{}", author), gm.get_gitmessage().unwrap());
    assert_eq!(
        format!("{}\n{}", gm.get_git_user().unwrap(), author),
        gm.get_formatted_gitmessage().unwrap()
    );

    gm.mob(&initials(&["ab", "cd"])).unwrap();

    let authors = "Co-authored-by: A B <ab@example.com>\nCo-authored-by: C D <cd@example.com>";

    assert_eq!(format!("\n\n{}", authors), gm.get_gitmessage().unwrap());
    assert_eq!(
        format!("{}\n{}", gm.get_git_user().unwrap(), authors),
        gm.get_formatted_gitmessage().unwrap()
    );
}

#[test]
fn main_test_mob_empty_authors() {
    let mut gm = git_mob_with(Coauthors::new());
    let r = gm.mob(&initials(&["ab"]));

    let expected = GitMobError::NotFound {
        initials: "ab".to_string(),
        path: gm.get_coauthors_path(),
    };
    assert_eq!(expected, r.unwrap_err());
    assert!(gm.get_gitmessage().is_err());
}

#[test]
fn main_test_mob_no_authors() {
    let mut gm = git_mob_with(Coauthors::new());

    let r = gm.mob(&initials(&["ab"]));

    let expected = format!(
        "Author with initials \"ab\" not found in {}!",
        gm.get_coauthors_path()
    );
    assert_eq!(expected, r.unwrap_err().message());
}

#[test]
fn mob_example_template() {
    let mut coauthors = Coauthors::new();
    coauthors.insert("ab".to_string(), author("A B", "ab@x.com"));
    coauthors.insert("cd".to_string(), author("C D", "cd@x.com"));
    let mut gm = git_mob_with(coauthors);

    gm.mob(&initials(&["ab", "cd"])).unwrap();

    assert_eq!(
        "\n\nCo-authored-by: A B <ab@x.com>\nCo-authored-by: C D <cd@x.com>",
        gm.get_gitmessage().unwrap()
    );
}

#[test]
fn mob_keeps_selection_order() {
    let mut gm = get_git_mob();

    let shown = gm.mob(&initials(&["cd", "ab"])).unwrap();

    assert_eq!(
        "Jane Doe <jane@example.com>\nCo-authored-by: C D <cd@example.com>\nCo-authored-by: A B <ab@example.com>",
        shown
    );
    assert_eq!("cd,ab\n", gm.get_gitinitials());
}

#[test]
fn empty_mob_after_mob_keeps_template() {
    let mut gm = get_git_mob();
    gm.mob(&initials(&["cd"])).unwrap();
    let before = gm.get_gitmessage().unwrap();

    gm.mob(&[]).unwrap();

    assert_eq!(before, gm.get_gitmessage().unwrap());
    assert_eq!("cd\n", gm.get_gitinitials());
}

#[test]
fn solo_after_mob_shows_identity_only() {
    let mut gm = get_git_mob();
    gm.mob(&initials(&["ab", "cd"])).unwrap();

    assert_eq!("Jane Doe <jane@example.com>", gm.solo().unwrap());
    assert_eq!("", gm.get_gitmessage().unwrap());
    assert_eq!("\n", gm.get_gitinitials());
}

#[test]
fn unknown_initial_writes_nothing() {
    let mut gm = get_git_mob();
    gm.mob(&initials(&["ab"])).unwrap();

    let err = gm.mob(&initials(&["cd", "zz", "yy"])).unwrap_err();

    assert_eq!(
        GitMobError::NotFound {
            initials: "zz".to_string(),
            path: COAUTHORS_PATH.to_string(),
        },
        err
    );
    assert_eq!(
        "\n\nCo-authored-by: A B <ab@example.com>",
        gm.get_gitmessage().unwrap()
    );
    assert_eq!("ab\n", gm.get_gitinitials());
}

#[test]
fn mob_sets_commit_template() {
    let mut gm = get_git_mob();
    gm.mob(&initials(&["ab"])).unwrap();

    let config = gm.file_actions.read(".git/config").unwrap();
    assert!(config.contains("template = .git/.gitmessage"));
    assert!(config.contains("repositoryformatversion = 0"));
}

#[test]
fn outside_a_repository() {
    let mut gm = GitMob::new(
        MockFileActions::new(),
        Coauthors::new(),
        COAUTHORS_PATH.to_string(),
        None,
    );

    assert_eq!(Err(GitMobError::NotARepository), gm.get_gitmessage_path());
    assert_eq!(Err(GitMobError::NotARepository), gm.get_gitinitials_path());
    assert_eq!(Err(GitMobError::NotARepository), gm.get_git_user());
    assert_eq!(Err(GitMobError::NotARepository), gm.solo());
    assert_eq!(Err(GitMobError::NotARepository), gm.mob(&initials(&["ab"])));
    assert_eq!("", gm.print_initials());
    assert_eq!(
        "Not in a git repository",
        GitMobError::NotARepository.message()
    );
}

#[test]
fn template_missing_before_first_mob() {
    let gm = get_git_mob();

    let err = gm.get_gitmessage().unwrap_err();

    assert!(matches!(err, GitMobError::NoTemplate(_)));
    assert!(err
        .message()
        .starts_with("Make sure to run 'git mob <initials>' first.\n\nError: "));
    assert_eq!("", gm.get_gitinitials());
}

#[test]
fn broken_git_config_is_reported() {
    let mut files = MockFileActions::new();
    files.write(".git/config", "[core\n").unwrap();
    let mut coauthors = Coauthors::new();
    coauthors.insert("ab".to_string(), author("A B", "ab@example.com"));
    let mut gm = GitMob::new(files, coauthors, COAUTHORS_PATH.to_string(), Some(repo()));

    assert_eq!(Err(GitMobError::Config), gm.mob(&initials(&["ab"])));
}

#[test]
fn missing_git_config_is_a_file_error() {
    let mut gm = GitMob::new(
        MockFileActions::new(),
        Coauthors::new(),
        COAUTHORS_PATH.to_string(),
        Some(repo()),
    );

    assert!(matches!(gm.solo(), Err(GitMobError::FileIO(_))));
}

#[test]
fn paths_in_git_directory() {
    let gm = get_git_mob();
    assert_eq!(".git/.gitmessage", gm.get_gitmessage_path().unwrap());
    assert_eq!(".git/.gitinitials", gm.get_gitinitials_path().unwrap());
    assert_eq!(COAUTHORS_PATH, gm.get_coauthors_path());
}

#[test]
fn writes_after_loading_are_handed_on_in_order() {
    let mut gm = get_git_mob();
    let loaded = gm.file_actions.write_count();
    assert_eq!(1, loaded);

    gm.mob(&initials(&["ab"])).unwrap();

    let written = gm.file_actions.writes_after(loaded);
    let paths: Vec<&str> = written.iter().map(|(p, _)| p.as_str()).collect();
    assert_eq!(vec![".git/.gitmessage", ".git/.gitinitials", ".git/config"], paths);
    assert_eq!("\n\nCo-authored-by: A B <ab@example.com>", written[0].1);
    assert_eq!("ab\n", written[1].1);

    // the configuration is not written again once it points at the template
    let before = gm.file_actions.write_count();
    gm.mob(&initials(&["cd"])).unwrap();
    assert_eq!(2, gm.file_actions.writes_after(before).len());
    assert!(gm.file_actions.writes_after(100).is_empty());
    assert_eq!(".git/config", gm.get_git_config_path().unwrap());
}
