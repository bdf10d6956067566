use crate::coauthors::{
    entry_view, entry_views, has_key, key_index, lemma_without_key, unique_keys, upsert,
    without_key, Author, Coauthors, EntryView,
};
use crate::file_actions::{agree_except, FileActions};
use crate::git_config::{config_after, set_git_template_config, template_settable};
use crate::message::{
    join, all_known, display_text, format_for_display, format_identity, format_initials, identity,
    initials_text, render, template_text, trim_of, views,
};
use crate::paths::{join_path, path_join};
use vstd::prelude::*;

verus! {

/// What is known of the enclosing git repository.
pub struct Repo {
    /// The repository's git directory, such as `.git`.
    pub git_dir: String,
    /// `user.name` from git's configuration, empty when unset.
    pub user_name: String,
    /// `user.email` from git's configuration, empty when unset.
    pub user_email: String,
}

/// Why an operation did not complete.
#[derive(Debug, PartialEq, Eq)]
pub enum GitMobError {
    /// The current directory is not inside a git repository.
    NotARepository,
    /// No author with these initials is in the roster at `path`.
    NotFound { initials: String, path: String },
    /// A file could not be read or written.
    FileIO(String),
    /// The message file could not be read.
    NoTemplate(String),
    /// The repository's configuration could not be parsed or changed.
    Config,
}

fn concat(a: &str, b: &str) -> (r: String)
    ensures
        r@ == a@ + b@,
{
    let mut r = a.to_owned();
    r.append(b);
    r
}

impl GitMobError {
    /// The text shown to the user.
    pub fn message(&self) -> (r: String)
        ensures
            r@ == match self {
                GitMobError::NotARepository => "Not in a git repository"@,
                GitMobError::NotFound { initials, path } => "Author with initials \""@ + initials@
                    + "\" not found in "@ + path@ + "!"@,
                GitMobError::FileIO(e) => e@,
                GitMobError::NoTemplate(e) => "Make sure to run 'git mob <initials>' first.\n\nError: "@
                    + e@,
                GitMobError::Config => "Could not set commit.template in the git configuration"@,
            },
    {
        match self {
            GitMobError::NotARepository => "Not in a git repository".to_owned(),
            GitMobError::NotFound { initials, path } => {
                let mut r = "Author with initials \"".to_owned();
                r.append(initials.as_str());
                r.append("\" not found in ");
                r.append(path.as_str());
                r.append("!");
                r
            },
            GitMobError::FileIO(e) => e.clone(),
            GitMobError::NoTemplate(e) => concat(
                "Make sure to run 'git mob <initials>' first.\n\nError: ",
                e.as_str(),
            ),
            GitMobError::Config => "Could not set commit.template in the git configuration".to_owned(),
        }
    }
}

/// The roster after removing each of `selection` in turn.
pub open spec fn remove_all(roster: Seq<EntryView>, selection: Seq<Seq<char>>) -> Seq<EntryView>
    decreases selection.len(),
{
    if selection.len() == 0 {
        roster
    } else {
        without_key(remove_all(roster, selection.drop_last()), selection.last())
    }
}

/// The report of a removal: one line per initial, whether it was there or not.
pub open spec fn removed_text(selection: Seq<Seq<char>>, path: Seq<char>) -> Seq<char>
    decreases selection.len(),
{
    if selection.len() == 0 {
        Seq::empty()
    } else {
        removed_text(selection.drop_last(), path) + selection.last() + ": has been removed from "@
            + path + "\n"@
    }
}

/// One line per roster entry: `initials Name <email>`, each ended by a newline
/// but the last, and a newline after all.
pub open spec fn list_text(roster: Seq<EntryView>) -> Seq<char> {
    join(roster.map_values(|e: EntryView| e.0 + " "@ + identity(e.1, e.2)), "\n"@) + "\n"@
}

proof fn lemma_remove_all_unique(roster: Seq<EntryView>, selection: Seq<Seq<char>>)
    requires
        unique_keys(roster),
    ensures
        unique_keys(remove_all(roster, selection)),
        (forall|i: int| 0 <= i < selection.len() ==> !has_key(roster, #[trigger] selection[i]))
            ==> remove_all(roster, selection) == roster,
    decreases selection.len(),
{
    if selection.len() > 0 {
        let rest = selection.drop_last();
        lemma_remove_all_unique(roster, rest);
        lemma_without_key(remove_all(roster, rest), selection.last());
        if forall|i: int| 0 <= i < selection.len() ==> !has_key(roster, #[trigger] selection[i]) {
            assert forall|i: int| 0 <= i < rest.len() implies !has_key(roster, #[trigger] rest[i]) by {
                assert(rest[i] == selection[i]);
            }
            assert(!has_key(roster, selection[selection.len() - 1]));
        }
    }
}

/// Two file maps that agree on every path but `p1`, `p2` and `p3`.
pub open spec fn agree_outside(
    a: Map<Seq<char>, Seq<char>>,
    b: Map<Seq<char>, Seq<char>>,
    p1: Seq<char>,
    p2: Seq<char>,
    p3: Seq<char>,
) -> bool {
    forall|q: Seq<char>|
        q != p1 && q != p2 && q != p3 ==> (#[trigger] a.contains_key(q) == b.contains_key(q) && (
        a.contains_key(q) ==> a[q] == b[q]))
}

proof fn lemma_agree_step(
    a: Map<Seq<char>, Seq<char>>,
    b: Map<Seq<char>, Seq<char>>,
    c: Map<Seq<char>, Seq<char>>,
    p: Seq<char>,
    p1: Seq<char>,
    p2: Seq<char>,
    p3: Seq<char>,
)
    requires
        agree_outside(b, a, p1, p2, p3),
        agree_except(c, b, p),
        p == p1 || p == p2 || p == p3,
    ensures
        agree_outside(c, a, p1, p2, p3),
{
    assert forall|q: Seq<char>| q != p1 && q != p2 && q != p3 implies (#[trigger] c.contains_key(q)
        == a.contains_key(q) && (c.contains_key(q) ==> c[q] == a[q])) by {
        assert(c.contains_key(q) == b.contains_key(q));
        assert(b.contains_key(q) == a.contains_key(q));
    }
}

/// The three files kept in the git directory have different paths.
proof fn lemma_paths_distinct(d: Seq<char>)
    ensures
        path_join(d, ".gitmessage"@) != path_join(d, ".gitinitials"@),
        path_join(d, ".gitmessage"@) != path_join(d, "config"@),
        path_join(d, ".gitinitials"@) != path_join(d, "config"@),
{
    reveal_strlit(".gitmessage");
    reveal_strlit(".gitinitials");
    reveal_strlit("config");
    reveal_strlit("/");
    assert(path_join(d, ".gitmessage"@).len() != path_join(d, ".gitinitials"@).len());
    assert(path_join(d, ".gitmessage"@).len() != path_join(d, "config"@).len());
    assert(path_join(d, ".gitinitials"@).len() != path_join(d, "config"@).len());
}

/// Choosing no co-authors writes no file, so the template read afterwards is
/// the one stored before: an empty mob does not go solo.
pub proof fn lemma_empty_mob_keeps_template<T: FileActions>(before: GitMob<T>, after: GitMob<T>)
    requires
        after.same_setting(&before),
        after.files() == before.files(),
    ensures
        after.template() == before.template(),
{
}

/// The tool's state: where files are read and written, the roster, where the
/// roster lives, and the repository the current directory is in, if any.
pub struct GitMob<T: FileActions> {
    pub file_actions: T,
    pub coauthors: Coauthors,
    pub coauthors_path: String,
    pub repo: Option<Repo>,
}

impl<T: FileActions> GitMob<T> {
    pub open spec fn files(&self) -> Map<Seq<char>, Seq<char>> {
        self.file_actions.files()
    }

    pub open spec fn message_path(&self) -> Seq<char> {
        path_join(self.repo->0.git_dir@, ".gitmessage"@)
    }

    pub open spec fn initials_path(&self) -> Seq<char> {
        path_join(self.repo->0.git_dir@, ".gitinitials"@)
    }

    pub open spec fn config_path(&self) -> Seq<char> {
        path_join(self.repo->0.git_dir@, "config"@)
    }

    /// The identity line: `Name <email>`.
    pub open spec fn user_line(&self) -> Seq<char> {
        identity(self.repo->0.user_name@, self.repo->0.user_email@)
    }

    /// The stored template, if there is one.
    pub open spec fn template(&self) -> Option<Seq<char>> {
        if self.files().contains_key(self.message_path()) {
            Some(self.files()[self.message_path()])
        } else {
            None
        }
    }

    /// The text of the repository's configuration file.
    pub open spec fn config_text(&self) -> Seq<char> {
        self.files()[self.config_path()]
    }

    /// The repository's files can be brought up to date: the store does not
    /// fail, the configuration file is there, and `commit.template` can be
    /// pointed at the message file in it.
    pub open spec fn can_update(&self) -> bool {
        &&& self.file_actions.reliable()
        &&& self.repo is Some
        &&& self.files().contains_key(self.config_path())
        &&& template_settable(self.config_text())
    }

    /// What is shown: the identity line, then the stored template without
    /// its surrounding whitespace when that is not empty.
    pub open spec fn shown(&self) -> Seq<char> {
        display_text(self.user_line(), trim_of(self.template()->0))
    }

    /// The files of `before` with the template and the selection stored and
    /// `commit.template` pointing at the message file.
    pub open spec fn stored(&self, template: Seq<char>, selection: Seq<char>) -> Map<
        Seq<char>,
        Seq<char>,
    > {
        self.files().insert(self.message_path(), template).insert(
            self.initials_path(),
            selection,
        ).insert(self.config_path(), config_after(self.config_text()))
    }

    /// All but the files are the same in `self` and `other`.
    pub open spec fn same_setting(&self, other: &GitMob<T>) -> bool {
        &&& self.coauthors == other.coauthors
        &&& self.coauthors_path == other.coauthors_path
        &&& self.repo == other.repo
    }

    pub fn new(file_actions: T, coauthors: Coauthors, coauthors_path: String, repo: Option<Repo>) -> (r:
        GitMob<T>)
        ensures
            r.file_actions == file_actions,
            r.coauthors == coauthors,
            r.coauthors_path == coauthors_path,
            r.repo == repo,
    {
        GitMob { file_actions, coauthors, coauthors_path, repo }
    }

    /// The path of the roster file.
    pub fn get_coauthors_path(&self) -> (r: String)
        ensures
            r@ == self.coauthors_path@,
    {
        self.coauthors_path.clone()
    }

    fn git_dir(&self) -> (r: Result<&str, GitMobError>)
        ensures
            r is Ok <==> self.repo is Some,
            r is Ok ==> r->Ok_0@ == self.repo->0.git_dir@,
            r is Err ==> r->Err_0 == GitMobError::NotARepository,
    {
        match &self.repo {
            Some(repo) => Ok(repo.git_dir.as_str()),
            None => Err(GitMobError::NotARepository),
        }
    }

    /// The path of the commit message template in the git directory.
    pub fn get_gitmessage_path(&self) -> (r: Result<String, GitMobError>)
        ensures
            r is Ok <==> self.repo is Some,
            r is Ok ==> r->Ok_0@ == self.message_path(),
            r is Err ==> r->Err_0 == GitMobError::NotARepository,
    {
        let dir = self.git_dir()?;
        Ok(join_path(dir, ".gitmessage"))
    }

    /// The path of the file that remembers the last selection.
    pub fn get_gitinitials_path(&self) -> (r: Result<String, GitMobError>)
        ensures
            r is Ok <==> self.repo is Some,
            r is Ok ==> r->Ok_0@ == self.initials_path(),
            r is Err ==> r->Err_0 == GitMobError::NotARepository,
    {
        let dir = self.git_dir()?;
        Ok(join_path(dir, ".gitinitials"))
    }

    /// The path of the repository's local configuration file.
    pub fn get_git_config_path(&self) -> (r: Result<String, GitMobError>)
        ensures
            r is Ok <==> self.repo is Some,
            r is Ok ==> r->Ok_0@ == self.config_path(),
            r is Err ==> r->Err_0 == GitMobError::NotARepository,
    {
        let dir = self.git_dir()?;
        Ok(join_path(dir, "config"))
    }

    /// The current git user: `Name <email>`.
    pub fn get_git_user(&self) -> (r: Result<String, GitMobError>)
        ensures
            r is Ok <==> self.repo is Some,
            r is Ok ==> r->Ok_0@ == self.user_line(),
            r is Err ==> r->Err_0 == GitMobError::NotARepository,
    {
        match &self.repo {
            Some(repo) => Ok(format_identity(repo.user_name.as_str(), repo.user_email.as_str())),
            None => Err(GitMobError::NotARepository),
        }
    }

    /// Points the repository's `commit.template` at the message file; the
    /// configuration is written only when it does not already.
    pub fn set_git_template(&mut self) -> (r: Result<(), GitMobError>)
        ensures
            final(self).same_setting(old(self)),
            old(self).file_actions.reliable() ==> final(self).file_actions.reliable(),
            old(self).repo is None ==> r == Err::<(), GitMobError>(GitMobError::NotARepository)
                && final(self).files() == old(self).files(),
            agree_except(final(self).files(), old(self).files(), old(self).config_path()),
            r is Ok ==> old(self).files().contains_key(old(self).config_path()) && template_settable(
                old(self).config_text(),
            ) && final(self).files() == old(self).files().insert(
                old(self).config_path(),
                config_after(old(self).config_text()),
            ),
            r == Err::<(), GitMobError>(GitMobError::Config) ==> old(self).files().contains_key(
                old(self).config_path(),
            ) && !template_settable(old(self).config_text()),
            old(self).can_update() ==> r is Ok,
            old(self).file_actions.reliable() && old(self).repo is Some && old(
                self,
            ).files().contains_key(old(self).config_path()) && !template_settable(
                old(self).config_text(),
            ) ==> r == Err::<(), GitMobError>(GitMobError::Config),
            old(self).file_actions.reliable() && old(self).repo is Some && !old(
                self,
            ).files().contains_key(old(self).config_path()) ==> r matches Err(GitMobError::FileIO(_)),
            r is Err ==> r->Err_0 is NotARepository || r->Err_0 is FileIO || r->Err_0 is Config,
    {
        let path = self.get_git_config_path()?;
        let text = match self.file_actions.read(path.as_str()) {
            Ok(t) => t,
            Err(e) => {
                return Err(GitMobError::FileIO(e));
            },
        };
        match set_git_template_config(text.as_str()) {
            Err(()) => Err(GitMobError::Config),
            Ok(None) => {
                proof {
                    assert(self.files().insert(path@, text@) =~= self.files());
                }
                Ok(())
            },
            Ok(Some(new_text)) => match self.file_actions.write(path.as_str(), new_text.as_str()) {
                Ok(()) => Ok(()),
                Err(e) => Err(GitMobError::FileIO(e)),
            },
        }
    }

    /// Renders the template for `initials` from the roster and stores it,
    /// with the selection, in the git directory; then sets
    /// `commit.template`. No initials store an empty template. Nothing is
    /// written when an initial is not in the roster; the first such initial
    /// is reported.
    pub fn write_gitmessage(&mut self, initials: &[String]) -> (r: Result<(), GitMobError>)
        ensures
            final(self).same_setting(old(self)),
            old(self).file_actions.reliable() ==> final(self).file_actions.reliable(),
            old(self).repo is None ==> r == Err::<(), GitMobError>(GitMobError::NotARepository)
                && final(self).files() == old(self).files(),
            agree_outside(
                final(self).files(),
                old(self).files(),
                old(self).message_path(),
                old(self).initials_path(),
                old(self).config_path(),
            ),
            r is Ok ==> old(self).repo is Some && all_known(views(initials@), old(self).coauthors@),
            old(self).repo is Some && !all_known(views(initials@), old(self).coauthors@) ==> {
                &&& r is Err
                &&& r->Err_0 is NotFound
                &&& final(self).files() == old(self).files()
            },
            r matches Err(GitMobError::NotFound { initials: k, path: p }) ==> {
                &&& p@ == old(self).coauthors_path@
                &&& !has_key(old(self).coauthors@, k@)
                &&& exists|i: int|
                    0 <= i < initials@.len() && #[trigger] initials@[i]@ == k@ && all_known(
                        views(initials@).subrange(0, i),
                        old(self).coauthors@,
                    )
            },
            r is Ok ==> final(self).files() == old(self).stored(
                template_text(views(initials@), old(self).coauthors@),
                initials_text(views(initials@)),
            ),
            old(self).can_update() && all_known(views(initials@), old(self).coauthors@) ==> r is Ok,
            old(self).file_actions.reliable() && old(self).repo is Some && all_known(
                views(initials@),
                old(self).coauthors@,
            ) && old(self).files().contains_key(old(self).config_path()) && !template_settable(
                old(self).config_text(),
            ) ==> r == Err::<(), GitMobError>(GitMobError::Config),
    {
        let dir = self.git_dir()?;
        let text = match render(initials, &self.coauthors) {
            Ok(t) => t,
            Err(k) => {
                return Err(GitMobError::NotFound { initials: k, path: self.coauthors_path.clone() });
            },
        };
        let line = format_initials(initials);
        let message_path = join_path(dir, ".gitmessage");
        let initials_path = join_path(dir, ".gitinitials");
        let ghost f0 = self.files();
        let ghost m = self.message_path();
        let ghost ip = self.initials_path();
        let ghost cp = self.config_path();
        proof {
            lemma_paths_distinct(self.repo->0.git_dir@);
            assert(agree_outside(f0, f0, m, ip, cp));
        }
        if let Err(e) = self.file_actions.write(message_path.as_str(), text.as_str()) {
            proof {
                lemma_agree_step(f0, f0, self.files(), m, m, ip, cp);
            }
            return Err(GitMobError::FileIO(e));
        }
        let ghost f1 = self.files();
        proof {
            lemma_agree_step(f0, f0, f1, m, m, ip, cp);
        }
        if let Err(e) = self.file_actions.write(initials_path.as_str(), line.as_str()) {
            proof {
                lemma_agree_step(f0, f1, self.files(), ip, m, ip, cp);
            }
            return Err(GitMobError::FileIO(e));
        }
        let ghost f2 = self.files();
        proof {
            lemma_agree_step(f0, f1, f2, ip, m, ip, cp);
            assert(f2.contains_key(cp) == f0.contains_key(cp));
            if f0.contains_key(cp) {
                assert(f2[cp] == f0[cp]);
            }
        }
        let r = self.set_git_template();
        proof {
            lemma_agree_step(f0, f2, self.files(), cp, m, ip, cp);
            if r is Ok {
                assert(self.files() =~= old(self).stored(text@, line@));
            }
        }
        r
    }

    /// The stored template.
    pub fn get_gitmessage(&self) -> (r: Result<String, GitMobError>)
        ensures
            self.repo is None ==> r == Err::<String, GitMobError>(GitMobError::NotARepository),
            r is Ok ==> self.repo is Some && self.template() == Some(r->Ok_0@),
            r is Err ==> r->Err_0 is NotARepository || r->Err_0 is NoTemplate,
            self.file_actions.reliable() && self.repo is Some ==> (r is Ok <==> self.template() is Some),
    {
        let path = self.get_gitmessage_path()?;
        match self.file_actions.read(path.as_str()) {
            Ok(s) => Ok(s),
            Err(e) => Err(GitMobError::NoTemplate(e)),
        }
    }

    /// The remembered selection, or an empty string outside a repository or
    /// before the first selection.
    pub fn get_gitinitials(&self) -> (r: String)
        ensures
            self.repo is None ==> r@.len() == 0,
            r@.len() == 0 || (self.files().contains_key(self.initials_path())
                && self.files()[self.initials_path()] == r@),
            self.file_actions.reliable() && self.repo is Some ==> r@ == if self.files().contains_key(
                self.initials_path(),
            ) {
                self.files()[self.initials_path()]
            } else {
                Seq::<char>::empty()
            },
    {
        match self.get_gitinitials_path() {
            Err(_) => String::new(),
            Ok(path) => match self.file_actions.read(path.as_str()) {
                Ok(s) => s,
                Err(_) => String::new(),
            },
        }
    }

    /// The identity line, then the stored template without its surrounding
    /// whitespace when that is not empty.
    pub fn get_formatted_gitmessage(&self) -> (r: Result<String, GitMobError>)
        ensures
            self.repo is None ==> r == Err::<String, GitMobError>(GitMobError::NotARepository),
            r is Ok ==> self.repo is Some && self.template() is Some && r->Ok_0@ == self.shown(),
            r is Ok && self.template() == Some(Seq::<char>::empty()) ==> r->Ok_0@
                == self.user_line(),
            self.file_actions.reliable() && self.repo is Some ==> (r is Ok <==> self.template() is Some),
            r is Err ==> r->Err_0 is NotARepository || r->Err_0 is NoTemplate,
    {
        let user = self.get_git_user()?;
        let message = self.get_gitmessage()?;
        Ok(format_for_display(user.as_str(), message.as_str()))
    }

    /// Selects the co-authors to mob with and shows the result. No initials
    /// change nothing (they do not go solo): the stored template is shown.
    pub fn mob(&mut self, initials: &[String]) -> (r: Result<String, GitMobError>)
        ensures
            final(self).same_setting(old(self)),
            old(self).file_actions.reliable() ==> final(self).file_actions.reliable(),
            old(self).repo is None ==> r == Err::<String, GitMobError>(GitMobError::NotARepository),
            initials@.len() == 0 ==> final(self).files() == old(self).files(),
            agree_outside(
                final(self).files(),
                old(self).files(),
                old(self).message_path(),
                old(self).initials_path(),
                old(self).config_path(),
            ),
            old(self).repo is Some && !all_known(views(initials@), old(self).coauthors@) ==> {
                &&& r is Err
                &&& r->Err_0 is NotFound
                &&& final(self).files() == old(self).files()
            },
            r matches Err(GitMobError::NotFound { initials: k, path: p }) ==> {
                &&& p@ == old(self).coauthors_path@
                &&& !has_key(old(self).coauthors@, k@)
                &&& exists|i: int|
                    0 <= i < initials@.len() && #[trigger] initials@[i]@ == k@ && all_known(
                        views(initials@).subrange(0, i),
                        old(self).coauthors@,
                    )
            },
            r is Ok && initials@.len() > 0 ==> final(self).files() == old(self).stored(
                template_text(views(initials@), old(self).coauthors@),
                initials_text(views(initials@)),
            ),
            r is Ok ==> final(self).template() is Some && r->Ok_0@ == final(self).shown(),
            initials@.len() == 0 && old(self).file_actions.reliable() && old(self).repo is Some ==> (r is Ok
                <==> old(self).template() is Some),
            initials@.len() > 0 && old(self).can_update() && all_known(
                views(initials@),
                old(self).coauthors@,
            ) ==> r is Ok,
    {
        if initials.len() > 0 {
            self.write_gitmessage(initials)?;
        }
        self.get_formatted_gitmessage()
    }

    /// Goes back to committing alone: the template is emptied, the
    /// selection forgotten, and only the identity line is shown.
    pub fn solo(&mut self) -> (r: Result<String, GitMobError>)
        ensures
            final(self).same_setting(old(self)),
            old(self).file_actions.reliable() ==> final(self).file_actions.reliable(),
            old(self).repo is None ==> r == Err::<String, GitMobError>(GitMobError::NotARepository),
            agree_outside(
                final(self).files(),
                old(self).files(),
                old(self).message_path(),
                old(self).initials_path(),
                old(self).config_path(),
            ),
            r is Ok ==> final(self).files() == old(self).stored(Seq::empty(), "\n"@),
            r is Ok ==> final(self).template() == Some(Seq::<char>::empty()),
            r is Ok ==> r->Ok_0@ == old(self).user_line(),
            old(self).can_update() ==> r is Ok,
    {
        let none: Vec<String> = Vec::new();
        proof {
            assert(views(none@) =~= Seq::<Seq<char>>::empty());
            assert(initials_text(views(none@)) =~= "\n"@);
        }
        self.write_gitmessage(none.as_slice())?;
        proof {
            lemma_paths_distinct(self.repo->0.git_dir@);
        }
        self.get_formatted_gitmessage()
    }

    /// The stored template followed by a newline.
    pub fn print(&self) -> (r: Result<String, GitMobError>)
        ensures
            self.repo is None ==> r == Err::<String, GitMobError>(GitMobError::NotARepository),
            r is Ok ==> self.template() is Some && r->Ok_0@ == self.template()->0 + "\n"@,
            self.file_actions.reliable() && self.repo is Some ==> (r is Ok <==> self.template() is Some),
    {
        let message = self.get_gitmessage()?;
        Ok(concat(message.as_str(), "\n"))
    }

    /// The remembered selection, as for a shell prompt.
    pub fn print_initials(&self) -> (r: String)
        ensures
            self.repo is None ==> r@.len() == 0,
            r@.len() == 0 || (self.files().contains_key(self.initials_path())
                && self.files()[self.initials_path()] == r@),
            self.file_actions.reliable() && self.repo is Some ==> r@ == if self.files().contains_key(
                self.initials_path(),
            ) {
                self.files()[self.initials_path()]
            } else {
                Seq::<char>::empty()
            },
    {
        self.get_gitinitials()
    }

    /// Adds or replaces a co-author in the roster.
    pub fn add(&mut self, initials: &str, name: &str, email: &str) -> (r: String)
        requires
            old(self).coauthors.wf(),
        ensures
            final(self).coauthors@ == upsert(old(self).coauthors@, (initials@, name@, email@)),
            final(self).coauthors.wf(),
            final(self).file_actions == old(self).file_actions,
            final(self).coauthors_path == old(self).coauthors_path,
            final(self).repo == old(self).repo,
            r@ == name@ + " has been added to the "@ + old(self).coauthors_path@ + " file"@,
    {
        let author = Author { name: name.to_owned(), email: email.to_owned() };
        self.coauthors.insert(initials.to_owned(), author);
        let mut r = name.to_owned();
        r.append(" has been added to the ");
        r.append(self.coauthors_path.as_str());
        r.append(" file");
        r
    }

    /// Removes co-authors from the roster. Initials that are not there are
    /// passed over, and reported as removed all the same.
    pub fn delete(&mut self, initials: &[String]) -> (r: String)
        requires
            old(self).coauthors.wf(),
        ensures
            final(self).coauthors@ == remove_all(old(self).coauthors@, views(initials@)),
            final(self).coauthors.wf(),
            (forall|i: int|
                0 <= i < initials@.len() ==> !has_key(old(self).coauthors@, #[trigger] initials@[i]@))
                ==> final(self).coauthors@ == old(self).coauthors@,
            final(self).file_actions == old(self).file_actions,
            final(self).coauthors_path == old(self).coauthors_path,
            final(self).repo == old(self).repo,
            r@ == removed_text(views(initials@), old(self).coauthors_path@),
    {
        let ghost sel = views(initials@);
        let ghost start = self.coauthors@;
        let mut r = String::new();
        let mut i: usize = 0;
        while i < initials.len()
            invariant
                i <= initials@.len(),
                sel == views(initials@),
                unique_keys(start),
                self.coauthors.wf(),
                self.coauthors@ == remove_all(start, sel.subrange(0, i as int)),
                r@ == removed_text(sel.subrange(0, i as int), self.coauthors_path@),
                self.file_actions == old(self).file_actions,
                self.coauthors_path == old(self).coauthors_path,
                self.repo == old(self).repo,
            decreases initials@.len() - i,
        {
            proof {
                let sub = sel.subrange(0, i as int + 1);
                assert(sub.drop_last() =~= sel.subrange(0, i as int));
            }
            self.coauthors.remove(initials[i].as_str());
            r.append(initials[i].as_str());
            r.append(": has been removed from ");
            r.append(self.coauthors_path.as_str());
            r.append("\n");
            i = i + 1;
        }
        proof {
            assert(sel.subrange(0, i as int) =~= sel);
            lemma_remove_all_unique(start, sel);
            if forall|j: int|
                0 <= j < initials@.len() ==> !has_key(start, #[trigger] initials@[j]@) {
                assert forall|j: int| 0 <= j < sel.len() implies !has_key(start, #[trigger] sel[j]) by {
                    assert(sel[j] == initials@[j]@);
                }
            }
        }
        r
    }

    /// Changes the name and/or the email of a co-author in place. Fails,
    /// changing nothing, when the initials are not in the roster.
    pub fn edit(&mut self, initials: &str, name: Option<String>, email: Option<String>) -> (r: Result<
        String,
        GitMobError,
    >)
        requires
            old(self).coauthors.wf(),
        ensures
            final(self).coauthors.wf(),
            final(self).file_actions == old(self).file_actions,
            final(self).coauthors_path == old(self).coauthors_path,
            final(self).repo == old(self).repo,
            r is Ok <==> has_key(old(self).coauthors@, initials@),
            r is Ok ==> r->Ok_0@ == initials@ + " has been updated"@,
            r is Err ==> final(self).coauthors@ == old(self).coauthors@,
            r is Err ==> r->Err_0 is NotFound && r->Err_0->NotFound_initials@ == initials@
                && r->Err_0->NotFound_path@ == old(self).coauthors_path@,
            r is Ok ==> final(self).coauthors@ == old(self).coauthors@.update(
                key_index(old(self).coauthors@, initials@),
                (
                    initials@,
                    match name {
                        Some(n) => n@,
                        None => old(self).coauthors@[key_index(old(self).coauthors@, initials@)].1,
                    },
                    match email {
                        Some(e) => e@,
                        None => old(self).coauthors@[key_index(old(self).coauthors@, initials@)].2,
                    },
                ),
            ),
    {
        if self.coauthors.update(initials, name, email) {
            Ok(concat(initials, " has been updated"))
        } else {
            Err(GitMobError::NotFound { initials: initials.to_owned(), path: self.coauthors_path.clone() })
        }
    }

    /// Every co-author of the roster, one per line.
    pub fn list(&self) -> (r: String)
        ensures
            r@ == list_text(self.coauthors@),
    {
        let entries = self.coauthors.entries();
        let ghost es = self.coauthors@;
        let ghost lines = es.map_values(|e: EntryView| e.0 + " "@ + identity(e.1, e.2));
        let mut r = String::new();
        let mut i: usize = 0;
        while i < entries.len()
            invariant
                i <= entries@.len(),
                entry_views(entries@) == es,
                lines == es.map_values(|e: EntryView| e.0 + " "@ + identity(e.1, e.2)),
                r@ == join(lines.subrange(0, i as int), "\n"@),
            decreases entries@.len() - i,
        {
            proof {
                let sub = lines.subrange(0, i as int + 1);
                assert(sub.drop_last() =~= lines.subrange(0, i as int));
                assert(es[i as int] == entry_view(entries@[i as int]));
            }
            if i > 0 {
                r.append("\n");
            }
            r.append(entries[i].0.as_str());
            r.append(" ");
            let id = format_identity(entries[i].1.name.as_str(), entries[i].1.email.as_str());
            r.append(id.as_str());
            i = i + 1;
        }
        proof {
            assert(lines.subrange(0, i as int) =~= lines);
        }
        r.append("\n");
        r
    }
}

} // verus!
