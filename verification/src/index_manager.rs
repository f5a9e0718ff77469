//! The index: where a crate's file lies, what it holds after a change, and
//! what the registry tells git about the change.
//!
//! The host reads and writes the files and runs git; what is written and
//! said is decided here.

use crate::config::IndexConfig;
use crate::error::{Error, ErrorView};
use crate::models::{Package, PackageView};
use crate::names::{index_dir, lower_case, lower_name, package_dir_path};
use crate::text::{chars_of, string_of};
use crate::version::Version;
use vstd::prelude::*;
use vstd::string::StringExecFns;

verus! {

/// The file of the index that holds the lines of the crate `name`,
/// relative to the root of the index: the crate's directory, then the name
/// in lower case.
pub open spec fn index_file(name: Seq<char>) -> Seq<char> {
    index_dir(name) + "/"@ + lower_name(name)
}

/// The file of the index that holds the lines of the crate `name`, relative
/// to the root of the index. An empty name has no file.
pub fn index_file_path(name: &str) -> (r: Result<String, Error>)
    ensures
        name@.len() == 0 <==> r is Err,
        r matches Err(e) ==> e@ == ErrorView::CrateNameNotDefined,
        r matches Ok(path) ==> path@ == index_file(name@),
{
    match package_dir_path(name) {
        Err(e) => Err(e),
        Ok(dir) => {
            let mut path = dir;
            path.append("/");
            path.append(lower_case(name).as_str());
            Ok(path)
        },
    }
}

/// A line without the carriage return that ends it, if one does.
pub open spec fn without_return(line: Seq<char>) -> Seq<char> {
    if line.len() > 0 && line.last() == '\r' {
        line.drop_last()
    } else {
        line
    }
}

/// The first line feed of `text` stands at `i`.
pub open spec fn first_feed_at(text: Seq<char>, i: int) -> bool {
    &&& 0 <= i < text.len()
    &&& text[i] == '\n'
    &&& forall|k: int| 0 <= k < i ==> text[k] != '\n'
}

/// The lines of `text`, as `str::lines` gives them: a line ends at a line
/// feed, which is not part of it, nor is a carriage return just before the
/// line feed; what follows the last line feed is a line unless it is empty.
pub open spec fn lines_of(text: Seq<char>) -> Seq<Seq<char>>
    decreases text.len(),
{
    if text.len() == 0 {
        Seq::empty()
    } else if exists|i: int| first_feed_at(text, i) {
        let i = choose|i: int| first_feed_at(text, i);
        seq![without_return(text.take(i))] + lines_of(text.skip(i + 1))
    } else {
        seq![text]
    }
}

/// `lines` with a line feed between each two.
pub open spec fn joined(lines: Seq<Seq<char>>) -> Seq<char>
    decreases lines.len(),
{
    if lines.len() == 0 {
        Seq::empty()
    } else if lines.len() == 1 {
        lines[0]
    } else {
        joined(lines.drop_last()) + seq!['\n'] + lines.last()
    }
}

/// The lines of `text` begin with the line up to its first line feed.
proof fn lemma_first_line(text: Seq<char>, i: int)
    requires
        first_feed_at(text, i),
    ensures
        lines_of(text) == seq![without_return(text.take(i))] + lines_of(text.skip(i + 1)),
{
    let j = choose|j: int| first_feed_at(text, j);
    assert(j == i) by {
        if j < i {
            assert(text[j] != '\n');
        } else if i < j {
            assert(text[i] != '\n');
        }
    }
}

/// The lines of `content`.
pub fn split_lines(content: &str) -> (lines: Vec<String>)
    ensures
        lines.deep_view() == lines_of(content@),
{
    let chars = chars_of(content);
    let ghost text = chars@;
    let mut lines: Vec<String> = Vec::new();
    let mut current: Vec<char> = Vec::new();
    let mut start: usize = 0;
    let mut i: usize = 0;
    assert(text.skip(0) =~= text);
    assert(lines.deep_view() + lines_of(text.skip(0)) =~= lines_of(text));
    assert(text.subrange(0, 0) =~= Seq::<char>::empty());
    while i < chars.len()
        invariant
            start <= i <= chars.len(),
            text == chars@,
            text == content@,
            lines.deep_view() + lines_of(text.skip(start as int)) == lines_of(text),
            current@ == text.subrange(start as int, i as int),
            forall|k: int| start <= k < i ==> text[k] != '\n',
        decreases chars.len() - i,
    {
        let c = chars[i];
        if c == '\n' {
            let ghost rest = text.skip(start as int);
            let ghost done = lines.deep_view();
            let ghost line = without_return(rest.take(i - start));
            proof {
                assert(first_feed_at(rest, i - start));
                lemma_first_line(rest, i - start);
                assert(rest.take(i - start) =~= current@);
                assert(rest.skip(i - start + 1) =~= text.skip(i + 1));
            }
            if current.len() > 0 && current[current.len() - 1] == '\r' {
                let ghost whole = current@;
                current.pop();
                assert(current@ =~= without_return(whole));
            }
            lines.push(string_of(&current));
            current = Vec::new();
            start = i + 1;
            proof {
                assert(lines.deep_view() =~= done + seq![line]);
                assert((done + seq![line]) + lines_of(text.skip(i + 1)) =~= done + (seq![line]
                    + lines_of(text.skip(i + 1))));
                assert(text.subrange(start as int, start as int) =~= Seq::<char>::empty());
            }
        } else {
            current.push(c);
            assert(current@ =~= text.subrange(start as int, i + 1));
        }
        i += 1;
    }
    let ghost rest = text.skip(start as int);
    let ghost done = lines.deep_view();
    assert(rest =~= current@);
    if current.len() > 0 {
        proof {
            assert(!(exists|k: int| first_feed_at(rest, k))) by {
                if exists|k: int| first_feed_at(rest, k) {
                    let k = choose|k: int| first_feed_at(rest, k);
                    assert(text[start + k] == '\n');
                }
            }
            assert(lines_of(rest) == seq![rest]);
        }
        lines.push(string_of(&current));
        assert(lines.deep_view() =~= done + seq![rest]);
    } else {
        assert(lines_of(rest) =~= Seq::<Seq<char>>::empty());
        assert(done + lines_of(rest) =~= done);
    }
    lines
}

/// `lines` with a line feed between each two.
pub fn join_lines(lines: &Vec<String>) -> (content: String)
    ensures
        content@ == joined(lines.deep_view()),
{
    let ghost all = lines.deep_view();
    let mut content = String::new();
    let mut i: usize = 0;
    assert(all.take(0) =~= Seq::empty());
    while i < lines.len()
        invariant
            i <= lines.len(),
            all == lines.deep_view(),
            content@ == joined(all.take(i as int)),
        decreases lines.len() - i,
    {
        assert(all.take(i + 1).drop_last() =~= all.take(i as int));
        assert(all.take(i + 1).last() == lines@[i as int]@);
        if i > 0 {
            content.append("\n");
            proof {
                reveal_strlit("\n");
                assert("\n"@ =~= seq!['\n']);
            }
        } else {
            assert(all.take(1)[0] == lines@[0]@);
            assert(content@ + lines@[0]@ =~= lines@[0]@);
        }
        content.append(lines[i].as_str());
        i += 1;
    }
    assert(all.take(i as int) == all);
    content
}

/// What the file of a crate holds after `line` was added to it: the lines
/// it held, then `line`, with a line feed between each two.
pub open spec fn with_line(content: Seq<char>, line: Seq<char>) -> Seq<char> {
    joined(lines_of(content).push(line))
}

/// What the file of a crate holds after `line` was added to what it held.
pub fn append_line(content: &str, line: &str) -> (updated: String)
    ensures
        updated@ == with_line(content@, line@),
{
    let mut lines = split_lines(content);
    let ghost before = lines.deep_view();
    lines.push(line.to_owned());
    assert(lines.deep_view() =~= before.push(line@));
    join_lines(&lines)
}

/// `line` as it stands after the version `vers` was marked as yanked, or
/// as not yanked: a line of that version carries the mark, any other line
/// is unchanged.
pub open spec fn marked(line: PackageView, vers: Seq<char>, yanked: bool) -> PackageView {
    if line.vers == vers {
        PackageView { yanked, ..line }
    } else {
        line
    }
}

/// The lines of a crate after the version `vers` was marked as yanked, or
/// as not yanked: the same lines in the same places, those of that version
/// with the mark.
pub open spec fn with_mark(
    lines: Seq<PackageView>,
    vers: Seq<char>,
    yanked: bool,
) -> Seq<PackageView> {
    lines.map_values(|line: PackageView| marked(line, vers, yanked))
}

/// Marks the lines of `version` among `packages` as yanked, or as not
/// yanked.
pub fn change_yanked(packages: &mut Vec<Package>, version: &Version, yanked: bool)
    ensures
        final(packages).deep_view() == with_mark(old(packages).deep_view(), version@, yanked),
{
    let ghost before = packages.deep_view();
    let mut i: usize = 0;
    while i < packages.len()
        invariant
            i <= packages.len(),
            packages.len() == before.len(),
            forall|k: int| 0 <= k < i ==> (#[trigger] packages@[k])@ == marked(before[k], version@, yanked),
            forall|k: int| i <= k < packages.len() ==> (#[trigger] packages@[k])@ == before[k],
        decreases packages.len() - i,
    {
        if packages[i].vers.same(version) {
            packages[i].yanked = yanked;
        }
        i += 1;
    }
    assert(packages.deep_view() =~= with_mark(before, version@, yanked));
}

/// After the lines of a version were marked, each of them carries the
/// mark, and every other line is as it was.
pub proof fn lemma_lines_are_marked(lines: Seq<PackageView>, vers: Seq<char>, yanked: bool)
    ensures
        with_mark(lines, vers, yanked).len() == lines.len(),
        forall|i: int|
            0 <= i < lines.len() ==> (#[trigger] with_mark(lines, vers, yanked)[i]) == (if lines[i].vers
                == vers {
                PackageView { yanked, ..lines[i] }
            } else {
                lines[i]
            }),
{
}

/// Marking a version as yanked and then as not yanked leaves every line as
/// it was, where no line of that version was yanked before; and likewise
/// the other way round.
pub proof fn lemma_mark_round_trip(lines: Seq<PackageView>, vers: Seq<char>, yanked: bool)
    requires
        forall|i: int| 0 <= i < lines.len() && (#[trigger] lines[i]).vers == vers ==> lines[i].yanked == !yanked,
    ensures
        with_mark(with_mark(lines, vers, yanked), vers, !yanked) == lines,
        with_mark(lines, vers, yanked).len() == lines.len(),
{
    assert(with_mark(with_mark(lines, vers, yanked), vers, !yanked) =~= lines);
}

/// What the commit that adds the version `vers` of the crate `name` says.
pub open spec fn update_message(name: Seq<char>, vers: Seq<char>) -> Seq<char> {
    "Updating crate `"@ + name + "#"@ + vers + "`"@
}

/// What the commit that marks the version `vers` of the crate `name` as
/// yanked, or as not yanked, says.
pub open spec fn yank_message(name: Seq<char>, vers: Seq<char>, yanked: bool) -> Seq<char> {
    if yanked {
        "Yanking crate `"@ + name + "#"@ + vers + "`"@
    } else {
        "Unyanking crate `"@ + name + "#"@ + vers + "`"@
    }
}

fn crate_message(prefix: &str, name: &str, version: &Version) -> (message: String)
    ensures
        message@ == prefix@ + name@ + "#"@ + version@ + "`"@,
{
    let mut message = prefix.to_owned();
    message.append(name);
    message.append("#");
    message.append(version.as_str());
    message.append("`");
    message
}

/// The message of the commit that adds a line for `package`.
pub fn add_package_message(package: &Package) -> (message: String)
    ensures
        message@ == update_message(package@.name, package@.vers),
{
    crate_message("Updating crate `", package.name.as_str(), &package.vers)
}

/// The message of the commit that marks `version` of the crate `name` as
/// yanked, or as not yanked.
pub fn change_yanked_message(name: &str, version: &Version, yanked: bool) -> (message: String)
    ensures
        message@ == yank_message(name@, version@, yanked),
{
    if yanked {
        crate_message("Yanking crate `", name, version)
    } else {
        crate_message("Unyanking crate `", name, version)
    }
}

/// The name of the branch `branch` among git's references.
pub fn branch_ref(branch: &str) -> (name: String)
    ensures
        name@ == "refs/heads/"@ + branch@,
{
    let mut name = "refs/heads/".to_owned();
    name.append(branch);
    name
}

/// What to fetch from the remote: the branch `branch`, into the branch
/// that tracks it.
pub fn fetch_refspec(branch: &str) -> (refspec: String)
    ensures
        refspec@ == "refs/heads/"@ + branch@ + ":refs/remotes/origin/"@ + branch@,
{
    let mut refspec = "refs/heads/".to_owned();
    refspec.append(branch);
    refspec.append(":refs/remotes/origin/");
    refspec.append(branch);
    refspec
}

/// What to push to the remote: the branch `branch`, onto the branch of the
/// same name.
pub fn push_refspec(branch: &str) -> (refspec: String)
    ensures
        refspec@ == "refs/heads/"@ + branch@ + ":refs/heads/"@ + branch@,
{
    let mut refspec = "refs/heads/".to_owned();
    refspec.append(branch);
    refspec.append(":refs/heads/");
    refspec.append(branch);
    refspec
}

/// The e-mail address under which the registry commits: the one that
/// `config` sets, and `undefined@example.com` where it sets none.
pub fn committer_email(config: &IndexConfig) -> (email: String)
    ensures
        email@ == match config.email {
            Some(e) => e@,
            None => "undefined@example.com"@,
        },
{
    match &config.email {
        Some(e) => e.clone(),
        None => "undefined@example.com".to_owned(),
    }
}

/// What the registry presents to the remote to prove who it is, as plain
/// values.
pub enum CredentialsView {
    UserPass { username: Seq<char>, password: Seq<char> },
    SshKey {
        username: Seq<char>,
        public_key: Option<Seq<char>>,
        private_key: Seq<char>,
        passphrase: Option<Seq<char>>,
    },
}

/// What the registry presents to the remote to prove who it is: a user
/// name and a password, or a user name and an SSH key.
#[derive(Debug)]
pub enum Credentials {
    UserPass { username: String, password: String },
    SshKey {
        username: String,
        public_key: Option<String>,
        private_key: String,
        passphrase: Option<String>,
    },
}

impl View for Credentials {
    type V = CredentialsView;

    open spec fn view(&self) -> CredentialsView {
        match self {
            Credentials::UserPass { username, password } => CredentialsView::UserPass {
                username: username@,
                password: password@,
            },
            Credentials::SshKey { username, public_key, private_key, passphrase } => CredentialsView::SshKey {
                username: username@,
                public_key: public_key.deep_view(),
                private_key: private_key@,
                passphrase: passphrase.deep_view(),
            },
        }
    }
}

/// The user name to present: the one that the remote's address carries,
/// and otherwise the configured one.
pub open spec fn user_name(
    from_url: Option<Seq<char>>,
    configured: Option<Seq<char>>,
) -> Option<Seq<char>> {
    match from_url {
        Some(name) => Some(name),
        None => configured,
    }
}

/// What to present to a remote that asks for credentials, or why nothing
/// can be presented. Where the remote takes a user name and a password,
/// these are presented, and an SSH key otherwise.
pub open spec fn credentials_for(
    config: IndexConfig,
    from_url: Option<Seq<char>>,
    takes_password: bool,
) -> Result<CredentialsView, Seq<char>> {
    if takes_password {
        match user_name(from_url, config.https_username.deep_view()) {
            None => Err("username not defined"@),
            Some(username) => match config.https_password {
                None => Err("password not defined"@),
                Some(password) => Ok(CredentialsView::UserPass { username, password: password@ }),
            },
        }
    } else {
        match user_name(from_url, config.ssh_username.deep_view()) {
            None => Err("username not defined"@),
            Some(username) => match config.ssh_privkey_path {
                None => Err("ssh private key not specified"@),
                Some(private_key) => Ok(
                    CredentialsView::SshKey {
                        username,
                        public_key: config.ssh_pubkey_path.deep_view(),
                        private_key: private_key@,
                        passphrase: config.ssh_key_passphrase.deep_view(),
                    },
                ),
            },
        }
    }
}

fn pick_name(from_url: Option<&str>, configured: &Option<String>) -> (name: Option<String>)
    ensures
        name.deep_view() == user_name(
            match from_url {
                Some(n) => Some(n@),
                None => None,
            },
            configured.deep_view(),
        ),
{
    match from_url {
        Some(n) => Some(n.to_owned()),
        None => match configured {
            Some(c) => Some(c.clone()),
            None => None,
        },
    }
}

fn copy_of(text: &Option<String>) -> (copy: Option<String>)
    ensures
        copy.deep_view() == text.deep_view(),
{
    match text {
        Some(t) => Some(t.clone()),
        None => None,
    }
}

/// Decides what to present to a remote that asks for credentials:
/// `username` is the user name that the remote's address carries, if any,
/// and `takes_password` says whether the remote takes a user name and a
/// password. The error is the message with which git is refused.
pub fn credentials_callback(
    config: &IndexConfig,
    username: Option<&str>,
    takes_password: bool,
) -> (r: Result<Credentials, String>)
    ensures
        match credentials_for(
            *config,
            match username {
                Some(n) => Some(n@),
                None => None,
            },
            takes_password,
        ) {
            Ok(credentials) => r matches Ok(c) && c@ == credentials,
            Err(message) => r matches Err(m) && m@ == message,
        },
{
    if takes_password {
        let username = match pick_name(username, &config.https_username) {
            Some(name) => name,
            None => {
                return Err("username not defined".to_owned());
            },
        };
        match &config.https_password {
            None => Err("password not defined".to_owned()),
            Some(password) => Ok(Credentials::UserPass { username, password: password.clone() }),
        }
    } else {
        let username = match pick_name(username, &config.ssh_username) {
            Some(name) => name,
            None => {
                return Err("username not defined".to_owned());
            },
        };
        match &config.ssh_privkey_path {
            None => Err("ssh private key not specified".to_owned()),
            Some(private_key) => Ok(
                Credentials::SshKey {
                    username,
                    public_key: copy_of(&config.ssh_pubkey_path),
                    private_key: private_key.clone(),
                    passphrase: copy_of(&config.ssh_key_passphrase),
                },
            ),
        }
    }
}

/// How to bring the local branch up to what was fetched.
#[derive(Clone, Copy, Debug, PartialEq, Eq, Structural)]
pub enum MergePlan {
    /// Move the branch to the fetched commit and check it out.
    FastForward,
    /// Merge the fetched commit into the branch.
    Normal,
    /// The branch is up to date.
    Nothing,
}

/// Decides how to merge from what git's analysis found: a fast-forward
/// where one is possible, else a merge where one is needed, else nothing.
pub fn merge(fast_forward: bool, normal: bool) -> (plan: MergePlan)
    ensures
        plan == if fast_forward {
            MergePlan::FastForward
        } else if normal {
            MergePlan::Normal
        } else {
            MergePlan::Nothing
        },
{
    if fast_forward {
        MergePlan::FastForward
    } else if normal {
        MergePlan::Normal
    } else {
        MergePlan::Nothing
    }
}

} // verus!
