//! The table of languages: which files they own, which language server serves them, and how the
//! root of a file's workspace is found.
use vstd::prelude::*;

use crate::lists::reversed;
use crate::paths::{
    comps, components, deep, extension, extension_of, from_components, parent_comps, path_text,
};
use crate::strings::{copy_opt, same};
use crate::table::{keys_differ, put, put_laws, value_of, Table};

verus! {

/// `serde_json::Value`: the options that are handed to a language server, carried as they are.
#[verifier::external_type_specification]
#[verifier::external_body]
pub struct ExJsonValue(serde_json::Value);

/// How a language server is started. `config` goes to the server unread, as its initialization
/// options.
pub struct ServerConfig {
    pub command: String,
    pub args: Vec<String>,
    pub config: Option<serde_json::Value>,
}

/// A language. `name` is also its identifier towards the server. `root_markers`, if given, take
/// the place of the generic markers; an empty list means that nothing marks a root. `grammar`
/// names the grammar for highlighting.
pub struct LanguageDef {
    pub name: String,
    pub file_types: Vec<String>,
    pub language_server: Option<String>,
    pub root_markers: Option<Vec<String>>,
    pub grammar: Option<String>,
}

/// One named server of a configuration file.
pub struct NamedServer {
    pub id: String,
    pub server: ServerConfig,
}

/// The contents of a configuration file.
pub struct RawFile {
    pub language_server: Vec<NamedServer>,
    pub language: Vec<LanguageDef>,
}

/// The languages and the servers. The order of the languages decides which of them owns a file.
pub struct LanguageTable {
    pub languages: Vec<LanguageDef>,
    pub servers: Table<ServerConfig>,
}

/// What is needed to start the server of a file.
pub struct ServerSpec<'a> {
    pub language_id: &'a str,
    pub command: &'a str,
    pub args: &'a Vec<String>,
    pub config: Option<&'a serde_json::Value>,
}

/// Whether language `i` is the first with the given name.
pub open spec fn first_named(ls: Seq<LanguageDef>, name: Seq<char>, i: int) -> bool {
    &&& 0 <= i < ls.len()
    &&& ls[i].name@ == name
    &&& forall|j: int| 0 <= j < i ==> (#[trigger] ls[j]).name@ != name
}

/// The place of the first language of a name.
pub open spec fn place_of(ls: Seq<LanguageDef>, name: Seq<char>) -> int {
    choose|i: int| first_named(ls, name, i)
}

/// Whether a language has the given name.
pub open spec fn is_named(ls: Seq<LanguageDef>, name: Seq<char>) -> bool {
    exists|i: int| 0 <= i < ls.len() && (#[trigger] ls[i]).name@ == name
}

/// The languages after `l` has come: in the place of the first language of that name, or last.
pub open spec fn with_language(ls: Seq<LanguageDef>, l: LanguageDef) -> Seq<LanguageDef> {
    if is_named(ls, l.name@) {
        ls.update(place_of(ls, l.name@), l)
    } else {
        ls.push(l)
    }
}

/// The languages after all of `user` have come, in order.
pub open spec fn merged_languages(ls: Seq<LanguageDef>, user: Seq<LanguageDef>) -> Seq<LanguageDef>
    decreases user.len(),
{
    if user.len() == 0 {
        ls
    } else {
        with_language(merged_languages(ls, user.drop_last()), user.last())
    }
}

/// The servers after all of `user` have come, in order.
pub open spec fn merged_servers(
    servers: Seq<(Seq<char>, ServerConfig)>,
    user: Seq<NamedServer>,
) -> Seq<(Seq<char>, ServerConfig)>
    decreases user.len(),
{
    if user.len() == 0 {
        servers
    } else {
        put(merged_servers(servers, user.drop_last()), user.last().id@, user.last().server)
    }
}

/// Whether one of a language's file types is `ext`.
pub open spec fn owns(l: LanguageDef, ext: Seq<char>) -> bool {
    exists|i: int| 0 <= i < l.file_types@.len() && (#[trigger] l.file_types@[i])@ == ext
}

/// Whether language `i` is the first that owns files with the extension.
pub open spec fn first_owner(ls: Seq<LanguageDef>, ext: Seq<char>, i: int) -> bool {
    &&& 0 <= i < ls.len()
    &&& owns(ls[i], ext)
    &&& forall|j: int| 0 <= j < i ==> !owns(#[trigger] ls[j], ext)
}

/// The place of the first language that owns files with the extension.
pub open spec fn owner_of(ls: Seq<LanguageDef>, ext: Seq<char>) -> int {
    choose|i: int| first_owner(ls, ext, i)
}

/// The language of a file: the first that owns its extension.
pub open spec fn language_of(ls: Seq<LanguageDef>, path: Seq<char>) -> Option<LanguageDef> {
    match extension_of(path) {
        Some(ext) => if exists|i: int| first_owner(ls, ext, i) {
            Some(ls[owner_of(ls, ext)])
        } else {
            None
        },
        None => None,
    }
}

proof fn first_named_exists(ls: Seq<LanguageDef>, name: Seq<char>, n: int)
    requires
        0 <= n <= ls.len(),
        exists|i: int| 0 <= i < n && (#[trigger] ls[i]).name@ == name,
    ensures
        exists|i: int| first_named(ls, name, i),
    decreases n,
{
    let i = choose|i: int| 0 <= i < n && (#[trigger] ls[i]).name@ == name;
    if exists|j: int| 0 <= j < i && (#[trigger] ls[j]).name@ == name {
        first_named_exists(ls, name, i);
    } else {
        assert(first_named(ls, name, i));
    }
}

proof fn first_named_unique(ls: Seq<LanguageDef>, name: Seq<char>, i: int, j: int)
    requires
        first_named(ls, name, i),
        first_named(ls, name, j),
    ensures
        i == j,
{
    if i < j {
        assert(ls[i].name@ != name);
    } else if j < i {
        assert(ls[j].name@ != name);
    }
}

proof fn first_owner_unique(ls: Seq<LanguageDef>, ext: Seq<char>, i: int, j: int)
    requires
        first_owner(ls, ext, i),
        first_owner(ls, ext, j),
    ensures
        i == j,
{
    if i < j {
        assert(!owns(ls[i], ext));
    } else if j < i {
        assert(!owns(ls[j], ext));
    }
}

/// A user's language takes the place of the built-in one of the same name: it is then the first
/// of that name, every other place keeps its language, and none moves.
pub proof fn user_language_wins(ls: Seq<LanguageDef>, l: LanguageDef)
    ensures
        ({
            let m = with_language(ls, l);
            &&& exists|i: int| #[trigger] first_named(m, l.name@, i) && m[i] == l
            &&& forall|i: int|
                0 <= i < ls.len() && ls[i].name@ != l.name@ ==> #[trigger] m[i] == ls[i]
            &&& m.len() == if is_named(ls, l.name@) {
                ls.len()
            } else {
                ls.len() + 1
            }
        }),
{
    let m = with_language(ls, l);
    if is_named(ls, l.name@) {
        first_named_exists(ls, l.name@, ls.len() as int);
        let i = place_of(ls, l.name@);
        assert(first_named(m, l.name@, i) && m[i] == l);
    } else {
        assert(first_named(m, l.name@, ls.len() as int) && m[ls.len() as int] == l);
    }
}

/// A file's language is the first that lists the extension of its name; a file without an extension,
/// or with one that nobody lists, has none.
pub proof fn first_owner_has_the_file(ls: Seq<LanguageDef>, path: Seq<char>, ext: Seq<char>, i: int)
    requires
        extension_of(path) == Some(ext),
        0 <= i < ls.len(),
    ensures
        (exists|k: int| 0 <= k < ls[i].file_types@.len() && (#[trigger] ls[i].file_types@[k])@ == ext)
            && (forall|j: int, k: int|
            0 <= j < i && 0 <= k < ls[j].file_types@.len() ==> (#[trigger] ls[j].file_types@[k])@
                != ext) ==> language_of(ls, path) == Some(ls[i]),
        (forall|j: int, k: int|
            0 <= j < ls.len() && 0 <= k < ls[j].file_types@.len() ==> (
            #[trigger] ls[j].file_types@[k])@ != ext) ==> language_of(ls, path) is None,
{
    if (exists|k: int| 0 <= k < ls[i].file_types@.len() && (#[trigger] ls[i].file_types@[k])@ == ext)
        && (forall|j: int, k: int|
        0 <= j < i && 0 <= k < ls[j].file_types@.len() ==> (#[trigger] ls[j].file_types@[k])@
            != ext) {
        assert(owns(ls[i], ext));
        assert(first_owner(ls, ext, i));
        first_owner_unique(ls, ext, i, owner_of(ls, ext));
    }
}

/// A file without an extension has no language.
pub proof fn no_extension_no_language(ls: Seq<LanguageDef>, path: Seq<char>)
    requires
        extension_of(path) is None,
    ensures
        language_of(ls, path) is None,
{
}

/// Of several definitions of a server the last one counts, and a server that is not defined again
/// stays as it was.
pub proof fn last_definition_counts(
    servers: Seq<(Seq<char>, ServerConfig)>,
    user: Seq<NamedServer>,
    id: Seq<char>,
    i: int,
)
    requires
        keys_differ(servers),
    ensures
        keys_differ(merged_servers(servers, user)),
        0 <= i < user.len() && user[i].id@ == id && (forall|j: int|
            i < j < user.len() ==> (#[trigger] user[j]).id@ != id) ==> value_of(
            merged_servers(servers, user),
            id,
        ) == Some(user[i].server),
        (forall|j: int| 0 <= j < user.len() ==> (#[trigger] user[j]).id@ != id) ==> value_of(
            merged_servers(servers, user),
            id,
        ) == value_of(servers, id),
    decreases user.len(),
{
    if user.len() > 0 {
        let rest = user.drop_last();
        last_definition_counts(servers, rest, id, i);
        put_laws(merged_servers(servers, rest), user.last().id@, user.last().server);
        assert(user.last() == user[user.len() - 1]);
        if forall|j: int| 0 <= j < user.len() ==> (#[trigger] user[j]).id@ != id {
            assert forall|j: int| 0 <= j < rest.len() implies (#[trigger] rest[j]).id@ != id by {
                assert(user[j].id@ != id);
            }
        }
        if 0 <= i < rest.len() && user[i].id@ == id && (forall|j: int|
            i < j < user.len() ==> (#[trigger] user[j]).id@ != id) {
            assert forall|j: int| i < j < rest.len() implies (#[trigger] rest[j]).id@ != id by {
                assert(user[j].id@ != id);
            }
        }
    }
}

/// After a user's languages have come, the one that the user defined last under a name is the first of
/// that name; a built-in language that the user does not name keeps its place; and the built-in places
/// all stay, with new languages behind them.
pub proof fn users_languages_come_in(ls: Seq<LanguageDef>, user: Seq<LanguageDef>, i: int)
    requires
        0 <= i < user.len(),
        forall|j: int| i < j < user.len() ==> (#[trigger] user[j]).name@ != user[i].name@,
    ensures
        exists|k: int| #[trigger]
            first_named(merged_languages(ls, user), user[i].name@, k) && merged_languages(ls, user)[k]
                == user[i],
    decreases user.len(),
{
    let rest = user.drop_last();
    let before = merged_languages(ls, rest);
    let now = merged_languages(ls, user);
    user_language_wins(before, user.last());
    if i < user.len() - 1 {
        assert forall|j: int| i < j < rest.len() implies (#[trigger] rest[j]).name@ != rest[i].name@ by {
            assert(user[j].name@ != user[i].name@);
        }
        users_languages_come_in(ls, rest, i);
        let name = user[i].name@;
        let k = choose|k: int| #[trigger] first_named(before, name, k) && before[k] == user[i];
        assert(user[user.len() - 1].name@ != name);
        assert(now[k] == before[k]);
        assert forall|j: int| 0 <= j < k implies (#[trigger] now[j]).name@ != name by {
            if before[j].name@ != user.last().name@ {
                assert(now[j] == before[j]);
            } else if is_named(before, user.last().name@) {
                first_named_exists(before, user.last().name@, before.len() as int);
            }
        }
        assert(first_named(now, name, k) && now[k] == user[i]);
    }
}

/// A built-in language that the user does not name stays where it is.
pub proof fn other_languages_stay(ls: Seq<LanguageDef>, user: Seq<LanguageDef>, i: int)
    requires
        0 <= i < ls.len(),
        forall|j: int| 0 <= j < user.len() ==> (#[trigger] user[j]).name@ != ls[i].name@,
    ensures
        merged_languages(ls, user).len() >= ls.len(),
        merged_languages(ls, user)[i] == ls[i],
    decreases user.len(),
{
    if user.len() > 0 {
        let rest = user.drop_last();
        assert forall|j: int| 0 <= j < rest.len() implies (#[trigger] rest[j]).name@ != ls[i].name@ by {
            assert(user[j].name@ != ls[i].name@);
        }
        other_languages_stay(ls, rest, i);
        user_language_wins(merged_languages(ls, rest), user.last());
        assert(user[user.len() - 1].name@ != ls[i].name@);
    }
}

/// A file has a server exactly if its language names one that is defined, and is served by that one.
pub proof fn language_names_the_server(
    ls: Seq<LanguageDef>,
    servers: Seq<(Seq<char>, ServerConfig)>,
    path: Seq<char>,
)
    ensures
        match language_of(ls, path) {
            Some(l) => match l.language_server {
                Some(id) => match value_of(servers, id@) {
                    Some(s) => server_of(ls, servers, path) == Some((l, s)),
                    None => server_of(ls, servers, path) is None,
                },
                None => server_of(ls, servers, path) is None,
            },
            None => server_of(ls, servers, path) is None,
        },
        match language_of(ls, path) {
            Some(l) => match l.root_markers {
                Some(m) => markers_for(ls, path).len() == m@.len() && forall|i: int|
                    0 <= i < m@.len() ==> #[trigger] markers_for(ls, path)[i] == m@[i]@,
                None => markers_for(ls, path) == seq![
                    "Cargo.toml"@,
                    "package.json"@,
                    "pyproject.toml"@,
                    "go.mod"@,
                    ".git"@,
                ],
            },
            None => markers_for(ls, path) == seq![
                "Cargo.toml"@,
                "package.json"@,
                "pyproject.toml"@,
                "go.mod"@,
                ".git"@,
            ],
        },
{
}

/// A file's own directory is what is left of its path without the file's name.
pub proof fn home_is_the_path_without_the_name(path: Seq<char>)
    ensures
        comps(path).len() > 0 && comps(path).last() != seq!['/'] ==> home_comps(path) == comps(
            path,
        ).take(comps(path).len() - 1),
        comps(path).len() == 0 || comps(path).last() == seq!['/'] ==> home_comps(path) == seq![
            seq!['.'],
        ],
{
    if comps(path).len() > 0 {
        assert(comps(path).drop_last() =~= comps(path).take(comps(path).len() - 1));
    }
}

/// The directories that are searched for a root marker: the file's own, then each one above.
pub open spec fn ancestors(cs: Seq<Seq<char>>) -> Seq<Seq<char>>
    decreases cs.len(),
{
    match parent_comps(cs) {
        Some(p) => seq![path_text(cs)] + ancestors(p),
        None => seq![path_text(cs)],
    }
}

/// The components of a file's own directory; `.` if the path has no directory.
pub open spec fn home_comps(path: Seq<char>) -> Seq<Seq<char>> {
    match parent_comps(comps(path)) {
        Some(p) => p,
        None => seq![seq!['.']],
    }
}

/// The first directory with a marker, or the file's own.
pub open spec fn first_marked(dirs: Seq<Seq<char>>, marked: Seq<bool>, i: int) -> Seq<char>
    decreases dirs.len() - i,
{
    if i < 0 || i >= dirs.len() || i >= marked.len() {
        dirs[0]
    } else if marked[i] {
        dirs[i]
    } else {
        first_marked(dirs, marked, i + 1)
    }
}

/// The root is the nearest marked directory, however far up it is, and the file's own directory only
/// if no directory is marked.
pub proof fn root_is_the_nearest_marked(dirs: Seq<Seq<char>>, marked: Seq<bool>)
    requires
        dirs.len() > 0,
    ensures
        forall|k: int|
            #![trigger marked[k]]
            0 <= k < dirs.len() && k < marked.len() && marked[k] && (forall|j: int|
                0 <= j < k ==> !(#[trigger] marked[j])) ==> first_marked(dirs, marked, 0) == dirs[k],
        (forall|j: int| 0 <= j < dirs.len() && j < marked.len() ==> !(#[trigger] marked[j]))
            ==> first_marked(dirs, marked, 0) == dirs[0],
{
    assert forall|k: int|
        #![trigger marked[k]]
        0 <= k < dirs.len() && k < marked.len() && marked[k] && (forall|j: int|
            0 <= j < k ==> !(#[trigger] marked[j])) implies first_marked(dirs, marked, 0) == dirs[k] by {
        marked_from(dirs, marked, 0, k);
    }
    if forall|j: int| 0 <= j < dirs.len() && j < marked.len() ==> !(#[trigger] marked[j]) {
        unmarked_from(dirs, marked, 0);
    }
}

proof fn marked_from(dirs: Seq<Seq<char>>, marked: Seq<bool>, i: int, k: int)
    requires
        0 <= i <= k < dirs.len(),
        k < marked.len(),
        marked[k],
        forall|j: int| i <= j < k ==> !(#[trigger] marked[j]),
    ensures
        first_marked(dirs, marked, i) == dirs[k],
    decreases k - i,
{
    if i < k {
        marked_from(dirs, marked, i + 1, k);
    }
}

proof fn unmarked_from(dirs: Seq<Seq<char>>, marked: Seq<bool>, i: int)
    requires
        0 <= i,
        forall|j: int| i <= j < dirs.len() && j < marked.len() ==> !(#[trigger] marked[j]),
    ensures
        first_marked(dirs, marked, i) == dirs[0],
    decreases dirs.len() - i,
{
    if i < dirs.len() && i < marked.len() {
        unmarked_from(dirs, marked, i + 1);
    }
}

/// The directories that are searched go from the file's own up to the topmost: each is the one above
/// the one before it, and the last has none above it.
pub proof fn search_goes_up_to_the_top(cs: Seq<Seq<char>>, i: int)
    requires
        0 <= i < ancestors(cs).len(),
    ensures
        i <= cs.len(),
        ancestors(cs)[i] == path_text(cs.take(cs.len() - i)),
        i + 1 == ancestors(cs).len() <==> i == cs.len() || cs[cs.len() - i - 1] == seq!['/'],
    decreases cs.len(),
{
    assert(cs.take(cs.len() as int) =~= cs);
    match parent_comps(cs) {
        Some(p) => {
            assert(p =~= cs.take(cs.len() - 1));
            if i > 0 {
                search_goes_up_to_the_top(p, i - 1);
                assert(p.take(p.len() - (i - 1)) =~= cs.take(cs.len() - i));
            } else {
                assert(ancestors(p).len() > 0);
            }
        },
        None => {},
    }
}

/// The markers that count for every language without markers of its own.
pub open spec fn generic_markers() -> Seq<Seq<char>> {
    seq!["Cargo.toml"@, "package.json"@, "pyproject.toml"@, "go.mod"@, ".git"@]
}

/// The markers of a file's workspace root.
pub open spec fn markers_for(ls: Seq<LanguageDef>, path: Seq<char>) -> Seq<Seq<char>> {
    match language_of(ls, path) {
        Some(l) => match l.root_markers {
            Some(m) => deep(m@),
            None => generic_markers(),
        },
        None => generic_markers(),
    }
}

/// What is needed to start the server of a file, if its language has one that is defined.
pub open spec fn server_of(
    ls: Seq<LanguageDef>,
    servers: Seq<(Seq<char>, ServerConfig)>,
    path: Seq<char>,
) -> Option<(LanguageDef, ServerConfig)> {
    match language_of(ls, path) {
        Some(l) => match l.language_server {
            Some(id) => match value_of(servers, id@) {
                Some(s) => Some((l, s)),
                None => None,
            },
            None => None,
        },
        None => None,
    }
}

fn contains_text(v: &Vec<String>, t: &str) -> (r: bool)
    ensures
        r == exists|i: int| 0 <= i < v@.len() && (#[trigger] v@[i])@ == t@,
{
    let mut i: usize = 0;
    while i < v.len()
        invariant
            i <= v.len(),
            forall|j: int| 0 <= j < i ==> (#[trigger] v@[j])@ != t@,
        decreases v.len() - i,
    {
        if same(v[i].as_str(), t) {
            return true;
        }
        i = i + 1;
    }
    false
}

fn copy_strings(v: &Vec<String>) -> (r: Vec<String>)
    ensures
        r@ == v@,
{
    let r = v.clone();
    assert(r@ =~= v@);
    r
}

impl LanguageTable {
    /// Whether no server is defined twice.
    pub open spec fn wf(&self) -> bool {
        self.servers.wf()
    }

    /// The table of one configuration file.
    pub fn from_parts(raw: RawFile) -> (r: LanguageTable)
        ensures
            r.wf(),
            r.languages@ == raw.language@,
            r.servers@ == merged_servers(Seq::empty(), raw.language_server@),
    {
        let mut servers: Table<ServerConfig> = Table::new();
        put_servers(&mut servers, raw.language_server);
        LanguageTable { languages: raw.language, servers }
    }

    /// Lets a user's file add to the table and override it, server by server and language by
    /// language. A language that is overridden keeps its place.
    pub fn merge(&mut self, user: RawFile)
        requires
            old(self).wf(),
        ensures
            final(self).wf(),
            final(self).languages@ == merged_languages(old(self).languages@, user.language@),
            final(self).servers@ == merged_servers(old(self).servers@, user.language_server@),
    {
        put_servers(&mut self.servers, user.language_server);
        let ghost servers = self.servers;
        let ghost all = user.language@;
        let ghost before = self.languages@;
        let mut front = reversed(user.language);
        while front.len() > 0
            invariant
                front@.len() <= all.len(),
                forall|j: int| 0 <= j < front@.len() ==> front@[j] == all[all.len() - 1 - j],
                self.servers == servers,
                self.languages@ == merged_languages(before, all.take(all.len() - front@.len())),
            decreases front@.len(),
        {
            let ghost n = all.len() - front@.len();
            assert(all.take(n + 1).drop_last() =~= all.take(n));
            match front.pop() {
                Some(l) => {
                    assert(l == all[n]);
                    put_language(&mut self.languages, l);
                },
                None => {},
            }
        }
        assert(all.take(all.len() as int) =~= all);
    }

    /// The table of a built-in file and a user's file. A user's file that cannot be read as a
    /// configuration (`None`) leaves the built-in languages alone in the table.
    pub fn load(embedded: RawFile, user: Option<RawFile>) -> (r: LanguageTable)
        ensures
            r.wf(),
            match user {
                Some(u) => r.languages@ == merged_languages(embedded.language@, u.language@)
                    && r.servers@ == merged_servers(
                    merged_servers(Seq::empty(), embedded.language_server@),
                    u.language_server@,
                ),
                None => r.languages@ == embedded.language@ && r.servers@ == merged_servers(
                    Seq::empty(),
                    embedded.language_server@,
                ),
            },
    {
        let mut table = LanguageTable::from_parts(embedded);
        match user {
            Some(u) => {
                table.merge(u);
            },
            None => {},
        }
        table
    }

    /// The language of a file: the first one that owns its extension.
    pub fn language_for_path(&self, path: &str) -> (r: Option<&LanguageDef>)
        ensures
            match r {
                Some(l) => language_of(self.languages@, path@) == Some(*l),
                None => language_of(self.languages@, path@) is None,
            },
    {
        let ext = match extension(path) {
            Some(e) => e,
            None => {
                return None;
            },
        };
        let mut i: usize = 0;
        while i < self.languages.len()
            invariant
                i <= self.languages.len(),
                extension_of(path@) == Some(ext@),
                forall|j: int| 0 <= j < i ==> !owns(#[trigger] self.languages@[j], ext@),
            decreases self.languages.len() - i,
        {
            if contains_text(&self.languages[i].file_types, ext.as_str()) {
                proof {
                    assert(first_owner(self.languages@, ext@, i as int));
                    let k = owner_of(self.languages@, ext@);
                    first_owner_unique(self.languages@, ext@, i as int, k);
                    assert(extension_of(path@)->0 == ext@);
                }
                return Some(&self.languages[i]);
            }
            i = i + 1;
        }
        assert forall|k: int| !first_owner(self.languages@, ext@, k) by {}
        None
    }

    /// What is needed to start the server of a file, if its language names a server that the table
    /// defines.
    pub fn server_for(&self, path: &str) -> (r: Option<ServerSpec<'_>>)
        requires
            self.wf(),
        ensures
            match (r, server_of(self.languages@, self.servers@, path@)) {
                (Some(spec), Some((l, s))) => spec.language_id@ == l.name@ && spec.command@
                    == s.command@ && *spec.args == s.args && match (spec.config, s.config) {
                    (Some(a), Some(b)) => *a == b,
                    (None, None) => true,
                    _ => false,
                },
                (None, None) => true,
                _ => false,
            },
    {
        let lang = match self.language_for_path(path) {
            Some(l) => l,
            None => {
                return None;
            },
        };
        let id = match &lang.language_server {
            Some(id) => id,
            None => {
                return None;
            },
        };
        let server = match self.servers.get(id.as_str()) {
            Some(s) => s,
            None => {
                return None;
            },
        };
        Some(
            ServerSpec {
                language_id: lang.name.as_str(),
                command: server.command.as_str(),
                args: &server.args,
                config: server.config.as_ref(),
            },
        )
    }

    /// Whether a file has a language server.
    pub fn has_server(&self, path: &str) -> (r: bool)
        requires
            self.wf(),
        ensures
            r == server_of(self.languages@, self.servers@, path@) is Some,
    {
        self.server_for(path).is_some()
    }

    /// The name of the grammar for a file.
    pub fn grammar_for_path(&self, path: &str) -> (r: Option<String>)
        ensures
            r == match language_of(self.languages@, path@) {
                Some(l) => l.grammar,
                None => None,
            },
    {
        match self.language_for_path(path) {
            Some(l) => copy_opt(&l.grammar),
            None => None,
        }
    }

    /// The definition of a server.
    pub fn server_by_id(&self, id: &str) -> (r: Option<&ServerConfig>)
        requires
            self.wf(),
        ensures
            match r {
                Some(s) => value_of(self.servers@, id@) == Some(*s),
                None => value_of(self.servers@, id@) is None,
            },
    {
        self.servers.get(id)
    }

    /// The names of files and directories that mark the root of a file's workspace: the language's
    /// own, or the generic ones.
    pub fn root_markers(&self, path: &str) -> (r: Vec<String>)
        ensures
            deep(r@) == markers_for(self.languages@, path@),
    {
        match self.language_for_path(path) {
            Some(l) => match &l.root_markers {
                Some(m) => {
                    return copy_strings(m);
                },
                None => {},
            },
            None => {},
        }
        let mut out: Vec<String> = Vec::new();
        out.push("Cargo.toml".to_owned());
        out.push("package.json".to_owned());
        out.push("pyproject.toml".to_owned());
        out.push("go.mod".to_owned());
        out.push(".git".to_owned());
        assert(deep(out@) =~= generic_markers());
        out
    }

    /// The root of a file's workspace: the nearest directory of [`search_dirs`] that holds a
    /// marker, or the file's own directory. `marked` says of each directory whether it does.
    pub fn workspace_root(&self, path: &str, marked: &Vec<bool>) -> (r: String)
        ensures
            r@ == first_marked(ancestors(home_comps(path@)), marked@, 0),
    {
        let dirs = search_dirs(path);
        let ghost d = ancestors(home_comps(path@));
        assert(d.len() > 0);
        assert(dirs@.len() == d.len());
        let mut i: usize = 0;
        while i < dirs.len() && i < marked.len()
            invariant
                i <= dirs.len(),
                deep(dirs@) == d,
                d == ancestors(home_comps(path@)),
                first_marked(d, marked@, 0) == first_marked(d, marked@, i as int),
            decreases dirs.len() - i,
        {
            assert(d.len() == dirs@.len());
            if marked[i] {
                assert(d[i as int] == dirs@[i as int]@);
                return dirs[i].clone();
            }
            i = i + 1;
        }
        assert(d[0] == dirs@[0]@);
        dirs[0].clone()
    }
}

/// The directories that are searched for a root marker, the file's own first.
pub fn search_dirs(path: &str) -> (r: Vec<String>)
    ensures
        deep(r@) == ancestors(home_comps(path@)),
        r@.len() > 0,
{
    let mut cs = components(path);
    assert(comps(path@).len() == cs@.len());
    proof {
        reveal_strlit("/");
        assert("/"@ =~= seq!['/']);
        reveal_strlit(".");
        assert("."@ =~= seq!['.']);
    }
    if cs.len() > 0 {
        assert(comps(path@).last() == cs@.last()@);
    }
    if cs.len() > 0 && !same(cs[cs.len() - 1].as_str(), "/") {
        let ghost all = deep(cs@);
        cs.pop();
        assert(deep(cs@) =~= all.drop_last());
    } else {
        cs = Vec::new();
        cs.push(".".to_owned());
        assert(deep(cs@) =~= seq![seq!['.']]);
    }
    let mut out: Vec<String> = Vec::new();
    let ghost goal = ancestors(home_comps(path@));
    out.push(from_components(&cs));
    assert(deep(out@) =~= seq![path_text(deep(cs@))]);
    assert(goal =~= deep(out@) + match parent_comps(deep(cs@)) {
        Some(p) => ancestors(p),
        None => seq![],
    });
    loop
        invariant
            out@.len() > 0,
            "/"@ == seq!['/'],
            goal == deep(out@) + match parent_comps(deep(cs@)) {
                Some(p) => ancestors(p),
                None => seq![],
            },
        ensures
            out@.len() > 0,
            deep(out@) == goal,
        decreases cs@.len(),
    {
        if cs.len() == 0 {
            assert(deep(cs@).len() == 0);
            assert(deep(out@) =~= goal);
            break;
        }
        assert(deep(cs@).last() == cs@.last()@);
        if same(cs[cs.len() - 1].as_str(), "/") {
            assert(deep(out@) =~= goal);
            break;
        }
        let ghost all = deep(cs@);
        let ghost so_far = deep(out@);
        cs.pop();
        assert(deep(cs@) =~= all.drop_last());
        out.push(from_components(&cs));
        assert(deep(out@) =~= so_far.push(path_text(deep(cs@))));
        assert(goal =~= deep(out@) + match parent_comps(deep(cs@)) {
            Some(p) => ancestors(p),
            None => seq![],
        });
    }
    out
}

fn put_language(ls: &mut Vec<LanguageDef>, l: LanguageDef)
    ensures
        final(ls)@ == with_language(old(ls)@, l),
{
    let mut i: usize = 0;
    let ghost before = ls@;
    while i < ls.len()
        invariant
            i <= ls@.len(),
            ls@ == before,
            before == old(ls)@,
            forall|j: int| 0 <= j < i ==> (#[trigger] ls@[j]).name@ != l.name@,
        decreases ls@.len() - i,
    {
        if same(ls[i].name.as_str(), l.name.as_str()) {
            proof {
                assert(ls@[i as int].name@ == l.name@);
                assert(first_named(ls@, l.name@, i as int));
                let k = place_of(ls@, l.name@);
                first_named_unique(ls@, l.name@, i as int, k);
            }
            ls.set(i, l);
            return;
        }
        i = i + 1;
    }
    ls.push(l);
}

fn put_servers(servers: &mut Table<ServerConfig>, user: Vec<NamedServer>)
    requires
        old(servers).wf(),
    ensures
        final(servers).wf(),
        final(servers)@ == merged_servers(old(servers)@, user@),
{
    let ghost all = user@;
    let ghost before = servers@;
    let mut front = reversed(user);
    while front.len() > 0
        invariant
            servers.wf(),
            front@.len() <= all.len(),
            forall|j: int| 0 <= j < front@.len() ==> front@[j] == all[all.len() - 1 - j],
            servers@ == merged_servers(before, all.take(all.len() - front@.len())),
        decreases front@.len(),
    {
        let ghost n = all.len() - front@.len();
        assert(all.take(n + 1).drop_last() =~= all.take(n));
        match front.pop() {
            Some(s) => {
                assert(s == all[n]);
                servers.insert(s.id.as_str(), s.server);
            },
            None => {},
        }
    }
    assert(all.take(all.len() as int) =~= all);
}

} // verus!
