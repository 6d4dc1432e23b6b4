//! The settings with which a repository is made known to the resolver.

use vstd::prelude::*;
use vstd::string::StringExecFns;
use crate::text::{ascii_uppercase, to_ascii_uppercase};

verus! {

/// The setting that holds the keys by which a repository's packages are checked.
pub const GPGKEY: &'static str = "gpgkey";

/// A setting of a repository, by its name.
#[derive(Debug, Clone, PartialEq, Eq)]
pub enum Kwarg {
    /// A setting with one value.
    Text { key: String, value: String },
    /// A setting with a list of values.
    List { key: String, values: Vec<String> },
}

/// A setting as a mathematical value.
pub enum KwargView {
    Text { key: Seq<char>, value: Seq<char> },
    List { key: Seq<char>, values: Seq<Seq<char>> },
}

impl KwargView {
    /// The name of the setting.
    pub open spec fn key(self) -> Seq<char> {
        match self {
            KwargView::Text { key, .. } => key,
            KwargView::List { key, .. } => key,
        }
    }
}

impl View for Kwarg {
    type V = KwargView;

    open spec fn view(&self) -> KwargView {
        match *self {
            Kwarg::Text { key, value } => KwargView::Text { key: key@, value: value@ },
            Kwarg::List { key, values } => KwargView::List {
                key: key@,
                values: values@.map_values(|s: String| s@),
            },
        }
    }
}

/// The settings of a list, each as a mathematical value.
pub open spec fn kwarg_views(list: Seq<Kwarg>) -> Seq<KwargView> {
    list.map_values(|k: Kwarg| k@)
}

/// The options of a list, each as a pair of its name and its value.
pub open spec fn option_views(list: Seq<(String, String)>) -> Seq<(Seq<char>, Seq<char>)> {
    list.map_values(|o: (String, String)| (o.0@, o.1@))
}

/// The strings of a list with one space between each two.
pub open spec fn joined(list: Seq<Seq<char>>) -> Seq<char>
    decreases list.len(),
{
    if list.len() == 0 {
        Seq::empty()
    } else if list.len() == 1 {
        list[0]
    } else {
        joined(list.drop_last()) + seq![' '] + list.last()
    }
}

/// Whether no name occurs twice among `options`.
pub open spec fn distinct_keys(options: Seq<(Seq<char>, Seq<char>)>) -> bool {
    forall|i: int, j: int|
        0 <= i < j < options.len() ==> (#[trigger] options[i]).0 != (#[trigger] options[j]).0
}

/// `options` with `value` under the name `key`: in the place of the value that
/// the name had, or at the end where it had none.
pub open spec fn inserted(
    options: Seq<(Seq<char>, Seq<char>)>,
    key: Seq<char>,
    value: Seq<char>,
) -> Seq<(Seq<char>, Seq<char>)> {
    if has_key(options, key) {
        options.map_values(
            |o: (Seq<char>, Seq<char>)|
                if o.0 == key {
                    (key, value)
                } else {
                    o
                },
        )
    } else {
        options.push((key, value))
    }
}

/// The options of a repository's definition: values by their names, each name
/// once, in the order in which the names came.
#[derive(Debug, PartialEq, Eq)]
pub struct RepoOptions {
    entries: Vec<(String, String)>,
}

impl View for RepoOptions {
    type V = Seq<(Seq<char>, Seq<char>)>;

    closed spec fn view(&self) -> Seq<(Seq<char>, Seq<char>)> {
        option_views(self.entries@)
    }
}

impl Clone for RepoOptions {
    fn clone(&self) -> (copy: RepoOptions)
        ensures
            copy@ == self@,
    {
        proof {
            use_type_invariant(self);
        }
        let mut entries: Vec<(String, String)> = Vec::new();
        let mut i: usize = 0;
        while i < self.entries.len()
            invariant
                i <= self.entries.len(),
                entries@.len() == i,
                forall|j: int|
                    0 <= j < i ==> (#[trigger] option_views(entries@)[j]) == option_views(
                        self.entries@,
                    )[j],
            decreases self.entries.len() - i,
        {
            let ghost before = entries@;
            let name = self.entries[i].0.clone();
            let value = self.entries[i].1.clone();
            entries.push((name, value));
            assert forall|j: int| 0 <= j < i + 1 implies (#[trigger] option_views(entries@)[j])
                == option_views(self.entries@)[j] by {
                if j < i {
                    assert(option_views(before)[j] == option_views(self.entries@)[j]);
                }
            }
            i = i + 1;
        }
        assert(option_views(entries@) =~= option_views(self.entries@));
        RepoOptions { entries }
    }
}

impl RepoOptions {
    /// No name occurs twice.
    #[verifier::type_invariant]
    spec fn named_once(self) -> bool {
        distinct_keys(option_views(self.entries@))
    }

    /// No options.
    pub fn new() -> (options: RepoOptions)
        ensures
            options@ == Seq::<(Seq<char>, Seq<char>)>::empty(),
            distinct_keys(options@),
    {
        let entries: Vec<(String, String)> = Vec::new();
        assert(option_views(entries@) =~= Seq::empty());
        RepoOptions { entries }
    }

    /// Sets the option `key` to `value`. A name that is there keeps its place
    /// and loses its old value; a new name comes last.
    pub fn insert(self, key: String, value: String) -> (options: RepoOptions)
        ensures
            options@ == inserted(self@, key@, value@),
            distinct_keys(self@),
            distinct_keys(options@),
    {
        proof {
            use_type_invariant(&self);
        }
        let ghost old_views = option_views(self.entries@);
        let mut entries = self.entries;
        let mut i: usize = 0;
        while i < entries.len()
            invariant
                i <= entries.len(),
                entries@ == self.entries@,
                old_views == option_views(self.entries@),
                old_views.len() == entries@.len(),
                distinct_keys(old_views),
                forall|j: int| 0 <= j < i ==> (#[trigger] old_views[j]).0 != key@,
            decreases entries.len() - i,
        {
            if entries[i].0 == key {
                assert(option_views(self.entries@)[i as int].0 == key@);
                entries.set(i, (key, value));
                assert(option_views(entries@) =~= inserted(old_views, key@, value@)) by {
                    assert forall|j: int| 0 <= j < old_views.len() implies option_views(
                        entries@,
                    )[j] == (if old_views[j].0 == key@ {
                        (key@, value@)
                    } else {
                        old_views[j]
                    }) by {
                        if j != i {
                            assert(old_views[j].0 != old_views[i as int].0);
                        }
                    }
                }
                assert(distinct_keys(option_views(entries@))) by {
                    assert forall|a: int, b: int| 0 <= a < b < entries@.len() implies (
                    #[trigger] option_views(entries@)[a]).0 != (#[trigger] option_views(
                        entries@,
                    )[b]).0 by {
                        assert(option_views(entries@)[a].0 == old_views[a].0);
                        assert(option_views(entries@)[b].0 == old_views[b].0);
                    }
                }
                return RepoOptions { entries };
            }
            i = i + 1;
        }
        assert(!has_key(old_views, key@));
        entries.push((key, value));
        assert(option_views(entries@) =~= old_views.push((key@, value@)));
        assert(distinct_keys(option_views(entries@))) by {
            assert forall|a: int, b: int| 0 <= a < b < entries@.len() implies (
            #[trigger] option_views(entries@)[a]).0 != (#[trigger] option_views(entries@)[b]).0 by {
                if b < old_views.len() {
                    assert(old_views[a].0 != old_views[b].0);
                } else {
                    assert(old_views[a].0 != key@);
                }
            }
        }
        RepoOptions { entries }
    }

    /// Whether there is an option of the given name.
    pub fn contains_key(&self, key: &str) -> (found: bool)
        ensures
            found == has_key(self@, key@),
    {
        find_key(&self.entries, key)
    }
}

/// Whether an option of the given name is among `options`.
pub open spec fn has_key(options: Seq<(Seq<char>, Seq<char>)>, key: Seq<char>) -> bool {
    exists|i: int| 0 <= i < options.len() && (#[trigger] options[i]).0 == key
}

/// An option of a repository's definition as a setting. The keys that hold for
/// all repositories are added to the keys that the definition names.
pub open spec fn option_kwarg(option: (Seq<char>, Seq<char>), global_keys: Seq<char>) -> KwargView {
    KwargView::Text {
        key: option.0,
        value: if option.0 == GPGKEY@ {
            option.1 + seq![' '] + global_keys
        } else {
            option.1
        },
    }
}

/// The settings that hold where a repository's definition does not name them:
/// packages and connections are checked, against the keys that hold for all
/// repositories.
pub open spec fn default_kwargs(global_keys: Seq<char>) -> Seq<KwargView> {
    seq![
        KwargView::Text { key: "gpgcheck"@, value: "True"@ },
        KwargView::Text { key: "sslverify"@, value: "True"@ },
        KwargView::Text { key: GPGKEY@, value: global_keys },
    ]
}

/// The characters of a string, where there is one.
pub open spec fn text_of(value: Option<String>) -> Option<Seq<char>> {
    match value {
        Some(v) => Some(v@),
        None => None,
    }
}

/// No default is named twice.
pub proof fn lemma_defaults_named_once(global_keys: Seq<char>)
    ensures
        forall|i: int, j: int|
            0 <= i < j < default_kwargs(global_keys).len() ==> (#[trigger] default_kwargs(
                global_keys,
            )[i]).key() != (#[trigger] default_kwargs(global_keys)[j]).key(),
{
    reveal_strlit("gpgcheck");
    reveal_strlit("sslverify");
    reveal_strlit("gpgkey");
    assert("gpgcheck"@.len() == 8 && "sslverify"@.len() == 9 && "gpgkey"@.len() == 6);
}

/// A credential as a setting, where there is one.
pub open spec fn credential_kwargs(key: Seq<char>, value: Option<Seq<char>>) -> Seq<KwargView> {
    match value {
        Some(v) => seq![KwargView::Text { key, value: v }],
        None => Seq::empty(),
    }
}

/// The settings of a repository, in the order in which they are applied: the
/// address; the options of the definition; the defaults that the definition
/// does not name; the credentials. A later setting replaces an earlier one of
/// the same name.
pub open spec fn repo_kwargs_of(
    repo_url: Seq<char>,
    repo_options: Seq<(Seq<char>, Seq<char>)>,
    gpgkeys: Seq<Seq<char>>,
    username: Option<Seq<char>>,
    password: Option<Seq<char>>,
) -> Seq<KwargView> {
    seq![KwargView::List { key: "baseurl"@, values: seq![repo_url] }] + repo_options.map_values(
        |o: (Seq<char>, Seq<char>)| option_kwarg(o, joined(gpgkeys)),
    ) + default_kwargs(joined(gpgkeys)).filter(|d: KwargView| !has_key(repo_options, d.key()))
        + credential_kwargs("username"@, username) + credential_kwargs("password"@, password)
}

/// Writes the strings of a list with one space between each two.
pub fn join_keys(list: &Vec<String>) -> (text: String)
    ensures
        text@ == joined(list@.map_values(|s: String| s@)),
{
    let ghost all = list@.map_values(|s: String| s@);
    let mut text = String::new();
    let mut i: usize = 0;
    assert(all.take(0) =~= Seq::empty());
    while i < list.len()
        invariant
            i <= list.len(),
            all == list@.map_values(|s: String| s@),
            text@ == joined(all.take(i as int)),
        decreases list.len() - i,
    {
        assert(all.take(i + 1).drop_last() =~= all.take(i as int));
        assert(all.take(i + 1).last() == list@[i as int]@);
        if i > 0 {
            text.append(" ");
            proof {
                reveal_strlit(" ");
                assert(" "@ =~= seq![' ']);
            }
        } else {
            assert(all.take(0).len() == 0);
            assert(text@ =~= Seq::empty());
            assert(text@ + list@[i as int]@ =~= list@[i as int]@);
        }
        text.append(list[i].as_str());
        i = i + 1;
    }
    assert(all.take(i as int) =~= all);
    text
}

/// Looks for an option of the given name.
fn find_key(options: &Vec<(String, String)>, key: &str) -> (found: bool)
    ensures
        found == has_key(option_views(options@), key@),
{
    let wanted = String::from_str(key);
    let mut i: usize = 0;
    while i < options.len()
        invariant
            i <= options.len(),
            wanted@ == key@,
            forall|j: int| 0 <= j < i ==> (#[trigger] option_views(options@)[j]).0 != key@,
        decreases options.len() - i,
    {
        if options[i].0 == wanted {
            assert(option_views(options@)[i as int].0 == key@);
            return true;
        }
        i = i + 1;
    }
    false
}

/// A setting with one value, made from two literals or copies.
fn text_kwarg(key: &str, value: &str) -> (kwarg: Kwarg)
    ensures
        kwarg@ == (KwargView::Text { key: key@, value: value@ }),
{
    Kwarg::Text { key: String::from_str(key), value: String::from_str(value) }
}

/// Appends a default to `list` unless the definition names a setting of its name.
fn push_default(list: &mut Vec<Kwarg>, repo_options: &RepoOptions, key: &str, value: &str)
    ensures
        kwarg_views(final(list)@) == kwarg_views(old(list)@) + seq![
            KwargView::Text { key: key@, value: value@ },
        ].filter(|d: KwargView| !has_key(repo_options@, d.key())),
{
    let ghost keep = |d: KwargView| !has_key(repo_options@, d.key());
    let ghost default = KwargView::Text { key: key@, value: value@ };
    proof {
        reveal_with_fuel(Seq::filter, 2);
        assert(seq![default].drop_last() =~= Seq::<KwargView>::empty());
        assert(seq![default].last() == default);
    }
    if !repo_options.contains_key(key) {
        list.push(text_kwarg(key, value));
        assert(seq![default].filter(keep) =~= seq![default]);
        assert(kwarg_views(list@) =~= kwarg_views(old(list)@) + seq![default]);
    } else {
        assert(seq![default].filter(keep) =~= Seq::<KwargView>::empty());
        assert(kwarg_views(list@) =~= kwarg_views(old(list)@) + Seq::<KwargView>::empty());
    }
}

/// Appends a credential to `list`, where there is one.
fn push_credential(list: &mut Vec<Kwarg>, key: &str, value: Option<String>)
    ensures
        kwarg_views(final(list)@) == kwarg_views(old(list)@) + credential_kwargs(
            key@,
            text_of(value),
        ),
{
    match value {
        Some(v) => {
            list.push(Kwarg::Text { key: String::from_str(key), value: v });
            assert(kwarg_views(list@) =~= kwarg_views(old(list)@) + credential_kwargs(
                key@,
                text_of(value),
            ));
        },
        None => {
            assert(kwarg_views(list@) =~= kwarg_views(old(list)@) + credential_kwargs(
                key@,
                text_of(value),
            ));
        },
    }
}

/// Lists the settings of a repository for the resolver.
///
/// The address comes first, as a list of one. Each option of the definition
/// follows; to the keys that a definition names, those that hold for all
/// repositories are added after a space. Then come the defaults that the
/// definition does not name, and last the credentials, where there are any.
pub fn repo_kwargs(
    repo_url: &str,
    repo_options: &RepoOptions,
    gpgkeys: &Vec<String>,
    username: Option<String>,
    password: Option<String>,
) -> (kwargs: Vec<Kwarg>)
    ensures
        kwarg_views(kwargs@) == repo_kwargs_of(
            repo_url@,
            repo_options@,
            gpgkeys@.map_values(|s: String| s@),
            text_of(username),
            text_of(password),
        ),
{
    let global_keys = join_keys(gpgkeys);
    let ghost options = repo_options@;
    let given = &repo_options.entries;
    let ghost first = KwargView::List { key: "baseurl"@, values: seq![repo_url@] };
    let ghost as_kwarg = |o: (Seq<char>, Seq<char>)| option_kwarg(o, global_keys@);
    let mut kwargs: Vec<Kwarg> = Vec::new();
    let mut address: Vec<String> = Vec::new();
    address.push(String::from_str(repo_url));
    assert(address@.map_values(|s: String| s@) =~= seq![repo_url@]);
    kwargs.push(Kwarg::List { key: String::from_str("baseurl"), values: address });
    assert(options.take(0).map_values(as_kwarg) =~= Seq::<KwargView>::empty());
    assert(kwarg_views(kwargs@) =~= seq![first] + options.take(0).map_values(as_kwarg));
    let mut i: usize = 0;
    while i < given.len()
        invariant
            i <= given.len(),
            options == option_views(given@),
            as_kwarg == |o: (Seq<char>, Seq<char>)| option_kwarg(o, global_keys@),
            kwarg_views(kwargs@) == seq![first] + options.take(i as int).map_values(as_kwarg),
        decreases given.len() - i,
    {
        let key = given[i].0.clone();
        let is_keys = key == String::from_str(GPGKEY);
        let value = if is_keys {
            proof {
                reveal_strlit(" ");
                assert(" "@ =~= seq![' ']);
            }
            given[i].1.clone().concat(" ").concat(global_keys.as_str())
        } else {
            given[i].1.clone()
        };
        let ghost before = kwarg_views(kwargs@);
        kwargs.push(Kwarg::Text { key, value });
        i = i + 1;
        proof {
            assert(options.take(i as int).map_values(as_kwarg) =~= options.take(
                i - 1,
            ).map_values(as_kwarg).push(as_kwarg(options[i - 1])));
            assert(kwarg_views(kwargs@) =~= before.push(as_kwarg(options[i - 1])));
        }
    }
    assert(options.take(i as int) =~= options);
    let ghost keep = |d: KwargView| !has_key(options, d.key());
    let ghost gpgcheck = KwargView::Text { key: "gpgcheck"@, value: "True"@ };
    let ghost sslverify = KwargView::Text { key: "sslverify"@, value: "True"@ };
    let ghost gpgkey = KwargView::Text { key: GPGKEY@, value: global_keys@ };
    proof {
        let defaults = default_kwargs(global_keys@);
        assert(defaults =~= seq![gpgcheck] + seq![sslverify] + seq![gpgkey]);
        Seq::filter_distributes_over_add(seq![gpgcheck] + seq![sslverify], seq![gpgkey], keep);
        Seq::filter_distributes_over_add(seq![gpgcheck], seq![sslverify], keep);
    }
    push_default(&mut kwargs, repo_options, "gpgcheck", "True");
    push_default(&mut kwargs, repo_options, "sslverify", "True");
    push_default(&mut kwargs, repo_options, GPGKEY, global_keys.as_str());
    push_credential(&mut kwargs, "username", username);
    push_credential(&mut kwargs, "password", password);
    kwargs
}

/// A credential of a repository.
#[derive(Debug, Clone, Copy, PartialEq, Eq)]
pub enum Credential {
    Username,
    Password,
}

/// The name of the environment variable that holds a credential of the
/// repository with the given id.
pub open spec fn credential_variable_of(repo_id: Seq<char>, credential: Credential) -> Seq<char> {
    "RPMOCI_"@ + ascii_uppercase(repo_id) + "_HTTP_"@ + match credential {
        Credential::Username => "USERNAME"@,
        Credential::Password => "PASSWORD"@,
    }
}

/// Names the environment variable in which a credential of a repository is
/// looked for: the id of the repository in upper case, between a fixed
/// beginning and the name of the credential.
pub fn credential_variable(repo_id: &str, credential: Credential) -> (name: String)
    ensures
        name@ == credential_variable_of(repo_id@, credential),
{
    let name = String::from_str("RPMOCI_").concat(to_ascii_uppercase(repo_id).as_str()).concat(
        "_HTTP_",
    );
    match credential {
        Credential::Username => name.concat("USERNAME"),
        Credential::Password => name.concat("PASSWORD"),
    }
}

} // verus!
