//! What is asked of the dependency resolver: the package specs that
//! it is handed, for a first resolution and for one that follows an earlier.

use vstd::prelude::*;
use vstd::string::StringExecFns;
use crate::base::{base_steps_of, setup_base, step_views, BaseStep, BaseStepView, Repository};
use crate::text::{ends_with, starts_with, str_ends_with, str_starts_with};

verus! {

/// The file that names the distribution, which an image is to hold.
pub const ETC_OS_RELEASE: &'static str = "/etc/os-release";

/// The ending of a package spec that names a package file.
pub const RPM_SUFFIX: &'static str = ".rpm";

/// The beginning of a requirement on the package manager itself, which no
/// repository provides.
pub const RPMLIB_PREFIX: &'static str = "rpmlib(";

/// The strings of a list, each as its characters.
pub open spec fn texts(list: Seq<String>) -> Seq<Seq<char>> {
    list.map_values(|s: String| s@)
}

/// Whether a package spec names a package file.
pub open spec fn is_local_rpm(spec: Seq<char>) -> bool {
    ends_with(spec, RPM_SUFFIX@)
}

/// Whether a requirement is one on the package manager itself.
pub open spec fn is_rpmlib(requirement: Seq<char>) -> bool {
    starts_with(requirement, RPMLIB_PREFIX@)
}

/// The package specs handed to the resolver: those given, and after them the
/// distribution's release file where it is asked for and not among them.
pub open spec fn resolver_specs_of(specs: Seq<Seq<char>>, include_etc_os_release: bool) -> Seq<
    Seq<char>,
> {
    if include_etc_os_release && !specs.contains(ETC_OS_RELEASE@) {
        specs.push(ETC_OS_RELEASE@)
    } else {
        specs
    }
}

/// The package specs that name package files, in their order.
pub open spec fn local_rpm_specs_of(specs: Seq<Seq<char>>) -> Seq<Seq<char>> {
    specs.filter(|s: Seq<char>| is_local_rpm(s))
}

/// The package specs that name no package file, in their order.
pub open spec fn remote_specs_of(specs: Seq<Seq<char>>) -> Seq<Seq<char>> {
    specs.filter(|s: Seq<char>| !is_local_rpm(s))
}

/// The requirements that are not on the package manager itself, in their order.
pub open spec fn without_rpmlib_of(requirements: Seq<Seq<char>>) -> Seq<Seq<char>> {
    requirements.filter(|s: Seq<char>| !is_rpmlib(s))
}

/// The lists of a list, one after the other.
pub open spec fn chained(lists: Seq<Vec<String>>) -> Seq<Seq<char>> {
    lists.map_values(|list: Vec<String>| texts(list@)).flatten()
}

/// The requirements of a resolution that follows an earlier one: the
/// package specs that name no package file, then what the package files of
/// the earlier resolution require, without the requirements on the package
/// manager itself.
pub open spec fn requirements_of(specs: Seq<Seq<char>>, local_requires: Seq<Seq<char>>) -> Seq<
    Seq<char>,
> {
    without_rpmlib_of(remote_specs_of(specs) + local_requires)
}

/// What a filter keeps of a list with one more item.
proof fn lemma_filter_push(list: Seq<Seq<char>>, item: Seq<char>, keep: spec_fn(Seq<char>) -> bool)
    ensures
        list.push(item).filter(keep) == if keep(item) {
            list.filter(keep).push(item)
        } else {
            list.filter(keep)
        },
{
    reveal(Seq::filter);
    assert(list.push(item).drop_last() == list);
}

/// Whether `wanted` is among `list`.
pub fn contains_text(list: &Vec<String>, wanted: &str) -> (found: bool)
    ensures
        found == texts(list@).contains(wanted@),
{
    let needle = String::from_str(wanted);
    let mut i: usize = 0;
    while i < list.len()
        invariant
            i <= list.len(),
            needle@ == wanted@,
            forall|j: int| 0 <= j < i ==> (#[trigger] texts(list@)[j]) != wanted@,
        decreases list.len() - i,
    {
        if list[i] == needle {
            assert(texts(list@)[i as int] == wanted@);
            return true;
        }
        i = i + 1;
    }
    false
}

/// A copy of a list of strings.
fn copy_texts(list: &Vec<String>) -> (copy: Vec<String>)
    ensures
        texts(copy@) == texts(list@),
{
    let mut copy: Vec<String> = Vec::new();
    let mut i: usize = 0;
    while i < list.len()
        invariant
            i <= list.len(),
            copy@.len() == i,
            texts(copy@) == texts(list@.take(i as int)),
        decreases list.len() - i,
    {
        let ghost before = copy@;
        copy.push(list[i].clone());
        i = i + 1;
        assert forall|j: int| 0 <= j < copy@.len() implies texts(copy@)[j] == texts(
            list@.take(i as int),
        )[j] by {
            if j < before.len() {
                assert(texts(before)[j] == texts(list@.take(i - 1))[j]);
            }
        }
        assert(texts(copy@) =~= texts(list@.take(i as int)));
    }
    assert(list@.take(i as int) == list@);
    copy
}

/// Makes the list of package specs for the resolver: a copy of those given,
/// with the distribution's release file added at the end where it is asked for
/// and not yet named.
pub fn resolver_specs(pkg_specs: &Vec<String>, include_etc_os_release: bool) -> (specs: Vec<
    String,
>)
    ensures
        texts(specs@) == resolver_specs_of(texts(pkg_specs@), include_etc_os_release),
{
    let mut specs = copy_texts(pkg_specs);
    if include_etc_os_release && !contains_text(pkg_specs, ETC_OS_RELEASE) {
        specs.push(String::from_str(ETC_OS_RELEASE));
        assert(texts(specs@) =~= texts(pkg_specs@).push(ETC_OS_RELEASE@));
    }
    specs
}

/// A rule by which strings are picked from a list.
#[derive(Debug, Clone, Copy, PartialEq, Eq)]
pub enum Pick {
    /// The package specs that name package files.
    LocalRpms,
    /// The package specs that name no package file.
    RemoteSpecs,
    /// The requirements that are not on the package manager itself.
    WithoutRpmlib,
}

impl Pick {
    /// Whether the rule picks `text`.
    pub open spec fn picks(self, text: Seq<char>) -> bool {
        match self {
            Pick::LocalRpms => is_local_rpm(text),
            Pick::RemoteSpecs => !is_local_rpm(text),
            Pick::WithoutRpmlib => !is_rpmlib(text),
        }
    }

    /// Whether the rule picks `text`.
    pub fn test(self, text: &str) -> (picked: bool)
        ensures
            picked == self.picks(text@),
    {
        match self {
            Pick::LocalRpms => str_ends_with(text, RPM_SUFFIX),
            Pick::RemoteSpecs => !str_ends_with(text, RPM_SUFFIX),
            Pick::WithoutRpmlib => !str_starts_with(text, RPMLIB_PREFIX),
        }
    }
}

/// Copies from `list` the strings that `rule` picks, in their order.
pub fn select(list: &Vec<String>, rule: Pick) -> (picked: Vec<String>)
    ensures
        texts(picked@) == texts(list@).filter(|s: Seq<char>| rule.picks(s)),
{
    let ghost keep = |s: Seq<char>| rule.picks(s);
    let mut picked: Vec<String> = Vec::new();
    let mut i: usize = 0;
    proof {
        reveal(Seq::filter);
        assert(texts(list@.take(0)) =~= Seq::empty());
        assert(texts(picked@) =~= Seq::empty());
    }
    while i < list.len()
        invariant
            i <= list.len(),
            keep == |s: Seq<char>| rule.picks(s),
            texts(picked@) == texts(list@.take(i as int)).filter(keep),
        decreases list.len() - i,
    {
        proof {
            lemma_filter_push(texts(list@.take(i as int)), list@[i as int]@, keep);
            assert(texts(list@.take(i + 1)) =~= texts(list@.take(i as int)).push(list@[i as int]@));
        }
        if rule.test(list[i].as_str()) {
            let ghost before = texts(picked@);
            picked.push(list[i].clone());
            assert(texts(picked@) =~= before.push(list@[i as int]@));
        }
        i = i + 1;
    }
    assert(list@.take(i as int) == list@);
    picked
}

/// Picks the package specs that name package files, in their order: the
/// files whose requirements are to be read.
pub fn local_rpm_specs(specs: &Vec<String>) -> (picked: Vec<String>)
    ensures
        texts(picked@) == local_rpm_specs_of(texts(specs@)),
{
    let picked = select(specs, Pick::LocalRpms);
    assert((|s: Seq<char>| Pick::LocalRpms.picks(s)) =~= (|s: Seq<char>| is_local_rpm(s)));
    picked
}

/// Appends copies of the strings of `more` to `list`.
fn extend_texts(list: &mut Vec<String>, more: &Vec<String>)
    ensures
        texts(final(list)@) == texts(old(list)@) + texts(more@),
{
    let mut i: usize = 0;
    assert(texts(more@.take(0)) =~= Seq::empty());
    assert(texts(list@) =~= texts(old(list)@) + texts(more@.take(0)));
    while i < more.len()
        invariant
            i <= more.len(),
            texts(list@) == texts(old(list)@) + texts(more@.take(i as int)),
        decreases more.len() - i,
    {
        let ghost before = texts(list@);
        list.push(more[i].clone());
        assert(texts(list@) =~= before.push(more@[i as int]@));
        i = i + 1;
        assert(texts(more@.take(i as int)) =~= texts(more@.take(i - 1)).push(more@[i - 1]@));
        assert(texts(list@) =~= texts(old(list)@) + texts(more@.take(i as int)));
    }
    assert(more@.take(i as int) == more@);
}

/// Makes the list of requirements for a resolution that follows an earlier
/// one, from the package specs of the configuration and from what each
/// package file of the earlier resolution requires.
pub fn requirements(specs: &Vec<String>, local_requires: &Vec<Vec<String>>) -> (list: Vec<String>)
    ensures
        texts(list@) == requirements_of(texts(specs@), chained(local_requires@)),
{
    let mut all = select(specs, Pick::RemoteSpecs);
    assert((|s: Seq<char>| Pick::RemoteSpecs.picks(s)) =~= (|s: Seq<char>| !is_local_rpm(s)));
    assert((|s: Seq<char>| Pick::WithoutRpmlib.picks(s)) =~= (|s: Seq<char>| !is_rpmlib(s)));
    let mut i: usize = 0;
    proof {
        assert(local_requires@.take(0).map_values(|list: Vec<String>| texts(list@)) =~= Seq::empty());
        assert(chained(local_requires@.take(0)) =~= Seq::empty());
        assert(texts(all@) =~= remote_specs_of(texts(specs@)) + chained(local_requires@.take(0)));
    }
    while i < local_requires.len()
        invariant
            i <= local_requires.len(),
            (|s: Seq<char>| Pick::WithoutRpmlib.picks(s)) == (|s: Seq<char>| !is_rpmlib(s)),
            texts(all@) == remote_specs_of(texts(specs@)) + chained(local_requires@.take(i as int)),
        decreases local_requires.len() - i,
    {
        extend_texts(&mut all, &local_requires[i]);
        proof {
            let lists = local_requires@.take(i as int).map_values(
                |list: Vec<String>| texts(list@),
            );
            let next = texts(local_requires@[i as int]@);
            assert(local_requires@.take(i + 1).map_values(|list: Vec<String>| texts(list@))
                =~= lists.push(next));
            Seq::lemma_flatten_push(lists, next);
            assert(chained(local_requires@.take(i + 1)) == chained(local_requires@.take(i as int))
                + next);
        }
        i = i + 1;
    }
    assert(local_requires@.take(i as int) == local_requires@);
    select(&all, Pick::WithoutRpmlib)
}

/// What resolution reads of an image's configuration.
#[derive(Debug, Clone, PartialEq, Eq)]
pub struct Config {
    pub repositories: Vec<Repository>,
    /// The addresses of the keys that hold for all repositories.
    pub gpgkeys: Vec<String>,
    /// The package specs.
    pub packages: Vec<String>,
    /// Whether the image is to hold the distribution's release file.
    pub os_release: bool,
}

/// What a later resolution reads of the outcome of an earlier one.
#[derive(Debug, Clone, PartialEq, Eq)]
pub struct Lockfile {
    /// The package specs that the outcome was resolved from.
    pub pkg_specs: Vec<String>,
    /// What each package file of the outcome requires.
    pub local_requires: Vec<Vec<String>>,
}

/// What is asked of the resolver, and what is to become of its answer.
#[derive(Debug, Clone, PartialEq, Eq)]
pub struct Request {
    /// The steps that set the resolver's session up.
    pub steps: Vec<BaseStep>,
    /// The package specs to resolve.
    pub specs: Vec<String>,
    /// The package specs that the outcome records as its own.
    pub pkg_specs: Vec<String>,
    /// Whether the outcome keeps the package files of the earlier outcome in
    /// place of those that the resolver names.
    pub keep_local_packages: bool,
}

/// A request as a mathematical value.
pub struct RequestView {
    pub steps: Seq<BaseStepView>,
    pub specs: Seq<Seq<char>>,
    pub pkg_specs: Seq<Seq<char>>,
    pub keep_local_packages: bool,
}

impl View for Request {
    type V = RequestView;

    open spec fn view(&self) -> RequestView {
        RequestView {
            steps: step_views(self.steps@),
            specs: texts(self.specs@),
            pkg_specs: texts(self.pkg_specs@),
            keep_local_packages: self.keep_local_packages,
        }
    }
}

/// The request of a first resolution: the package specs are resolved, with the
/// distribution's release file where it is asked for, and recorded as given.
pub open spec fn resolve_of(
    pkg_specs: Seq<Seq<char>>,
    repositories: Seq<Repository>,
    gpgkeys: Seq<Seq<char>>,
    include_etc_os_release: bool,
) -> RequestView {
    RequestView {
        steps: base_steps_of(repositories, gpgkeys),
        specs: resolver_specs_of(pkg_specs, include_etc_os_release),
        pkg_specs,
        keep_local_packages: false,
    }
}

/// The request of a resolution that follows an earlier one: the requirements
/// are resolved, the package specs of the configuration are recorded, and the
/// package files of the earlier outcome stay.
pub open spec fn resolve_from_previous_of(previous: Lockfile, cfg: Config) -> RequestView {
    RequestView {
        steps: base_steps_of(cfg.repositories@, texts(cfg.gpgkeys@)),
        specs: resolver_specs_of(
            requirements_of(texts(cfg.packages@), chained(previous.local_requires@)),
            cfg.os_release,
        ),
        pkg_specs: texts(cfg.packages@),
        keep_local_packages: true,
    }
}

impl Lockfile {
    /// Says what is asked of the resolver for the given package specs.
    pub fn resolve(
        pkg_specs: &Vec<String>,
        repositories: &Vec<Repository>,
        gpgkeys: &Vec<String>,
        include_etc_os_release: bool,
    ) -> (request: Request)
        ensures
            request@ == resolve_of(
                texts(pkg_specs@),
                repositories@,
                texts(gpgkeys@),
                include_etc_os_release,
            ),
    {
        Request {
            steps: setup_base(repositories, gpgkeys),
            specs: resolver_specs(pkg_specs, include_etc_os_release),
            pkg_specs: copy_texts(pkg_specs),
            keep_local_packages: false,
        }
    }

    /// Says what is asked of the resolver for a configuration.
    pub fn resolve_from_config(cfg: &Config) -> (request: Request)
        ensures
            request@ == resolve_of(
                texts(cfg.packages@),
                cfg.repositories@,
                texts(cfg.gpgkeys@),
                cfg.os_release,
            ),
    {
        Lockfile::resolve(&cfg.packages, &cfg.repositories, &cfg.gpgkeys, cfg.os_release)
    }

    /// Names the package files of a configuration whose requirements are to be
    /// read: the package specs that end as package files do, in their order.
    pub fn read_local_rpm_deps(cfg: &Config) -> (patterns: Vec<String>)
        ensures
            texts(patterns@) == local_rpm_specs_of(texts(cfg.packages@)),
    {
        local_rpm_specs(&cfg.packages)
    }

    /// Says what is asked of the resolver to bring an earlier outcome up to
    /// date with a configuration.
    pub fn resolve_from_previous(&self, cfg: &Config) -> (request: Request)
        ensures
            request@ == resolve_from_previous_of(*self, *cfg),
    {
        let wanted = requirements(&cfg.packages, &self.local_requires);
        let first = Lockfile::resolve(
            &wanted,
            &cfg.repositories,
            &cfg.gpgkeys,
            cfg.os_release,
        );
        Request {
            steps: first.steps,
            specs: first.specs,
            pkg_specs: copy_texts(&cfg.packages),
            keep_local_packages: true,
        }
    }
}

} // verus!
