//! The steps by which a session of the resolver is set up for a list of
//! repositories.

use vstd::prelude::*;
use crate::repo::{
    kwarg_views, repo_kwargs, repo_kwargs_of, text_of, Kwarg, KwargView, RepoOptions,
};

verus! {

/// Where the packages of a repository come from.
#[derive(Debug, Clone, PartialEq, Eq)]
pub enum Source {
    /// The system's configuration knows the repository.
    System,
    /// An address, with default options.
    Url { url: String },
    /// An address, with options of its own.
    Definition { url: String, options: RepoOptions },
}

/// A repository of an image's configuration.
#[derive(Debug, Clone, PartialEq, Eq)]
pub struct Repository {
    /// The id under which the resolver knows the repository.
    pub id: String,
    pub source: Source,
    /// The credentials for the repository, where the environment holds them.
    pub username: Option<String>,
    pub password: Option<String>,
}

/// A step in setting up a session of the resolver.
#[derive(Debug, Clone, PartialEq, Eq)]
pub enum BaseStep {
    InitPlugins,
    PreConfigurePlugins,
    /// Load the repositories of the system's configuration.
    ReadAllRepos,
    DisableAllRepos,
    /// Enable a repository of the system's configuration.
    EnableRepo { id: String },
    /// Make a repository known, with its settings.
    AddRepo { id: String, kwargs: Vec<Kwarg> },
    ConfigurePlugins,
    /// Load the metadata of the enabled repositories, and not the packages
    /// that the system has installed.
    FillSack,
}

/// A step as a mathematical value.
pub enum BaseStepView {
    InitPlugins,
    PreConfigurePlugins,
    ReadAllRepos,
    DisableAllRepos,
    EnableRepo { id: Seq<char> },
    AddRepo { id: Seq<char>, kwargs: Seq<KwargView> },
    ConfigurePlugins,
    FillSack,
}

impl View for BaseStep {
    type V = BaseStepView;

    open spec fn view(&self) -> BaseStepView {
        match *self {
            BaseStep::InitPlugins => BaseStepView::InitPlugins,
            BaseStep::PreConfigurePlugins => BaseStepView::PreConfigurePlugins,
            BaseStep::ReadAllRepos => BaseStepView::ReadAllRepos,
            BaseStep::DisableAllRepos => BaseStepView::DisableAllRepos,
            BaseStep::EnableRepo { id } => BaseStepView::EnableRepo { id: id@ },
            BaseStep::AddRepo { id, kwargs } => BaseStepView::AddRepo {
                id: id@,
                kwargs: kwarg_views(kwargs@),
            },
            BaseStep::ConfigurePlugins => BaseStepView::ConfigurePlugins,
            BaseStep::FillSack => BaseStepView::FillSack,
        }
    }
}

/// The steps of a list, each as a mathematical value.
pub open spec fn step_views(steps: Seq<BaseStep>) -> Seq<BaseStepView> {
    steps.map_values(|s: BaseStep| s@)
}

/// The step that enables a repository, where the system knows it.
pub open spec fn enabling(repo: Repository) -> Option<BaseStepView> {
    match repo.source {
        Source::System => Some(BaseStepView::EnableRepo { id: repo.id@ }),
        _ => None,
    }
}

/// The step that makes a repository known, where the system does not know it.
pub open spec fn adding(repo: Repository, gpgkeys: Seq<Seq<char>>) -> Option<BaseStepView> {
    match repo.source {
        Source::System => None,
        Source::Url { url } => Some(
            BaseStepView::AddRepo {
                id: repo.id@,
                kwargs: repo_kwargs_of(
                    url@,
                    Seq::empty(),
                    gpgkeys,
                    text_of(repo.username),
                    text_of(repo.password),
                ),
            },
        ),
        Source::Definition { url, options } => Some(
            BaseStepView::AddRepo {
                id: repo.id@,
                kwargs: repo_kwargs_of(
                    url@,
                    options@,
                    gpgkeys,
                    text_of(repo.username),
                    text_of(repo.password),
                ),
            },
        ),
    }
}

/// The steps that enable the repositories which the system knows. Where there
/// are any, the system's repositories are loaded first and all disabled.
pub open spec fn enabling_steps(repositories: Seq<Repository>) -> Seq<BaseStepView> {
    let enabled = repositories.filter_map(|r: Repository| enabling(r));
    if enabled.len() == 0 {
        Seq::empty()
    } else {
        seq![BaseStepView::ReadAllRepos, BaseStepView::DisableAllRepos] + enabled
    }
}

/// The steps that set a session up, in their order.
pub open spec fn base_steps_of(repositories: Seq<Repository>, gpgkeys: Seq<Seq<char>>) -> Seq<
    BaseStepView,
> {
    seq![BaseStepView::InitPlugins, BaseStepView::PreConfigurePlugins] + enabling_steps(
        repositories,
    ) + repositories.filter_map(|r: Repository| adding(r, gpgkeys)) + seq![
        BaseStepView::ConfigurePlugins,
        BaseStepView::FillSack,
    ]
}

/// A copy of a string, where there is one.
fn copy_of(value: &Option<String>) -> (copy: Option<String>)
    ensures
        text_of(copy) == text_of(*value),
{
    match value {
        Some(v) => Some(v.clone()),
        None => None,
    }
}

/// The step that makes a repository known, where the system does not know it.
fn add_step(repo: &Repository, gpgkeys: &Vec<String>) -> (step: Option<BaseStep>)
    ensures
        match adding(*repo, gpgkeys@.map_values(|s: String| s@)) {
            Some(view) => step is Some && step->Some_0@ == view,
            None => step is None,
        },
{
    match &repo.source {
        Source::System => None,
        Source::Url { url } => {
            let none = RepoOptions::new();
            let kwargs = repo_kwargs(
                url.as_str(),
                &none,
                gpgkeys,
                copy_of(&repo.username),
                copy_of(&repo.password),
            );
            Some(BaseStep::AddRepo { id: repo.id.clone(), kwargs })
        },
        Source::Definition { url, options } => {
            let kwargs = repo_kwargs(
                url.as_str(),
                options,
                gpgkeys,
                copy_of(&repo.username),
                copy_of(&repo.password),
            );
            Some(BaseStep::AddRepo { id: repo.id.clone(), kwargs })
        },
    }
}

/// Lists the steps that set a session of the resolver up.
///
/// The plugins are initialized first. Where repositories of the system are
/// named, the system's repositories are loaded, all are disabled, and the named
/// ones are enabled in their order. The other repositories are then made known
/// with their settings, in their order. The plugins are configured, and the
/// metadata is loaded last.
pub fn setup_base(repositories: &Vec<Repository>, gpgkeys: &Vec<String>) -> (steps: Vec<BaseStep>)
    ensures
        step_views(steps@) == base_steps_of(repositories@, gpgkeys@.map_values(|s: String| s@)),
{
    let ghost keys = gpgkeys@.map_values(|s: String| s@);
    let ghost enable = |r: Repository| enabling(r);
    let ghost make_known = |r: Repository| adding(r, keys);
    let mut steps: Vec<BaseStep> = Vec::new();
    steps.push(BaseStep::InitPlugins);
    steps.push(BaseStep::PreConfigurePlugins);
    let ghost head = step_views(steps@);
    assert(head =~= seq![BaseStepView::InitPlugins, BaseStepView::PreConfigurePlugins]);

    let mut enabled: Vec<BaseStep> = Vec::new();
    let mut i: usize = 0;
    assert(repositories@.take(0).filter_map(enable) =~= Seq::empty());
    assert(step_views(enabled@) =~= Seq::empty());
    while i < repositories.len()
        invariant
            i <= repositories.len(),
            enable == |r: Repository| enabling(r),
            step_views(enabled@) == repositories@.take(i as int).filter_map(enable),
        decreases repositories.len() - i,
    {
        proof {
            repositories@.lemma_filter_map_take_succ(enable, i as int);
        }
        let ghost before = step_views(enabled@);
        match &repositories[i].source {
            Source::System => {
                enabled.push(BaseStep::EnableRepo { id: repositories[i].id.clone() });
                assert(step_views(enabled@) =~= before + seq![enable(repositories@[i as int])->Some_0]);
            },
            _ => {},
        }
        i = i + 1;
    }
    assert(repositories@.take(i as int) == repositories@);
    if enabled.len() > 0 {
        let ghost listed = step_views(enabled@);
        steps.push(BaseStep::ReadAllRepos);
        steps.push(BaseStep::DisableAllRepos);
        steps.append(&mut enabled);
        assert(step_views(steps@) =~= head + (seq![
            BaseStepView::ReadAllRepos,
            BaseStepView::DisableAllRepos,
        ] + listed));
    } else {
        assert(step_views(steps@) =~= head + Seq::<BaseStepView>::empty());
    }
    assert(step_views(steps@) == head + enabling_steps(repositories@));

    let ghost middle = step_views(steps@);
    let mut j: usize = 0;
    assert(repositories@.take(0).filter_map(make_known) =~= Seq::empty());
    assert(step_views(steps@) =~= middle + repositories@.take(0).filter_map(make_known));
    while j < repositories.len()
        invariant
            j <= repositories.len(),
            keys == gpgkeys@.map_values(|s: String| s@),
            make_known == |r: Repository| adding(r, keys),
            step_views(steps@) == middle + repositories@.take(j as int).filter_map(make_known),
        decreases repositories.len() - j,
    {
        proof {
            repositories@.lemma_filter_map_take_succ(make_known, j as int);
        }
        let ghost before = step_views(steps@);
        match add_step(&repositories[j], gpgkeys) {
            Some(step) => {
                steps.push(step);
                assert(step_views(steps@) =~= before + seq![make_known(repositories@[j as int])->Some_0]);
            },
            None => {},
        }
        j = j + 1;
    }
    assert(repositories@.take(j as int) == repositories@);
    let ghost before = step_views(steps@);
    steps.push(BaseStep::ConfigurePlugins);
    steps.push(BaseStep::FillSack);
    assert(step_views(steps@) =~= before + seq![
        BaseStepView::ConfigurePlugins,
        BaseStepView::FillSack,
    ]);
    steps
}

} // verus!
