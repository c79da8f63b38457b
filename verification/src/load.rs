//! Loading the schemas and profiles of a project from the texts of its
//! files.

use vstd::prelude::*;
use crate::assoc;
use crate::ordered::OrderedMap;
use crate::profile::{parse_profile_text, Profile, ProfileView};
use crate::schema::{result_model, Spec, SpecView};
use crate::sections::parse_schema_text;

verus! {

/// A failure to load the schemas and profiles of a project.
#[derive(Debug)]
pub enum LoadError {
    /// No schema is named `main`.
    MissingMainSpec,
    /// A schema could not be read.
    Spec(crate::sections::Error),
    /// A profile could not be read.
    Profile(crate::profile::Error),
}

/// The mathematical value of a [`LoadError`].
pub enum LoadErrorView {
    MissingMainSpec,
    Spec(crate::sections::ErrorView),
    Profile(crate::profile::ErrorView),
}

impl DeepView for LoadError {
    type V = LoadErrorView;

    open spec fn deep_view(&self) -> LoadErrorView {
        match *self {
            LoadError::MissingMainSpec => LoadErrorView::MissingMainSpec,
            LoadError::Spec(error) => LoadErrorView::Spec(error.deep_view()),
            LoadError::Profile(error) => LoadErrorView::Profile(error.deep_view()),
        }
    }
}

impl From<crate::sections::Error> for LoadError {
    fn from(error: crate::sections::Error) -> (failure: LoadError) {
        LoadError::Spec(error)
    }
}

impl vstd::std_specs::convert::FromSpecImpl<crate::sections::Error> for LoadError {
    open spec fn obeys_from_spec() -> bool {
        true
    }

    open spec fn from_spec(error: crate::sections::Error) -> LoadError {
        LoadError::Spec(error)
    }
}

impl From<crate::profile::Error> for LoadError {
    fn from(error: crate::profile::Error) -> (failure: LoadError) {
        LoadError::Profile(error)
    }
}

impl vstd::std_specs::convert::FromSpecImpl<crate::profile::Error> for LoadError {
    open spec fn obeys_from_spec() -> bool {
        true
    }

    open spec fn from_spec(error: crate::profile::Error) -> LoadError {
        LoadError::Profile(error)
    }
}

/// The schemas of a project, by name.
pub type SpecsView = Seq<(Seq<char>, SpecView)>;

/// The profiles of a project, by name.
pub type ProfilesView = Seq<(Seq<char>, ProfileView)>;

/// One step of loading schemas: the schema that the text of the file
/// describes goes under the file's name.
pub open spec fn spec_step() -> spec_fn(SpecsView, (Seq<char>, Seq<char>)) -> Result<
    SpecsView,
    LoadErrorView,
> {
    |done: SpecsView, file: (Seq<char>, Seq<char>)|
        match parse_schema_text(file.1) {
            Ok(spec) => Ok(assoc::put(done, file.0, spec)),
            Err(error) => Err(LoadErrorView::Spec(error)),
        }
}

/// One step of loading profiles against the schema `main`: the profile
/// that the text of the file states goes under the file's name.
pub open spec fn profile_step(main: SpecView) -> spec_fn(
    ProfilesView,
    (Seq<char>, Seq<char>),
) -> Result<ProfilesView, LoadErrorView> {
    |done: ProfilesView, file: (Seq<char>, Seq<char>)|
        match parse_profile_text(main, file.1) {
            Ok(profile) => Ok(assoc::put(done, file.0, profile)),
            Err(error) => Err(LoadErrorView::Profile(error)),
        }
}

/// The schemas and profiles of a project, from the names and texts of its
/// files: every schema is read, then every profile is read against the
/// schema named `main`. The first failure in that order is the result.
pub open spec fn load(
    spec_files: Seq<(Seq<char>, Seq<char>)>,
    profile_files: Seq<(Seq<char>, Seq<char>)>,
) -> Result<(SpecsView, ProfilesView), LoadErrorView> {
    match assoc::try_fold(spec_files, Seq::empty(), spec_step()) {
        Err(error) => Err(error),
        Ok(specs) => match assoc::get(specs, "main"@) {
            None => Err(LoadErrorView::MissingMainSpec),
            Some(main) => match assoc::try_fold(profile_files, Seq::empty(), profile_step(main)) {
                Err(error) => Err(error),
                Ok(profiles) => Ok((specs, profiles)),
            },
        },
    }
}

/// Reads the schemas of a project from the names and texts of their files.
pub fn load_specs(files: &Vec<(String, String)>) -> (result: Result<OrderedMap<Spec>, LoadError>)
    ensures
        result_model(result) == assoc::try_fold(files.deep_view(), Seq::empty(), spec_step()),
{
    let ghost step = spec_step();
    let ghost none = Seq::<(Seq<char>, SpecView)>::empty();
    let mut specs: OrderedMap<Spec> = OrderedMap::new();
    let mut i: usize = 0;
    proof {
        assert(files.deep_view().take(0).len() == 0);
    }
    while i < files.len()
        invariant
            i <= files.len(),
            step == spec_step(),
            none == Seq::<(Seq<char>, SpecView)>::empty(),
            assoc::try_fold(files.deep_view().take(i as int), none, step) == Ok::<
                SpecsView,
                LoadErrorView,
            >(specs.deep_view()),
        decreases files.len() - i,
    {
        proof {
            assoc::lemma_try_fold_step(files.deep_view(), none, step, i as int);
            assoc::lemma_try_fold_fails(files.deep_view(), none, step, i + 1);
            assert(files.deep_view()[i as int] == (files[i as int].0@, files[i as int].1@));
        }
        match Spec::parse_str(files[i].1.as_str()) {
            Ok(spec) => {
                specs.insert(files[i].0.clone(), spec);
            },
            Err(error) => {
                return Err(LoadError::Spec(error));
            },
        }
        i += 1;
    }
    assert(files.deep_view().take(i as int) =~= files.deep_view());
    Ok(specs)
}

/// Reads the profiles of a project, against the schema `main`, from the
/// names and texts of their files.
pub fn load_profiles(main: &Spec, files: &Vec<(String, String)>) -> (result: Result<
    OrderedMap<Profile>,
    LoadError,
>)
    ensures
        result_model(result) == assoc::try_fold(
            files.deep_view(),
            Seq::empty(),
            profile_step(main.deep_view()),
        ),
{
    let ghost step = profile_step(main.deep_view());
    let ghost none = Seq::<(Seq<char>, ProfileView)>::empty();
    let mut profiles: OrderedMap<Profile> = OrderedMap::new();
    let mut i: usize = 0;
    proof {
        assert(files.deep_view().take(0).len() == 0);
    }
    while i < files.len()
        invariant
            i <= files.len(),
            step == profile_step(main.deep_view()),
            none == Seq::<(Seq<char>, ProfileView)>::empty(),
            assoc::try_fold(files.deep_view().take(i as int), none, step) == Ok::<
                ProfilesView,
                LoadErrorView,
            >(profiles.deep_view()),
        decreases files.len() - i,
    {
        proof {
            assoc::lemma_try_fold_step(files.deep_view(), none, step, i as int);
            assoc::lemma_try_fold_fails(files.deep_view(), none, step, i + 1);
            assert(files.deep_view()[i as int] == (files[i as int].0@, files[i as int].1@));
        }
        match Profile::parse_str(main, files[i].1.as_str()) {
            Ok(profile) => {
                profiles.insert(files[i].0.clone(), profile);
            },
            Err(error) => {
                return Err(LoadError::Profile(error));
            },
        }
        i += 1;
    }
    assert(files.deep_view().take(i as int) =~= files.deep_view());
    Ok(profiles)
}

/// Reads the schemas and profiles of a project from the names and texts
/// of their files. The profiles are read against the schema named `main`.
pub fn load_data(spec_files: &Vec<(String, String)>, profile_files: &Vec<(String, String)>) -> (result:
    Result<(OrderedMap<Spec>, OrderedMap<Profile>), LoadError>)
    ensures
        result_model(result) == load(spec_files.deep_view(), profile_files.deep_view()),
{
    let specs = match load_specs(spec_files) {
        Ok(specs) => specs,
        Err(error) => {
            return Err(error);
        },
    };
    let profiles = match specs.get("main") {
        None => {
            return Err(LoadError::MissingMainSpec);
        },
        Some(main) => match load_profiles(main, profile_files) {
            Ok(profiles) => profiles,
            Err(error) => {
                return Err(error);
            },
        },
    };
    Ok((specs, profiles))
}

} // verus!
