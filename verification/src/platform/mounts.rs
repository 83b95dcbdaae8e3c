//! Mounts: directories that are known under an identifier, and paths that
//! are written relative to one of them.

use vstd::prelude::*;
use vstd::string::*;
use crate::paths::{
    diff_paths, join, joined_path, normalize_separators, path_has_prefix, relative_path,
    starts_with, with_slashes,
};
use crate::text::{split, split_text, str_eq, texts};

verus! {

pub ghost enum MountErrorModel {
    NoMountsDefined,
    UnableToMakeRelative,
    PathNotInMount,
    NoSuchMount(Seq<char>),
}

/// Why a path could not be brought into or out of a mount.
#[derive(Debug, PartialEq, Eq)]
pub enum MountError {
    NoMountsDefined,
    UnableToMakeRelative,
    PathNotInMount,
    NoSuchMount(String),
}

impl View for MountError {
    type V = MountErrorModel;

    open spec fn view(&self) -> MountErrorModel {
        match self {
            MountError::NoMountsDefined => MountErrorModel::NoMountsDefined,
            MountError::UnableToMakeRelative => MountErrorModel::UnableToMakeRelative,
            MountError::PathNotInMount => MountErrorModel::PathNotInMount,
            MountError::NoSuchMount(id) => MountErrorModel::NoSuchMount(id@),
        }
    }
}

pub open spec fn mount_error_message(error: MountErrorModel) -> Seq<char> {
    match error {
        MountErrorModel::NoMountsDefined => "No mounts were defined"@,
        MountErrorModel::UnableToMakeRelative => "The given absolute path is not within the mount"@,
        MountErrorModel::PathNotInMount => "Failed to make the path mount-relative"@,
        MountErrorModel::NoSuchMount(id) => "Mount with id \""@ + id + "\" does not exist"@,
    }
}

impl MountError {
    /// The error as a sentence for the user.
    pub fn to_string(&self) -> (message: String)
        ensures
            message@ == mount_error_message(self@),
    {
        match self {
            MountError::NoMountsDefined => String::from_str("No mounts were defined"),
            MountError::UnableToMakeRelative => String::from_str(
                "The given absolute path is not within the mount",
            ),
            MountError::PathNotInMount => String::from_str("Failed to make the path mount-relative"),
            MountError::NoSuchMount(id) => {
                let mut message = String::from_str("Mount with id \"");
                message.append(id.as_str());
                message.append("\" does not exist");
                message
            },
        }
    }
}

pub ghost struct MountModel {
    pub id: Seq<char>,
    pub path: Seq<char>,
}

/// A directory and the identifier under which it is known.
#[derive(Debug, Clone, PartialEq, Eq)]
pub struct Mount {
    id: String,
    path: String,
}

impl View for Mount {
    type V = MountModel;

    closed spec fn view(&self) -> MountModel {
        MountModel { id: self.id@, path: self.path@ }
    }
}

impl Mount {
    #[must_use]
    pub fn new(id: String, path: String) -> (mount: Self)
        ensures
            mount@ == (MountModel { id: id@, path: path@ }),
    {
        Self { id, path }
    }

    #[must_use]
    pub fn id(&self) -> (id: &str)
        ensures
            id@ == self@.id,
    {
        self.id.as_str()
    }

    #[must_use]
    pub fn path(&self) -> (path: &str)
        ensures
            path@ == self@.path,
    {
        self.path.as_str()
    }

    /// A mount with the same identifier and path.
    pub fn duplicate(&self) -> (copy: Self)
        ensures
            copy@ == self@,
    {
        Self { id: self.id.clone(), path: self.path.clone() }
    }
}

pub ghost struct PathInsideModel {
    pub mount_id: Seq<char>,
    pub path: Seq<char>,
}

/// A path relative to the mount with the given identifier.
#[derive(Debug, Clone, PartialEq, Eq)]
pub struct PathInside {
    mount_id: String,
    path: String,
}

impl View for PathInside {
    type V = PathInsideModel;

    closed spec fn view(&self) -> PathInsideModel {
        PathInsideModel { mount_id: self.mount_id@, path: self.path@ }
    }
}

impl PathInside {
    #[must_use]
    pub fn new(mount_id: String, path: String) -> (inside: Self)
        ensures
            inside@ == (PathInsideModel { mount_id: mount_id@, path: path@ }),
    {
        Self { mount_id, path }
    }

    #[must_use]
    pub fn mount_id(&self) -> (mount_id: &str)
        ensures
            mount_id@ == self@.mount_id,
    {
        self.mount_id.as_str()
    }

    #[must_use]
    pub fn path(&self) -> (path: &str)
        ensures
            path@ == self@.path,
    {
        self.path.as_str()
    }
}

/// Where a path lies inside a mount: the path relative to the directory of
/// the mount, written with slashes. A path that cannot be written relative
/// to the mount is an error, and so is one whose relative form starts by
/// leaving the directory.
pub open spec fn path_inside_mount(path: Seq<char>, mount: MountModel) -> Result<
    PathInsideModel,
    MountErrorModel,
> {
    match relative_path(path, mount.path) {
        None => Err(MountErrorModel::UnableToMakeRelative),
        Some(relative) => if path_has_prefix(relative, ".."@) {
            Err(MountErrorModel::PathNotInMount)
        } else {
            Ok(PathInsideModel { mount_id: mount.id, path: with_slashes(relative) })
        },
    }
}

/// The result for the first mount in which the path lies; without such a
/// mount the error of the last mount, and without mounts the error that
/// says so.
pub open spec fn path_inside_mounts(path: Seq<char>, mounts: Seq<MountModel>) -> Result<
    PathInsideModel,
    MountErrorModel,
>
    decreases mounts.len(),
{
    if mounts.len() == 0 {
        Err(MountErrorModel::NoMountsDefined)
    } else if path_inside_mount(path, mounts[0]) is Ok || mounts.len() == 1 {
        path_inside_mount(path, mounts[0])
    } else {
        path_inside_mounts(path, mounts.drop_first())
    }
}

pub open spec fn mounts_view(mounts: Seq<Mount>) -> Seq<MountModel> {
    Seq::new(mounts.len(), |i: int| mounts[i]@)
}

pub open spec fn mount_ids(mounts: Seq<MountModel>) -> Seq<Seq<char>> {
    Seq::new(mounts.len(), |i: int| mounts[i].id)
}

/// The mounts after `mount` was added: it takes the place of the mount that
/// has its identifier, or the last place where there is none.
pub open spec fn with_mount(mounts: Seq<MountModel>, mount: MountModel) -> Seq<MountModel> {
    if mount_ids(mounts).contains(mount.id) {
        mounts.update(mount_ids(mounts).index_of(mount.id), mount)
    } else {
        mounts.push(mount)
    }
}

/// The mounts after all of `added` were added, in order.
pub open spec fn with_mounts(mounts: Seq<MountModel>, added: Seq<MountModel>) -> Seq<MountModel>
    decreases added.len(),
{
    if added.len() == 0 {
        mounts
    } else {
        with_mounts(with_mount(mounts, added[0]), added.drop_first())
    }
}

/// The mount with the given identifier.
pub open spec fn mount_with_id(mounts: Seq<MountModel>, id: Seq<char>) -> Option<MountModel> {
    if mount_ids(mounts).contains(id) {
        Some(mounts[mount_ids(mounts).index_of(id)])
    } else {
        None
    }
}

/// Adding a mount keeps the identifiers distinct.
pub proof fn lemma_with_mount_keeps_ids_distinct(mounts: Seq<MountModel>, mount: MountModel)
    requires
        mount_ids(mounts).no_duplicates(),
    ensures
        mount_ids(with_mount(mounts, mount)).no_duplicates(),
{
    let ids = mount_ids(mounts);
    if ids.contains(mount.id) {
        let at = ids.index_of(mount.id);
        assert(mount_ids(with_mount(mounts, mount)) =~= ids);
    } else {
        assert(mount_ids(with_mount(mounts, mount)) =~= ids.push(mount.id));
    }
}

/// The mounts that a list of directories names: entries separated by
/// commas, each a path and an identifier with a colon between them.
pub open spec fn mounts_of_text(text: Seq<char>) -> Seq<MountModel> {
    let entries = split(text, ',');
    Seq::new(
        entries.len(),
        |k: int| MountModel { id: split(entries[k], ':')[1], path: split(entries[k], ':')[0] },
    )
}

/// Whether every entry of a list of directories has a colon.
pub open spec fn names_mounts(text: Seq<char>) -> bool {
    forall|k: int|
        0 <= k < split(text, ',').len() ==> split(#[trigger] split(text, ',')[k], ':').len() >= 2
}

/// The mounts that a service knows. No two of them share an identifier.
pub struct Provider {
    mounts: Vec<Mount>,
}

impl View for Provider {
    type V = Seq<MountModel>;

    closed spec fn view(&self) -> Seq<MountModel> {
        mounts_view(self.mounts@)
    }
}

impl Provider {
    #[verifier::type_invariant]
    spec fn ids_are_distinct(self) -> bool {
        mount_ids(mounts_view(self.mounts@)).no_duplicates()
    }

    fn position(mounts: &Vec<Mount>, id: &str) -> (found: Option<usize>)
        ensures
            match found {
                Some(i) => i < mounts.len() && mounts[i as int]@.id == id@ && forall|j: int|
                    0 <= j < i ==> mounts[j]@.id != id@,
                None => forall|j: int| 0 <= j < mounts.len() ==> mounts[j]@.id != id@,
            },
    {
        let mut i: usize = 0;
        while i < mounts.len()
            invariant
                i <= mounts.len(),
                forall|j: int| 0 <= j < i ==> mounts[j]@.id != id@,
            decreases mounts.len() - i,
        {
            if str_eq(mounts[i].id.as_str(), id) {
                return Some(i);
            }
            i += 1;
        }
        None
    }

    /// The provider of the given mounts. Of two mounts with one identifier
    /// the later one stays, in the place of the earlier one.
    #[must_use]
    pub fn new(mounts: Vec<Mount>) -> (provider: Self)
        ensures
            provider@ == with_mounts(Seq::empty(), mounts_view(mounts@)),
    {
        let ghost added = mounts_view(mounts@);
        let mut kept: Vec<Mount> = Vec::new();
        let mut i: usize = 0;
        assert(mounts_view(kept@) =~= Seq::<MountModel>::empty());
        assert(added.skip(0) =~= added);
        while i < mounts.len()
            invariant
                i <= mounts.len(),
                added == mounts_view(mounts@),
                mount_ids(mounts_view(kept@)).no_duplicates(),
                with_mounts(Seq::empty(), added) == with_mounts(
                    mounts_view(kept@),
                    added.skip(i as int),
                ),
            decreases mounts.len() - i,
        {
            let mount = mounts[i].duplicate();
            let ghost before = mounts_view(kept@);
            let ghost rest = added.skip(i as int);
            proof {
                assert(rest[0] == mount@);
                assert(rest.drop_first() =~= added.skip(i + 1));
                lemma_with_mount_keeps_ids_distinct(before, mount@);
            }
            match Self::position(&kept, mount.id.as_str()) {
                Some(at) => {
                    proof {
                        assert(mount_ids(before)[at as int] == mount@.id);
                        assert(mount_ids(before).index_of(mount@.id) == at);
                    }
                    kept.set(at, mount);
                    assert(mounts_view(kept@) =~= with_mount(before, rest[0]));
                },
                None => {
                    proof {
                        if mount_ids(before).contains(mount@.id) {
                            let j = choose|j: int|
                                0 <= j < mount_ids(before).len() && mount_ids(before)[j]
                                    == mount@.id;
                            assert(kept[j]@.id == mount@.id);
                        }
                    }
                    kept.push(mount);
                    assert(mounts_view(kept@) =~= with_mount(before, rest[0]));
                },
            }
            i += 1;
        }
        Provider { mounts: kept }
    }

    /// The provider of the mounts that a list of the form
    /// `path:id,path:id` names. Every entry must have a colon.
    #[must_use]
    pub fn from_raw_string(directories_from_env: &str) -> (provider: Self)
        requires
            names_mounts(directories_from_env@),
        ensures
            provider@ == with_mounts(Seq::empty(), mounts_of_text(directories_from_env@)),
    {
        let entries = split_text(directories_from_env, ',');
        let ghost wanted = mounts_of_text(directories_from_env@);
        let mut mounts: Vec<Mount> = Vec::new();
        let mut k: usize = 0;
        while k < entries.len()
            invariant
                k <= entries.len(),
                texts(entries@) == split(directories_from_env@, ','),
                names_mounts(directories_from_env@),
                wanted == mounts_of_text(directories_from_env@),
                mounts.len() == k,
                forall|j: int| 0 <= j < k ==> mounts[j]@ == wanted[j],
            decreases entries.len() - k,
        {
            assert(texts(entries@)[k as int] == entries[k as int]@);
            let mut parts = split_text(entries[k].as_str(), ':');
            assert(texts(parts@).len() >= 2);
            assert(texts(parts@)[0] == parts[0]@ && texts(parts@)[1] == parts[1]@);
            let id = parts[1].clone();
            let path = parts[0].clone();
            mounts.push(Mount::new(id, path));
            k += 1;
        }
        assert(mounts_view(mounts@) =~= wanted);
        Self::new(mounts)
    }

    /// Copies of the mounts.
    #[must_use]
    pub fn mounts(&self) -> (mounts: Vec<Mount>)
        ensures
            mounts_view(mounts@) == self@,
    {
        let mut copies: Vec<Mount> = Vec::new();
        let mut i: usize = 0;
        while i < self.mounts.len()
            invariant
                i <= self.mounts.len(),
                copies.len() == i,
                forall|j: int| 0 <= j < i ==> copies[j]@ == self.mounts[j]@,
            decreases self.mounts.len() - i,
        {
            copies.push(self.mounts[i].duplicate());
            i += 1;
        }
        assert(mounts_view(copies@) =~= mounts_view(self.mounts@));
        copies
    }

    /// Writes `path` relative to `mount`.
    pub fn path_inside_from_filesystem_path_with_mount(&self, path: &str, mount: &Mount) -> (inside:
        Result<PathInside, MountError>)
        ensures
            match inside {
                Ok(found) => path_inside_mount(path@, mount@) == Ok::<
                    PathInsideModel,
                    MountErrorModel,
                >(found@),
                Err(error) => path_inside_mount(path@, mount@) == Err::<
                    PathInsideModel,
                    MountErrorModel,
                >(error@),
            },
    {
        inside_mount(path, mount)
    }

    /// Finds the first mount in which `path` lies and writes the path
    /// relative to it.
    pub fn path_inside_from_filesystem_path(&self, path: &str) -> (inside: Result<
        PathInside,
        MountError,
    >)
        ensures
            match inside {
                Ok(found) => path_inside_mounts(path@, self@) == Ok::<
                    PathInsideModel,
                    MountErrorModel,
                >(found@),
                Err(error) => path_inside_mounts(path@, self@) == Err::<
                    PathInsideModel,
                    MountErrorModel,
                >(error@),
            },
    {
        let ghost models = mounts_view(self.mounts@);
        let mut result: Result<PathInside, MountError> = Err(MountError::NoMountsDefined);
        let mut i: usize = 0;
        assert(models.skip(0) =~= models);
        while i < self.mounts.len()
            invariant
                i <= self.mounts.len(),
                models == mounts_view(self.mounts@),
                i > 0 ==> (result matches Err(error) && path_inside_mount(path@, models[i - 1])
                    == Err::<PathInsideModel, MountErrorModel>(error@)),
                i == 0 ==> result matches Err(MountError::NoMountsDefined),
                i < self.mounts.len() ==> path_inside_mounts(path@, models) == path_inside_mounts(
                    path@,
                    models.skip(i as int),
                ),
                i == self.mounts.len() && i > 0 ==> path_inside_mounts(path@, models)
                    == path_inside_mount(path@, models[i - 1]),
            decreases self.mounts.len() - i,
        {
            let ghost rest = models.skip(i as int);
            assert(rest[0] == self.mounts[i as int]@);
            assert(rest.drop_first() =~= models.skip(i + 1));
            result = inside_mount(path, &self.mounts[i]);
            if result.is_ok() {
                return result;
            }
            i += 1;
        }
        result
    }

    /// The place in the file system of a path inside a mount: the path
    /// pushed onto the directory of the mount that it names.
    pub fn mount_relative_to_filesystem_path(&self, path_inside: PathInside) -> (path: Result<
        String,
        MountError,
    >)
        ensures
            match path {
                Ok(found) => mount_with_id(self@, path_inside@.mount_id) is Some && found@
                    == joined_path(
                    mount_with_id(self@, path_inside@.mount_id).unwrap().path,
                    path_inside@.path,
                ),
                Err(error) => mount_with_id(self@, path_inside@.mount_id) is None && error@
                    == MountErrorModel::NoSuchMount(path_inside@.mount_id),
            },
    {
        self.mount_relative_to_filesystem_path_by_mount_id(
            path_inside.mount_id.as_str(),
            path_inside.path.as_str(),
        )
    }

    /// The place in the file system of `path_inside` in the mount with the
    /// identifier `mount_id`.
    pub fn mount_relative_to_filesystem_path_by_mount_id(&self, mount_id: &str, path_inside: &str) -> (path:
        Result<String, MountError>)
        ensures
            match path {
                Ok(found) => mount_with_id(self@, mount_id@) is Some && found@ == joined_path(
                    mount_with_id(self@, mount_id@).unwrap().path,
                    path_inside@,
                ),
                Err(error) => mount_with_id(self@, mount_id@) is None && error@
                    == MountErrorModel::NoSuchMount(mount_id@),
            },
    {
        proof {
            use_type_invariant(self);
        }
        let ghost ids = mount_ids(mounts_view(self.mounts@));
        match Self::position(&self.mounts, mount_id) {
            Some(at) => {
                proof {
                    assert(ids[at as int] == mount_id@);
                    assert(ids.index_of(mount_id@) == at);
                }
                Ok(join(self.mounts[at].path.as_str(), path_inside))
            },
            None => {
                proof {
                    if ids.contains(mount_id@) {
                        let j = choose|j: int| 0 <= j < ids.len() && ids[j] == mount_id@;
                        assert(self.mounts[j]@.id == mount_id@);
                    }
                }
                Err(MountError::NoSuchMount(mount_id.to_owned()))
            },
        }
    }
}

/// Writes `path` relative to `mount`.
fn inside_mount(path: &str, mount: &Mount) -> (inside: Result<PathInside, MountError>)
    ensures
        match inside {
            Ok(found) => path_inside_mount(path@, mount@) == Ok::<PathInsideModel, MountErrorModel>(
                found@,
            ),
            Err(error) => path_inside_mount(path@, mount@) == Err::<
                PathInsideModel,
                MountErrorModel,
            >(error@),
        },
{
    match diff_paths(path, mount.path.as_str()) {
        None => Err(MountError::UnableToMakeRelative),
        Some(relative) => {
            if starts_with(relative.as_str(), "..") {
                Err(MountError::PathNotInMount)
            } else {
                Ok(
                    PathInside {
                        mount_id: mount.id.clone(),
                        path: normalize_separators(relative.as_str()),
                    },
                )
            }
        },
    }
}

} // verus!
