//! The mounts that the watcher watches and the paths inside them.

use vstd::prelude::*;
use vstd::string::*;
use crate::paths::{diff_paths, path_has_prefix, relative_path, starts_with};

verus! {

pub ghost struct MountModel {
    pub id: Seq<char>,
    pub path: Seq<char>,
}

/// A watched directory and its identifier.
#[derive(Debug)]
pub struct Mount {
    id: String,
    path: String,
}

impl View for Mount {
    type V = MountModel;

    closed spec fn view(&self) -> MountModel {
        MountModel { id: self.id@, path: self.path@ }
    }
}

impl Mount {
    pub fn new(id: String, path: String) -> (mount: Self)
        ensures
            mount@ == (MountModel { id: id@, path: path@ }),
    {
        Self { id, path }
    }

    pub fn path(&self) -> (path: &str)
        ensures
            path@ == self@.path,
    {
        self.path.as_str()
    }

    pub fn id(&self) -> (id: &str)
        ensures
            id@ == self@.id,
    {
        self.id.as_str()
    }
}

pub open spec fn mounts_view(mounts: Seq<Mount>) -> Seq<MountModel> {
    Seq::new(mounts.len(), |i: int| mounts[i]@)
}

pub ghost struct PathInsideModel {
    pub mount: MountModel,
    pub path: Seq<char>,
}

/// A path relative to the directory of a mount.
#[derive(Debug)]
pub struct PathInside<'a> {
    mount: &'a Mount,
    path: String,
}

impl<'a> View for PathInside<'a> {
    type V = PathInsideModel;

    closed spec fn view(&self) -> PathInsideModel {
        PathInsideModel { mount: self.mount@, path: self.path@ }
    }
}

/// Why a path is not inside a mount.
#[derive(Debug, Clone, Copy, PartialEq, Eq, Structural)]
pub enum Error {
    PathNotInMount,
    UnableToMakeRelative,
}

impl Error {
    pub open spec fn message(self) -> Seq<char> {
        match self {
            Error::PathNotInMount => "The given absolute path is not within the mount"@,
            Error::UnableToMakeRelative => "Failed to make the path relative"@,
        }
    }

    /// The error as a sentence for the user.
    pub fn to_string(&self) -> (message: String)
        ensures
            message@ == self.message(),
    {
        match self {
            Error::PathNotInMount => String::from_str(
                "The given absolute path is not within the mount",
            ),
            Error::UnableToMakeRelative => String::from_str("Failed to make the path relative"),
        }
    }
}

/// Where an absolute path lies inside a mount: the path relative to the
/// directory of the mount, unless that relative path starts by leaving the
/// directory or there is none.
pub open spec fn inside(mount: MountModel, absolute_path: Seq<char>) -> Result<
    PathInsideModel,
    Error,
> {
    match relative_path(absolute_path, mount.path) {
        None => Err(Error::UnableToMakeRelative),
        Some(relative) => if path_has_prefix(relative, ".."@) {
            Err(Error::PathNotInMount)
        } else {
            Ok(PathInsideModel { mount, path: relative })
        },
    }
}

/// The place of a path in the first of the mounts that holds it.
pub open spec fn inside_first(mounts: Seq<MountModel>, path: Seq<char>) -> Result<
    PathInsideModel,
    Error,
>
    decreases mounts.len(),
{
    if mounts.len() == 0 {
        Err(Error::PathNotInMount)
    } else if inside(mounts[0], path) is Ok {
        inside(mounts[0], path)
    } else {
        inside_first(mounts.drop_first(), path)
    }
}

impl<'a> PathInside<'a> {
    /// Writes an absolute path relative to a mount.
    pub fn from_absolute(mount: &'a Mount, absolute_path: &str) -> (found: Result<Self, Error>)
        ensures
            match found {
                Ok(path) => inside(mount@, absolute_path@) == Ok::<PathInsideModel, Error>(path@),
                Err(error) => inside(mount@, absolute_path@) == Err::<PathInsideModel, Error>(error),
            },
    {
        match diff_paths(absolute_path, mount.path.as_str()) {
            None => Err(Error::UnableToMakeRelative),
            Some(relative) => {
                if starts_with(relative.as_str(), "..") {
                    Err(Error::PathNotInMount)
                } else {
                    Ok(PathInside { mount, path: relative })
                }
            },
        }
    }

    /// Writes a path relative to the first of the mounts that holds it.
    pub fn from_mount_list(mounts: &'a [Mount], path: &str) -> (found: Result<Self, Error>)
        ensures
            match found {
                Ok(inside) => inside_first(mounts_view(mounts@), path@) == Ok::<
                    PathInsideModel,
                    Error,
                >(inside@),
                Err(error) => inside_first(mounts_view(mounts@), path@) == Err::<
                    PathInsideModel,
                    Error,
                >(error),
            },
    {
        let ghost models = mounts_view(mounts@);
        let mut i: usize = 0;
        assert(models.skip(0) =~= models);
        while i < mounts.len()
            invariant
                i <= mounts.len(),
                models == mounts_view(mounts@),
                inside_first(models, path@) == inside_first(models.skip(i as int), path@),
            decreases mounts.len() - i,
        {
            let ghost rest = models.skip(i as int);
            assert(rest[0] == mounts[i as int]@);
            assert(rest.drop_first() =~= models.skip(i + 1));
            match Self::from_absolute(&mounts[i], path) {
                Ok(found) => {
                    return Ok(found);
                },
                Err(_) => {},
            }
            i += 1;
        }
        Err(Error::PathNotInMount)
    }

    pub fn path(&'a self) -> (path: &'a str)
        ensures
            path@ == self@.path,
    {
        self.path.as_str()
    }

    pub fn mount_id(&self) -> (id: &'a str)
        ensures
            id@ == self@.mount.id,
    {
        self.mount.id()
    }
}

} // verus!
