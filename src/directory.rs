//! The list of user directories, with the download directory among them.

use vstd::prelude::*;

verus! {

/// What a directory is used for.
#[derive(Debug, Clone, Copy, PartialEq, Eq, Structural)]
pub enum DirectoryType {
    Manga,
    Download,
}

/// One registered directory.
#[derive(Debug, Clone)]
pub struct Directory {
    pub id: String,
    pub path: String,
    pub directory_type: DirectoryType,
}

/// The registered directories, in order of registration.
pub struct DirectoryState {
    pub directories: Vec<Directory>,
}

/// Relies on `uuid::Uuid::new_v4` and its `Display` form: a fresh random
/// identifier, written as 36 characters (hex digits in five groups joined
/// by hyphens).
#[verifier::external_body]
pub(crate) fn new_random_id() -> (r: String)
    ensures
        r@.len() == 36,
{
    uuid::Uuid::new_v4().to_string()
}

impl DirectoryState {
    /// A list holding one download directory at `default_download_dir`.
    pub fn new(default_download_dir: String) -> (r: DirectoryState)
        ensures
            r.directories@.len() == 1,
            r.directories@[0].path == default_download_dir,
            r.directories@[0].directory_type == DirectoryType::Download,
            r.directories@[0].id@.len() == 36,
    {
        let mut directories: Vec<Directory> = Vec::new();
        directories.push(
            Directory {
                id: new_random_id(),
                path: default_download_dir,
                directory_type: DirectoryType::Download,
            },
        );
        DirectoryState { directories }
    }

    /// The path of the first download directory, `default_download_dir`
    /// where there is none.
    pub fn get_download_directory(&self, default_download_dir: String) -> (r: String)
        ensures
            (exists|i: int|
                0 <= i < self.directories@.len() && self.directories@[i].directory_type
                    == DirectoryType::Download && r@ == self.directories@[i].path@ && forall|j: int|
                    0 <= j < i ==> self.directories@[j].directory_type != DirectoryType::Download)
                || (r == default_download_dir && forall|j: int|
                0 <= j < self.directories@.len() ==> self.directories@[j].directory_type
                    != DirectoryType::Download),
    {
        let mut i: usize = 0;
        while i < self.directories.len()
            invariant
                i <= self.directories@.len(),
                forall|j: int|
                    0 <= j < i ==> self.directories@[j].directory_type != DirectoryType::Download,
            decreases self.directories@.len() - i,
        {
            if self.directories[i].directory_type == DirectoryType::Download {
                return self.directories[i].path.clone();
            }
            i = i + 1;
        }
        default_download_dir
    }
}

/// Registers `path` as a directory of `directory_type`, under a fresh
/// identifier. The caller tells whether the path exists and is a directory;
/// nothing is registered where it is not.
pub fn add_directory(
    state: &mut DirectoryState,
    path: String,
    directory_type: DirectoryType,
    exists: bool,
    is_dir: bool,
) -> (r: Result<Directory, String>)
    ensures
        !exists ==> r is Err && final(state).directories@ == old(state).directories@,
        exists && !is_dir ==> r is Err && final(state).directories@ == old(state).directories@,
        exists && is_dir ==> (r matches Ok(d) && d.path == path && d.directory_type == directory_type
            && d.id@.len() == 36 && final(state).directories@.len() == old(state).directories@.len()
            + 1 && final(state).directories@.drop_last() == old(state).directories@
            && final(state).directories@.last().path == path
            && final(state).directories@.last().directory_type == directory_type
            && final(state).directories@.last().id == d.id),
{
    if !exists {
        return Err(String::from_str("Directory does not exist"));
    }
    if !is_dir {
        return Err(String::from_str("Path is not a directory"));
    }
    let id = new_random_id();
    let d = Directory { id: id.clone(), path: path.clone(), directory_type };
    state.directories.push(Directory { id, path, directory_type });
    assert(state.directories@.drop_last() =~= old(state).directories@);
    Ok(d)
}

/// The directories of `directory_type` (all of them where it is `None`),
/// in order of registration.
pub fn get_directories(state: &DirectoryState, directory_type: Option<DirectoryType>) -> (r: Vec<
    Directory,
>)
    ensures
        r@.map_values(|d: Directory| (d.id@, d.path@, d.directory_type)) == state.directories@.filter(
            |d: Directory| directory_type is None || directory_type == Some(d.directory_type),
        ).map_values(|d: Directory| (d.id@, d.path@, d.directory_type)),
{
    let ghost keep = |d: Directory| directory_type is None || directory_type == Some(d.directory_type);
    let ghost f = |d: Directory| (d.id@, d.path@, d.directory_type);
    let mut r: Vec<Directory> = Vec::new();
    let mut i: usize = 0;
    assert(state.directories@.take(0) =~= Seq::<Directory>::empty());
    while i < state.directories.len()
        invariant
            i <= state.directories@.len(),
            forall|d: Directory| #[trigger] keep(d) == (directory_type is None || directory_type == Some(d.directory_type)),
            forall|d: Directory| #[trigger] f(d) == (d.id@, d.path@, d.directory_type),
            r@.map_values(f) == state.directories@.take(i as int).filter(keep).map_values(f),
        decreases state.directories@.len() - i,
    {
        let d = &state.directories[i];
        let ghost before = r@;
        proof {
            let t = state.directories@.take(i + 1);
            assert(t.drop_last() =~= state.directories@.take(i as int));
            assert(t.last() == *d);
            assert(t =~= state.directories@.take(i as int).push(*d));
            state.directories@.take(i as int).lemma_filter_push(*d, keep);
        }
        let wanted = match directory_type {
            None => true,
            Some(t) => t == d.directory_type,
        };
        assert(wanted == keep(*d));
        if wanted {
            let c = Directory { id: d.id.clone(), path: d.path.clone(), directory_type: d.directory_type };
            assert(f(c) == f(*d));
            r.push(c);
            assert(r@.map_values(f) =~= before.map_values(f).push(f(*d)));
        } else {
            assert(r@.map_values(f) =~= before.map_values(f));
        }
        i = i + 1;
    }
    assert(state.directories@.take(state.directories@.len() as int) =~= state.directories@);
    r
}

/// Removes every directory registered under `id`.
pub fn remove_directory(state: &mut DirectoryState, id: &str)
    ensures
        final(state).directories@ == old(state).directories@.filter(|d: Directory| d.id@ != id@),
{
    let ghost keep = |d: Directory| d.id@ != id@;
    let k = String::from_str(id);
    let mut kept: Vec<Directory> = Vec::new();
    let mut i: usize = 0;
    assert(state.directories@.take(0) =~= Seq::<Directory>::empty());
    while i < state.directories.len()
        invariant
            i <= state.directories@.len(),
            k@ == id@,
            forall|d: Directory| #[trigger] keep(d) == (d.id@ != id@),
            kept@ == state.directories@.take(i as int).filter(keep),
        decreases state.directories@.len() - i,
    {
        let d = &state.directories[i];
        proof {
            let t = state.directories@.take(i + 1);
            assert(t.drop_last() =~= state.directories@.take(i as int));
            assert(t.last() == *d);
            assert(t =~= state.directories@.take(i as int).push(*d));
            state.directories@.take(i as int).lemma_filter_push(*d, keep);
        }
        let same = d.id == k;
        assert(same == !keep(*d));
        if !same {
            let c = Directory { id: d.id.clone(), path: d.path.clone(), directory_type: d.directory_type };
            assert(c == *d);
            kept.push(c);
        }
        i = i + 1;
    }
    assert(state.directories@.take(state.directories@.len() as int) =~= state.directories@);
    state.directories = kept;
}

} // verus!
