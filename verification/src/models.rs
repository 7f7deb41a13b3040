//! The data model: one shareable file's record and the ordered registry of them.

use vstd::prelude::*;

verus! {

/// What a [`FileInfo`] holds, as plain mathematical values.
pub struct FileInfoView {
    pub id: Seq<char>,
    pub name: Seq<char>,
    pub path: Seq<char>,
    pub size: u64,
    pub mime_type: Seq<char>,
}

/// One shareable file's metadata. Its identity is `id`.
#[derive(Debug)]
pub struct FileInfo {
    pub id: String,
    pub name: String,
    pub path: String,
    pub size: u64,
    pub mime_type: String,
}

impl View for FileInfo {
    type V = FileInfoView;

    open spec fn view(&self) -> FileInfoView {
        FileInfoView {
            id: self.id@,
            name: self.name@,
            path: self.path@,
            size: self.size,
            mime_type: self.mime_type@,
        }
    }
}

impl Clone for FileInfo {
    fn clone(&self) -> (copy: Self)
        ensures
            copy@ == self@,
    {
        FileInfo {
            id: self.id.clone(),
            name: self.name.clone(),
            path: self.path.clone(),
            size: self.size,
            mime_type: self.mime_type.clone(),
        }
    }
}

/// Whether some record of `records` has the identifier `id`.
pub open spec fn has_id(records: Seq<FileInfoView>, id: Seq<char>) -> bool {
    exists|i: int| 0 <= i < records.len() && (#[trigger] records[i]).id == id
}

/// Whether `i` is the position of the first record of `records` with the identifier `id`.
pub open spec fn is_first_with_id(records: Seq<FileInfoView>, id: Seq<char>, i: int) -> bool {
    &&& 0 <= i < records.len()
    &&& records[i].id == id
    &&& forall|j: int| 0 <= j < i ==> (#[trigger] records[j]).id != id
}

/// Whether no two records of `records` share an identifier.
pub open spec fn ids_unique(records: Seq<FileInfoView>) -> bool {
    forall|i: int, j: int|
        0 <= i < j < records.len() ==> (#[trigger] records[i]).id != (#[trigger] records[j]).id
}

/// The ordered registry of shareable files. Listing order is insertion order.
#[derive(Debug)]
pub struct FileList {
    pub files: Vec<FileInfo>,
}

impl View for FileList {
    type V = Seq<FileInfoView>;

    open spec fn view(&self) -> Seq<FileInfoView> {
        self.files@.map_values(|f: FileInfo| f@)
    }
}

impl FileList {
    /// An empty registry.
    pub fn new() -> (list: Self)
        ensures
            list@ == Seq::<FileInfoView>::empty(),
    {
        let list = FileList { files: Vec::new() };
        assert(list@ =~= Seq::<FileInfoView>::empty());
        list
    }

    /// Appends `file`. No uniqueness check is made: the registry keeps one
    /// record per identifier as long as callers add fresh identifiers only.
    pub fn add_file(&mut self, file: FileInfo)
        ensures
            final(self)@ == old(self)@.push(file@),
            ids_unique(old(self)@) && !has_id(old(self)@, file@.id) ==> ids_unique(final(self)@),
    {
        self.files.push(file);
        assert(self@ =~= old(self)@.push(file@));
        assert(ids_unique(old(self)@) && !has_id(old(self)@, file@.id) ==> ids_unique(self@)) by {
            if ids_unique(old(self)@) && !has_id(old(self)@, file@.id) {
                assert forall|i: int, j: int| 0 <= i < j < self@.len() implies (#[trigger] self@[i]).id
                    != (#[trigger] self@[j]).id by {
                    if j == old(self)@.len() {
                        assert(old(self)@[i].id != file@.id);
                    } else {
                        assert(old(self)@[i].id != old(self)@[j].id);
                    }
                }
            }
        }
    }

    /// The number of records.
    pub fn len(&self) -> (n: usize)
        ensures
            n == self@.len(),
    {
        self.files.len()
    }

    /// Whether the registry holds no record.
    pub fn is_empty(&self) -> (empty: bool)
        ensures
            empty == (self@.len() == 0),
    {
        self.files.len() == 0
    }

    /// The position of the first record with the identifier `id`.
    pub fn position_of_id(&self, id: &str) -> (position: Option<usize>)
        ensures
            match position {
                Some(i) => is_first_with_id(self@, id@, i as int),
                None => !has_id(self@, id@),
            },
    {
        let key: String = id.to_owned();
        let mut i: usize = 0;
        while i < self.files.len()
            invariant
                i <= self.files.len(),
                key@ == id@,
                forall|j: int| 0 <= j < i ==> (#[trigger] self@[j]).id != id@,
            decreases self.files.len() - i,
        {
            if self.files[i].id == key {
                assert(self@[i as int].id == id@);
                return Some(i);
            }
            i = i + 1;
        }
        None
    }

    /// The first record with the identifier `id`, if there is one.
    pub fn get_file_by_id(&self, id: &str) -> (found: Option<&FileInfo>)
        ensures
            match found {
                Some(file) => exists|i: int| is_first_with_id(self@, id@, i) && file@ == self@[i],
                None => !has_id(self@, id@),
            },
    {
        match self.position_of_id(id) {
            Some(i) => {
                assert(is_first_with_id(self@, id@, i as int) && self.files[i as int]@ == self@[i as int]);
                Some(&self.files[i])
            },
            None => None,
        }
    }

    /// The record at `index`, or `None` when `index` is out of range.
    pub fn get_file_at(&self, index: usize) -> (found: Option<&FileInfo>)
        ensures
            match found {
                Some(file) => index < self@.len() && file@ == self@[index as int],
                None => index >= self@.len(),
            },
    {
        if index < self.files.len() {
            Some(&self.files[index])
        } else {
            None
        }
    }

    /// Removes and returns the record at `index`; `None`, and no change, when
    /// `index` is out of range.
    pub fn remove_file_at(&mut self, index: usize) -> (removed: Option<FileInfo>)
        ensures
            match removed {
                Some(file) => {
                    &&& index < old(self)@.len()
                    &&& file@ == old(self)@[index as int]
                    &&& final(self)@ == old(self)@.remove(index as int)
                },
                None => index >= old(self)@.len() && final(self)@ == old(self)@,
            },
            ids_unique(old(self)@) ==> ids_unique(final(self)@),
    {
        if index < self.files.len() {
            let file: FileInfo = self.files.remove(index);
            assert(self@ =~= old(self)@.remove(index as int));
            assert(ids_unique(old(self)@) ==> ids_unique(self@)) by {
                if ids_unique(old(self)@) {
                    assert forall|i: int, j: int| 0 <= i < j < self@.len() implies (
                    #[trigger] self@[i]).id != (#[trigger] self@[j]).id by {
                        let a = if i < index { i } else { i + 1 };
                        let b = if j < index { j } else { j + 1 };
                        assert(old(self)@[a].id != old(self)@[b].id);
                    }
                }
            }
            Some(file)
        } else {
            None
        }
    }

    /// Removes and returns the first record with the identifier `id`; `None`,
    /// and no change, when there is none.
    pub fn remove_file_by_id(&mut self, id: &str) -> (removed: Option<FileInfo>)
        ensures
            match removed {
                Some(file) => exists|i: int|
                    {
                        &&& is_first_with_id(old(self)@, id@, i)
                        &&& file@ == old(self)@[i]
                        &&& final(self)@ == old(self)@.remove(i)
                    },
                None => !has_id(old(self)@, id@) && final(self)@ == old(self)@,
            },
            ids_unique(old(self)@) ==> ids_unique(final(self)@),
            ids_unique(old(self)@) ==> !has_id(final(self)@, id@),
    {
        match self.position_of_id(id) {
            Some(i) => {
                let removed = self.remove_file_at(i);
                assert(ids_unique(old(self)@) ==> !has_id(self@, id@)) by {
                    if ids_unique(old(self)@) && has_id(self@, id@) {
                        let k = choose|k: int| 0 <= k < self@.len() && (#[trigger] self@[k]).id == id@;
                        let a = if k < i { k } else { k + 1 };
                        assert(old(self)@[a].id == old(self)@[i as int].id);
                    }
                }
                assert(is_first_with_id(old(self)@, id@, i as int));
                removed
            },
            None => None,
        }
    }

    /// Removes every record.
    pub fn clear(&mut self)
        ensures
            final(self)@ == Seq::<FileInfoView>::empty(),
    {
        self.files.clear();
        assert(self@ =~= Seq::<FileInfoView>::empty());
    }

    /// A deep copy of the whole registry, in order.
    pub fn snapshot(&self) -> (copy: Self)
        ensures
            copy@ == self@,
    {
        let mut files: Vec<FileInfo> = Vec::new();
        let mut i: usize = 0;
        while i < self.files.len()
            invariant
                i <= self.files.len(),
                files@.len() == i,
                forall|j: int| 0 <= j < i ==> (#[trigger] files@[j])@ == self.files@[j]@,
            decreases self.files.len() - i,
        {
            files.push(self.files[i].clone());
            i = i + 1;
        }
        let copy = FileList { files };
        assert(copy@ =~= self@);
        copy
    }
}

impl Clone for FileList {
    fn clone(&self) -> (copy: Self)
        ensures
            copy@ == self@,
    {
        self.snapshot()
    }
}

impl Default for FileList {
    fn default() -> (list: Self)
        ensures
            list@ == Seq::<FileInfoView>::empty(),
    {
        FileList::new()
    }
}

} // verus!
