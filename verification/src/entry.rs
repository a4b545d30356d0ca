use vstd::prelude::*;

verus! {

/// Mathematical image of an [`Entry`]: the same fields over sequences of
/// characters. An absent permission-identifier list is indistinguishable from
/// an empty one everywhere in the logic, so the view collapses the two.
pub ghost struct EntryV {
    pub id: Seq<char>,
    pub name: Seq<char>,
    pub size: Option<Seq<char>>,
    pub permission_ids: Seq<Seq<char>>,
}

/// One file or folder record returned by a storage-listing query, holding
/// exactly the fields the fixed listing projection requests: identifier,
/// name, optional string-encoded byte count, and the (possibly absent) list
/// of permission identifiers.
#[derive(Clone)]
pub struct Entry {
    pub id: String,
    pub name: String,
    pub size: Option<String>,
    pub permission_ids: Option<Vec<String>>,
}

impl DeepView for Entry {
    type V = EntryV;

    open spec fn deep_view(&self) -> EntryV {
        self.view()
    }
}

impl View for Entry {
    type V = EntryV;

    open spec fn view(&self) -> EntryV {
        EntryV {
            id: self.id@,
            name: self.name@,
            size: match self.size {
                Some(s) => Some(s@),
                None => None,
            },
            permission_ids: match self.permission_ids {
                Some(v) => v.deep_view(),
                None => Seq::empty(),
            },
        }
    }
}

/// Mathematical image of a [`FileInfo`].
pub ghost struct FileInfoV {
    pub id: Seq<char>,
    pub size: Seq<char>,
    pub name: Seq<char>,
    pub shared: bool,
}

/// The derived, classification-complete record returned to callers for each
/// qualifying file: identifier, string-encoded size, name, and whether the
/// file is publicly link-shared.
pub struct FileInfo {
    pub id: String,
    pub size: String,
    pub name: String,
    pub shared: bool,
}

impl View for FileInfo {
    type V = FileInfoV;

    open spec fn view(&self) -> FileInfoV {
        FileInfoV { id: self.id@, size: self.size@, name: self.name@, shared: self.shared }
    }
}

impl DeepView for FileInfo {
    type V = FileInfoV;

    open spec fn deep_view(&self) -> FileInfoV {
        self.view()
    }
}

impl FileInfo {
    pub fn new(id: String, size: String, name: String, shared: bool) -> (r: FileInfo)
        ensures
            r@ == (FileInfoV { id: id@, size: size@, name: name@, shared }),
    {
        FileInfo { id, size, name, shared }
    }
}

} // verus!
