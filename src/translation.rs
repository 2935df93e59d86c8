use vstd::prelude::*;
use vstd::hash_map::StringHashMap;
use vstd::hash_set::StringHashSet;
use std::collections::HashSet;

verus! {

/// Bookkeeping for a translation pass: which constants carry renderable
/// props, under which alias each constant was imported, and which outside
/// files have been analysed.
pub struct TranslationWrapper {
    constants_with_renderable_props: StringHashMap<HashSet<String>>,
    imported_constants: StringHashMap<String>,
    analyzed_external_files: StringHashSet,
}

impl TranslationWrapper {
    /// Each constant's name, with the set of its renderable props.
    pub closed spec fn constants(&self) -> Map<Seq<char>, HashSet<String>> {
        self.constants_with_renderable_props@
    }

    /// Each import alias, with the path it was imported from.
    pub closed spec fn imports(&self) -> Map<Seq<char>, String> {
        self.imported_constants@
    }

    /// The paths of the files that have been analysed.
    pub closed spec fn analyzed(&self) -> Set<Seq<char>> {
        self.analyzed_external_files@
    }

    /// Nothing recorded yet.
    pub fn new() -> (r: TranslationWrapper)
        ensures
            r.constants() == Map::<Seq<char>, HashSet<String>>::empty(),
            r.imports() == Map::<Seq<char>, String>::empty(),
            r.analyzed() == Set::<Seq<char>>::empty(),
    {
        TranslationWrapper {
            constants_with_renderable_props: StringHashMap::new(),
            imported_constants: StringHashMap::new(),
            analyzed_external_files: StringHashSet::new(),
        }
    }

    /// Records the props of constant `name`, replacing any it had.
    pub fn add_constant(&mut self, name: String, props: HashSet<String>)
        ensures
            final(self).constants() == old(self).constants().insert(name@, props),
            final(self).imports() == old(self).imports(),
            final(self).analyzed() == old(self).analyzed(),
    {
        self.constants_with_renderable_props.insert(name, props);
    }

    /// Records that `alias` was imported from `path`, replacing any earlier path.
    pub fn import_constant(&mut self, alias: String, path: String)
        ensures
            final(self).imports() == old(self).imports().insert(alias@, path),
            final(self).constants() == old(self).constants(),
            final(self).analyzed() == old(self).analyzed(),
    {
        self.imported_constants.insert(alias, path);
    }

    /// Records that the file at `file_path` has been analysed.
    pub fn mark_file_analyzed(&mut self, file_path: String)
        ensures
            final(self).analyzed() == old(self).analyzed().insert(file_path@),
            final(self).constants() == old(self).constants(),
            final(self).imports() == old(self).imports(),
    {
        self.analyzed_external_files.insert(file_path);
    }

    /// Whether the file at `file_path` has been analysed.
    pub fn is_file_analyzed(&self, file_path: &str) -> (r: bool)
        ensures
            r == self.analyzed().contains(file_path@),
    {
        self.analyzed_external_files.contains(file_path)
    }

    /// The path that `alias` was imported from, if it was.
    pub fn get_imported_path(&self, alias: &str) -> (r: Option<&String>)
        ensures
            match r {
                Some(p) => self.imports().contains_key(alias@) && *p == self.imports()[alias@],
                None => !self.imports().contains_key(alias@),
            },
    {
        self.imported_constants.get(alias)
    }
}

} // verus!
