//! Data model of the knowledge-graph panel's collection catalogue:
//! which collections exist, under which template, and where each one's
//! document lives.

use vstd::prelude::*;

use crate::graph::strs_view;

verus! {

/// One collection: its identity, display title, template name,
/// document path and tags.
#[derive(Debug)]
pub struct CollectionMeta {
    pub id: String,
    pub title: String,
    pub template: String,
    pub file: String,
    pub tags: Vec<String>,
}

/// Mathematical model of a [`CollectionMeta`].
pub struct SpecCollectionMeta {
    pub id: Seq<char>,
    pub title: Seq<char>,
    pub template: Seq<char>,
    pub file: Seq<char>,
    pub tags: Seq<Seq<char>>,
}

impl View for CollectionMeta {
    type V = SpecCollectionMeta;

    open spec fn view(&self) -> SpecCollectionMeta {
        SpecCollectionMeta {
            id: self.id@,
            title: self.title@,
            template: self.template@,
            file: self.file@,
            tags: strs_view(self.tags@),
        }
    }
}

impl Clone for CollectionMeta {
    /// Clones a collection entry without changing its model.
    fn clone(&self) -> (res: Self)
        ensures
            res@ == self@,
    {
        CollectionMeta {
            id: self.id.clone(),
            title: self.title.clone(),
            template: self.template.clone(),
            file: self.file.clone(),
            tags: crate::graph::clone_strings(&self.tags),
        }
    }
}

/// The catalogue of collections the panel can open.
#[derive(Debug)]
pub struct Overview {
    pub collections: Vec<CollectionMeta>,
}

impl View for Overview {
    type V = Seq<SpecCollectionMeta>;

    open spec fn view(&self) -> Seq<SpecCollectionMeta> {
        self.collections@.map_values(|c: CollectionMeta| c@)
    }
}

} // verus!
