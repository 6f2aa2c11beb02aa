//! The manga record of the catalog.

use vstd::prelude::*;

verus! {

/// The catalog's answer to a request for a manga.
#[derive(Debug, PartialEq, Eq)]
pub struct MangaData {
    pub data: MangaDataInner,
}

#[derive(Debug, PartialEq, Eq)]
pub struct MangaDataInner {
    pub attributes: MangaTitle,
    pub relationships: Vec<MangaRelation>,
}

#[derive(Debug, PartialEq, Eq)]
pub struct MangaTitle {
    pub title: MangaEnglishTitle,
}

#[derive(Debug, PartialEq, Eq)]
pub struct MangaEnglishTitle {
    pub en: String,
}

/// Something a manga is related to: the related record's id and the kind of
/// relation, such as `author` or `cover_art`.
#[derive(Debug, PartialEq, Eq)]
pub struct MangaRelation {
    id: String,
    relation_type: String,
}

/// What contracts say of a [`MangaRelation`].
pub struct RelationView {
    pub id: Seq<char>,
    pub relation_type: Seq<char>,
}

impl View for MangaRelation {
    type V = RelationView;

    closed spec fn view(&self) -> RelationView {
        RelationView { id: self.id@, relation_type: self.relation_type@ }
    }
}

impl MangaRelation {
    pub fn new(id: String, relation_type: String) -> (r: MangaRelation)
        ensures
            r@ == (RelationView { id: id@, relation_type: relation_type@ }),
    {
        MangaRelation { id, relation_type }
    }

    fn id_if(&self, kind: &String) -> (r: Option<String>)
        ensures
            r.is_some() == (self@.relation_type == kind@),
            r matches Some(id) ==> id@ == self@.id,
    {
        if self.relation_type == *kind {
            Some(self.id.clone())
        } else {
            None
        }
    }
}

/// The id of the first relation of kind `kind`; empty where there is none.
pub open spec fn related_id(relations: Seq<RelationView>, kind: Seq<char>) -> Seq<char>
    decreases relations.len(),
{
    if relations.len() == 0 {
        Seq::empty()
    } else if relations[0].relation_type == kind {
        relations[0].id
    } else {
        related_id(relations.drop_first(), kind)
    }
}

/// The relations as contracts see them.
pub open spec fn relation_views(relations: Seq<MangaRelation>) -> Seq<RelationView> {
    Seq::new(relations.len(), |i: int| relations[i]@)
}

impl MangaData {
    /// The English title.
    pub fn get_title(&self) -> (title: &str)
        ensures
            title@ == self.data.attributes.title.en@,
    {
        self.data.attributes.title.en.as_str()
    }

    fn find_related(&self, kind: &str) -> (id: String)
        ensures
            id@ == related_id(relation_views(self.data.relationships@), kind@),
    {
        let wanted = String::from_str(kind);
        let relations = &self.data.relationships;
        let ghost views = relation_views(relations@);
        assert(views.skip(0) =~= views);
        let mut i: usize = 0;
        while i < relations.len()
            invariant
                i <= relations.len(),
                wanted@ == kind@,
                relations@ == self.data.relationships@,
                views == relation_views(relations@),
                related_id(views, kind@) == related_id(views.skip(i as int), kind@),
            decreases relations.len() - i,
        {
            let ghost rest = views.skip(i as int);
            assert(rest[0] == relations[i as int]@);
            assert(rest.drop_first() =~= views.skip(i + 1));
            match relations[i].id_if(&wanted) {
                Some(id) => {
                    assert(related_id(rest, kind@) == rest[0].id);
                    return id;
                },
                None => {
                    assert(related_id(rest, kind@) == related_id(rest.drop_first(), kind@));
                },
            }
            i = i + 1;
        }
        assert(views.skip(i as int).len() == 0);
        String::new()
    }

    /// The id of the manga's author: that of its first `author` relation, or
    /// the empty string where it has none.
    pub fn get_author_id(&self) -> (id: String)
        ensures
            id@ == related_id(relation_views(self.data.relationships@), "author"@),
    {
        self.find_related("author")
    }

    /// The id of the manga's cover: that of its first `cover_art` relation, or
    /// the empty string where it has none.
    pub fn get_cover_id(&self) -> (id: String)
        ensures
            id@ == related_id(relation_views(self.data.relationships@), "cover_art"@),
    {
        self.find_related("cover_art")
    }
}

} // verus!
