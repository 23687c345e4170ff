//! Paths of editable balance fields.

use vstd::prelude::*;

verus! {

/// One segment of an editable field's path: an object key or an array index.
#[derive(Clone, Debug, PartialEq, Eq)]
pub enum EditorPathSegment {
    Key(String),
    Index(usize),
}

/// The abstract value of a path segment.
pub enum PathSegmentView {
    Key(Seq<char>),
    Index(usize),
}

impl View for EditorPathSegment {
    type V = PathSegmentView;

    open spec fn view(&self) -> PathSegmentView {
        match self {
            EditorPathSegment::Key(key) => PathSegmentView::Key(key@),
            EditorPathSegment::Index(index) => PathSegmentView::Index(*index),
        }
    }
}

/// The abstract value of a path.
pub open spec fn path_view(path: Seq<EditorPathSegment>) -> Seq<PathSegmentView> {
    path.map_values(|segment: EditorPathSegment| segment@)
}

impl EditorPathSegment {
    /// The object-key segment `key`.
    pub fn key(key: &str) -> (segment: Self)
        ensures
            segment@ == PathSegmentView::Key(key@),
    {
        EditorPathSegment::Key(key.to_owned())
    }

    /// The array-index segment `index`.
    pub fn index(index: usize) -> (segment: Self)
        ensures
            segment@ == PathSegmentView::Index(index),
    {
        EditorPathSegment::Index(index)
    }
}

/// The path of parameter `tail` of variant `variant` of the passive at `index`:
/// `passives / index / parameters / variant / tail`.
pub fn passive_path(index: usize, variant: &str, tail: &str) -> (path: Vec<EditorPathSegment>)
    ensures
        path_view(path@) == seq![
            PathSegmentView::Key("passives"@),
            PathSegmentView::Index(index),
            PathSegmentView::Key("parameters"@),
            PathSegmentView::Key(variant@),
            PathSegmentView::Key(tail@),
        ],
{
    let mut path: Vec<EditorPathSegment> = Vec::new();
    path.push(EditorPathSegment::key("passives"));
    path.push(EditorPathSegment::index(index));
    path.push(EditorPathSegment::key("parameters"));
    path.push(EditorPathSegment::key(variant));
    path.push(EditorPathSegment::key(tail));
    assert(path_view(path@) =~= seq![
        PathSegmentView::Key("passives"@),
        PathSegmentView::Index(index),
        PathSegmentView::Key("parameters"@),
        PathSegmentView::Key(variant@),
        PathSegmentView::Key(tail@),
    ]);
    path
}

} // verus!
