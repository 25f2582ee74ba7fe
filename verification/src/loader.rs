//! The contracts a grid serialization format implements.

use vstd::prelude::*;

use crate::canvas::grid_view;
use crate::character::Character;

verus! {

/// A source format that cell grids can be read from. `import_req` names the
/// inputs that `import` admits, `import_spec` the grid an admitted input
/// denotes.
pub trait Importer<T: View>: Sized {
    spec fn import_req(data: T::V) -> bool;

    spec fn import_spec(data: T::V) -> Seq<Seq<Character>>;

    fn import(data: T) -> (r: Vec<Vec<Character>>)
        requires
            Self::import_req(data@),
        ensures
            grid_view(r@) == Self::import_spec(data@),
    ;
}

/// A target format that cell grids can be written to. `export_spec` names
/// the exact output for every grid.
pub trait Exporter<T: View>: Sized {
    spec fn export_spec(data: Seq<Seq<Character>>) -> T::V;

    fn export(data: &Vec<Vec<Character>>) -> (r: T)
        ensures
            r@ == Self::export_spec(grid_view(data@)),
    ;
}

} // verus!
