use vstd::prelude::*;

pub mod chars;
pub mod emit;
pub mod laws;
pub mod scan;
pub mod value;

pub use emit::exports_to_nushell;
pub use scan::parse_posix_exports;

verus! {

/// One assignment found in the input: the variable's name and its decoded value.
#[derive(Debug, PartialEq, Eq)]
pub struct Export {
    pub name: String,
    pub value: String,
}

impl View for Export {
    type V = (Seq<char>, Seq<char>);

    open spec fn view(&self) -> (Seq<char>, Seq<char>) {
        (self.name@, self.value@)
    }
}

/// The `(name, value)` pairs that a list of exports holds, in order.
pub open spec fn pairs(es: Seq<Export>) -> Seq<(Seq<char>, Seq<char>)> {
    es.map_values(|e: Export| e@)
}

/// Rewrites the `export` statements of a POSIX shell text as Nushell
/// `$env` assignments, one line per assignment, in the order they appear.
pub fn convert(input: &str) -> (r: String)
    ensures
        r@ == emit::script(scan::exports_of(input@)),
{
    exports_to_nushell(parse_posix_exports(input))
}

} // verus!
