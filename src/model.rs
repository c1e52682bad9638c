//! Model names. The client is built with the model to ask; the library has
//! no built-in list of names.

use vstd::prelude::*;

verus! {

/// The name of a model that the service offers.
#[derive(Debug, Clone)]
pub struct Model(pub String);

impl View for Model {
    type V = Seq<char>;

    open spec fn view(&self) -> Seq<char> {
        self.0@
    }
}

impl From<&str> for Model {
    fn from(value: &str) -> (r: Model)
        ensures
            r@ == value@,
    {
        Model(value.to_owned())
    }
}

/// A `String` has no spec constructor, so `from` is specified by its own
/// `ensures` (the name is kept as given) rather than by `from_spec`.
impl vstd::std_specs::convert::FromSpecImpl<&str> for Model {
    open spec fn obeys_from_spec() -> bool {
        false
    }

    open spec fn from_spec(v: &str) -> Model {
        arbitrary()
    }
}

impl Model {
    /// The model's name as the service spells it.
    pub fn as_str(&self) -> (r: &str)
        ensures
            r@ == self@,
    {
        self.0.as_str()
    }
}

} // verus!
