use vstd::prelude::*;

verus! {

/// A named model as a host stores it: the network, if one was made yet, is kept in its
/// text form.
pub struct NeuralStruct {
    name: String,
    neural_network: Option<String>,
}

impl NeuralStruct {
    pub closed spec fn name_view(&self) -> Seq<char> {
        self.name@
    }

    /// The stored text of the network, if any.
    pub closed spec fn model_view(&self) -> Option<Seq<char>> {
        match self.neural_network {
            Some(text) => Some(text@),
            None => None,
        }
    }

    /// A model with no network yet.
    pub fn new(name: String) -> (r: Self)
        ensures
            r.name_view() == name@,
            r.model_view().is_none(),
    {
        NeuralStruct { name, neural_network: None }
    }

    pub fn get_name(&self) -> (r: String)
        ensures
            r@ == self.name_view(),
    {
        self.name.clone()
    }

    /// The stored text of the network, or the empty string where there is none.
    pub fn get_model_string(&self) -> (r: String)
        ensures
            r@ == match self.model_view() {
                Some(text) => text,
                None => Seq::<char>::empty(),
            },
    {
        match &self.neural_network {
            Some(text) => text.clone(),
            None => String::new(),
        }
    }

    /// Whether a network was stored.
    pub fn has_model(&self) -> (r: bool)
        ensures
            r == self.model_view().is_some(),
    {
        self.neural_network.is_some()
    }

    /// Stores `text` as the network, in place of any earlier one.
    pub fn set_model_string(&mut self, text: String)
        ensures
            final(self).name_view() == old(self).name_view(),
            final(self).model_view() == Some(text@),
    {
        self.neural_network = Some(text);
    }
}

} // verus!
