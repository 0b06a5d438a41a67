use std::sync::Arc;
use vstd::prelude::*;

verus! {

/// Identity of one tray item: the bus address it lives at (for example ":1.52").
#[derive(Debug)]
pub struct Token {
    pub destination: Arc<String>,
}

impl View for Token {
    type V = Seq<char>;

    open spec fn view(&self) -> Seq<char> {
        self.destination@
    }
}

impl Token {
    /// Wraps a bus address.
    pub fn new(destination: String) -> (t: Token)
        ensures
            t@ == destination@,
    {
        Token { destination: Arc::new(destination) }
    }

    /// Whether two tokens name the same bus address.
    pub fn same_as(&self, other: &Token) -> (r: bool)
        ensures
            r == (self@ == other@),
    {
        let a: &String = &self.destination;
        let b: &String = &other.destination;
        *a == *b
    }

    /// A second handle on the same address.
    pub fn duplicate(&self) -> (r: Token)
        ensures
            r@ == self@,
    {
        Token { destination: Arc::clone(&self.destination) }
    }
}

} // verus!
