//! The table of constant strings that instructions refer to by position.

use vstd::prelude::*;

verus! {

#[derive(Debug)]
pub struct StringTable {
    pub strings: Vec<String>,
}

impl View for StringTable {
    type V = Seq<Seq<char>>;

    open spec fn view(&self) -> Seq<Seq<char>> {
        self.strings@.map_values(|s: String| s@)
    }
}

impl Default for StringTable {
    fn default() -> (result: Self)
        ensures
            result@ == Seq::<Seq<char>>::empty(),
    {
        let result = StringTable { strings: Vec::new() };
        assert(result@ =~= Seq::<Seq<char>>::empty());
        result
    }
}

impl StringTable {
    /// Keeps a copy of `string` for as long as the table lives and returns
    /// its position. Equal strings are kept once per call.
    pub fn to_llvm_string(&mut self, string: &str) -> (position: usize)
        ensures
            final(self)@ == old(self)@.push(string@),
            position == old(self)@.len(),
    {
        let position = self.strings.len();
        self.strings.push(String::from_str(string));
        assert(final(self)@ =~= old(self)@.push(string@));
        position
    }

    /// Keeps a copy of `string`, as `to_llvm_string` does.
    pub fn to_mut_llvm_string(&mut self, string: &str) -> (position: usize)
        ensures
            final(self)@ == old(self)@.push(string@),
            position == old(self)@.len(),
    {
        self.to_llvm_string(string)
    }

    /// The string kept at `position`.
    pub fn get(&self, position: usize) -> (result: Option<&String>)
        ensures
            result is Some == (position < self@.len()),
            result matches Some(string) ==> string@ == self@[position as int],
    {
        if position < self.strings.len() {
            Some(&self.strings[position])
        } else {
            None
        }
    }
}

} // verus!
