//! Highlight categories and their colours.

use vstd::prelude::*;

verus! {

/// The category a character of a row is displayed in.
#[derive(PartialEq, Eq, Structural, Clone, Copy, Debug)]
pub enum Type {
    Plain,
    Number,
    Match,
    String,
    Character,
    Comment,
    MultiLineComment,
    PrimaryKeywords,
    SecondaryKeywords,
}

impl Type {
    /// The red, green and blue parts of the colour of a category.
    pub open spec fn spec_to_color(self) -> (u8, u8, u8) {
        match self {
            Type::Number => (220u8, 163u8, 163u8),
            Type::Match => (38u8, 139u8, 210u8),
            Type::String => (211u8, 54u8, 130u8),
            Type::Character => (108u8, 113u8, 196u8),
            Type::Comment | Type::MultiLineComment => (133u8, 153u8, 0u8),
            Type::PrimaryKeywords => (181u8, 137u8, 0u8),
            Type::SecondaryKeywords => (42u8, 161u8, 152u8),
            Type::Plain => (255u8, 255u8, 255u8),
        }
    }

    /// The colour in which the category is drawn.
    #[verifier::when_used_as_spec(spec_to_color)]
    pub fn to_color(self) -> (c: (u8, u8, u8))
        ensures
            c == self.spec_to_color(),
    {
        match self {
            Type::Number => (220, 163, 163),
            Type::Match => (38, 139, 210),
            Type::String => (211, 54, 130),
            Type::Character => (108, 113, 196),
            Type::Comment | Type::MultiLineComment => (133, 153, 0),
            Type::PrimaryKeywords => (181, 137, 0),
            Type::SecondaryKeywords => (42, 161, 152),
            Type::Plain => (255, 255, 255),
        }
    }
}

} // verus!
