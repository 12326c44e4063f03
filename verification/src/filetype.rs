//! Language profiles: which categories are highlighted and which words are
//! keywords, chosen by the name of the file.

use crate::chars::to_chars;
use vstd::prelude::*;
use vstd::string::StringExecFns;

verus! {

/// What a language profile says, as plain values.
pub struct ProfileView {
    pub numbers: bool,
    pub strings: bool,
    pub characters: bool,
    pub comments: bool,
    pub multiline_comments: bool,
    pub primary_keywords: Seq<Seq<char>>,
    pub secondary_keywords: Seq<Seq<char>>,
}

/// The highlighting rules of one language.
pub struct HighlightingOptions {
    numbers: bool,
    strings: bool,
    characters: bool,
    comments: bool,
    multiline_comments: bool,
    primary_keywords: Vec<String>,
    secondary_keywords: Vec<String>,
}

impl View for HighlightingOptions {
    type V = ProfileView;

    closed spec fn view(&self) -> ProfileView {
        ProfileView {
            numbers: self.numbers,
            strings: self.strings,
            characters: self.characters,
            comments: self.comments,
            multiline_comments: self.multiline_comments,
            primary_keywords: self.primary_keywords.deep_view(),
            secondary_keywords: self.secondary_keywords.deep_view(),
        }
    }
}

/// The profile of a file of no known language: nothing is highlighted.
pub open spec fn plain_profile() -> ProfileView {
    ProfileView {
        numbers: false,
        strings: false,
        characters: false,
        comments: false,
        multiline_comments: false,
        primary_keywords: Seq::empty(),
        secondary_keywords: Seq::empty(),
    }
}

impl Default for HighlightingOptions {
    fn default() -> (r: Self)
        ensures
            r@ == plain_profile(),
    {
        let r = HighlightingOptions {
            numbers: false,
            strings: false,
            characters: false,
            comments: false,
            multiline_comments: false,
            primary_keywords: Vec::new(),
            secondary_keywords: Vec::new(),
        };
        assert(r.primary_keywords.deep_view() =~= Seq::empty());
        assert(r.secondary_keywords.deep_view() =~= Seq::empty());
        r
    }
}

impl HighlightingOptions {
    /// A profile with the given switches and keyword lists.
    pub fn new(
        numbers: bool,
        strings: bool,
        characters: bool,
        comments: bool,
        multiline_comments: bool,
        primary_keywords: Vec<String>,
        secondary_keywords: Vec<String>,
    ) -> (r: Self)
        ensures
            r@ == (ProfileView {
                numbers,
                strings,
                characters,
                comments,
                multiline_comments,
                primary_keywords: primary_keywords.deep_view(),
                secondary_keywords: secondary_keywords.deep_view(),
            }),
    {
        HighlightingOptions {
            numbers,
            strings,
            characters,
            comments,
            multiline_comments,
            primary_keywords,
            secondary_keywords,
        }
    }

    /// Whether numbers are highlighted.
    pub fn number(&self) -> (b: bool)
        ensures
            b == self@.numbers,
    {
        self.numbers
    }

    /// Whether strings are highlighted.
    pub fn strings(&self) -> (b: bool)
        ensures
            b == self@.strings,
    {
        self.strings
    }

    /// Whether character literals are highlighted.
    pub fn chars(&self) -> (b: bool)
        ensures
            b == self@.characters,
    {
        self.characters
    }

    /// Whether comments that run to the end of the line are highlighted.
    pub fn comments(&self) -> (b: bool)
        ensures
            b == self@.comments,
    {
        self.comments
    }

    /// Whether block comments are highlighted.
    pub fn multiline_comments(&self) -> (b: bool)
        ensures
            b == self@.multiline_comments,
    {
        self.multiline_comments
    }

    /// The primary keywords, in the order in which they are tried.
    pub fn primary_keywords(&self) -> (words: &Vec<String>)
        ensures
            words.deep_view() == self@.primary_keywords,
    {
        &self.primary_keywords
    }

    /// The secondary keywords, in the order in which they are tried.
    pub fn secondary_keywords(&self) -> (words: &Vec<String>)
        ensures
            words.deep_view() == self@.secondary_keywords,
    {
        &self.secondary_keywords
    }
}

/// The primary keywords of Rust, in the order in which they are tried.
pub open spec fn rust_primary_keywords() -> Seq<Seq<char>> {
    seq![
        "as"@, "break"@, "const"@, "continue"@, "crate"@, "else"@, "enum"@, "extern"@,
        "false"@, "fn"@, "for"@, "if"@, "impl"@, "in"@, "let"@, "loop"@, "match"@, "mod"@,
        "move"@, "mut"@, "pub"@, "ref"@, "return"@, "self"@, "Self"@, "static"@, "struct"@,
        "super"@, "trait"@, "true"@, "type"@, "unsafe"@, "use"@, "where"@, "while"@, "dyn"@,
        "abstract"@, "become"@, "box"@, "do"@, "final"@, "macro"@, "override"@, "priv"@,
        "typeof"@, "unsized"@, "virtual"@, "yield"@, "async"@, "await"@, "try"@,
    ]
}

/// The secondary keywords of Rust: the names of its primitive types.
pub open spec fn rust_secondary_keywords() -> Seq<Seq<char>> {
    seq![
        "bool"@, "char"@, "i8"@, "i16"@, "i32"@, "i64"@, "isize"@, "u8"@, "u16"@, "u32"@,
        "u64"@, "usize"@, "f32"@, "f64"@,
    ]
}

/// The profile of Rust source text.
pub open spec fn rust_profile() -> ProfileView {
    ProfileView {
        numbers: true,
        strings: true,
        characters: true,
        comments: true,
        multiline_comments: true,
        primary_keywords: rust_primary_keywords(),
        secondary_keywords: rust_secondary_keywords(),
    }
}

/// A file name that ends in `.rs`.
pub open spec fn has_rust_extension(file_name: Seq<char>) -> bool {
    &&& file_name.len() >= 3
    &&& file_name.subrange(file_name.len() - 3, file_name.len() as int) == seq!['.', 'r', 's']
}

/// The name under which the language of a file is shown.
pub open spec fn language_name(file_name: Seq<char>) -> Seq<char> {
    if has_rust_extension(file_name) {
        "Rust"@
    } else {
        "No filetype"@
    }
}

/// The profile by which a file of the given name is highlighted.
pub open spec fn profile_of(file_name: Seq<char>) -> ProfileView {
    if has_rust_extension(file_name) {
        rust_profile()
    } else {
        plain_profile()
    }
}

/// The primary keywords of Rust as strings.
fn rust_primary() -> (words: Vec<String>)
    ensures
        words.deep_view() == rust_primary_keywords(),
{
    let words = vec![
        String::from_str("as"),
        String::from_str("break"),
        String::from_str("const"),
        String::from_str("continue"),
        String::from_str("crate"),
        String::from_str("else"),
        String::from_str("enum"),
        String::from_str("extern"),
        String::from_str("false"),
        String::from_str("fn"),
        String::from_str("for"),
        String::from_str("if"),
        String::from_str("impl"),
        String::from_str("in"),
        String::from_str("let"),
        String::from_str("loop"),
        String::from_str("match"),
        String::from_str("mod"),
        String::from_str("move"),
        String::from_str("mut"),
        String::from_str("pub"),
        String::from_str("ref"),
        String::from_str("return"),
        String::from_str("self"),
        String::from_str("Self"),
        String::from_str("static"),
        String::from_str("struct"),
        String::from_str("super"),
        String::from_str("trait"),
        String::from_str("true"),
        String::from_str("type"),
        String::from_str("unsafe"),
        String::from_str("use"),
        String::from_str("where"),
        String::from_str("while"),
        String::from_str("dyn"),
        String::from_str("abstract"),
        String::from_str("become"),
        String::from_str("box"),
        String::from_str("do"),
        String::from_str("final"),
        String::from_str("macro"),
        String::from_str("override"),
        String::from_str("priv"),
        String::from_str("typeof"),
        String::from_str("unsized"),
        String::from_str("virtual"),
        String::from_str("yield"),
        String::from_str("async"),
        String::from_str("await"),
        String::from_str("try"),
    ];
    assert(words.deep_view() =~= rust_primary_keywords());
    words
}

/// The secondary keywords of Rust as strings.
fn rust_secondary() -> (words: Vec<String>)
    ensures
        words.deep_view() == rust_secondary_keywords(),
{
    let words = vec![
        String::from_str("bool"),
        String::from_str("char"),
        String::from_str("i8"),
        String::from_str("i16"),
        String::from_str("i32"),
        String::from_str("i64"),
        String::from_str("isize"),
        String::from_str("u8"),
        String::from_str("u16"),
        String::from_str("u32"),
        String::from_str("u64"),
        String::from_str("usize"),
        String::from_str("f32"),
        String::from_str("f64"),
    ];
    assert(words.deep_view() =~= rust_secondary_keywords());
    words
}

/// The language of a file: its name and its highlighting rules.
pub struct FileType {
    name: String,
    hl_opts: HighlightingOptions,
}

impl FileType {
    /// The name of the language, as plain text.
    pub closed spec fn spec_name(&self) -> Seq<char> {
        self.name@
    }

    /// The highlighting rules, as plain values.
    pub closed spec fn profile(&self) -> ProfileView {
        self.hl_opts@
    }

    /// The name of the language.
    pub fn name(&self) -> (r: String)
        ensures
            r@ == self.spec_name(),
    {
        self.name.clone()
    }

    /// The highlighting rules of the language.
    pub fn highlighting_options(&self) -> (r: &HighlightingOptions)
        ensures
            r@ == self.profile(),
    {
        &self.hl_opts
    }

    /// The language of the file of the given name: Rust for a name that
    /// ends in `.rs`, no language otherwise.
    pub fn from(file_name: &str) -> (r: Self)
        ensures
            r.spec_name() == language_name(file_name@),
            r.profile() == profile_of(file_name@),
    {
        let name = to_chars(file_name);
        let n = name.len();
        if n >= 3 && name[n - 3] == '.' && name[n - 2] == 'r' && name[n - 1] == 's' {
            assert(file_name@.subrange(n - 3, n as int) =~= seq!['.', 'r', 's']);
            FileType {
                name: String::from_str("Rust"),
                hl_opts: HighlightingOptions::new(
                    true,
                    true,
                    true,
                    true,
                    true,
                    rust_primary(),
                    rust_secondary(),
                ),
            }
        } else {
            assert(!has_rust_extension(file_name@)) by {
                if has_rust_extension(file_name@) {
                    let tail = file_name@.subrange(n - 3, n as int);
                    assert(tail[0] == '.' && tail[1] == 'r' && tail[2] == 's');
                }
            }
            FileType::default()
        }
    }
}

impl Default for FileType {
    fn default() -> (r: Self)
        ensures
            r.spec_name() == "No filetype"@,
            r.profile() == plain_profile(),
    {
        FileType { name: String::from_str("No filetype"), hl_opts: HighlightingOptions::default() }
    }
}

} // verus!
