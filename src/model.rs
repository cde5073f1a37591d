//! The description of an annotated item, as plain values.
use vstd::prelude::*;

verus! {

/// The delimiter of a token group.
pub enum Delim {
    Paren,
    Bracket,
    Brace,
    /// A group without visible delimiters.
    Invisible,
}

/// One token tree of an attribute's arguments.
pub enum Tok {
    Ident(String),
    /// A punctuation character; `true` when it is joined to the next one.
    Punct(char, bool),
    Literal(String),
    Group(Delim, Vec<Tok>),
}

/// What follows an attribute's path.
pub enum AttrArgs {
    /// `#[path]`
    Bare,
    /// `#[path(tokens)]`, with any delimiter.
    List(Vec<Tok>),
    /// `#[path = value]`
    NameValue,
}

/// One attribute, with the segments of its path.
pub struct RawAttr {
    pub path: Vec<String>,
    pub args: AttrArgs,
}

/// A place in a field's type that can name a generic parameter: a path made
/// of one identifier (with no qualified self type), or a lifetime (its name
/// without the apostrophe).
pub enum TypeMention {
    Path(String),
    Lifetime(String),
}

/// One field of a variant.
pub struct FieldDesc {
    /// The field's name; present exactly for named fields.
    pub name: Option<String>,
    /// Every mention in the field's type, in the order of a walk over its syntax.
    pub mentions: Vec<TypeMention>,
    pub attrs: Vec<RawAttr>,
}

/// The fields of a variant.
pub enum FieldShape {
    Unit,
    Unnamed(Vec<FieldDesc>),
    Named(Vec<FieldDesc>),
}

/// One variant of the enum.
pub struct VariantDesc {
    pub name: String,
    pub shape: FieldShape,
    pub attrs: Vec<RawAttr>,
}

/// The body of the annotated item.
pub enum ItemData {
    Enum(Vec<VariantDesc>),
    /// A struct or a union.
    NotEnum,
}

/// The annotated item: its name, generic parameters, attributes and body.
pub struct EnumDescription {
    pub name: String,
    /// Names of the declared type parameters, in order.
    pub type_params: Vec<String>,
    /// Names of the declared lifetime parameters (without the apostrophe), in order.
    pub lifetime_params: Vec<String>,
    pub attrs: Vec<RawAttr>,
    pub data: ItemData,
}

impl FieldShape {
    /// The fields of this shape, in order.
    pub open spec fn fields(&self) -> Seq<FieldDesc> {
        match self {
            FieldShape::Unit => Seq::empty(),
            FieldShape::Unnamed(fs) => fs@,
            FieldShape::Named(fs) => fs@,
        }
    }

    pub fn field_list(&self) -> (r: &[FieldDesc])
        ensures
            r@ == self.fields(),
    {
        match self {
            FieldShape::Unit => &[],
            FieldShape::Unnamed(fs) => fs.as_slice(),
            FieldShape::Named(fs) => fs.as_slice(),
        }
    }
}

/// Relies on `str::chars`: the characters of the string, in order.
#[verifier::external_body]
pub(crate) fn chars_of(s: &str) -> (r: Vec<char>)
    ensures
        r@ == s@,
{
    s.chars().collect()
}

/// Relies on `String::from_iter` over characters: the string of those characters.
#[verifier::external_body]
pub(crate) fn string_of(cs: &Vec<char>) -> (r: String)
    ensures
        r@ == cs@,
{
    cs.iter().collect()
}

/// Whether `a` and `b` hold the same characters.
pub fn same_text(a: &str, b: &str) -> (r: bool)
    ensures
        r == (a@ == b@),
{
    let x = chars_of(a);
    let y = chars_of(b);
    if x.len() != y.len() {
        return false;
    }
    let mut i: usize = 0;
    while i < x.len()
        invariant
            x@ == a@,
            y@ == b@,
            x@.len() == y@.len(),
            i <= x@.len(),
            forall|j: int| 0 <= j < i ==> x@[j] == y@[j],
        decreases x@.len() - i,
    {
        if x[i] != y[i] {
            return false;
        }
        i += 1;
    }
    assert(x@ =~= y@);
    true
}

/// Whether the last segment of `path` is `word`.
pub open spec fn ends_with(path: Seq<String>, word: Seq<char>) -> bool {
    path.len() > 0 && path.last()@ == word
}

/// Whether the last segment of `path` is `word`.
pub fn path_ends_with_ident(path: &Vec<String>, word: &str) -> (r: bool)
    ensures
        r == ends_with(path@, word@),
{
    if path.len() == 0 {
        false
    } else {
        same_text(path[path.len() - 1].as_str(), word)
    }
}

} // verus!
